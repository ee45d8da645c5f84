use graph_engine::consolidation::{
    candidate, consolidate, create_node, create_related_edge, decide, fuse_content, gather,
    insert_as, insert_new, judge, merge_into, neighbour_search, next_step, reinforce_usage,
    relate_as, relate_new, top_k_candidates, weighted_average, Candidate, CandidateRow,
    Consolidation, ConsolidationResult, Progress, Verdict, NEIGHBOURS,
};
use graph_engine::cypher;
use graph_engine::real32::Real32;
use graph_engine::rows::Fetched;
use graph_engine::statement::{Statement, Value};
use graph_engine::threshold::{thresholds, Thresholds};

fn single(number: f32) -> Real32 {
    Real32 { bits: number.to_bits() }
}

fn vector(numbers: &[f32]) -> Vec<Real32> {
    numbers.iter().map(|number| single(*number)).collect()
}

fn defaults() -> Thresholds {
    thresholds(None, None, None)
}

fn neighbour(id: &str, content: &str, score: f32) -> Candidate {
    Candidate {
        id: id.to_string(),
        content: content.to_string(),
        embedding: vector(&[1.0, 2.0]),
        uso_count: 3,
        score: single(score),
    }
}

fn text_param<'a>(statement: &'a Statement, name: &str) -> &'a str {
    for (key, value) in &statement.params {
        if *key == name {
            if let Value::Text(text) = value {
                return text;
            }
        }
    }
    panic!("no text {}", name)
}

fn names(statement: &Statement) -> Vec<&'static str> {
    statement.params.iter().map(|param| param.0).collect()
}

fn is_random_uuid(id: &str) -> bool {
    let chars: Vec<char> = id.chars().collect();
    chars.len() == 36
        && chars.iter().enumerate().all(|(i, c)| match i {
            8 | 13 | 18 | 23 => *c == '-',
            14 => *c == '4',
            19 => matches!(*c, '8' | '9' | 'a' | 'b'),
            _ => matches!(*c, '0'..='9' | 'a'..='f'),
        })
}

fn plan(text: &str, candidates: &[Candidate]) -> Consolidation {
    consolidate(text, &vector(&[0.5, 0.25]), candidates, defaults())
}

#[test]
fn no_neighbours_means_inserted() {
    let plan = plan("a fact", &[]);
    assert_eq!(plan.steps.len(), 1);
    assert_eq!(plan.steps[0].text, cypher::CREATE_NODE);
    assert_eq!(names(&plan.steps[0]), vec!["id", "content", "embedding"]);
    assert_eq!(text_param(&plan.steps[0], "content"), "a fact");
    match plan.result {
        ConsolidationResult::Inserted { node_id } => {
            assert!(is_random_uuid(&node_id), "{}", node_id);
            assert_eq!(text_param(&plan.steps[0], "id"), node_id);
        }
        other => panic!("{:?}", other),
    }
}

#[test]
fn far_neighbour_means_inserted() {
    let plan = plan("a fact", &[neighbour("n1", "other", 0.74)]);
    assert_eq!(plan.steps.len(), 1);
    assert!(matches!(plan.result, ConsolidationResult::Inserted { .. }));
}

#[test]
fn duplicate_is_discarded() {
    let plan = plan("  EL sol ", &[neighbour("n1", "el  Sol", 0.985)]);
    assert_eq!(plan.steps.len(), 1);
    assert_eq!(plan.steps[0].text, cypher::REINFORCE_USAGE);
    assert_eq!(text_param(&plan.steps[0], "id"), "n1");
    match plan.result {
        ConsolidationResult::Discarded { node_id } => assert_eq!(node_id, "n1"),
        other => panic!("{:?}", other),
    }
}

#[test]
fn same_text_below_the_duplicate_limit_is_merged() {
    let plan = plan("el sol", &[neighbour("n1", "el sol", 0.98)]);
    assert_eq!(plan.steps[0].text, cypher::MERGE_NODE);
    assert_eq!(text_param(&plan.steps[0], "content"), "el sol");
    assert!(matches!(plan.result, ConsolidationResult::Merged { .. }));
}

#[test]
fn other_text_above_the_duplicate_limit_is_merged() {
    let plan = plan("es grande", &[neighbour("n1", "El sol", 0.99)]);
    assert_eq!(plan.steps.len(), 1);
    let step = &plan.steps[0];
    assert_eq!(step.text, cypher::MERGE_NODE);
    assert_eq!(names(step), vec!["id", "content", "embedding"]);
    assert_eq!(text_param(step, "id"), "n1");
    assert_eq!(text_param(step, "content"), "El sol | es grande");
    match &step.params[2].1 {
        Value::Average(average) => {
            assert_eq!(average.weight, 3);
            assert_eq!(
                average.terms,
                vec![(single(1.0), single(0.5)), (single(2.0), single(0.25))]
            );
        }
        other => panic!("{:?}", other),
    }
    match &plan.result {
        ConsolidationResult::Merged { node_id } => assert_eq!(node_id, "n1"),
        other => panic!("{:?}", other),
    }
}

#[test]
fn related_fact_is_linked_to_all_within_the_limit() {
    let candidates = vec![
        neighbour("n1", "uno", 0.9),
        neighbour("n2", "dos", 0.75),
        neighbour("n3", "tres", 0.7499),
        neighbour("n4", "cuatro", 0.8),
    ];
    let plan = plan("nuevo", &candidates);
    assert_eq!(plan.steps.len(), 4);
    assert_eq!(plan.steps[0].text, cypher::CREATE_NODE);
    let (id, best) = match &plan.result {
        ConsolidationResult::Related { new_id, related_to } => (new_id, related_to),
        other => panic!("{:?}", other),
    };
    assert!(is_random_uuid(id));
    assert_eq!(best, "n1");
    assert_eq!(text_param(&plan.steps[0], "id"), id);
    for (step, (target, score)) in
        plan.steps[1..].iter().zip([("n1", 0.9f32), ("n2", 0.75), ("n4", 0.8)])
    {
        assert_eq!(step.text, cypher::CREATE_RELATED_EDGE);
        assert_eq!(names(step), vec!["new_id", "target_id", "score"]);
        assert_eq!(text_param(step, "new_id"), id);
        assert_eq!(text_param(step, "target_id"), target);
        match &step.params[2].1 {
            Value::Real(number) => assert_eq!(*number, single(score)),
            other => panic!("{:?}", other),
        }
    }
}

#[test]
fn limits_are_inclusive() {
    let limits = defaults();
    assert_eq!(decide(single(0.985), true, limits), Verdict::Discard);
    assert_eq!(decide(single(0.985), false, limits), Verdict::Merge);
    assert_eq!(decide(single(0.92), true, limits), Verdict::Merge);
    assert_eq!(decide(single(0.9199), true, limits), Verdict::Relate);
    assert_eq!(decide(single(0.75), false, limits), Verdict::Relate);
    assert_eq!(decide(single(0.7499), false, limits), Verdict::Insert);
    assert_eq!(decide(single(f32::NAN), true, limits), Verdict::Insert);
}

#[test]
fn nan_limit_is_never_reached() {
    let limits = thresholds(Some(single(f32::NAN)), None, None);
    assert_eq!(decide(single(1.0), false, limits), Verdict::Relate);
    assert_eq!(decide(single(1.0), true, limits), Verdict::Discard);
}

#[test]
fn nearer_neighbour_never_makes_a_lesser_verdict() {
    let rank = |verdict: Verdict| match verdict {
        Verdict::Insert => 0,
        Verdict::Relate => 1,
        Verdict::Merge => 2,
        Verdict::Discard => 3,
    };
    for same_text in [false, true] {
        let mut last = 0;
        for i in 0..=1000 {
            let now = rank(decide(single(i as f32 / 1000.0), same_text, defaults()));
            assert!(now >= last);
            last = now;
        }
    }
}

#[test]
fn only_the_first_candidate_is_judged() {
    let near = neighbour("n1", "a", 0.1);
    let far = neighbour("n2", "b", 0.99);
    assert_eq!(judge("b", &[near, far], defaults()), Verdict::Insert);
    assert_eq!(judge("b", &[neighbour("n2", "b", 0.99)], defaults()), Verdict::Discard);
}

#[test]
fn content_is_fused_unless_it_is_known() {
    assert_eq!(fuse_content("A b", "C", "a b", "c"), "A b | C");
    assert_eq!(fuse_content("A b", " B ", "a b", "b"), "A b");
    assert_eq!(fuse_content("A", "", "a", ""), "A");
}

#[test]
fn merging_the_same_text_twice_does_not_grow_the_content() {
    let mut target = neighbour("n1", "El sol", 0.95);
    for text in ["es GRANDE", "Mañana  será"] {
        let once = merge_into(&target, text, &vector(&[1.0]));
        let content = text_param(&once.steps[0], "content").to_string();
        assert!(content.ends_with(text));
        target.content = content.clone();
        let twice = merge_into(&target, text, &vector(&[1.0]));
        assert_eq!(text_param(&twice.steps[0], "content"), content);
    }
    assert_eq!(target.content, "El sol | es GRANDE | Mañana  será");
}

#[test]
fn average_pairs_what_both_have() {
    let average = weighted_average(&vector(&[1.0, 2.0, 3.0]), &vector(&[4.0, 5.0]), 7);
    assert_eq!(average.weight, 7);
    assert_eq!(average.terms, vec![(single(1.0), single(4.0)), (single(2.0), single(5.0))]);
    assert_eq!(weighted_average(&[], &vector(&[1.0]), 1).terms.len(), 0);
}

#[test]
fn average_weighs_by_use_and_never_negatively() {
    for (uses, weight) in [(i64::MIN, 1), (-1, 1), (0, 0), (1, 1), (2, 2), (i64::MAX, i64::MAX)] {
        assert_eq!(weighted_average(&[], &[], uses).weight, weight);
    }
}

#[test]
fn missing_columns_have_defaults() {
    let found = candidate(CandidateRow {
        id: None,
        content: None,
        embedding: None,
        uso_count: None,
        score: None,
    });
    assert_eq!(found.id, "");
    assert_eq!(found.content, "");
    assert_eq!(found.embedding, Vec::new());
    assert_eq!(found.uso_count, 1);
    assert_eq!(found.score, single(0.0));
}

fn row(id: &str) -> CandidateRow {
    CandidateRow {
        id: Some(id.to_string()),
        content: Some("c".to_string()),
        embedding: Some(vector(&[0.5])),
        uso_count: Some(4),
        score: Some(single(0.8)),
    }
}

#[test]
fn rows_are_gathered_until_end_or_failure() {
    for stop in [Fetched::End, Fetched::Failed] {
        let mut candidates: Vec<Candidate> = Vec::new();
        assert!(gather(&mut candidates, Fetched::Row(row("n1"))));
        assert!(gather(&mut candidates, Fetched::Row(row("n2"))));
        assert!(!gather(&mut candidates, stop));
        assert_eq!(candidates.len(), 2);
        assert_eq!(candidates[0].id, "n1");
        assert_eq!(candidates[1].id, "n2");
        assert_eq!(candidates[1].uso_count, 4);
        assert_eq!(candidates[1].score, single(0.8));
        assert_eq!(candidates[1].embedding, vector(&[0.5]));
    }
}

#[test]
fn search_asks_for_five_neighbours() {
    assert_eq!(NEIGHBOURS, 5);
    let statement = neighbour_search(&vector(&[0.5]));
    assert_eq!(statement.text, cypher::SEARCH_CANDIDATES);
    assert!(matches!(statement.params[0], ("k", Value::Integer(5))));
    match &statement.params[1] {
        ("embedding", Value::Vector(components)) => assert_eq!(*components, vector(&[0.5])),
        other => panic!("{:?}", other),
    }
}

#[test]
fn statements_carry_their_parameters() {
    let created = create_node("i", "t", &vector(&[0.5]));
    assert!(created.text.starts_with("CREATE (n:Fact {"));
    assert_eq!(text_param(&created, "id"), "i");
    assert_eq!(text_param(&created, "content"), "t");
    let edge = create_related_edge("a", "b", single(0.8));
    assert!(edge.text.contains("MERGE (a)-[r:RELATED]->(b)"));
    assert_eq!(text_param(&edge, "new_id"), "a");
    assert_eq!(text_param(&edge, "target_id"), "b");
    let use_once = reinforce_usage("i");
    assert!(use_once.text.contains("coalesce(n.uso_count, 1) + 1"));
    assert_eq!(text_param(&use_once, "id"), "i");
}

#[test]
fn insertion_reports_the_given_identifier() {
    let plan = insert_as("x".to_string(), "t", &[]);
    assert_eq!(text_param(&plan.steps[0], "id"), "x");
    match plan.result {
        ConsolidationResult::Inserted { node_id } => assert_eq!(node_id, "x"),
        other => panic!("{:?}", other),
    }
}

#[test]
fn relation_reports_the_given_identifier() {
    let plan = relate_as("x".to_string(), "t", &[], &[neighbour("n", "c", 0.8)], single(0.75));
    assert_eq!(plan.steps.len(), 2);
    match plan.result {
        ConsolidationResult::Related { new_id, related_to } => {
            assert_eq!(new_id, "x");
            assert_eq!(related_to, "n");
        }
        other => panic!("{:?}", other),
    }
}

#[test]
fn new_identifiers_are_random_uuids() {
    let mut seen: Vec<String> = Vec::new();
    for _ in 0..50 {
        match insert_new("t", &[]).result {
            ConsolidationResult::Inserted { node_id } => {
                assert!(is_random_uuid(&node_id), "{}", node_id);
                assert!(!seen.contains(&node_id));
                seen.push(node_id);
            }
            other => panic!("{:?}", other),
        }
    }
    match relate_new("t", &[], &[neighbour("n", "c", 0.8)], single(0.75)).result {
        ConsolidationResult::Related { new_id, .. } => assert!(is_random_uuid(&new_id)),
        other => panic!("{:?}", other),
    }
}

/// The average that operands stand for.
fn worked_out(old: &[f32], incoming: &[f32], uses: i64) -> Vec<f32> {
    let average = weighted_average(&vector(old), &vector(incoming), uses);
    let weight = average.weight as f32;
    average
        .terms
        .iter()
        .map(|(a, b)| (weight * f32::from_bits(a.bits) + f32::from_bits(b.bits)) / (weight + 1.0))
        .collect()
}

#[test]
fn unused_node_takes_the_incoming_embedding() {
    assert_eq!(worked_out(&[1.0], &[3.0], 0), vec![3.0]);
}

#[test]
fn used_node_moves_the_less_the_more_it_is_used() {
    assert_eq!(worked_out(&[1.0], &[3.0], 1), vec![2.0]);
    assert_eq!(worked_out(&[1.0], &[3.0], 3), vec![1.5]);
    assert_eq!(worked_out(&[1.0], &[3.0], 7), vec![1.25]);
}

#[test]
fn search_passes_its_number_on() {
    let statement = top_k_candidates(&[], 9);
    assert!(matches!(statement.params[0], ("k", Value::Integer(9))));
}

/// Runs a plan whose step number `failing` fails, and gives how many steps were run and whether
/// the result was reached.
fn run(plan: &Consolidation, failing: usize) -> (usize, bool) {
    let mut done = 0;
    let mut succeeded = true;
    loop {
        match next_step(plan, done, succeeded) {
            Progress::Run(step) => {
                assert!(std::ptr::eq(step, &plan.steps[done]));
                succeeded = done != failing;
                done += 1;
            }
            Progress::Finished(result) => {
                assert!(std::ptr::eq(result, &plan.result));
                return (done, true);
            }
            Progress::Failed => return (done, false),
        }
    }
}

#[test]
fn plan_runs_in_order_to_its_result() {
    let candidates = [neighbour("n1", "a", 0.8), neighbour("n2", "b", 0.8)];
    let plan = relate_as("x".to_string(), "t", &[], &candidates, single(0.75));
    assert_eq!(plan.steps.len(), 3);
    assert_eq!(run(&plan, 99), (3, true));
}

#[test]
fn first_failure_ends_the_run() {
    let candidates = [neighbour("n1", "a", 0.8), neighbour("n2", "b", 0.8)];
    let plan = relate_as("x".to_string(), "t", &[], &candidates, single(0.75));
    assert_eq!(run(&plan, 0), (1, false));
    assert_eq!(run(&plan, 1), (2, false));
    assert_eq!(run(&plan, 2), (3, false));
}

#[test]
fn nearer_neighbour_never_makes_a_lesser_verdict_under_unordered_limits() {
    let limits = thresholds(Some(single(0.3)), Some(single(0.8)), Some(single(0.1)));
    assert_eq!(decide(single(0.2), true, limits), Verdict::Discard);
    assert_eq!(decide(single(0.2), false, limits), Verdict::Insert);
    assert_eq!(decide(single(0.3), false, limits), Verdict::Merge);
    assert_eq!(decide(single(0.9), false, limits), Verdict::Merge);
}

#[test]
fn average_lies_between_and_moves_less_with_use() {
    for (old, incoming) in [(1.0f32, 3.0f32), (3.0, 1.0), (-2.0, 6.0), (0.5, 0.5)] {
        let mut last = f32::INFINITY;
        for uses in [0i64, 1, 3, 7, 15, 31] {
            let average = worked_out(&[old], &[incoming], uses)[0];
            assert!(old.min(incoming) <= average && average <= old.max(incoming));
            let moved = (average - old).abs();
            assert!(moved < last || moved == 0.0);
            last = moved;
        }
    }
}
