//! What holds of consolidation as a whole.

use vstd::prelude::*;
use crate::consolidation;
use crate::consolidation::{
    CandidateRow, CandidateView, ConsolidationView, ProgressView, ResultView, Verdict,
};
use crate::cypher;
use crate::real32;
use crate::real32::Real32;
use crate::statement;
use crate::statement::{StatementView, ValueView};
use crate::text;
use crate::threshold::Thresholds;

verus! {

/// How much a verdict takes the fact for something known.
pub open spec fn closeness(verdict: Verdict) -> int {
    match verdict {
        Verdict::Insert => 0,
        Verdict::Relate => 1,
        Verdict::Merge => 2,
        Verdict::Discard => 3,
    }
}

/// Whether the limits are numbers, and relating asks for no more than merging and merging for
/// no more than discarding.
pub open spec fn limits_ordered(limits: Thresholds) -> bool {
    &&& limits.merge.spec_at_least(limits.relate)
    &&& limits.duplicate.spec_at_least(limits.merge)
}

/// A nearer neighbour never makes for a lesser verdict, whatever the limits.
pub proof fn law_verdict_grows_with_score(
    score: Real32,
    nearer: Real32,
    same_text: bool,
    limits: Thresholds,
)
    requires
        nearer.spec_at_least(score),
    ensures
        closeness(consolidation::verdict_on(score, same_text, limits)) <= closeness(
            consolidation::verdict_on(nearer, same_text, limits),
        ),
{
}

/// Under ordered limits, the verdict names the band in which the score lies.
pub proof fn law_verdict_is_the_band_of_the_score(
    score: Real32,
    same_text: bool,
    limits: Thresholds,
)
    requires
        limits_ordered(limits),
    ensures
        ({
            let verdict = consolidation::verdict_on(score, same_text, limits);
            &&& verdict is Insert <==> !score.spec_at_least(limits.relate)
            &&& verdict is Relate <==> score.spec_at_least(limits.relate) && !score.spec_at_least(
                limits.merge,
            )
            &&& verdict is Merge <==> score.spec_at_least(limits.merge) && !(
            score.spec_at_least(limits.duplicate) && same_text)
            &&& verdict is Discard <==> score.spec_at_least(limits.duplicate) && same_text
        }),
{
}

/// Only the nearest neighbour decides: what else was found does not change the verdict.
pub proof fn law_only_the_nearest_decides(
    incoming: Seq<char>,
    nearest: CandidateView,
    others: Seq<CandidateView>,
    further: Seq<CandidateView>,
    limits: Thresholds,
)
    ensures
        consolidation::verdict_among(incoming, seq![nearest] + others, limits)
            == consolidation::verdict_among(incoming, seq![nearest] + further, limits),
{
}

/// A fact whose text differs from the nearest one in more than spacing and case is never
/// discarded.
pub proof fn law_other_text_is_never_discarded(
    incoming: Seq<char>,
    candidates: Seq<CandidateView>,
    limits: Thresholds,
)
    requires
        candidates.len() > 0,
        text::normal_form(candidates[0].content) != text::normal_form(incoming),
    ensures
        !(consolidation::verdict_among(incoming, candidates, limits) is Discard),
{
}

/// The identifiers of the nodes that statements create, in order.
pub open spec fn created_ids(steps: Seq<StatementView>) -> Seq<ValueView>
    decreases steps.len(),
{
    if steps.len() == 0 {
        seq![]
    } else {
        let rest = created_ids(steps.drop_last());
        if steps.last().text == cypher::CREATE_NODE@ {
            rest.push(steps.last().params[0].1)
        } else {
            rest
        }
    }
}

/// Discarding creates no node; its one statement is about the node that is reported.
pub proof fn law_discarding_creates_nothing(best: CandidateView)
    ensures
        consolidation::discarding(best).steps.len() == 1,
        consolidation::discarding(best).steps[0].params == seq![("id"@, ValueView::Text(best.id))],
        consolidation::discarding(best).result->Discarded_node_id == best.id,
        created_ids(consolidation::discarding(best).steps) == Seq::<ValueView>::empty(),
{
    cypher::lemma_creation_is_told_apart();
    let steps = consolidation::discarding(best).steps;
    assert(steps.drop_last() =~= seq![]);
    assert(created_ids(steps.drop_last()) =~= seq![]);
}

/// Merging creates no node: its one statement is about the node that is reported, which keeps its
/// identity.
pub proof fn law_merging_creates_nothing(
    best: CandidateView,
    incoming: Seq<char>,
    embedding: Seq<Real32>,
)
    ensures
        consolidation::merging(best, incoming, embedding).steps.len() == 1,
        consolidation::merging(best, incoming, embedding).steps[0].params[0] == (
            "id"@,
            ValueView::Text(best.id),
        ),
        consolidation::merging(best, incoming, embedding).result->Merged_node_id == best.id,
        created_ids(consolidation::merging(best, incoming, embedding).steps)
            == Seq::<ValueView>::empty(),
{
    cypher::lemma_creation_is_told_apart();
    let steps = consolidation::merging(best, incoming, embedding).steps;
    assert(steps.drop_last() =~= seq![]);
    assert(created_ids(steps.drop_last()) =~= seq![]);
}

/// Inserting creates one node, under the identifier that is reported.
pub proof fn law_inserting_creates_one_node(
    new_id: Seq<char>,
    incoming: Seq<char>,
    embedding: Seq<Real32>,
)
    ensures
        created_ids(consolidation::inserting(new_id, incoming, embedding).steps) == seq![
            ValueView::Text(new_id),
        ],
        consolidation::inserting(new_id, incoming, embedding).result->Inserted_node_id == new_id,
{
    let steps = consolidation::inserting(new_id, incoming, embedding).steps;
    assert(steps.drop_last() =~= seq![]);
    assert(created_ids(steps.drop_last()) =~= seq![]);
    assert(created_ids(steps) =~= seq![ValueView::Text(new_id)]);
}

/// Relating creates one node, under the identifier that is reported, before any of its edges.
pub proof fn law_relating_creates_one_node(
    new_id: Seq<char>,
    incoming: Seq<char>,
    embedding: Seq<Real32>,
    candidates: Seq<CandidateView>,
    relate: Real32,
)
    ensures
        ({
            let plan = consolidation::relating(new_id, incoming, embedding, candidates, relate);
            &&& created_ids(plan.steps) == seq![ValueView::Text(new_id)]
            &&& plan.steps[0] == consolidation::create_node_statement(new_id, incoming, embedding)
            &&& plan.result->Related_new_id == new_id
        }),
{
    let first = consolidation::create_node_statement(new_id, incoming, embedding);
    let targets = consolidation::related_candidates(candidates, relate);
    lemma_edges_create_nothing(first, new_id, targets);
}

/// Edges add nothing to what the first statement creates.
proof fn lemma_edges_create_nothing(
    first: StatementView,
    new_id: Seq<char>,
    targets: Seq<CandidateView>,
)
    requires
        first.text == cypher::CREATE_NODE@,
    ensures
        created_ids(seq![first] + consolidation::edges_to(new_id, targets)) == seq![
            first.params[0].1,
        ],
    decreases targets.len(),
{
    let steps = seq![first] + consolidation::edges_to(new_id, targets);
    if targets.len() == 0 {
        assert(steps =~= seq![first]);
        assert(steps.drop_last() =~= seq![]);
        assert(created_ids(steps.drop_last()) =~= seq![]);
        assert(created_ids(steps) =~= seq![first.params[0].1]);
    } else {
        cypher::lemma_creation_is_told_apart();
        lemma_edges_create_nothing(first, new_id, targets.drop_last());
        assert(steps.drop_last() =~= seq![first] + consolidation::edges_to(
            new_id,
            targets.drop_last(),
        ));
        assert(steps.last() == consolidation::related_edge_statement(
            new_id,
            targets.last().id,
            targets.last().score,
        ));
    }
}

/// Where a fact is to be related, there is a nearest neighbour, and it is within the limit.
pub proof fn law_relating_has_a_neighbour(
    incoming: Seq<char>,
    candidates: Seq<CandidateView>,
    limits: Thresholds,
)
    ensures
        consolidation::verdict_among(incoming, candidates, limits) is Relate ==> candidates.len()
            > 0 && candidates[0].score.spec_at_least(limits.relate),
{
}

/// A related fact is linked to every candidate within the limit, to no other, and the nearest
/// one comes first.
pub proof fn law_relating_links_all_within_the_limit(
    new_id: Seq<char>,
    incoming: Seq<char>,
    embedding: Seq<Real32>,
    candidates: Seq<CandidateView>,
    relate: Real32,
)
    requires
        candidates.len() > 0,
        candidates[0].score.spec_at_least(relate),
    ensures
        ({
            let steps = consolidation::relating(
                new_id,
                incoming,
                embedding,
                candidates,
                relate,
            ).steps;
            &&& steps.len() >= 2
            &&& steps[1] == consolidation::related_edge_statement(
                new_id,
                candidates[0].id,
                candidates[0].score,
            )
            &&& forall|i: int|
                0 <= i < candidates.len() && (#[trigger] candidates[i]).score.spec_at_least(relate)
                    ==> steps.contains(
                    consolidation::related_edge_statement(
                        new_id,
                        candidates[i].id,
                        candidates[i].score,
                    ),
                )
            &&& forall|j: int|
                1 <= j < steps.len() ==> exists|i: int|
                    0 <= i < candidates.len() && (
                    #[trigger] candidates[i]).score.spec_at_least(relate) && #[trigger] steps[j]
                        == consolidation::related_edge_statement(
                        new_id,
                        candidates[i].id,
                        candidates[i].score,
                    )
        }),
{
    let near = |candidate: CandidateView| candidate.score.spec_at_least(relate);
    let targets = consolidation::related_candidates(candidates, relate);
    let steps = consolidation::relating(new_id, incoming, embedding, candidates, relate).steps;
    lemma_filter_keeps_first(candidates, near);
    assert(targets[0] == candidates[0]);
    assert forall|i: int|
        0 <= i < candidates.len() && (#[trigger] candidates[i]).score.spec_at_least(
            relate,
        ) implies steps.contains(
        consolidation::related_edge_statement(new_id, candidates[i].id, candidates[i].score),
    ) by {
        candidates.lemma_filter_contains(near, i);
        assert(targets.contains(candidates[i]));
        let k = choose|k: int| 0 <= k < targets.len() && targets[k] == candidates[i];
        assert(steps[k + 1] == consolidation::related_edge_statement(
            new_id,
            targets[k].id,
            targets[k].score,
        ));
    }
    assert forall|j: int| 1 <= j < steps.len() implies exists|i: int|
        0 <= i < candidates.len() && (#[trigger] candidates[i]).score.spec_at_least(relate)
            && #[trigger] steps[j] == consolidation::related_edge_statement(
            new_id,
            candidates[i].id,
            candidates[i].score,
        ) by {
        let target = targets[j - 1];
        candidates.lemma_filter_pred(near, j - 1);
        lemma_filter_only_keeps(candidates, near, j - 1);
        let i = choose|i: int| 0 <= i < candidates.len() && candidates[i] == target;
        assert(candidates[i].score.spec_at_least(relate));
    }
}

/// A first candidate that is chosen comes first among the chosen.
proof fn lemma_filter_keeps_first(
    candidates: Seq<CandidateView>,
    near: spec_fn(CandidateView) -> bool,
)
    requires
        candidates.len() > 0,
        near(candidates[0]),
    ensures
        candidates.filter(near).len() > 0,
        candidates.filter(near)[0] == candidates[0],
    decreases candidates.len(),
{
    reveal(Seq::filter);
    if candidates.len() > 1 {
        lemma_filter_keeps_first(candidates.drop_last(), near);
    } else {
        assert(candidates.drop_last().filter(near) =~= seq![]);
    }
}

/// Every chosen candidate is one of the candidates.
proof fn lemma_filter_only_keeps(
    candidates: Seq<CandidateView>,
    near: spec_fn(CandidateView) -> bool,
    k: int,
)
    requires
        0 <= k < candidates.filter(near).len(),
    ensures
        exists|i: int| 0 <= i < candidates.len() && candidates[i] == candidates.filter(near)[k],
    decreases candidates.len(),
{
    reveal(Seq::filter);
    let firsts = candidates.drop_last();
    if k < firsts.filter(near).len() {
        lemma_filter_only_keeps(firsts, near, k);
        let i = choose|i: int| 0 <= i < firsts.len() && firsts[i] == firsts.filter(near)[k];
        assert(candidates[i] == candidates.filter(near)[k]);
    } else {
        assert(candidates[candidates.len() - 1] == candidates.filter(near)[k]);
    }
}

/// What running a plan comes to from step `done` on, where step `i` has the outcome `outcome(i)`:
/// the statements that are run, in order, and what it ends with.
pub open spec fn run_from(
    plan: ConsolidationView,
    outcome: spec_fn(int) -> bool,
    done: int,
    succeeded: bool,
) -> (Seq<StatementView>, ProgressView)
    decreases plan.steps.len() - done,
{
    match consolidation::progress_after(plan, done, succeeded) {
        ProgressView::Run(statement) => {
            let rest = run_from(plan, outcome, done + 1, outcome(done));
            (seq![statement] + rest.0, rest.1)
        },
        end => (seq![], end),
    }
}

/// A plan whose statements all succeed is run whole, in order, and ends with its result.
pub proof fn law_plan_runs_to_its_result(plan: ConsolidationView, outcome: spec_fn(int) -> bool)
    requires
        forall|i: int| 0 <= i < plan.steps.len() ==> #[trigger] outcome(i),
    ensures
        run_from(plan, outcome, 0, true) == (plan.steps, ProgressView::Finished(plan.result)),
{
    lemma_run_without_failure(plan, outcome, 0);
    assert(plan.steps.skip(0) =~= plan.steps);
}

/// The first failure ends the run: the statements up to the one that fails are run, in order, and
/// none after it.
pub proof fn law_plan_stops_at_the_first_failure(
    plan: ConsolidationView,
    outcome: spec_fn(int) -> bool,
    failing: int,
)
    requires
        0 <= failing < plan.steps.len(),
        forall|i: int| 0 <= i < failing ==> #[trigger] outcome(i),
        !outcome(failing),
    ensures
        run_from(plan, outcome, 0, true) == (plan.steps.take(failing + 1), ProgressView::Failed),
{
    lemma_run_to_failure(plan, outcome, 0, failing);
    assert(plan.steps.subrange(0, failing + 1) =~= plan.steps.take(failing + 1));
}

/// From any step on, statements that succeed are all run.
proof fn lemma_run_without_failure(
    plan: ConsolidationView,
    outcome: spec_fn(int) -> bool,
    done: int,
)
    requires
        0 <= done <= plan.steps.len(),
        forall|i: int| 0 <= i < plan.steps.len() ==> #[trigger] outcome(i),
    ensures
        run_from(plan, outcome, done, true) == (
            plan.steps.skip(done),
            ProgressView::Finished(plan.result),
        ),
    decreases plan.steps.len() - done,
{
    if done < plan.steps.len() {
        assert(outcome(done));
        lemma_run_without_failure(plan, outcome, done + 1);
        assert(seq![plan.steps[done]] + plan.steps.skip(done + 1) =~= plan.steps.skip(done));
    } else {
        assert(plan.steps.skip(done) =~= seq![]);
    }
}

/// From any step on, statements are run up to the first that fails.
proof fn lemma_run_to_failure(
    plan: ConsolidationView,
    outcome: spec_fn(int) -> bool,
    done: int,
    failing: int,
)
    requires
        0 <= done <= failing < plan.steps.len(),
        forall|i: int| 0 <= i < failing ==> #[trigger] outcome(i),
        !outcome(failing),
    ensures
        run_from(plan, outcome, done, true) == (
            plan.steps.subrange(done, failing + 1),
            ProgressView::Failed,
        ),
    decreases failing - done,
{
    let rest = run_from(plan, outcome, done + 1, outcome(done));
    if done < failing {
        assert(outcome(done));
        lemma_run_to_failure(plan, outcome, done + 1, failing);
    } else {
        assert(rest.0 =~= seq![]);
    }
    assert(seq![plan.steps[done]] + rest.0 =~= plan.steps.subrange(done, failing + 1));
}

/// Merging never takes away from the content: it stays as it is, or it is what the new content
/// starts with.
pub proof fn law_merging_keeps_the_content(content: Seq<char>, incoming: Seq<char>)
    ensures
        consolidation::merged_content(content, incoming).len() >= content.len(),
        consolidation::merged_content(content, incoming).take(content.len() as int) == content,
{
}

/// A text that the content already has, up to spacing and case, adds nothing.
pub proof fn law_known_text_adds_nothing(content: Seq<char>, incoming: Seq<char>)
    requires
        text::occurs_in(text::normal_form(incoming), text::normal_form(content)),
    ensures
        consolidation::merged_content(content, incoming) == content,
{
}

/// A text that equals the content up to spacing and case adds nothing.
pub proof fn law_same_text_adds_nothing(content: Seq<char>, incoming: Seq<char>)
    requires
        text::normal_form(incoming) == text::normal_form(content),
    ensures
        consolidation::merged_content(content, incoming) == content,
{
    let form = text::normal_form(content);
    assert(form.subrange(0, form.len() as int) =~= form);
    assert(text::occurs_at(form, form, 0));
}

/// What stands before the text that a merge adds, collapsed.
pub open spec fn collapsed_before_addition(content: Seq<char>) -> Seq<char> {
    text::collapsed(content + seq![' ', '|'])
}

/// A repeated fact does not make the content grow: merging the same text a second time changes
/// nothing, for all texts at which lowercasing does not look across the space before the text
/// that the first merge adds.
pub proof fn law_repetition_does_not_grow_the_content(content: Seq<char>, incoming: Seq<char>)
    requires
        ({
            let head = collapsed_before_addition(content);
            let tail = text::collapsed(incoming);
            text::lowercase(head.push(' ') + tail) == text::lowercase(head).push(' ')
                + text::lowercase(tail)
        }),
    ensures
        ({
            let once = consolidation::merged_content(content, incoming);
            consolidation::merged_content(once, incoming) == once
        }),
{
    let once = consolidation::merged_content(content, incoming);
    if once != content {
        let start = content + seq![' ', '|'];
        let tail = text::collapsed(incoming);
        let head = collapsed_before_addition(content);
        assert(once =~= start.push(' ') + incoming);
        text::lemma_words_push(start, ' ');
        text::lemma_words_concat(start.push(' '), incoming);
        text::lemma_words_push(content.push(' '), '|');
        assert(content.push(' ').push('|') =~= start);
        assert(text::words(start).len() > 0);
        let form = text::normal_form(incoming);
        let whole = text::normal_form(once);
        if text::words(incoming).len() == 0 {
            assert(tail =~= seq![]);
            assert(form =~= seq![]);
            assert(whole.subrange(0, 0) =~= form);
            assert(text::occurs_at(form, whole, 0));
        } else {
            text::lemma_join_concat(text::words(start), text::words(incoming));
            assert(whole == text::lowercase(head).push(' ') + form);
            let at = whole.len() - form.len();
            assert(whole.subrange(at, at + form.len()) =~= form);
            assert(text::occurs_at(form, whole, at));
        }
    }
}

/// Merging the same ASCII text a second time into ASCII content changes nothing.
pub proof fn law_repetition_does_not_grow_ascii_content(content: Seq<char>, incoming: Seq<char>)
    requires
        text::is_ascii_text(content),
        text::is_ascii_text(incoming),
    ensures
        ({
            let once = consolidation::merged_content(content, incoming);
            consolidation::merged_content(once, incoming) == once
        }),
{
    let head = collapsed_before_addition(content);
    let tail = text::collapsed(incoming);
    text::lemma_collapsed_is_ascii(content + seq![' ', '|']);
    text::lemma_collapsed_is_ascii(incoming);
    assert(text::is_ascii_text(head.push(' ') + tail));
    assert(text::lowercase(head.push(' ') + tail) =~= text::lowercase(head).push(' ')
        + text::lowercase(tail));
    law_repetition_does_not_grow_the_content(content, incoming);
}

/// The embedding of a merge has as many components as both embeddings have, pairs what stands
/// at the same place in both, and weighs the stored one by its uses and never negatively.
pub proof fn law_merge_pairs_components(
    old: Seq<Real32>,
    incoming: Seq<Real32>,
    uso_count: int,
)
    ensures
        consolidation::paired(old, incoming).len() <= old.len(),
        consolidation::paired(old, incoming).len() <= incoming.len(),
        old.len() == incoming.len() ==> consolidation::paired(old, incoming).len() == old.len(),
        consolidation::paired(old, incoming).len() == old.len() || consolidation::paired(
            old,
            incoming,
        ).len() == incoming.len(),
        forall|i: int|
            0 <= i < consolidation::paired(old, incoming).len() ==> #[trigger]
            consolidation::paired(old, incoming)[i] == (old[i], incoming[i]),
        consolidation::merge_weight(uso_count) >= 0,
        uso_count >= 0 ==> consolidation::merge_weight(uso_count) == uso_count,
        uso_count < 0 ==> consolidation::merge_weight(uso_count) == 1,
{
}

/// The average of a stored and an incoming number lies between the two.
pub proof fn law_average_lies_between(weight: int, pair: (Real32, Real32), average: real)
    requires
        weight >= 0,
        statement::is_average(weight, pair, average),
    ensures
        pair.0.value() <= pair.1.value() ==> pair.0.value() as real <= average
            <= pair.1.value() as real,
        pair.1.value() <= pair.0.value() ==> pair.1.value() as real <= average
            <= pair.0.value() as real,
{
    let old = pair.0.value() as real;
    let incoming = pair.1.value() as real;
    let w = weight as real;
    assert((weight + 1) as real == w + 1 as real);
    assert(old <= incoming ==> old <= average <= incoming) by (nonlinear_arith)
        requires
            w >= 0 as real,
            w * old + incoming == (w + 1 as real) * average,
    ;
    assert(incoming <= old ==> incoming <= average <= old) by (nonlinear_arith)
        requires
            w >= 0 as real,
            w * old + incoming == (w + 1 as real) * average,
    ;
}

/// The incoming number moves the stored one by its share: the difference of the two, divided by
/// one more than the weight.
pub proof fn law_average_moves_by_its_share(weight: int, pair: (Real32, Real32), average: real)
    requires
        weight >= 0,
        statement::is_average(weight, pair, average),
    ensures
        (weight + 1) as real * (average - pair.0.value() as real) == pair.1.value() as real
            - pair.0.value() as real,
{
    let old = pair.0.value() as real;
    let incoming = pair.1.value() as real;
    let w = weight as real;
    assert((weight + 1) as real == w + 1 as real);
    assert((w + 1 as real) * (average - old) == incoming - old) by (nonlinear_arith)
        requires
            w * old + incoming == (w + 1 as real) * average,
    ;
}

/// A much-used node moves little: under a larger weight the same incoming number moves the stored
/// one less, in the same direction, and strictly less where it moves it at all.
pub proof fn law_larger_weight_moves_less(
    weight: int,
    larger: int,
    pair: (Real32, Real32),
    average: real,
    steadier: real,
)
    requires
        0 <= weight < larger,
        statement::is_average(weight, pair, average),
        statement::is_average(larger, pair, steadier),
    ensures
        pair.0.value() < pair.1.value() ==> (pair.0.value() as real) < steadier < average,
        pair.1.value() < pair.0.value() ==> average < steadier < pair.0.value() as real,
        pair.0.value() == pair.1.value() ==> average == steadier == pair.0.value() as real,
{
    law_average_moves_by_its_share(weight, pair, average);
    law_average_moves_by_its_share(larger, pair, steadier);
    let few = (weight + 1) as real;
    let many = (larger + 1) as real;
    let gap = pair.1.value() as real - pair.0.value() as real;
    let far = average - pair.0.value() as real;
    let near = steadier - pair.0.value() as real;
    assert((0 as real) < few < many);
    assert(gap > 0 as real ==> (0 as real) < near < far) by (nonlinear_arith)
        requires
            (0 as real) < few < many,
            few * far == gap,
            many * near == gap,
    ;
    assert(gap < 0 as real ==> far < near < 0 as real) by (nonlinear_arith)
        requires
            (0 as real) < few < many,
            few * far == gap,
            many * near == gap,
    ;
    assert(gap == 0 as real ==> far == 0 as real && near == 0 as real) by (nonlinear_arith)
        requires
            (0 as real) < few < many,
            few * far == gap,
            many * near == gap,
    ;
}

/// A node that was never used takes the incoming number.
pub proof fn law_unused_node_takes_the_incoming(pair: (Real32, Real32), average: real)
    requires
        statement::is_average(consolidation::merge_weight(0), pair, average),
    ensures
        average == pair.1.value() as real,
{
    let old = pair.0.value() as real;
    assert(0 as real * old == 0 as real) by (nonlinear_arith);
    assert(1 as real * average == average) by (nonlinear_arith);
}

/// The verdict on a text follows from the nearest candidate alone: without one the text is inserted;
/// it is discarded where that one reaches the duplicate limit and has the same normal form; else
/// merged where it reaches the merge limit; else related where it reaches the relate limit; else
/// inserted. This holds of all limits.
pub proof fn law_verdict_follows_from_the_nearest(
    incoming: Seq<char>,
    candidates: Seq<CandidateView>,
    limits: Thresholds,
)
    ensures
        ({
            let verdict = consolidation::verdict_among(incoming, candidates, limits);
            let score = candidates[0].score;
            let duplicate = real32::reaches(score, limits.duplicate) && text::normal_form(
                candidates[0].content,
            ) == text::normal_form(incoming);
            let merge = real32::reaches(score, limits.merge);
            let relate = real32::reaches(score, limits.relate);
            &&& candidates.len() == 0 ==> verdict is Insert
            &&& candidates.len() > 0 ==> {
                &&& verdict is Discard <==> duplicate
                &&& verdict is Merge <==> merge && !duplicate
                &&& verdict is Relate <==> relate && !merge && !duplicate
                &&& verdict is Insert <==> !relate && !merge && !duplicate
            }
        }),
{
    if candidates.len() > 0 {
        let score = candidates[0].score;
        real32::law_at_least_compares_the_numbers(score, limits.duplicate);
        real32::law_at_least_compares_the_numbers(score, limits.merge);
        real32::law_at_least_compares_the_numbers(score, limits.relate);
    }
}

/// Under ordered limits the score of the nearest candidate lies in one of the bands, and the verdict
/// is that of the band; only at the top does the text matter.
pub proof fn law_verdict_is_the_band_of_the_nearest(
    incoming: Seq<char>,
    candidates: Seq<CandidateView>,
    limits: Thresholds,
)
    requires
        candidates.len() > 0,
        real32::reaches(limits.merge, limits.relate),
        real32::reaches(limits.duplicate, limits.merge),
        !candidates[0].score.is_nan(),
    ensures
        ({
            let verdict = consolidation::verdict_among(incoming, candidates, limits);
            let score = candidates[0].score.value();
            let same = text::normal_form(candidates[0].content) == text::normal_form(incoming);
            &&& verdict is Insert <==> score < limits.relate.value()
            &&& verdict is Relate <==> limits.relate.value() <= score < limits.merge.value()
            &&& verdict is Merge <==> limits.merge.value() <= score && (score
                < limits.duplicate.value() || !same)
            &&& verdict is Discard <==> limits.duplicate.value() <= score && same
        }),
{
    law_verdict_follows_from_the_nearest(incoming, candidates, limits);
}

/// A merge loses nothing: a text that the content does not hold yet, up to spacing and case, is added
/// behind a bar, and the content then ends with it; one that it holds leaves the content as it is.
pub proof fn law_merging_adds_what_is_new(content: Seq<char>, incoming: Seq<char>)
    ensures
        ({
            let merged = consolidation::merged_content(content, incoming);
            let known = text::occurs_in(text::normal_form(incoming), text::normal_form(content));
            &&& known ==> merged == content
            &&& !known ==> {
                &&& merged == content + " | "@ + incoming
                &&& merged.len() == content.len() + 3 + incoming.len()
                &&& merged.skip((content.len() + 3) as int) == incoming
                &&& merged.take(content.len() as int) == content
            }
        }),
{
    law_fusing_adds_what_is_new(
        content,
        incoming,
        text::normal_form(content),
        text::normal_form(incoming),
    );
}

/// The same of any two normal forms: whether the text is added depends on whether its normal form
/// occurs in that of the content, and on nothing else.
pub proof fn law_fusing_adds_what_is_new(
    content: Seq<char>,
    incoming: Seq<char>,
    normal_content: Seq<char>,
    normal_incoming: Seq<char>,
)
    ensures
        ({
            let merged = consolidation::content_after_merge(
                content,
                incoming,
                normal_content,
                normal_incoming,
            );
            let known = text::occurs_in(normal_incoming, normal_content);
            &&& known ==> merged == content
            &&& !known ==> {
                &&& merged == content + " | "@ + incoming
                &&& merged.len() == content.len() + 3 + incoming.len()
                &&& merged.skip((content.len() + 3) as int) == incoming
                &&& merged.take(content.len() as int) == content
            }
        }),
{
    reveal_strlit(" | ");
    assert(consolidation::separator() =~= " | "@);
    let added = content + " | "@ + incoming;
    assert(added.skip((content.len() + 3) as int) =~= incoming);
    assert(added.take(content.len() as int) =~= content);
}

/// Whether `statement` creates a fact with this identifier, text and embedding, and sets nothing
/// else.
pub open spec fn creates_fact(
    statement: StatementView,
    id: Seq<char>,
    content: Seq<char>,
    embedding: Seq<Real32>,
) -> bool {
    &&& statement.text == cypher::CREATE_NODE@
    &&& statement.params.len() == 3
    &&& statement::binds(statement, "id"@, ValueView::Text(id))
    &&& statement::binds(statement, "content"@, ValueView::Text(content))
    &&& statement::binds(statement, "embedding"@, ValueView::Vector(embedding))
}

/// A created fact holds what came in: an inserted and a related fact alike is stored under the
/// reported identifier with the incoming text and the incoming embedding, component by component.
pub proof fn law_created_fact_holds_what_came_in(
    new_id: Seq<char>,
    incoming: Seq<char>,
    embedding: Seq<Real32>,
    candidates: Seq<CandidateView>,
    relate: Real32,
)
    ensures
        ({
            let inserted = consolidation::inserting(new_id, incoming, embedding);
            let related = consolidation::relating(new_id, incoming, embedding, candidates, relate);
            &&& inserted.steps.len() == 1
            &&& creates_fact(inserted.steps[0], new_id, incoming, embedding)
            &&& inserted.result->Inserted_node_id == new_id
            &&& creates_fact(related.steps[0], new_id, incoming, embedding)
            &&& related.result->new_id == new_id
            &&& related.result->related_to == candidates[0].id
        }),
{
    law_creation_binds_what_is_given(new_id, incoming, embedding);
}

/// The creation of a fact sets its identifier, its text and its embedding to those given.
pub proof fn law_creation_binds_what_is_given(
    id: Seq<char>,
    content: Seq<char>,
    embedding: Seq<Real32>,
)
    ensures
        creates_fact(
            consolidation::create_node_statement(id, content, embedding),
            id,
            content,
            embedding,
        ),
{
    reveal_strlit("id");
    assert("id"@.len() == 2);
    reveal_strlit("content");
    assert("content"@.len() == 7);
    reveal_strlit("embedding");
    assert("embedding"@.len() == 9);
    let statement = consolidation::create_node_statement(id, content, embedding);
    assert(statement.params[0] == ("id"@, ValueView::Text(id)));
    assert(statement.params[1] == ("content"@, ValueView::Text(content)));
    assert(statement.params[2] == ("embedding"@, ValueView::Vector(embedding)));
}

/// Facts that differ in identifier, text or embedding are created by different statements.
pub proof fn law_different_facts_are_created_differently(
    a_id: Seq<char>,
    a_content: Seq<char>,
    a_embedding: Seq<Real32>,
    b_id: Seq<char>,
    b_content: Seq<char>,
    b_embedding: Seq<Real32>,
)
    requires
        a_id != b_id || a_content != b_content || a_embedding != b_embedding,
    ensures
        consolidation::create_node_statement(a_id, a_content, a_embedding)
            != consolidation::create_node_statement(b_id, b_content, b_embedding),
{
    let a = consolidation::create_node_statement(a_id, a_content, a_embedding);
    let b = consolidation::create_node_statement(b_id, b_content, b_embedding);
    law_creation_binds_what_is_given(a_id, a_content, a_embedding);
    law_creation_binds_what_is_given(b_id, b_content, b_embedding);
    if a_id != b_id {
        statement::law_a_parameter_has_one_value(
            a,
            b,
            "id"@,
            ValueView::Text(a_id),
            ValueView::Text(b_id),
        );
    } else if a_content != b_content {
        statement::law_a_parameter_has_one_value(
            a,
            b,
            "content"@,
            ValueView::Text(a_content),
            ValueView::Text(b_content),
        );
    } else {
        statement::law_a_parameter_has_one_value(
            a,
            b,
            "embedding"@,
            ValueView::Vector(a_embedding),
            ValueView::Vector(b_embedding),
        );
    }
}

/// An edge names the new fact, the target and their similarity.
pub proof fn law_edge_binds_what_is_given(
    new_id: Seq<char>,
    target_id: Seq<char>,
    score: Real32,
)
    ensures
        ({
            let statement = consolidation::related_edge_statement(new_id, target_id, score);
            &&& statement.text == cypher::CREATE_RELATED_EDGE@
            &&& statement.params.len() == 3
            &&& statement::binds(statement, "new_id"@, ValueView::Text(new_id))
            &&& statement::binds(statement, "target_id"@, ValueView::Text(target_id))
            &&& statement::binds(statement, "score"@, ValueView::Real(score))
        }),
{
    reveal_strlit("new_id");
    assert("new_id"@.len() == 6);
    reveal_strlit("target_id");
    assert("target_id"@.len() == 9);
    reveal_strlit("score");
    assert("score"@.len() == 5);
    let statement = consolidation::related_edge_statement(new_id, target_id, score);
    assert(statement.params[0] == ("new_id"@, ValueView::Text(new_id)));
    assert(statement.params[1] == ("target_id"@, ValueView::Text(target_id)));
    assert(statement.params[2] == ("score"@, ValueView::Real(score)));
}

/// The edges of a related fact follow its creation, one for each candidate within the limit, in the
/// order of the candidates: `chosen` lists their places.
pub proof fn law_edges_follow_the_order_of_the_candidates(
    new_id: Seq<char>,
    incoming: Seq<char>,
    embedding: Seq<Real32>,
    candidates: Seq<CandidateView>,
    relate: Real32,
) -> (chosen: Seq<int>)
    ensures
        forall|i: int, j: int| 0 <= i < j < chosen.len() ==> #[trigger] chosen[i] < #[trigger] chosen[j],
        forall|k: int|
            0 <= k < candidates.len() ==> (chosen.contains(k) <==> real32::reaches(
                (#[trigger] candidates[k]).score,
                relate,
            )),
        forall|j: int| 0 <= j < chosen.len() ==> 0 <= #[trigger] chosen[j] < candidates.len(),
        ({
            let steps = consolidation::relating(
                new_id,
                incoming,
                embedding,
                candidates,
                relate,
            ).steps;
            &&& steps.len() == chosen.len() + 1
            &&& forall|j: int|
                0 <= j < chosen.len() ==> #[trigger] steps[j + 1]
                    == consolidation::related_edge_statement(
                    new_id,
                    candidates[chosen[j]].id,
                    candidates[chosen[j]].score,
                )
        }),
{
    let chosen = lemma_places_of_chosen(candidates, relate);
    let targets = consolidation::related_candidates(candidates, relate);
    let steps = consolidation::relating(new_id, incoming, embedding, candidates, relate).steps;
    assert forall|j: int| 0 <= j < chosen.len() implies #[trigger] steps[j + 1]
        == consolidation::related_edge_statement(
        new_id,
        candidates[chosen[j]].id,
        candidates[chosen[j]].score,
    ) by {
        assert(targets[j] == candidates[chosen[j]]);
    }
    chosen
}

/// The places of the candidates within the limit, in order.
proof fn lemma_places_of_chosen(candidates: Seq<CandidateView>, relate: Real32) -> (chosen: Seq<int>)
    ensures
        ({
            let targets = consolidation::related_candidates(candidates, relate);
            &&& targets.len() == chosen.len()
            &&& forall|j: int|
                0 <= j < chosen.len() ==> 0 <= #[trigger] chosen[j] < candidates.len()
                    && targets[j] == candidates[chosen[j]]
        }),
        forall|i: int, j: int| 0 <= i < j < chosen.len() ==> #[trigger] chosen[i] < #[trigger] chosen[j],
        forall|k: int|
            0 <= k < candidates.len() ==> (chosen.contains(k) <==> real32::reaches(
                (#[trigger] candidates[k]).score,
                relate,
            )),
    decreases candidates.len(),
{
    reveal(Seq::filter);
    if candidates.len() == 0 {
        seq![]
    } else {
        let firsts = candidates.drop_last();
        let last = candidates.len() - 1;
        let before = lemma_places_of_chosen(firsts, relate);
        real32::law_at_least_compares_the_numbers(candidates[last].score, relate);
        let chosen = if real32::reaches(candidates[last].score, relate) {
            before.push(last)
        } else {
            before
        };
        assert forall|k: int| 0 <= k < candidates.len() implies (chosen.contains(k)
            <==> real32::reaches((#[trigger] candidates[k]).score, relate)) by {
            if k < last {
                assert(firsts[k] == candidates[k]);
                if before.contains(k) {
                    let j = choose|j: int| 0 <= j < before.len() && before[j] == k;
                    assert(chosen[j] == k);
                }
                if chosen.contains(k) {
                    let j = choose|j: int| 0 <= j < chosen.len() && chosen[j] == k;
                    assert(before[j] == k);
                }
            } else if real32::reaches(candidates[last].score, relate) {
                assert(chosen[chosen.len() - 1] == last);
            } else if chosen.contains(k) {
                let j = choose|j: int| 0 <= j < before.len() && before[j] == k;
                assert(before[j] < firsts.len());
            }
        }
        chosen
    }
}

/// Reinforcing names the fact that it is about and sets nothing else.
pub proof fn law_reinforcing_binds_the_fact(id: Seq<char>)
    ensures
        consolidation::reinforce_statement(id).text == cypher::REINFORCE_USAGE@,
        consolidation::reinforce_statement(id).params.len() == 1,
        statement::binds(
            consolidation::reinforce_statement(id),
            "id"@,
            ValueView::Text(id),
        ),
{
    assert(consolidation::reinforce_statement(id).params[0] == ("id"@, ValueView::Text(id)));
}

/// Discarding reinforces the nearest fact, and that is all.
pub proof fn law_discarding_reinforces_the_nearest(best: CandidateView)
    ensures
        consolidation::discarding(best).steps.len() == 1,
        consolidation::discarding(best).steps[0].text == cypher::REINFORCE_USAGE@,
        statement::binds(
            consolidation::discarding(best).steps[0],
            "id"@,
            ValueView::Text(best.id),
        ),
        consolidation::discarding(best).result->Discarded_node_id == best.id,
{
    law_reinforcing_binds_the_fact(best.id);
}

/// Merging rewrites the nearest fact: its content is that of a merge of the two texts, and its
/// embedding averages the components that stand at the same place in both embeddings, as far as both
/// reach, the stored one weighing as much as it has uses.
pub proof fn law_merging_rewrites_the_nearest(
    best: CandidateView,
    incoming: Seq<char>,
    embedding: Seq<Real32>,
    terms: Seq<(Real32, Real32)>,
)
    requires
        terms.len() <= best.embedding.len(),
        terms.len() <= embedding.len(),
        terms.len() == best.embedding.len() || terms.len() == embedding.len(),
        forall|i: int|
            0 <= i < terms.len() ==> #[trigger] terms[i] == (best.embedding[i], embedding[i]),
    ensures
        ({
            let plan = consolidation::merging(best, incoming, embedding);
            let step = plan.steps[0];
            let weight = if best.uso_count >= 0 {
                best.uso_count
            } else {
                1
            };
            &&& plan.steps.len() == 1
            &&& step.text == cypher::MERGE_NODE@
            &&& step.params.len() == 3
            &&& statement::binds(step, "id"@, ValueView::Text(best.id))
            &&& statement::binds(
                step,
                "content"@,
                ValueView::Text(consolidation::merged_content(best.content, incoming)),
            )
            &&& statement::binds(step, "embedding"@, ValueView::Average { weight, terms })
            &&& plan.result->Merged_node_id == best.id
        }),
{
    reveal_strlit("id");
    assert("id"@.len() == 2);
    reveal_strlit("content");
    assert("content"@.len() == 7);
    reveal_strlit("embedding");
    assert("embedding"@.len() == 9);
    let step = consolidation::merging(best, incoming, embedding).steps[0];
    let weight = if best.uso_count >= 0 {
        best.uso_count
    } else {
        1
    };
    assert(consolidation::paired(best.embedding, embedding) =~= terms);
    assert(step.params[0] == ("id"@, ValueView::Text(best.id)));
    assert(step.params[1] == (
        "content"@,
        ValueView::Text(consolidation::merged_content(best.content, incoming)),
    ));
    assert(step.params[2] == ("embedding"@, ValueView::Average { weight, terms }));
}

/// The search for neighbours is for the given embedding and number.
pub proof fn law_search_binds_what_is_given(embedding: Seq<Real32>, k: int)
    ensures
        ({
            let statement = consolidation::search_statement(embedding, k);
            &&& statement.text == cypher::SEARCH_CANDIDATES@
            &&& statement.params.len() == 2
            &&& statement::binds(statement, "k"@, ValueView::Integer(k))
            &&& statement::binds(statement, "embedding"@, ValueView::Vector(embedding))
        }),
{
    reveal_strlit("k");
    assert("k"@.len() == 1);
    reveal_strlit("embedding");
    assert("embedding"@.len() == 9);
    let statement = consolidation::search_statement(embedding, k);
    assert(statement.params[0] == ("k"@, ValueView::Integer(k)));
    assert(statement.params[1] == ("embedding"@, ValueView::Vector(embedding)));
}

/// A candidate holds the columns of its row, each its own; a missing text is empty, a missing
/// embedding has no components, a missing use count is 1 and a missing score is 0.
pub proof fn law_candidate_holds_the_columns(row: CandidateRow)
    ensures
        ({
            let found = consolidation::candidate_of_row(row);
            &&& row.id matches Some(id) ==> found.id == id@
            &&& row.content matches Some(content) ==> found.content == content@
            &&& row.embedding matches Some(embedding) ==> found.embedding == embedding@
            &&& row.uso_count matches Some(count) ==> found.uso_count == count
            &&& row.score matches Some(score) ==> found.score == score
            &&& row.id is None ==> found.id.len() == 0
            &&& row.content is None ==> found.content.len() == 0
            &&& row.embedding is None ==> found.embedding.len() == 0
            &&& row.uso_count is None ==> found.uso_count == 1
            &&& row.score is None ==> !found.score.is_nan() && found.score.value() == 0
        }),
{
}

/// What becomes of a fact, from its text and embedding, its neighbours and the limits alone. Where
/// the nearest neighbour is a duplicate, that one is reinforced and nothing else happens. Else,
/// where it reaches the merge limit, it is rewritten and nothing else happens. Else a fact with the
/// incoming text and embedding is created under the new identifier; and where the nearest one
/// reaches the relate limit, an edge with their similarity follows for each neighbour that does.
pub proof fn law_consolidation_does_what_the_neighbours_call_for(
    new_id: Seq<char>,
    incoming: Seq<char>,
    embedding: Seq<Real32>,
    candidates: Seq<CandidateView>,
    limits: Thresholds,
)
    ensures
        ({
            let plan = consolidation::consolidated(new_id, incoming, embedding, candidates, limits);
            let nearest = candidates[0];
            let duplicate = candidates.len() > 0 && real32::reaches(
                nearest.score,
                limits.duplicate,
            ) && text::normal_form(nearest.content) == text::normal_form(incoming);
            let merge = candidates.len() > 0 && real32::reaches(nearest.score, limits.merge);
            let relate = candidates.len() > 0 && real32::reaches(nearest.score, limits.relate);
            &&& duplicate ==> {
                &&& plan.result == (ResultView::Discarded { node_id: nearest.id })
                &&& plan.steps.len() == 1
                &&& plan.steps[0].text == cypher::REINFORCE_USAGE@
                &&& statement::binds(plan.steps[0], "id"@, ValueView::Text(nearest.id))
            }
            &&& merge && !duplicate ==> {
                &&& plan.result == (ResultView::Merged { node_id: nearest.id })
                &&& plan.steps.len() == 1
                &&& plan.steps[0].text == cypher::MERGE_NODE@
                &&& statement::binds(plan.steps[0], "id"@, ValueView::Text(nearest.id))
                &&& text::occurs_in(text::normal_form(incoming), text::normal_form(nearest.content))
                    ==> statement::binds(
                    plan.steps[0],
                    "content"@,
                    ValueView::Text(nearest.content),
                )
                &&& !text::occurs_in(
                    text::normal_form(incoming),
                    text::normal_form(nearest.content),
                ) ==> statement::binds(
                    plan.steps[0],
                    "content"@,
                    ValueView::Text(nearest.content + " | "@ + incoming),
                )
            }
            &&& relate && !merge && !duplicate ==> {
                &&& plan.result == (ResultView::Related { new_id, related_to: nearest.id })
                &&& creates_fact(plan.steps[0], new_id, incoming, embedding)
                &&& forall|k: int|
                    0 <= k < candidates.len() && real32::reaches(
                        (#[trigger] candidates[k]).score,
                        limits.relate,
                    ) ==> exists|j: int|
                        1 <= j < plan.steps.len() && #[trigger] plan.steps[j]
                            == consolidation::related_edge_statement(
                            new_id,
                            candidates[k].id,
                            candidates[k].score,
                        )
            }
            &&& !relate && !merge && !duplicate ==> {
                &&& plan.result == (ResultView::Inserted { node_id: new_id })
                &&& plan.steps.len() == 1
                &&& creates_fact(plan.steps[0], new_id, incoming, embedding)
            }
        }),
{
    law_verdict_follows_from_the_nearest(incoming, candidates, limits);
    law_created_fact_holds_what_came_in(new_id, incoming, embedding, candidates, limits.relate);
    if candidates.len() > 0 {
        let nearest = candidates[0];
        law_discarding_reinforces_the_nearest(nearest);
        law_merging_adds_what_is_new(nearest.content, incoming);
        law_merging_rewrites_the_nearest(
            nearest,
            incoming,
            embedding,
            consolidation::paired(nearest.embedding, embedding),
        );
        let chosen = law_edges_follow_the_order_of_the_candidates(
            new_id,
            incoming,
            embedding,
            candidates,
            limits.relate,
        );
        let steps = consolidation::relating(
            new_id,
            incoming,
            embedding,
            candidates,
            limits.relate,
        ).steps;
        assert forall|k: int|
            0 <= k < candidates.len() && real32::reaches(
                (#[trigger] candidates[k]).score,
                limits.relate,
            ) implies exists|j: int|
            1 <= j < steps.len() && #[trigger] steps[j] == consolidation::related_edge_statement(
                new_id,
                candidates[k].id,
                candidates[k].score,
            ) by {
            let j = choose|j: int| 0 <= j < chosen.len() && chosen[j] == k;
            assert(steps[j + 1] == consolidation::related_edge_statement(
                new_id,
                candidates[k].id,
                candidates[k].score,
            ));
        }
    }
}

} // verus!
