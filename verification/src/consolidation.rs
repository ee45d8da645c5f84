//! Semantic consolidation: what becomes of an incoming fact.
//!
//! A fact is not simply inserted. It is held against its nearest neighbours in the graph and is
//! discarded as a duplicate, merged into the nearest one, related to its neighbours, or inserted
//! on its own. The outcome is a list of statements to run in order and the result to report once
//! all of them have succeeded.

use vstd::prelude::*;
use crate::cypher;
use crate::identifier;
use crate::real32;
use crate::real32::Real32;
use crate::rows;
use crate::rows::Fetched;
use crate::statement;
use crate::statement::{Statement, StatementView, Value, ValueView, WeightedAverage};
use crate::text;
use crate::threshold::Thresholds;

verus! {

/// How many neighbours consolidation looks at.
pub const NEIGHBOURS: i64 = 5;

/// Result of consolidating an incoming fact.
#[derive(Debug)]
pub enum ConsolidationResult {
    /// Merged into an almost identical node.
    Merged { node_id: String },
    /// Inserted as a new node and linked to one or more related nodes.
    Related { new_id: String, related_to: String },
    /// Inserted as a new node without relevant neighbours.
    Inserted { node_id: String },
    /// Discarded as an exact duplicate; only the use of the node was reinforced.
    Discarded { node_id: String },
}

/// What a result says.
#[verifier::ext_equal]
pub enum ResultView {
    Merged { node_id: Seq<char> },
    Related { new_id: Seq<char>, related_to: Seq<char> },
    Inserted { node_id: Seq<char> },
    Discarded { node_id: Seq<char> },
}

impl View for ConsolidationResult {
    type V = ResultView;

    open spec fn view(&self) -> ResultView {
        match self {
            ConsolidationResult::Merged { node_id } => ResultView::Merged { node_id: node_id@ },
            ConsolidationResult::Related { new_id, related_to } => ResultView::Related {
                new_id: new_id@,
                related_to: related_to@,
            },
            ConsolidationResult::Inserted { node_id } => ResultView::Inserted {
                node_id: node_id@,
            },
            ConsolidationResult::Discarded { node_id } => ResultView::Discarded {
                node_id: node_id@,
            },
        }
    }
}

/// A neighbour of an incoming fact.
#[derive(Debug)]
pub struct Candidate {
    pub id: String,
    pub content: String,
    pub embedding: Vec<Real32>,
    pub uso_count: i64,
    pub score: Real32,
}

/// What a candidate holds.
#[verifier::ext_equal]
pub struct CandidateView {
    pub id: Seq<char>,
    pub content: Seq<char>,
    pub embedding: Seq<Real32>,
    pub uso_count: int,
    pub score: Real32,
}

impl View for Candidate {
    type V = CandidateView;

    open spec fn view(&self) -> CandidateView {
        CandidateView {
            id: self.id@,
            content: self.content@,
            embedding: self.embedding@,
            uso_count: self.uso_count as int,
            score: self.score,
        }
    }
}

/// The candidates of a list.
pub open spec fn candidate_views(candidates: Seq<Candidate>) -> Seq<CandidateView> {
    candidates.map_values(|candidate: Candidate| candidate@)
}

/// A row of the search for neighbours. A column that is missing or of another type is `None`.
#[derive(Debug)]
pub struct CandidateRow {
    pub id: Option<String>,
    pub content: Option<String>,
    pub embedding: Option<Vec<Real32>>,
    pub uso_count: Option<i64>,
    pub score: Option<Real32>,
}

/// The candidate that a row describes: a missing text is empty, a missing embedding has no
/// components, a missing use count is 1 and a missing score is 0.
pub open spec fn candidate_of_row(row: CandidateRow) -> CandidateView {
    CandidateView {
        id: rows::text_or_empty(row.id),
        content: rows::text_or_empty(row.content),
        embedding: match row.embedding {
            Some(components) => components@,
            None => seq![],
        },
        uso_count: match row.uso_count {
            Some(count) => count as int,
            None => 1,
        },
        score: match row.score {
            Some(score) => score,
            None => Real32 { bits: 0 },
        },
    }
}

/// The candidate that a row describes.
pub fn candidate(row: CandidateRow) -> (found: Candidate)
    ensures
        found@ == candidate_of_row(row),
{
    let found = Candidate {
        id: rows::column_text(row.id),
        content: rows::column_text(row.content),
        embedding: match row.embedding {
            Some(components) => components,
            None => Vec::new(),
        },
        uso_count: match row.uso_count {
            Some(count) => count,
            None => 1,
        },
        score: match row.score {
            Some(score) => score,
            None => Real32 { bits: 0 },
        },
    };
    proof {
        assert(found@.embedding =~= candidate_of_row(row).embedding);
    }
    found
}

/// Takes the next row of the search into account: a row becomes a candidate and reading goes on,
/// and the end of the rows and a failure alike complete the neighbourhood.
pub fn gather(candidates: &mut Vec<Candidate>, fetched: Fetched<CandidateRow>) -> (more: bool)
    ensures
        more == (fetched is Row),
        candidate_views(final(candidates)@) == match fetched {
            Fetched::Row(row) => candidate_views(old(candidates)@).push(candidate_of_row(row)),
            _ => candidate_views(old(candidates)@),
        },
{
    match fetched {
        Fetched::Row(row) => {
            let found = candidate(row);
            proof {
                assert(candidate_views(candidates@.push(found)) =~= candidate_views(
                    candidates@,
                ).push(found@));
            }
            candidates.push(found);
            true
        },
        _ => false,
    }
}

/// The neighbourhood that a search found whose reply was fetched so.
pub open spec fn neighbourhood(fetched: Seq<Fetched<CandidateRow>>) -> Seq<CandidateView> {
    rows::rows_kept(fetched).map_values(|row: CandidateRow| candidate_of_row(row))
}

/// Gathering row by row gives one candidate per row read, in the order of the rows; what would
/// follow an end or a failure is not read.
pub proof fn law_neighbours_are_gathered_row_by_row(
    fetched: Seq<Fetched<CandidateRow>>,
    next: Fetched<CandidateRow>,
    unread: Seq<Fetched<CandidateRow>>,
)
    requires
        forall|i: int| 0 <= i < fetched.len() ==> #[trigger] fetched[i] is Row,
    ensures
        neighbourhood(fetched).len() == fetched.len(),
        next matches Fetched::Row(row) ==> neighbourhood(fetched.push(next)) == neighbourhood(
            fetched,
        ).push(candidate_of_row(row)),
        !(next is Row) ==> neighbourhood(fetched.push(next) + unread) == neighbourhood(fetched),
{
    rows::law_rows_kept_one_by_one(fetched, next, unread);
    if next is Row {
        assert(neighbourhood(fetched.push(next)) =~= neighbourhood(fetched).push(
            candidate_of_row(next->Row_0),
        ));
    }
}

// ---- statements ----

/// The search for the `k` nearest facts.
pub open spec fn search_statement(embedding: Seq<Real32>, k: int) -> StatementView {
    StatementView {
        text: cypher::SEARCH_CANDIDATES@,
        params: seq![
            ("k"@, ValueView::Integer(k)),
            ("embedding"@, ValueView::Vector(embedding)),
        ],
    }
}

/// The search for the `k` nearest facts to an embedding.
pub fn top_k_candidates(embedding: &[Real32], k: i64) -> (statement: Statement)
    ensures
        statement@ == search_statement(embedding@, k as int),
{
    let statement = Statement::new(cypher::SEARCH_CANDIDATES).with("k", Value::Integer(k)).with(
        "embedding",
        Value::Vector(vstd::slice::slice_to_vec(embedding)),
    );
    proof {
        assert(statement@ =~= search_statement(embedding@, k as int));
    }
    statement
}

/// The search for the neighbours of an incoming fact: the five nearest ones.
pub fn neighbour_search(embedding: &[Real32]) -> (statement: Statement)
    ensures
        statement@ == search_statement(embedding@, 5),
{
    top_k_candidates(embedding, NEIGHBOURS)
}

/// The creation of a fact.
pub open spec fn create_node_statement(
    id: Seq<char>,
    content: Seq<char>,
    embedding: Seq<Real32>,
) -> StatementView {
    StatementView {
        text: cypher::CREATE_NODE@,
        params: seq![
            ("id"@, ValueView::Text(id)),
            ("content"@, ValueView::Text(content)),
            ("embedding"@, ValueView::Vector(embedding)),
        ],
    }
}

/// The creation of a fact.
pub fn create_node(id: &str, text: &str, embedding: &[Real32]) -> (statement: Statement)
    ensures
        statement@ == create_node_statement(id@, text@, embedding@),
{
    let statement = Statement::new(cypher::CREATE_NODE).with("id", Value::Text(id.to_owned())).with(
        "content",
        Value::Text(text.to_owned()),
    ).with("embedding", Value::Vector(vstd::slice::slice_to_vec(embedding)));
    proof {
        assert(statement@ =~= create_node_statement(id@, text@, embedding@));
    }
    statement
}

/// The relation of a new fact to another one, with their similarity.
pub open spec fn related_edge_statement(
    new_id: Seq<char>,
    target_id: Seq<char>,
    score: Real32,
) -> StatementView {
    StatementView {
        text: cypher::CREATE_RELATED_EDGE@,
        params: seq![
            ("new_id"@, ValueView::Text(new_id)),
            ("target_id"@, ValueView::Text(target_id)),
            ("score"@, ValueView::Real(score)),
        ],
    }
}

/// The relation of a new fact to another one, with their similarity.
pub fn create_related_edge(new_id: &str, target_id: &str, score: Real32) -> (statement: Statement)
    ensures
        statement@ == related_edge_statement(new_id@, target_id@, score),
{
    let statement = Statement::new(cypher::CREATE_RELATED_EDGE).with(
        "new_id",
        Value::Text(new_id.to_owned()),
    ).with("target_id", Value::Text(target_id.to_owned())).with("score", Value::Real(score));
    proof {
        assert(statement@ =~= related_edge_statement(new_id@, target_id@, score));
    }
    statement
}

/// One more use of a fact.
pub open spec fn reinforce_statement(id: Seq<char>) -> StatementView {
    StatementView {
        text: cypher::REINFORCE_USAGE@,
        params: seq![("id"@, ValueView::Text(id))],
    }
}

/// One more use of a fact.
pub fn reinforce_usage(id: &str) -> (statement: Statement)
    ensures
        statement@ == reinforce_statement(id@),
{
    let statement = Statement::new(cypher::REINFORCE_USAGE).with("id", Value::Text(id.to_owned()));
    proof {
        assert(statement@ =~= reinforce_statement(id@));
    }
    statement
}

// ---- merging ----

/// How much the stored embedding weighs against one incoming one: as much as it has uses. A
/// negative count, which says nothing of use, weighs as one use.
pub open spec fn merge_weight(uso_count: int) -> int {
    if uso_count < 0 {
        1
    } else {
        uso_count
    }
}

/// The components of two vectors side by side, as far as both reach.
pub open spec fn paired(old: Seq<Real32>, incoming: Seq<Real32>) -> Seq<(Real32, Real32)> {
    let count = if old.len() <= incoming.len() {
        old.len()
    } else {
        incoming.len()
    };
    Seq::new(count, |i: int| (old[i], incoming[i]))
}

/// The average of a stored and an incoming embedding, weighted by use: what many observations
/// have built up moves little under one more.
pub fn weighted_average(old: &[Real32], incoming: &[Real32], uso_count: i64) -> (average:
    WeightedAverage)
    ensures
        average.weight == merge_weight(uso_count as int),
        average.terms@ == paired(old@, incoming@),
        forall|i: int|
            0 <= i < old.len() && i < incoming.len() ==> statement::is_average(
                merge_weight(uso_count as int),
                (old@[i], incoming@[i]),
                #[trigger] statement::average_components(
                    average.weight as int,
                    average.terms@,
                )[i],
            ),
{
    let weight: i64 = if uso_count < 0 {
        1
    } else {
        uso_count
    };
    let mut terms: Vec<(Real32, Real32)> = Vec::new();
    let mut i: usize = 0;
    while i < old.len() && i < incoming.len()
        invariant
            i <= old.len(),
            i <= incoming.len(),
            terms@ == paired(old@.take(i as int), incoming@.take(i as int)),
        decreases old.len() - i,
    {
        proof {
            assert(paired(old@.take(i + 1), incoming@.take(i + 1)) =~= terms@.push(
                (old@[i as int], incoming@[i as int]),
            ));
        }
        terms.push((old[i], incoming[i]));
        i += 1;
    }
    proof {
        assert(terms@ =~= paired(old@, incoming@));
        assert forall|i: int| 0 <= i < old.len() && i < incoming.len() implies statement::is_average(
            weight as int,
            (old@[i], incoming@[i]),
            #[trigger] statement::average_components(weight as int, terms@)[i],
        ) by {
            let pair = (old@[i], incoming@[i]);
            assert(terms@[i] == pair);
            statement::law_exact_average_is_the_average(
                weight as int,
                pair,
                statement::exact_average(weight as int, pair),
            );
        }
    }
    WeightedAverage { weight, terms }
}

/// What separates the texts of merged facts.
pub open spec fn separator() -> Seq<char> {
    seq![' ', '|', ' ']
}

/// The content of a fact that another text is merged into, given both normal forms: the text is
/// added unless the content holds it already.
pub open spec fn content_after_merge(
    content: Seq<char>,
    incoming: Seq<char>,
    normal_content: Seq<char>,
    normal_incoming: Seq<char>,
) -> Seq<char> {
    if text::occurs_in(normal_incoming, normal_content) {
        content
    } else {
        content + separator() + incoming
    }
}

/// The content of a fact that another text is merged into.
pub open spec fn merged_content(content: Seq<char>, incoming: Seq<char>) -> Seq<char> {
    content_after_merge(
        content,
        incoming,
        text::normal_form(content),
        text::normal_form(incoming),
    )
}

/// The content of a fact that another text is merged into, given both normal forms.
pub fn fuse_content(
    content: &str,
    incoming: &str,
    normal_content: &str,
    normal_incoming: &str,
) -> (fused: String)
    ensures
        fused@ == content_after_merge(content@, incoming@, normal_content@, normal_incoming@),
{
    if text::contains_text(normal_content, normal_incoming) {
        content.to_owned()
    } else {
        let mut fused = content.to_owned();
        fused.append(" | ");
        fused.append(incoming);
        proof {
            reveal_strlit(" | ");
            assert(" | "@ =~= separator());
        }
        fused
    }
}

/// The merge of an incoming fact into `target`.
pub open spec fn merge_statement(
    target: CandidateView,
    incoming: Seq<char>,
    embedding: Seq<Real32>,
) -> StatementView {
    StatementView {
        text: cypher::MERGE_NODE@,
        params: seq![
            ("id"@, ValueView::Text(target.id)),
            ("content"@, ValueView::Text(merged_content(target.content, incoming))),
            (
                "embedding"@,
                ValueView::Average {
                    weight: merge_weight(target.uso_count),
                    terms: paired(target.embedding, embedding),
                },
            ),
        ],
    }
}

// ---- the decision ----

/// What to do with an incoming fact.
#[derive(Clone, Copy, PartialEq, Eq, Structural, Debug)]
pub enum Verdict {
    Discard,
    Merge,
    Relate,
    Insert,
}

/// The verdict on a fact whose nearest neighbour has this score and, or not, the same text.
pub open spec fn verdict_on(score: Real32, same_text: bool, limits: Thresholds) -> Verdict {
    if score.spec_at_least(limits.duplicate) && same_text {
        Verdict::Discard
    } else if score.spec_at_least(limits.merge) {
        Verdict::Merge
    } else if score.spec_at_least(limits.relate) {
        Verdict::Relate
    } else {
        Verdict::Insert
    }
}

/// The verdict on a fact whose nearest neighbour has this score and, or not, the same text.
pub fn decide(score: Real32, same_text: bool, limits: Thresholds) -> (verdict: Verdict)
    ensures
        verdict == verdict_on(score, same_text, limits),
        verdict is Discard <==> same_text && real32::reaches(score, limits.duplicate),
        verdict is Merge <==> real32::reaches(score, limits.merge) && !(same_text
            && real32::reaches(score, limits.duplicate)),
        verdict is Relate <==> real32::reaches(score, limits.relate) && !real32::reaches(
            score,
            limits.merge,
        ) && !(same_text && real32::reaches(score, limits.duplicate)),
{
    proof {
        real32::law_at_least_compares_the_numbers(score, limits.duplicate);
        real32::law_at_least_compares_the_numbers(score, limits.merge);
        real32::law_at_least_compares_the_numbers(score, limits.relate);
    }
    if same_text && score.at_least(limits.duplicate) {
        Verdict::Discard
    } else if score.at_least(limits.merge) {
        Verdict::Merge
    } else if score.at_least(limits.relate) {
        Verdict::Relate
    } else {
        Verdict::Insert
    }
}

/// The verdict on a text among its neighbours, the nearest of which comes first.
pub open spec fn verdict_among(
    incoming: Seq<char>,
    candidates: Seq<CandidateView>,
    limits: Thresholds,
) -> Verdict {
    if candidates.len() == 0 {
        Verdict::Insert
    } else {
        verdict_on(
            candidates[0].score,
            text::normal_form(candidates[0].content) == text::normal_form(incoming),
            limits,
        )
    }
}

/// The verdict on a text among its neighbours, the nearest of which comes first.
pub fn judge(incoming: &str, candidates: &[Candidate], limits: Thresholds) -> (verdict: Verdict)
    ensures
        verdict == verdict_among(incoming@, candidate_views(candidates@), limits),
        candidates.len() == 0 ==> verdict is Insert,
        candidates.len() > 0 ==> ({
            let score = candidates@[0].score;
            let duplicate = real32::reaches(score, limits.duplicate) && text::normal_form(
                candidates@[0].content@,
            ) == text::normal_form(incoming@);
            &&& verdict is Discard <==> duplicate
            &&& verdict is Merge <==> !duplicate && real32::reaches(score, limits.merge)
            &&& verdict is Relate <==> !duplicate && !real32::reaches(score, limits.merge)
                && real32::reaches(score, limits.relate)
        }),
{
    if candidates.len() == 0 {
        return Verdict::Insert;
    }
    let best = &candidates[0];
    proof {
        assert(candidate_views(candidates@)[0] == best@);
    }
    let same_text = text::normalize(best.content.as_str()) == text::normalize(incoming);
    decide(best.score, same_text, limits)
}

// ---- the plan ----

/// What consolidating a fact takes: statements to run in order, and the result to report once
/// all of them have succeeded.
#[derive(Debug)]
pub struct Consolidation {
    pub steps: Vec<Statement>,
    pub result: ConsolidationResult,
}

/// What a consolidation says.
#[verifier::ext_equal]
pub struct ConsolidationView {
    pub steps: Seq<StatementView>,
    pub result: ResultView,
}

impl View for Consolidation {
    type V = ConsolidationView;

    open spec fn view(&self) -> ConsolidationView {
        ConsolidationView {
            steps: self.steps@.map_values(|step: Statement| step@),
            result: self.result@,
        }
    }
}

/// What comes next while a consolidation runs.
#[derive(Debug)]
pub enum Progress<'a> {
    /// Run this statement.
    Run(&'a Statement),
    /// All statements have succeeded: report this result.
    Finished(&'a ConsolidationResult),
    /// A statement has failed: report its failure, and run nothing more.
    Failed,
}

/// What a progress says.
#[verifier::ext_equal]
pub enum ProgressView {
    Run(StatementView),
    Finished(ResultView),
    Failed,
}

impl<'a> View for Progress<'a> {
    type V = ProgressView;

    open spec fn view(&self) -> ProgressView {
        match self {
            Progress::Run(statement) => ProgressView::Run(statement@),
            Progress::Finished(result) => ProgressView::Finished(result@),
            Progress::Failed => ProgressView::Failed,
        }
    }
}

/// What comes after `done` statements of a plan, the last of which succeeded or not.
pub open spec fn progress_after(
    plan: ConsolidationView,
    done: int,
    succeeded: bool,
) -> ProgressView {
    if !succeeded {
        ProgressView::Failed
    } else if done < plan.steps.len() {
        ProgressView::Run(plan.steps[done])
    } else {
        ProgressView::Finished(plan.result)
    }
}

/// What comes after `done` statements of a plan have been run, the last of which succeeded or
/// not. Before the first one nothing has failed, and `succeeded` is to be `true`.
pub fn next_step(plan: &Consolidation, done: usize, succeeded: bool) -> (next: Progress<'_>)
    ensures
        next@ == progress_after(plan@, done as int, succeeded),
{
    if !succeeded {
        Progress::Failed
    } else if done < plan.steps.len() {
        Progress::Run(&plan.steps[done])
    } else {
        Progress::Finished(&plan.result)
    }
}

/// Discarding a duplicate of `best`: its use is reinforced and nothing else.
pub open spec fn discarding(best: CandidateView) -> ConsolidationView {
    ConsolidationView {
        steps: seq![reinforce_statement(best.id)],
        result: ResultView::Discarded { node_id: best.id },
    }
}

/// Merging a fact into `best`.
pub open spec fn merging(
    best: CandidateView,
    incoming: Seq<char>,
    embedding: Seq<Real32>,
) -> ConsolidationView {
    ConsolidationView {
        steps: seq![merge_statement(best, incoming, embedding)],
        result: ResultView::Merged { node_id: best.id },
    }
}

/// Inserting a fact as a node of its own.
pub open spec fn inserting(
    new_id: Seq<char>,
    incoming: Seq<char>,
    embedding: Seq<Real32>,
) -> ConsolidationView {
    ConsolidationView {
        steps: seq![create_node_statement(new_id, incoming, embedding)],
        result: ResultView::Inserted { node_id: new_id },
    }
}

/// The candidates that are similar enough to be related, in their order.
pub open spec fn related_candidates(
    candidates: Seq<CandidateView>,
    relate: Real32,
) -> Seq<CandidateView> {
    candidates.filter(|candidate: CandidateView| candidate.score.spec_at_least(relate))
}

/// The edges from a new node to candidates.
pub open spec fn edges_to(new_id: Seq<char>, targets: Seq<CandidateView>) -> Seq<StatementView> {
    targets.map_values(
        |target: CandidateView| related_edge_statement(new_id, target.id, target.score),
    )
}

/// Inserting a fact and relating it to every candidate that is similar enough, not only to the
/// nearest one.
pub open spec fn relating(
    new_id: Seq<char>,
    incoming: Seq<char>,
    embedding: Seq<Real32>,
    candidates: Seq<CandidateView>,
    relate: Real32,
) -> ConsolidationView
    recommends
        candidates.len() > 0,
{
    ConsolidationView {
        steps: seq![create_node_statement(new_id, incoming, embedding)] + edges_to(
            new_id,
            related_candidates(candidates, relate),
        ),
        result: ResultView::Related { new_id, related_to: candidates[0].id },
    }
}

/// Discards a duplicate of `best`.
pub fn discard(best: &Candidate) -> (plan: Consolidation)
    ensures
        plan@ == discarding(best@),
{
    let mut steps: Vec<Statement> = Vec::new();
    steps.push(reinforce_usage(best.id.as_str()));
    let plan = Consolidation {
        steps,
        result: ConsolidationResult::Discarded { node_id: best.id.clone() },
    };
    proof {
        assert(plan@ =~= discarding(best@));
    }
    plan
}

/// Merges a fact into `target`, which keeps its identity.
pub fn merge_into(target: &Candidate, incoming_text: &str, incoming_embedding: &[Real32]) -> (plan:
    Consolidation)
    ensures
        plan@ == merging(target@, incoming_text@, incoming_embedding@),
{
    let average = weighted_average(
        target.embedding.as_slice(),
        incoming_embedding,
        target.uso_count,
    );
    let normal_content = text::normalize(target.content.as_str());
    let normal_incoming = text::normalize(incoming_text);
    let content = fuse_content(
        target.content.as_str(),
        incoming_text,
        normal_content.as_str(),
        normal_incoming.as_str(),
    );
    let statement = Statement::new(cypher::MERGE_NODE).with(
        "id",
        Value::Text(target.id.clone()),
    ).with("content", Value::Text(content)).with("embedding", Value::Average(average));
    proof {
        assert(statement@ =~= merge_statement(target@, incoming_text@, incoming_embedding@));
    }
    let mut steps: Vec<Statement> = Vec::new();
    steps.push(statement);
    let plan = Consolidation {
        steps,
        result: ConsolidationResult::Merged { node_id: target.id.clone() },
    };
    proof {
        assert(plan@ =~= merging(target@, incoming_text@, incoming_embedding@));
    }
    plan
}

/// Inserts a fact under the identifier `new_id`.
pub fn insert_as(new_id: String, text: &str, embedding: &[Real32]) -> (plan: Consolidation)
    ensures
        plan@ == inserting(new_id@, text@, embedding@),
{
    let mut steps: Vec<Statement> = Vec::new();
    steps.push(create_node(new_id.as_str(), text, embedding));
    let plan = Consolidation { steps, result: ConsolidationResult::Inserted { node_id: new_id } };
    proof {
        assert(plan@ =~= inserting(new_id@, text@, embedding@));
    }
    plan
}

/// Inserts a fact under a new random identifier.
pub fn insert_new(text: &str, embedding: &[Real32]) -> (plan: Consolidation)
    ensures
        exists|new_id: Seq<char>| #[trigger]
            identifier::is_random_uuid(new_id) && plan@ == inserting(new_id, text@, embedding@),
{
    let new_id = identifier::random_uuid();
    let ghost id = new_id@;
    let plan = insert_as(new_id, text, embedding);
    proof {
        assert(identifier::is_random_uuid(id) && plan@ == inserting(id, text@, embedding@));
    }
    plan
}

/// Inserts a fact under the identifier `new_id` and relates it to every candidate whose score
/// reaches `relate`.
pub fn relate_as(
    new_id: String,
    text: &str,
    embedding: &[Real32],
    candidates: &[Candidate],
    relate: Real32,
) -> (plan: Consolidation)
    requires
        candidates.len() > 0,
    ensures
        plan@ == relating(new_id@, text@, embedding@, candidate_views(candidates@), relate),
{
    let ghost views = candidate_views(candidates@);
    let ghost near = |candidate: CandidateView| candidate.score.spec_at_least(relate);
    let ghost id = new_id@;
    let ghost first = create_node_statement(new_id@, text@, embedding@);
    let mut steps: Vec<Statement> = Vec::new();
    steps.push(create_node(new_id.as_str(), text, embedding));
    proof {
        reveal(Seq::filter);
        assert(views.take(0).filter(near) =~= seq![]);
        assert(edges_to(id, views.take(0).filter(near)) =~= seq![]);
        assert(steps@.map_values(|step: Statement| step@) =~= seq![first] + edges_to(
            id,
            views.take(0).filter(near),
        ));
    }
    let mut i: usize = 0;
    while i < candidates.len()
        invariant
            i <= candidates.len(),
            views == candidate_views(candidates@),
            near == (|candidate: CandidateView| candidate.score.spec_at_least(relate)),
            id == new_id@,
            steps@.map_values(|step: Statement| step@) == seq![first] + edges_to(
                id,
                views.take(i as int).filter(near),
            ),
        decreases candidates.len() - i,
    {
        let candidate = &candidates[i];
        let ghost before = steps@;
        let ghost chosen = views.take(i as int).filter(near);
        proof {
            reveal(Seq::filter);
            assert(views[i as int] == candidate@);
            assert(views.take(i + 1).drop_last() =~= views.take(i as int));
            assert(views.take(i + 1).last() == candidate@);
        }
        if candidate.score.at_least(relate) {
            steps.push(create_related_edge(new_id.as_str(), candidate.id.as_str(), candidate.score));
            proof {
                assert(near(candidate@));
                assert(edges_to(id, chosen.push(candidate@)) =~= edges_to(id, chosen).push(
                    related_edge_statement(id, candidate@.id, candidate@.score),
                ));
                assert(steps@.map_values(|step: Statement| step@) =~= before.map_values(
                    |step: Statement| step@,
                ).push(related_edge_statement(id, candidate@.id, candidate@.score)));
                assert(steps@.map_values(|step: Statement| step@) =~= seq![first] + edges_to(
                    id,
                    chosen.push(candidate@),
                ));
            }
        }
        i += 1;
    }
    proof {
        assert(views.take(views.len() as int) =~= views);
        assert(views[0] == candidates@[0]@);
    }
    Consolidation {
        steps,
        result: ConsolidationResult::Related { new_id, related_to: candidates[0].id.clone() },
    }
}

/// Inserts a fact under a new random identifier and relates it to every candidate whose score
/// reaches `relate`.
pub fn relate_new(text: &str, embedding: &[Real32], candidates: &[Candidate], relate: Real32) -> (plan:
    Consolidation)
    requires
        candidates.len() > 0,
    ensures
        exists|new_id: Seq<char>| #[trigger]
            identifier::is_random_uuid(new_id) && plan@ == relating(
                new_id,
                text@,
                embedding@,
                candidate_views(candidates@),
                relate,
            ),
{
    let new_id = identifier::random_uuid();
    let ghost id = new_id@;
    let plan = relate_as(new_id, text, embedding, candidates, relate);
    proof {
        assert(identifier::is_random_uuid(id));
    }
    plan
}

/// What consolidating a fact takes, if a new node is to be called `new_id`.
pub open spec fn consolidated(
    new_id: Seq<char>,
    incoming: Seq<char>,
    embedding: Seq<Real32>,
    candidates: Seq<CandidateView>,
    limits: Thresholds,
) -> ConsolidationView {
    match verdict_among(incoming, candidates, limits) {
        Verdict::Discard => discarding(candidates[0]),
        Verdict::Merge => merging(candidates[0], incoming, embedding),
        Verdict::Relate => relating(new_id, incoming, embedding, candidates, limits.relate),
        Verdict::Insert => inserting(new_id, incoming, embedding),
    }
}

/// Decides what becomes of an incoming fact among its nearest neighbours (the nearest first):
/// - discarded, where the nearest reaches the duplicate limit and has the same text;
/// - else merged into the nearest, where that reaches the merge limit;
/// - else inserted and related, where the nearest reaches the relate limit;
/// - else inserted on its own, as also where there are no neighbours.
pub fn consolidate(
    incoming_text: &str,
    incoming_embedding: &[Real32],
    candidates: &[Candidate],
    limits: Thresholds,
) -> (plan: Consolidation)
    ensures
        match verdict_among(incoming_text@, candidate_views(candidates@), limits) {
            Verdict::Discard => plan@ == discarding(candidates@[0]@),
            Verdict::Merge => plan@ == merging(
                candidates@[0]@,
                incoming_text@,
                incoming_embedding@,
            ),
            Verdict::Relate => exists|new_id: Seq<char>| #[trigger]
                identifier::is_random_uuid(new_id) && plan@ == relating(
                    new_id,
                    incoming_text@,
                    incoming_embedding@,
                    candidate_views(candidates@),
                    limits.relate,
                ),
            Verdict::Insert => exists|new_id: Seq<char>| #[trigger]
                identifier::is_random_uuid(new_id) && plan@ == inserting(
                    new_id,
                    incoming_text@,
                    incoming_embedding@,
                ),
        },
        exists|new_id: Seq<char>| #[trigger]
            identifier::is_random_uuid(new_id) && plan@ == consolidated(
                new_id,
                incoming_text@,
                incoming_embedding@,
                candidate_views(candidates@),
                limits,
            ),
        candidates.len() == 0 ==> plan@.result is Inserted,
        candidates.len() > 0 ==> ({
            let nearest = candidates@[0]@;
            let duplicate = real32::reaches(nearest.score, limits.duplicate) && text::normal_form(
                nearest.content,
            ) == text::normal_form(incoming_text@);
            &&& plan@.result == (ResultView::Discarded { node_id: nearest.id }) <==> duplicate
            &&& plan@.result == (ResultView::Merged { node_id: nearest.id }) <==> !duplicate
                && real32::reaches(nearest.score, limits.merge)
            &&& plan@.result is Related <==> !duplicate && !real32::reaches(
                nearest.score,
                limits.merge,
            ) && real32::reaches(nearest.score, limits.relate)
            &&& plan@.result is Related ==> plan@.result->related_to == nearest.id
            &&& plan@.result is Inserted <==> !duplicate && !real32::reaches(
                nearest.score,
                limits.merge,
            ) && !real32::reaches(nearest.score, limits.relate)
        }),
{
    proof {
        identifier::lemma_there_is_an_identifier();
        if candidates.len() > 0 {
            assert(candidate_views(candidates@)[0] == candidates@[0]@);
        }
    }
    match judge(incoming_text, candidates, limits) {
        Verdict::Discard => discard(&candidates[0]),
        Verdict::Merge => merge_into(&candidates[0], incoming_text, incoming_embedding),
        Verdict::Relate => relate_new(
            incoming_text,
            incoming_embedding,
            candidates,
            limits.relate,
        ),
        Verdict::Insert => insert_new(incoming_text, incoming_embedding),
    }
}

} // verus!
