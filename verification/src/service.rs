//! The requests that the engine answers: what is sent to the database for each, and what its
//! reply is answered with.

use vstd::prelude::*;
use crate::consolidation;
use crate::consolidation::{CandidateView, ConsolidationResult, ResultView};
use crate::consolidation_laws;
use crate::cypher;
use crate::real32::Real32;
use crate::rows;
use crate::rows::Fetched;
use crate::statement::{Statement, StatementView, Value, ValueView};
use crate::text;

verus! {

// ---- numbers in replies ----

/// `value` brought into 32 bits, as two's complement keeps its lower half.
pub open spec fn wrapped_to_i32(value: int) -> int {
    let low = value % 0x1_0000_0000;
    if low >= 0x8000_0000 {
        low - 0x1_0000_0000
    } else {
        low
    }
}

/// `value` brought into 32 bits.
pub fn wrap_to_i32(value: i64) -> (wrapped: i32)
    ensures
        wrapped == wrapped_to_i32(value as int),
        i32::MIN <= value <= i32::MAX ==> wrapped == value,
{
    proof {
        assert(value as i32 == {
            let low = value % 0x1_0000_0000i64;
            if low >= 0x8000_0000i64 {
                low - 0x1_0000_0000i64
            } else {
                low as int
            }
        }) by (bit_vector);
    }
    #[verifier::truncate]
    (value as i32)
}

/// Numbers that fit into 32 bits come out as they are.
pub proof fn law_small_numbers_are_kept(value: int)
    requires
        i32::MIN <= value <= i32::MAX,
    ensures
        wrapped_to_i32(value) == value,
{
}

/// The number of a column in 32 bits, or `default` where there is none.
pub open spec fn number_or(column: Option<i64>, default: int) -> int {
    match column {
        Some(number) => wrapped_to_i32(number as int),
        None => default,
    }
}

/// The number of a column in 32 bits, or `default` where there is none.
fn column_number(column: Option<i64>, default: i32) -> (number: i32)
    ensures
        number == number_or(column, default as int),
        column matches Some(given) ==> i32::MIN <= given <= i32::MAX ==> number == given,
        column is None ==> number == default,
{
    match column {
        Some(number) => wrap_to_i32(number),
        None => default,
    }
}

/// The number of a column, or `default` where there is none.
pub open spec fn long_or(column: Option<i64>, default: i64) -> i64 {
    match column {
        Some(number) => number,
        None => default,
    }
}

/// The count that a reply holds in its first row; 0 where there is no such row or number.
pub open spec fn count_in(reply: Fetched<Option<i64>>) -> int {
    match reply {
        Fetched::Row(column) => number_or(column, 0),
        _ => 0,
    }
}

/// The count that a reply holds in its first row.
pub fn count_of(reply: Fetched<Option<i64>>) -> (count: i32)
    ensures
        count == count_in(reply),
        reply matches Fetched::Row(Some(number)) ==> i32::MIN <= number <= i32::MAX ==> count
            == number,
        reply matches Fetched::Row(None) ==> count == 0,
        !(reply is Row) ==> count == 0,
{
    match reply {
        Fetched::Row(column) => column_number(column, 0),
        _ => 0,
    }
}

// ---- query ----

/// How many facts a query asks for: the number in the request if positive, else five.
pub open spec fn effective_top_k(top_k: int) -> int {
    if top_k > 0 {
        top_k
    } else {
        5
    }
}

/// The search that a query sends.
pub open spec fn query_statement(top_k: int, embedding: Seq<Real32>) -> StatementView {
    StatementView {
        text: cypher::QUERY_BEFORE_TOP_K@ + text::decimal(effective_top_k(top_k) as nat)
            + cypher::QUERY_AFTER_TOP_K@,
        params: seq![("embedding"@, ValueView::Vector(embedding))],
    }
}

/// The search that a query sends.
pub fn query(top_k: i32, embedding: &[Real32]) -> (statement: Statement)
    ensures
        statement@ == query_statement(top_k as int, embedding@),
{
    let count: u32 = if top_k > 0 {
        top_k as u32
    } else {
        5
    };
    let mut query_text = cypher::QUERY_BEFORE_TOP_K.to_owned();
    text::push_decimal(&mut query_text, count);
    query_text.append(cypher::QUERY_AFTER_TOP_K);
    let statement = Statement::new(query_text.as_str()).with(
        "embedding",
        Value::Vector(vstd::slice::slice_to_vec(embedding)),
    );
    proof {
        assert(statement@ =~= query_statement(top_k as int, embedding@));
    }
    statement
}

/// A row of a query's reply. A column that is missing or of another type is `None`.
#[derive(Debug)]
pub struct NodeRow {
    pub id: Option<String>,
    pub content: Option<String>,
    pub score: Option<Real32>,
}

/// A fact that a query has found.
#[derive(Debug)]
pub struct NodeResult {
    pub id: String,
    pub content: String,
    pub score: Real32,
}

/// What a found fact holds.
#[verifier::ext_equal]
pub struct NodeResultView {
    pub id: Seq<char>,
    pub content: Seq<char>,
    pub score: Real32,
}

impl View for NodeResult {
    type V = NodeResultView;

    open spec fn view(&self) -> NodeResultView {
        NodeResultView { id: self.id@, content: self.content@, score: self.score }
    }
}

/// The fact that a row describes: a missing text is empty, a missing score is 0.
pub open spec fn result_of_row(row: NodeRow) -> NodeResultView {
    NodeResultView {
        id: rows::text_or_empty(row.id),
        content: rows::text_or_empty(row.content),
        score: match row.score {
            Some(score) => score,
            None => Real32 { bits: 0 },
        },
    }
}

/// The facts of a list.
pub open spec fn result_views(results: Seq<NodeResult>) -> Seq<NodeResultView> {
    results.map_values(|result: NodeResult| result@)
}

/// One more use of a fact that a query has found.
pub open spec fn touch_statement(id: Seq<char>) -> StatementView {
    StatementView { text: cypher::TOUCH_NODE@, params: seq![("id"@, ValueView::Text(id))] }
}

/// Takes the next row of a query's reply into account. A row becomes a result, and its fact is
/// to be marked as used by the statement returned, whose own outcome does not matter; the end of
/// the rows and a failure alike complete the answer.
pub fn answer_row(results: &mut Vec<NodeResult>, fetched: Fetched<NodeRow>) -> (touch: Option<
    Statement,
>)
    ensures
        match fetched {
            Fetched::Row(row) => {
                &&& result_views(final(results)@) == result_views(old(results)@).push(
                    result_of_row(row),
                )
                &&& touch is Some
                &&& touch->0@ == touch_statement(result_of_row(row).id)
            },
            _ => final(results)@ == old(results)@ && touch is None,
        },
{
    match fetched {
        Fetched::Row(row) => {
            let result = NodeResult {
                id: rows::column_text(row.id),
                content: rows::column_text(row.content),
                score: match row.score {
                    Some(score) => score,
                    None => Real32 { bits: 0 },
                },
            };
            let touch = Statement::new(cypher::TOUCH_NODE).with(
                "id",
                Value::Text(result.id.clone()),
            );
            proof {
                assert(touch@ =~= touch_statement(result@.id));
                assert(result@ =~= result_of_row(row));
                assert(result_views(results@.push(result)) =~= result_views(results@).push(
                    result@,
                ));
            }
            results.push(result);
            Some(touch)
        },
        _ => None,
    }
}

/// The answer to a query whose reply was fetched so.
pub open spec fn query_answer(fetched: Seq<Fetched<NodeRow>>) -> Seq<NodeResultView> {
    rows::rows_kept(fetched).map_values(|row: NodeRow| result_of_row(row))
}

/// The statements that mark the facts of an answer as used.
pub open spec fn touches_of(answer: Seq<NodeResultView>) -> Seq<StatementView> {
    answer.map_values(|result: NodeResultView| touch_statement(result.id))
}

/// Answering row by row gives one result per row read, in the order of the rows, and marks each
/// of these facts as used, once; what would follow an end or a failure is not read.
pub proof fn law_query_answers_row_by_row(
    fetched: Seq<Fetched<NodeRow>>,
    next: Fetched<NodeRow>,
    unread: Seq<Fetched<NodeRow>>,
)
    requires
        forall|i: int| 0 <= i < fetched.len() ==> #[trigger] fetched[i] is Row,
    ensures
        query_answer(fetched).len() == fetched.len(),
        next matches Fetched::Row(row) ==> {
            &&& query_answer(fetched.push(next)) == query_answer(fetched).push(result_of_row(row))
            &&& touches_of(query_answer(fetched.push(next))) == touches_of(
                query_answer(fetched),
            ).push(touch_statement(result_of_row(row).id))
        },
        !(next is Row) ==> query_answer(fetched.push(next) + unread) == query_answer(fetched),
{
    rows::law_rows_kept_one_by_one(fetched, next, unread);
    if next is Row {
        assert(query_answer(fetched.push(next)) =~= query_answer(fetched).push(
            result_of_row(next->Row_0),
        ));
        assert(touches_of(query_answer(fetched.push(next))) =~= touches_of(
            query_answer(fetched),
        ).push(touch_statement(result_of_row(next->Row_0).id)));
    }
}

// ---- ingest ----

/// The answer to an ingested fact.
#[derive(Debug)]
pub struct IngestResponse {
    pub action: String,
    pub node_id: String,
}

/// What was done with a fact, in a word.
pub open spec fn action_of(result: ResultView) -> Seq<char> {
    match result {
        ResultView::Merged { .. } => "merged"@,
        ResultView::Related { .. } => "related"@,
        ResultView::Inserted { .. } => "inserted"@,
        ResultView::Discarded { .. } => "discarded"@,
    }
}

/// The node that a fact ended up in.
pub open spec fn node_of(result: ResultView) -> Seq<char> {
    match result {
        ResultView::Merged { node_id } => node_id,
        ResultView::Related { new_id, .. } => new_id,
        ResultView::Inserted { node_id } => node_id,
        ResultView::Discarded { node_id } => node_id,
    }
}

/// The answer to an ingested fact.
pub fn ingest_response(result: ConsolidationResult) -> (response: IngestResponse)
    ensures
        response.action@ == action_of(result@),
        response.node_id@ == node_of(result@),
{
    match result {
        ConsolidationResult::Merged { node_id } => IngestResponse {
            action: "merged".to_owned(),
            node_id,
        },
        ConsolidationResult::Related { new_id, .. } => IngestResponse {
            action: "related".to_owned(),
            node_id: new_id,
        },
        ConsolidationResult::Inserted { node_id } => IngestResponse {
            action: "inserted".to_owned(),
            node_id,
        },
        ConsolidationResult::Discarded { node_id } => IngestResponse {
            action: "discarded".to_owned(),
            node_id,
        },
    }
}

/// An ingested fact is answered with the node that was created for it, if one was, and else with
/// the nearest one; and the action tells these apart.
pub proof fn law_ingest_reports_the_node(
    best: CandidateView,
    new_id: Seq<char>,
    incoming: Seq<char>,
    embedding: Seq<Real32>,
    candidates: Seq<CandidateView>,
    relate: Real32,
)
    ensures
        ({
            let discarded = consolidation::discarding(best);
            let merged = consolidation::merging(best, incoming, embedding);
            let related = consolidation::relating(new_id, incoming, embedding, candidates, relate);
            let inserted = consolidation::inserting(new_id, incoming, embedding);
            &&& node_of(discarded.result) == best.id
            &&& node_of(merged.result) == best.id
            &&& consolidation_laws::created_ids(related.steps) == seq![
                ValueView::Text(node_of(related.result)),
            ]
            &&& consolidation_laws::created_ids(inserted.steps) == seq![
                ValueView::Text(node_of(inserted.result)),
            ]
            &&& action_of(discarded.result) == "discarded"@
            &&& action_of(merged.result) == "merged"@
            &&& action_of(related.result) == "related"@
            &&& action_of(inserted.result) == "inserted"@
        }),
{
    consolidation_laws::law_inserting_creates_one_node(new_id, incoming, embedding);
    consolidation_laws::law_relating_creates_one_node(
        new_id,
        incoming,
        embedding,
        candidates,
        relate,
    );
}

// ---- statistics ----

/// The size of the graph.
#[derive(Clone, Copy, PartialEq, Eq, Structural, Debug)]
pub struct StatsResponse {
    pub total_nodes: i32,
    pub total_edges: i32,
    pub forgotten_nodes: i32,
}

/// Asks for the number of facts.
pub fn count_nodes() -> (statement: Statement)
    ensures
        statement@ == (StatementView { text: cypher::COUNT_NODES@, params: seq![] }),
{
    Statement::new(cypher::COUNT_NODES)
}

/// Asks for the number of edges.
pub fn count_edges() -> (statement: Statement)
    ensures
        statement@ == (StatementView { text: cypher::COUNT_EDGES@, params: seq![] }),
{
    Statement::new(cypher::COUNT_EDGES)
}

/// The size of the graph, from the first rows of the two counts. No fact is ever forgotten.
pub fn stats_response(nodes: Fetched<Option<i64>>, edges: Fetched<Option<i64>>) -> (response:
    StatsResponse)
    ensures
        response.total_nodes == count_in(nodes),
        response.total_edges == count_in(edges),
        response.forgotten_nodes == 0,
{
    StatsResponse {
        total_nodes: count_of(nodes),
        total_edges: count_of(edges),
        forgotten_nodes: 0,
    }
}

// ---- listing ----

/// The size of a page: the limit in the request if positive, else fifty.
pub open spec fn page_size(limit: int) -> int {
    if limit > 0 {
        limit
    } else {
        50
    }
}

/// How many facts a page skips: the offset in the request, and none where it is negative.
pub open spec fn page_start(offset: int) -> int {
    if offset > 0 {
        offset
    } else {
        0
    }
}

/// The request for a page of facts.
pub open spec fn list_statement(limit: int, offset: int) -> StatementView {
    StatementView {
        text: cypher::LIST_NODES@,
        params: seq![
            ("offset"@, ValueView::Integer(page_start(offset))),
            ("limit"@, ValueView::Integer(page_size(limit))),
        ],
    }
}

/// The request for a page of facts.
pub fn list_nodes(limit: i32, offset: i32) -> (statement: Statement)
    ensures
        statement@ == list_statement(limit as int, offset as int),
{
    let size: i64 = if limit > 0 {
        limit as i64
    } else {
        50
    };
    let start: i64 = if offset > 0 {
        offset as i64
    } else {
        0
    };
    let statement = Statement::new(cypher::LIST_NODES).with("offset", Value::Integer(start)).with(
        "limit",
        Value::Integer(size),
    );
    proof {
        assert(statement@ =~= list_statement(limit as int, offset as int));
    }
    statement
}

/// Whatever a request holds, a page has room for a fact and starts at no negative place.
pub proof fn law_pages_are_sensible(limit: int, offset: int)
    ensures
        page_size(limit) >= 1,
        page_start(offset) >= 0,
        limit >= 1 ==> page_size(limit) == limit,
        offset >= 0 ==> page_start(offset) == offset,
{
}

/// Asks for the number of facts, for paging.
pub fn count_total() -> (statement: Statement)
    ensures
        statement@ == (StatementView { text: cypher::COUNT_TOTAL@, params: seq![] }),
{
    Statement::new(cypher::COUNT_TOTAL)
}

/// A row of a page. A column that is missing or of another type is `None`.
#[derive(Debug)]
pub struct NodeInfoRow {
    pub id: Option<String>,
    pub content: Option<String>,
    pub uso_count: Option<i64>,
    pub merge_count: Option<i64>,
    pub created_at: Option<i64>,
    pub last_accessed: Option<i64>,
    pub degree: Option<i64>,
}

/// A fact of a page, without its embedding.
#[derive(Debug)]
pub struct NodeInfo {
    pub id: String,
    pub content: String,
    pub uso_count: i32,
    pub merge_count: i32,
    pub created_at: i64,
    pub last_accessed: i64,
    pub degree: i32,
}

/// What a fact of a page holds.
#[verifier::ext_equal]
pub struct NodeInfoView {
    pub id: Seq<char>,
    pub content: Seq<char>,
    pub uso_count: int,
    pub merge_count: int,
    pub created_at: int,
    pub last_accessed: int,
    pub degree: int,
}

impl View for NodeInfo {
    type V = NodeInfoView;

    open spec fn view(&self) -> NodeInfoView {
        NodeInfoView {
            id: self.id@,
            content: self.content@,
            uso_count: self.uso_count as int,
            merge_count: self.merge_count as int,
            created_at: self.created_at as int,
            last_accessed: self.last_accessed as int,
            degree: self.degree as int,
        }
    }
}

/// The fact that a row describes: a missing text is empty, a missing use count is 1 and any
/// other missing number is 0. Counts are brought into 32 bits.
pub open spec fn info_of_row(row: NodeInfoRow) -> NodeInfoView {
    NodeInfoView {
        id: rows::text_or_empty(row.id),
        content: rows::text_or_empty(row.content),
        uso_count: number_or(row.uso_count, 1),
        merge_count: number_or(row.merge_count, 0),
        created_at: long_or(row.created_at, 0) as int,
        last_accessed: long_or(row.last_accessed, 0) as int,
        degree: number_or(row.degree, 0),
    }
}

/// The fact that a row describes.
pub fn node_info(row: NodeInfoRow) -> (info: NodeInfo)
    ensures
        info@ == info_of_row(row),
{
    NodeInfo {
        id: rows::column_text(row.id),
        content: rows::column_text(row.content),
        uso_count: column_number(row.uso_count, 1),
        merge_count: column_number(row.merge_count, 0),
        created_at: match row.created_at {
            Some(time) => time,
            None => 0,
        },
        last_accessed: match row.last_accessed {
            Some(time) => time,
            None => 0,
        },
        degree: column_number(row.degree, 0),
    }
}

/// Takes the next row of a page into account: a row is added to the page and reading goes on,
/// and the end of the rows and a failure alike complete the page.
pub fn list_row(nodes: &mut Vec<NodeInfo>, fetched: Fetched<NodeInfoRow>) -> (more: bool)
    ensures
        more == (fetched is Row),
        info_views(final(nodes)@) == match fetched {
            Fetched::Row(row) => info_views(old(nodes)@).push(info_of_row(row)),
            _ => info_views(old(nodes)@),
        },
{
    match fetched {
        Fetched::Row(row) => {
            let info = node_info(row);
            proof {
                assert(info_views(nodes@.push(info)) =~= info_views(nodes@).push(info@));
            }
            nodes.push(info);
            true
        },
        _ => false,
    }
}

/// The facts of a page.
pub open spec fn info_views(nodes: Seq<NodeInfo>) -> Seq<NodeInfoView> {
    nodes.map_values(|info: NodeInfo| info@)
}

/// The page of which the reply was fetched so.
pub open spec fn page_read(fetched: Seq<Fetched<NodeInfoRow>>) -> Seq<NodeInfoView> {
    rows::rows_kept(fetched).map_values(|row: NodeInfoRow| info_of_row(row))
}

/// Reading a page row by row gives one fact per row read, in the order of the rows; what would
/// follow an end or a failure is not read.
pub proof fn law_pages_are_read_row_by_row(
    fetched: Seq<Fetched<NodeInfoRow>>,
    next: Fetched<NodeInfoRow>,
    unread: Seq<Fetched<NodeInfoRow>>,
)
    requires
        forall|i: int| 0 <= i < fetched.len() ==> #[trigger] fetched[i] is Row,
    ensures
        page_read(fetched).len() == fetched.len(),
        next matches Fetched::Row(row) ==> page_read(fetched.push(next)) == page_read(
            fetched,
        ).push(info_of_row(row)),
        !(next is Row) ==> page_read(fetched.push(next) + unread) == page_read(fetched),
{
    rows::law_rows_kept_one_by_one(fetched, next, unread);
    if next is Row {
        assert(page_read(fetched.push(next)) =~= page_read(fetched).push(
            info_of_row(next->Row_0),
        ));
    }
}

/// A page of facts, and how many there are in all.
#[derive(Debug)]
pub struct ListResponse {
    pub nodes: Vec<NodeInfo>,
    pub total: i32,
}

/// The answer to the request for a page: its facts, and the total from the first row of the
/// count.
pub fn list_response(nodes: Vec<NodeInfo>, total: Fetched<Option<i64>>) -> (response: ListResponse)
    ensures
        response.nodes@ == nodes@,
        response.total == count_in(total),
{
    ListResponse { nodes, total: count_of(total) }
}

// ---- editing ----

/// The edit of a fact: text and embedding together, so that the index stays in step.
pub open spec fn update_statement(
    id: Seq<char>,
    content: Seq<char>,
    embedding: Seq<Real32>,
) -> StatementView {
    StatementView {
        text: cypher::UPDATE_NODE@,
        params: seq![
            ("id"@, ValueView::Text(id)),
            ("content"@, ValueView::Text(content)),
            ("embedding"@, ValueView::Vector(embedding)),
        ],
    }
}

/// The edit of a fact.
pub fn update_node(id: &str, text: &str, embedding: &[Real32]) -> (statement: Statement)
    ensures
        statement@ == update_statement(id@, text@, embedding@),
{
    let statement = Statement::new(cypher::UPDATE_NODE).with("id", Value::Text(id.to_owned())).with(
        "content",
        Value::Text(text.to_owned()),
    ).with("embedding", Value::Vector(vstd::slice::slice_to_vec(embedding)));
    proof {
        assert(statement@ =~= update_statement(id@, text@, embedding@));
    }
    statement
}

/// The answer to an edit.
#[derive(Debug)]
pub struct UpdateResponse {
    pub success: bool,
    pub id: String,
}

/// The answer to an edit of the fact `id`: without a row in the reply there was no such fact.
pub fn update_response<T>(id: String, reply: Fetched<T>) -> (response: UpdateResponse)
    ensures
        response.success == (reply is Row),
        response.id@ == id@,
{
    let success = match reply {
        Fetched::Row(_) => true,
        _ => false,
    };
    UpdateResponse { success, id }
}

// ---- deleting ----

/// The removal of a fact.
pub open spec fn delete_statement(id: Seq<char>) -> StatementView {
    StatementView { text: cypher::DELETE_NODE@, params: seq![("id"@, ValueView::Text(id))] }
}

/// The removal of a fact.
pub fn delete_node(id: &str) -> (statement: Statement)
    ensures
        statement@ == delete_statement(id@),
{
    let statement = Statement::new(cypher::DELETE_NODE).with("id", Value::Text(id.to_owned()));
    proof {
        assert(statement@ =~= delete_statement(id@));
    }
    statement
}

/// The answer to a removal.
#[derive(Clone, Copy, PartialEq, Eq, Structural, Debug)]
pub struct DeleteResponse {
    pub success: bool,
    pub deleted_edges: i32,
}

/// The answer to a removal: without a row in the reply there was no such fact, and no edge went
/// with it.
pub fn delete_response(reply: Fetched<Option<i64>>) -> (response: DeleteResponse)
    ensures
        response.success == (reply is Row),
        response.deleted_edges == count_in(reply),
{
    match reply {
        Fetched::Row(column) => DeleteResponse {
            success: true,
            deleted_edges: column_number(column, 0),
        },
        _ => DeleteResponse { success: false, deleted_edges: 0 },
    }
}

} // verus!
