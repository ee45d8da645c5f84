//! What holds of the requests and the answers, whatever they hold.

use vstd::prelude::*;
use crate::cypher;
use crate::real32::Real32;
use crate::rows;
use crate::rows::Fetched;
use crate::service;
use crate::service::{NodeInfoRow, NodeRow};
use crate::statement;
use crate::statement::ValueView;
use crate::text;

verus! {

// ---- numbers in replies ----

/// A number brought into 32 bits fits there, and differs from what it was by whole turns of the
/// 32-bit range.
pub proof fn law_wrapping_keeps_the_lower_half(value: int)
    ensures
        i32::MIN <= service::wrapped_to_i32(value) <= i32::MAX,
        (value - service::wrapped_to_i32(value)) % 0x1_0000_0000 == 0,
{
}

/// A count is the number in the first row; without a row, or without a number in it, it is 0.
pub proof fn law_count_is_the_number_in_the_row(reply: Fetched<Option<i64>>)
    ensures
        reply matches Fetched::Row(Some(number)) ==> {
            &&& i32::MIN <= number <= i32::MAX ==> service::count_in(reply) == number
            &&& (number - service::count_in(reply)) % 0x1_0000_0000 == 0
        },
        reply matches Fetched::Row(None) ==> service::count_in(reply) == 0,
        !(reply is Row) ==> service::count_in(reply) == 0,
        i32::MIN <= service::count_in(reply) <= i32::MAX,
{
}

// ---- query ----

/// The number of facts that a query asks for, as it stands in the text of the search.
pub open spec fn digits_asked(text: Seq<char>) -> Seq<char> {
    text.subrange(
        cypher::QUERY_BEFORE_TOP_K@.len() as int,
        text.len() - cypher::QUERY_AFTER_TOP_K@.len(),
    )
}

/// A query asks for the number in the request: it stands in the text of the search, in decimal
/// digits and without leading zeros. A request for no facts, or for fewer, asks for five. The
/// search is for the embedding of the request.
pub proof fn law_query_asks_for_the_number(top_k: int, embedding: Seq<Real32>)
    ensures
        ({
            let statement = service::query_statement(top_k, embedding);
            let digits = digits_asked(statement.text);
            &&& statement.text == cypher::QUERY_BEFORE_TOP_K@ + digits + cypher::QUERY_AFTER_TOP_K@
            &&& digits.len() > 0
            &&& digits[0] != '0'
            &&& forall|i: int| 0 <= i < digits.len() ==> '0' <= #[trigger] digits[i] <= '9'
            &&& top_k >= 1 ==> text::decimal_value(digits) == top_k
            &&& top_k <= 0 ==> text::decimal_value(digits) == 5
            &&& statement.params.len() == 1
            &&& statement::binds(statement, "embedding"@, ValueView::Vector(embedding))
        }),
{
    let statement = service::query_statement(top_k, embedding);
    let number = service::effective_top_k(top_k) as nat;
    text::law_decimal_reads_back(number);
    assert(digits_asked(statement.text) =~= text::decimal(number));
    assert(statement.params[0] == ("embedding"@, ValueView::Vector(embedding)));
}

/// Requests for different numbers of facts send different searches, and so do requests with
/// different embeddings.
pub proof fn law_different_queries_differ(
    a_top_k: int,
    a_embedding: Seq<Real32>,
    b_top_k: int,
    b_embedding: Seq<Real32>,
)
    ensures
        a_top_k >= 1 && b_top_k >= 1 && a_top_k != b_top_k ==> service::query_statement(
            a_top_k,
            a_embedding,
        ).text != service::query_statement(b_top_k, b_embedding).text,
        a_embedding != b_embedding ==> service::query_statement(a_top_k, a_embedding)
            != service::query_statement(b_top_k, b_embedding),
{
    law_query_asks_for_the_number(a_top_k, a_embedding);
    law_query_asks_for_the_number(b_top_k, b_embedding);
    if a_embedding != b_embedding {
        statement::law_a_parameter_has_one_value(
            service::query_statement(a_top_k, a_embedding),
            service::query_statement(b_top_k, b_embedding),
            "embedding"@,
            ValueView::Vector(a_embedding),
            ValueView::Vector(b_embedding),
        );
    }
}

/// A found fact holds the columns of its row, each its own; a missing text is empty, and a missing
/// score is 0.
pub proof fn law_found_fact_holds_the_columns(row: NodeRow)
    ensures
        ({
            let found = service::result_of_row(row);
            &&& row.id matches Some(id) ==> found.id == id@
            &&& row.content matches Some(content) ==> found.content == content@
            &&& row.score matches Some(score) ==> found.score == score
            &&& row.id is None ==> found.id.len() == 0
            &&& row.content is None ==> found.content.len() == 0
            &&& row.score is None ==> !found.score.is_nan() && found.score.value() == 0
        }),
{
}

/// Marking a fact as used names that fact and sets nothing else.
pub proof fn law_touching_binds_the_fact(id: Seq<char>)
    ensures
        service::touch_statement(id).text == cypher::TOUCH_NODE@,
        service::touch_statement(id).params.len() == 1,
        statement::binds(service::touch_statement(id), "id"@, ValueView::Text(id)),
{
    assert(service::touch_statement(id).params[0] == ("id"@, ValueView::Text(id)));
}

/// The answer to a query has one fact per row, in the order of the rows, and each of them is
/// marked as used under the identifier in its row.
pub proof fn law_each_found_fact_is_touched(fetched: Seq<Fetched<NodeRow>>, i: int)
    requires
        forall|j: int| 0 <= j < fetched.len() ==> #[trigger] fetched[j] is Row,
        0 <= i < fetched.len(),
    ensures
        ({
            let answer = service::query_answer(fetched);
            let touches = service::touches_of(answer);
            let row = fetched[i]->Row_0;
            &&& answer.len() == fetched.len()
            &&& touches.len() == fetched.len()
            &&& row.id matches Some(id) ==> answer[i].id == id@ && statement::binds(
                touches[i],
                "id"@,
                ValueView::Text(id@),
            )
            &&& row.content matches Some(content) ==> answer[i].content == content@
            &&& row.score matches Some(score) ==> answer[i].score == score
            &&& touches[i].text == cypher::TOUCH_NODE@
        }),
{
    rows::law_rows_kept_one_by_one(fetched, Fetched::End, seq![]);
    law_found_fact_holds_the_columns(fetched[i]->Row_0);
    law_touching_binds_the_fact(service::query_answer(fetched)[i].id);
}

// ---- listing ----

/// A page is asked for by its size and its start: those of the request where they are positive,
/// and else fifty facts from the first one on.
pub proof fn law_page_binds_what_is_asked(limit: int, offset: int)
    ensures
        ({
            let statement = service::list_statement(limit, offset);
            &&& statement.text == cypher::LIST_NODES@
            &&& statement.params.len() == 2
            &&& limit >= 1 ==> statement::binds(statement, "limit"@, ValueView::Integer(limit))
            &&& limit <= 0 ==> statement::binds(statement, "limit"@, ValueView::Integer(50))
            &&& offset >= 0 ==> statement::binds(statement, "offset"@, ValueView::Integer(offset))
            &&& offset <= 0 ==> statement::binds(statement, "offset"@, ValueView::Integer(0))
        }),
{
    reveal_strlit("limit");
    reveal_strlit("offset");
    assert("limit"@.len() == 5);
    assert("offset"@.len() == 6);
    let statement = service::list_statement(limit, offset);
    assert(statement.params[0].0 == "offset"@);
    assert(statement.params[1].0 == "limit"@);
}

/// A fact of a page holds the columns of its row, each its own, counts as far as they fit into
/// 32 bits; a missing text is empty, a missing use count is 1, and any other missing number is 0.
pub proof fn law_listed_fact_holds_the_columns(row: NodeInfoRow)
    ensures
        ({
            let info = service::info_of_row(row);
            &&& row.id matches Some(id) ==> info.id == id@
            &&& row.content matches Some(content) ==> info.content == content@
            &&& row.uso_count matches Some(count) ==> {
                &&& i32::MIN <= count <= i32::MAX ==> info.uso_count == count
                &&& (count - info.uso_count) % 0x1_0000_0000 == 0
            }
            &&& row.merge_count matches Some(count) ==> {
                &&& i32::MIN <= count <= i32::MAX ==> info.merge_count == count
                &&& (count - info.merge_count) % 0x1_0000_0000 == 0
            }
            &&& row.degree matches Some(count) ==> {
                &&& i32::MIN <= count <= i32::MAX ==> info.degree == count
                &&& (count - info.degree) % 0x1_0000_0000 == 0
            }
            &&& row.created_at matches Some(time) ==> info.created_at == time
            &&& row.last_accessed matches Some(time) ==> info.last_accessed == time
            &&& row.id is None ==> info.id.len() == 0
            &&& row.content is None ==> info.content.len() == 0
            &&& row.uso_count is None ==> info.uso_count == 1
            &&& row.merge_count is None ==> info.merge_count == 0
            &&& row.degree is None ==> info.degree == 0
            &&& row.created_at is None ==> info.created_at == 0
            &&& row.last_accessed is None ==> info.last_accessed == 0
        }),
{
}

// ---- editing and deleting ----

/// An edit sets the text and the embedding of the fact that it names to those of the request, and
/// nothing else.
pub proof fn law_update_binds_what_is_given(
    id: Seq<char>,
    content: Seq<char>,
    embedding: Seq<Real32>,
)
    ensures
        ({
            let statement = service::update_statement(id, content, embedding);
            &&& statement.text == cypher::UPDATE_NODE@
            &&& statement.params.len() == 3
            &&& statement::binds(statement, "id"@, ValueView::Text(id))
            &&& statement::binds(statement, "content"@, ValueView::Text(content))
            &&& statement::binds(statement, "embedding"@, ValueView::Vector(embedding))
        }),
{
    reveal_strlit("id");
    reveal_strlit("content");
    reveal_strlit("embedding");
    assert("id"@.len() == 2);
    assert("content"@.len() == 7);
    assert("embedding"@.len() == 9);
    let statement = service::update_statement(id, content, embedding);
    assert(statement.params[0] == ("id"@, ValueView::Text(id)));
    assert(statement.params[1] == ("content"@, ValueView::Text(content)));
    assert(statement.params[2] == ("embedding"@, ValueView::Vector(embedding)));
}

/// Edits that differ in the fact, in the text or in the embedding are different statements.
pub proof fn law_different_updates_differ(
    a_id: Seq<char>,
    a_content: Seq<char>,
    a_embedding: Seq<Real32>,
    b_id: Seq<char>,
    b_content: Seq<char>,
    b_embedding: Seq<Real32>,
)
    requires
        a_id != b_id || a_content != b_content || a_embedding != b_embedding,
    ensures
        service::update_statement(a_id, a_content, a_embedding) != service::update_statement(
            b_id,
            b_content,
            b_embedding,
        ),
{
    let a = service::update_statement(a_id, a_content, a_embedding);
    let b = service::update_statement(b_id, b_content, b_embedding);
    law_update_binds_what_is_given(a_id, a_content, a_embedding);
    law_update_binds_what_is_given(b_id, b_content, b_embedding);
    if a_id != b_id {
        statement::law_a_parameter_has_one_value(a, b, "id"@, ValueView::Text(a_id), ValueView::Text(b_id));
    } else if a_content != b_content {
        statement::law_a_parameter_has_one_value(
            a,
            b,
            "content"@,
            ValueView::Text(a_content),
            ValueView::Text(b_content),
        );
    } else {
        statement::law_a_parameter_has_one_value(
            a,
            b,
            "embedding"@,
            ValueView::Vector(a_embedding),
            ValueView::Vector(b_embedding),
        );
    }
}

/// A deletion names the fact that it removes and sets nothing else; deletions of different facts
/// differ.
pub proof fn law_deletion_binds_the_fact(id: Seq<char>, other: Seq<char>)
    ensures
        service::delete_statement(id).text == cypher::DELETE_NODE@,
        service::delete_statement(id).params.len() == 1,
        statement::binds(service::delete_statement(id), "id"@, ValueView::Text(id)),
        id != other ==> service::delete_statement(id) != service::delete_statement(other),
{
    assert(service::delete_statement(id).params[0] == ("id"@, ValueView::Text(id)));
    assert(service::delete_statement(other).params[0] == ("id"@, ValueView::Text(other)));
}

} // verus!
