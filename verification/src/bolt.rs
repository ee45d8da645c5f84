//! Statements as queries of the database driver.

use vstd::prelude::*;
use neo4rs::Query;
use crate::statement;
use crate::statement::{Statement, StatementView, Value, ValueView};

verus! {

/// The driver's query: a Cypher text and a map of named parameters.
#[verifier::external_type_specification]
#[verifier::external_body]
pub struct ExQuery(neo4rs::Query);

/// The Cypher text of a query.
pub uninterp spec fn query_text(query: Query) -> Seq<char>;

/// The parameters of a query that are texts.
pub uninterp spec fn query_texts(query: Query) -> Map<Seq<char>, Seq<char>>;

/// The parameters of a query that are integers.
pub uninterp spec fn query_integers(query: Query) -> Map<Seq<char>, int>;

/// `neo4rs::query`. Claimed of it: the query has the given text and no parameters.
#[verifier::external_body]
fn new_query(text: &str) -> (query: Query)
    ensures
        query_text(query) == text@,
        query_texts(query).dom() == Set::<Seq<char>>::empty(),
        query_integers(query).dom() == Set::<Seq<char>>::empty(),
{
    neo4rs::query(text)
}

/// `neo4rs::Query::param` with a text. Claimed of it: the parameter is set to the text, in place
/// of what it was before, and the rest of the query stays.
#[verifier::external_body]
fn with_text(query: Query, name: &str, value: &str) -> (extended: Query)
    ensures
        query_text(extended) == query_text(query),
        query_texts(extended) == query_texts(query).insert(name@, value@),
        query_integers(extended) == query_integers(query).remove(name@),
{
    query.param(name, value)
}

/// `neo4rs::Query::param` with an integer. Claimed of it: the parameter is set to the integer, in
/// place of what it was before, and the rest of the query stays.
#[verifier::external_body]
fn with_integer(query: Query, name: &str, value: i64) -> (extended: Query)
    ensures
        query_text(extended) == query_text(query),
        query_texts(extended) == query_texts(query).remove(name@),
        query_integers(extended) == query_integers(query).insert(name@, value as int),
{
    query.param(name, value)
}

/// The text parameters of a list, a later one in place of an earlier one of the same name.
pub open spec fn texts_of(params: Seq<(Seq<char>, ValueView)>) -> Map<Seq<char>, Seq<char>>
    decreases params.len(),
{
    if params.len() == 0 {
        Map::empty()
    } else {
        let before = texts_of(params.drop_last());
        match params.last().1 {
            ValueView::Text(text) => before.insert(params.last().0, text),
            ValueView::Integer(_) => before.remove(params.last().0),
            _ => before,
        }
    }
}

/// The integer parameters of a list, a later one in place of an earlier one of the same name.
pub open spec fn integers_of(params: Seq<(Seq<char>, ValueView)>) -> Map<Seq<char>, int>
    decreases params.len(),
{
    if params.len() == 0 {
        Map::empty()
    } else {
        let before = integers_of(params.drop_last());
        match params.last().1 {
            ValueView::Text(_) => before.remove(params.last().0),
            ValueView::Integer(number) => before.insert(params.last().0, number),
            _ => before,
        }
    }
}

/// The query for a statement, with its parameters that are texts or integers. Parameters made of
/// single-precision numbers are left for the caller to set.
pub fn query_of(statement: &Statement) -> (query: Query)
    ensures
        query_text(query) == statement@.text,
        query_texts(query) == texts_of(statement@.params),
        query_integers(query) == integers_of(statement@.params),
{
    let mut query = new_query(statement.text.as_str());
    let ghost params = statement@.params;
    let mut i: usize = 0;
    proof {
        assert(params.take(0) =~= seq![]);
        assert(query_texts(query) =~= texts_of(params.take(0)));
        assert(query_integers(query) =~= integers_of(params.take(0)));
    }
    while i < statement.params.len()
        invariant
            i <= statement.params.len(),
            params == statement@.params,
            query_text(query) == statement@.text,
            query_texts(query) == texts_of(params.take(i as int)),
            query_integers(query) == integers_of(params.take(i as int)),
        decreases statement.params.len() - i,
    {
        let (name, value) = &statement.params[i];
        proof {
            assert(params.take(i + 1).drop_last() =~= params.take(i as int));
            assert(params.take(i + 1).last() == (name@, value@));
        }
        match value {
            Value::Text(text) => {
                query = with_text(query, *name, text.as_str());
            },
            Value::Integer(number) => {
                query = with_integer(query, *name, *number);
            },
            _ => {},
        }
        i += 1;
    }
    proof {
        assert(params.take(params.len() as int) =~= params);
    }
    query
}

/// Each text and each integer that a statement sets reaches the query under its name, as what it is.
pub proof fn law_query_carries_what_the_statement_sets(statement: StatementView, name: Seq<char>)
    ensures
        forall|text: Seq<char>|
            statement::binds(statement, name, ValueView::Text(text)) ==> {
                &&& texts_of(statement.params).contains_key(name)
                &&& texts_of(statement.params)[name] == text
                &&& !integers_of(statement.params).contains_key(name)
            },
        forall|number: int|
            statement::binds(statement, name, ValueView::Integer(number)) ==> {
                &&& integers_of(statement.params).contains_key(name)
                &&& integers_of(statement.params)[name] == number
                &&& !texts_of(statement.params).contains_key(name)
            },
{
    assert forall|text: Seq<char>|
        statement::binds(statement, name, ValueView::Text(text)) implies texts_of(
        statement.params,
    ).contains_key(name) && texts_of(statement.params)[name] == text && !integers_of(
        statement.params,
    ).contains_key(name) by {
        lemma_parameter_is_carried(statement.params, name, ValueView::Text(text));
    }
    assert forall|number: int|
        statement::binds(statement, name, ValueView::Integer(number)) implies integers_of(
        statement.params,
    ).contains_key(name) && integers_of(statement.params)[name] == number && !texts_of(
        statement.params,
    ).contains_key(name) by {
        lemma_parameter_is_carried(statement.params, name, ValueView::Integer(number));
    }
}

/// What a statement does not set is not in the query either.
pub proof fn law_query_carries_nothing_else(
    params: Seq<(Seq<char>, ValueView)>,
    name: Seq<char>,
)
    requires
        forall|i: int| 0 <= i < params.len() ==> (#[trigger] params[i]).0 != name,
    ensures
        !texts_of(params).contains_key(name),
        !integers_of(params).contains_key(name),
    decreases params.len(),
{
    if params.len() > 0 {
        law_query_carries_nothing_else(params.drop_last(), name);
        assert(params[params.len() - 1].0 != name);
    }
}

/// A parameter that has one value is carried with that value.
proof fn lemma_parameter_is_carried(
    params: Seq<(Seq<char>, ValueView)>,
    name: Seq<char>,
    value: ValueView,
)
    requires
        exists|i: int| 0 <= i < params.len() && #[trigger] params[i] == (name, value),
        forall|i: int|
            0 <= i < params.len() && (#[trigger] params[i]).0 == name ==> params[i].1 == value,
        value is Text || value is Integer,
    ensures
        value matches ValueView::Text(text) ==> texts_of(params).contains_key(name) && texts_of(
            params,
        )[name] == text && !integers_of(params).contains_key(name),
        value matches ValueView::Integer(number) ==> integers_of(params).contains_key(name)
            && integers_of(params)[name] == number && !texts_of(params).contains_key(name),
    decreases params.len(),
{
    let firsts = params.drop_last();
    let i = choose|i: int| 0 <= i < params.len() && #[trigger] params[i] == (name, value);
    if params.last().0 == name {
        assert(params[params.len() - 1].1 == value);
    } else {
        assert(firsts[i] == (name, value));
        lemma_parameter_is_carried(firsts, name, value);
    }
}

} // verus!
