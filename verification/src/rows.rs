//! Reading the rows of a reply.
//!
//! A reader takes one fetch after the other. A row is kept and the reader goes on; the end of the
//! rows and a failure alike stop it, with the rows that it has.

use vstd::prelude::*;

verus! {

/// What asking for the next row of a reply gave.
#[derive(Debug)]
pub enum Fetched<T> {
    Row(T),
    End,
    Failed,
}

/// The text of a column, empty where there is none.
pub open spec fn text_or_empty(column: Option<String>) -> Seq<char> {
    match column {
        Some(text) => text@,
        None => seq![],
    }
}

/// The text of a column, empty where there is none.
pub fn column_text(column: Option<String>) -> (text: String)
    ensures
        text@ == text_or_empty(column),
{
    match column {
        Some(text) => text,
        None => String::new(),
    }
}

/// The rows that a reader keeps of what it fetched: those before the first end or failure.
pub open spec fn rows_kept<T>(fetched: Seq<Fetched<T>>) -> Seq<T>
    decreases fetched.len(),
{
    if fetched.len() == 0 {
        seq![]
    } else {
        match fetched[0] {
            Fetched::Row(row) => seq![row] + rows_kept(fetched.drop_first()),
            _ => seq![],
        }
    }
}

/// Keeping rows one by one gives the rows before the first end or failure: a further row is
/// added at the end, and whatever follows an end or a failure is not read.
pub proof fn law_rows_kept_one_by_one<T>(
    fetched: Seq<Fetched<T>>,
    next: Fetched<T>,
    unread: Seq<Fetched<T>>,
)
    requires
        forall|i: int| 0 <= i < fetched.len() ==> #[trigger] fetched[i] is Row,
    ensures
        next is Row ==> rows_kept(fetched.push(next)) == rows_kept(fetched).push(next->Row_0),
        !(next is Row) ==> rows_kept(fetched.push(next) + unread) == rows_kept(fetched),
        rows_kept(fetched).len() == fetched.len(),
        forall|i: int|
            0 <= i < fetched.len() ==> rows_kept(fetched)[i] == (#[trigger] fetched[i])->Row_0,
    decreases fetched.len(),
{
    if fetched.len() == 0 {
        assert(fetched.push(next).drop_first() =~= seq![]);
        assert(rows_kept(fetched.push(next).drop_first()) =~= seq![]);
        assert((fetched.push(next) + unread)[0] == next);
        if next is Row {
            assert(rows_kept(fetched.push(next)) =~= rows_kept(fetched).push(next->Row_0));
        }
    } else {
        let rest = fetched.drop_first();
        assert(fetched[0] is Row);
        law_rows_kept_one_by_one(rest, next, unread);
        assert(fetched.push(next).drop_first() =~= rest.push(next));
        assert((fetched.push(next) + unread).drop_first() =~= rest.push(next) + unread);
        assert((fetched.push(next) + unread)[0] == fetched[0]);
        if next is Row {
            assert(rows_kept(fetched.push(next)) =~= rows_kept(fetched).push(next->Row_0));
        }
        assert forall|i: int| 0 <= i < fetched.len() implies rows_kept(fetched)[i] == (
        #[trigger] fetched[i])->Row_0 by {
            if i > 0 {
                assert(rest[i - 1] == fetched[i]);
            }
        }
    }
}

} // verus!
