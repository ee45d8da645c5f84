//! Identifiers of new nodes.

use vstd::prelude::*;

verus! {

/// Whether `c` is a hexadecimal digit in lower case.
pub open spec fn is_hex_digit(c: char) -> bool {
    '0' <= c <= '9' || 'a' <= c <= 'f'
}

/// Whether `id` is a random (version 4) UUID in its hyphenated form.
pub open spec fn is_random_uuid(id: Seq<char>) -> bool {
    &&& id.len() == 36
    &&& forall|i: int|
        0 <= i < 36 ==> if i == 8 || i == 13 || i == 18 || i == 23 {
            #[trigger] id[i] == '-'
        } else {
            is_hex_digit(id[i])
        }
    &&& id[14] == '4'
    &&& id[19] == '8' || id[19] == '9' || id[19] == 'a' || id[19] == 'b'
}

/// `uuid::Uuid::new_v4`, written out. Claimed of it: whatever the random bits, the result is a
/// version 4 UUID with the standard variant, hyphenated, in lower case. That two results differ
/// is a matter of chance and is not claimed. The call panics where the operating system gives
/// no random bytes.
#[verifier::external_body]
pub(crate) fn random_uuid() -> (id: String)
    ensures
        is_random_uuid(id@),
{
    uuid::Uuid::new_v4().to_string()
}

/// There are identifiers of this form.
pub proof fn lemma_there_is_an_identifier()
    ensures
        exists|id: Seq<char>| #[trigger] is_random_uuid(id),
{
    let id = Seq::new(
        36,
        |i: int|
            if i == 8 || i == 13 || i == 18 || i == 23 {
                '-'
            } else if i == 14 {
                '4'
            } else if i == 19 {
                '8'
            } else {
                '0'
            },
    );
    assert(is_random_uuid(id));
}

} // verus!
