//! Identifiers drawn at random.
use vstd::prelude::*;

use crate::outside::fresh_id;

verus! {

/// Whether `c` is a digit or one of the letters `a` to `f`.
pub open spec fn is_lower_hex(c: char) -> bool {
    '0' <= c <= '9' || 'a' <= c <= 'f'
}

/// Whether `s` is a random UUID in its hyphenated form: groups of 8, 4, 4, 4
/// and 12 lower-case hexadecimal digits, of which the third begins with the
/// version 4 and the fourth with the variant.
pub open spec fn is_random_uuid(s: Seq<char>) -> bool {
    &&& s.len() == 36
    &&& forall|i: int|
        0 <= i < 36 ==> if i == 8 || i == 13 || i == 18 || i == 23 {
            #[trigger] s[i] == '-'
        } else {
            is_lower_hex(s[i])
        }
    &&& s[14] == '4'
    &&& s[19] == '8' || s[19] == '9' || s[19] == 'a' || s[19] == 'b'
}

/// Draws `n` identifiers, each with `fresh_id`.
pub fn fresh_ids(n: usize) -> (r: Vec<String>)
    ensures
        r@.len() == n,
        forall|i: int| 0 <= i < n ==> is_random_uuid(#[trigger] r@[i]@),
        forall|i: int| 0 <= i < n ==> call_ensures(fresh_id, (), #[trigger] r@[i]),
{
    let mut ids: Vec<String> = Vec::new();
    while ids.len() < n
        invariant
            ids@.len() <= n,
            forall|i: int| 0 <= i < ids@.len() ==> is_random_uuid(#[trigger] ids@[i]@),
            forall|i: int| 0 <= i < ids@.len() ==> call_ensures(fresh_id, (), #[trigger] ids@[i]),
        decreases n - ids@.len(),
    {
        ids.push(fresh_id());
    }
    ids
}

/// A random UUID is 36 characters long, with hyphens after 8, 12, 16 and 20
/// hexadecimal digits in lower case, and says that it is random.
pub proof fn law_random_uuids_are_hyphenated(s: Seq<char>, i: int)
    requires
        is_random_uuid(s),
        0 <= i < 36,
    ensures
        s.len() == 36,
        i == 8 || i == 13 || i == 18 || i == 23 <==> s[i] == '-',
        s[i] != '-' ==> '0' <= s[i] <= '9' || 'a' <= s[i] <= 'f',
        s[14] == '4',
        s[19] == '8' || s[19] == '9' || s[19] == 'a' || s[19] == 'b',
{
    assert(s[8] == '-' && s[13] == '-' && s[18] == '-' && s[23] == '-');
}

/// As many identifiers are drawn as are asked for, each a random UUID.
pub proof fn law_identifiers_are_random(n: usize, ids: Vec<String>, i: int)
    requires
        call_ensures(fresh_ids, (n,), ids),
    ensures
        ids@.len() == n,
        0 <= i < n ==> is_random_uuid(ids@[i]@) && ids@[i]@.len() == 36,
{
}

}
