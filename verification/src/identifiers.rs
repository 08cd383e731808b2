//! The parts of identifiers that the pipelines read.

use vstd::prelude::*;
use vstd::string::*;

verus! {

/// The server part of an identifier: what follows its first colon; empty
/// where it has no colon.
pub open spec fn server_part(id: Seq<char>) -> Seq<char> {
    match id.index_of_first(':') {
        Some(i) => id.subrange(i + 1, id.len() as int),
        None => Seq::empty(),
    }
}

/// The server part of an identifier.
pub fn server_name_of(id: &String) -> (r: String)
    ensures
        r@ == server_part(id@),
{
    let s = id.as_str();
    let n = s.unicode_len();
    let mut i: usize = 0;
    while i < n
        invariant
            i <= n,
            n == s@.len(),
            s@ == id@,
            forall|j: int| 0 <= j < i ==> id@[j] != ':',
        decreases n - i,
    {
        if s.get_char(i) == ':' {
            proof {
                id@.index_of_first_ensures(':');
            }
            return s.substring_char(i + 1, n).to_owned();
        }
        i += 1;
    }
    proof {
        id@.index_of_first_ensures(':');
    }
    String::new()
}

/// Whether a text begins with the sign of user identifiers.
pub open spec fn has_user_sigil(s: Seq<char>) -> bool {
    s.len() > 0 && s[0] == '@'
}

/// Whether a text begins with the sign of user identifiers.
pub fn starts_with_user_sigil(s: &String) -> (b: bool)
    ensures
        b == has_user_sigil(s@),
{
    let t = s.as_str();
    t.unicode_len() > 0 && t.get_char(0) == '@'
}

} // verus!
