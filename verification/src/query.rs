//! Query normalization for the picker: leading whitespace is stripped before
//! a query is handed to the match engine, and the "smart case" hint is
//! derived from it — the search is case-sensitive exactly when the query
//! contains an uppercase character.

use vstd::prelude::*;

verus! {

use vstd::std_specs::iter::IteratorSpec;

/// Whether the character has the Unicode uppercase property, as
/// `char::is_uppercase` decides it.
pub uninterp spec fn is_upper_char(c: char) -> bool;

/// The string with its leading Unicode whitespace removed, as
/// `str::trim_start` computes it.
pub uninterp spec fn trim_start_of(s: Seq<char>) -> Seq<char>;

/// Relies on char::is_uppercase: whether the character has the Unicode
/// uppercase property; the result depends on the character alone.
#[verifier::external_body]
fn char_is_uppercase(c: char) -> (r: bool)
    ensures
        r == is_upper_char(c),
{
    c.is_uppercase()
}

/// Relies on str::trim_start: returns the slice with leading Unicode
/// whitespace removed; the result depends on the characters alone.
#[verifier::external_body]
pub(crate) fn str_trim_start(s: &str) -> (r: &str)
    ensures
        r@ == trim_start_of(s@),
{
    s.trim_start()
}

/// The query contains at least one uppercase character.
pub open spec fn has_uppercase(s: Seq<char>) -> bool {
    exists|i: int| 0 <= i < s.len() && is_upper_char(s[i])
}

/// Scans the query for an uppercase character; true triggers case-sensitive
/// matching ("smart case").
pub fn contains_uppercase(s: &str) -> (r: bool)
    ensures
        r == has_uppercase(s@),
{
    let mut it = s.chars();
    let mut found = false;
    let ghost mut idx: int = 0;
    loop
        invariant
            0 <= idx <= s@.len(),
            it.remaining() =~= s@.skip(idx),
            found == exists|i: int| 0 <= i < idx && is_upper_char(s@[i]),
        ensures
            found == has_uppercase(s@),
        decreases s@.len() - idx,
    {
        match it.next() {
            None => {
                assert(s@.skip(idx).len() == 0);
                assert(idx == s@.len());
                break;
            },
            Some(c) => {
                assert(c == s@[idx]);
                if char_is_uppercase(c) {
                    found = true;
                }
                proof {
                    idx = idx + 1;
                    assert(it.remaining() =~= s@.skip(idx));
                }
            },
        }
    }
    found
}

} // verus!
