//! Character-level predicates on identifiers, and the std string searches
//! they rest on.

use vstd::prelude::*;
use vstd::std_specs::iter::IteratorSpec;

verus! {

/// `p` is a prefix of `s`.
pub open spec fn has_prefix(s: Seq<char>, p: Seq<char>) -> bool {
    p.len() <= s.len() && s.subrange(0, p.len() as int) == p
}

/// `p` occurs in `s` as a contiguous run of characters.
pub open spec fn has_infix(s: Seq<char>, p: Seq<char>) -> bool {
    exists|i: int| 0 <= i && i + p.len() <= s.len() && #[trigger] s.subrange(i, i + p.len()) == p
}

/// Relies on str::starts_with: true exactly when the pattern is a prefix of the text.
#[verifier::external_body]
pub(crate) fn starts_with(s: &str, p: &str) -> (r: bool)
    ensures
        r == has_prefix(s@, p@),
{
    s.starts_with(p)
}

/// Relies on str::contains: true exactly when the pattern occurs in the text.
#[verifier::external_body]
pub(crate) fn contains(s: &str, p: &str) -> (r: bool)
    ensures
        r == has_infix(s@, p@),
{
    s.contains(p)
}

/// Two character sequences that are prefixes of each other are equal.
pub proof fn lemma_mutual_prefix(a: Seq<char>, b: Seq<char>)
    ensures
        (has_prefix(a, b) && has_prefix(b, a)) <==> a == b,
{
    assert(a.subrange(0, a.len() as int) =~= a);
}

/// Text equality, decided by two prefix tests.
pub fn same_text(a: &str, b: &str) -> (r: bool)
    ensures
        r == (a@ == b@),
{
    proof {
        lemma_mutual_prefix(a@, b@);
    }
    starts_with(a, b) && starts_with(b, a)
}

/// The characters of a text, in order.
pub fn chars_of(s: &str) -> (r: Vec<char>)
    ensures
        r@ == s@,
{
    broadcast use vstd::string::group_string_axioms;

    let mut v: Vec<char> = Vec::new();
    let mut it = s.chars();
    loop
        invariant
            v@ + it.remaining() == s@,
            it.obeys_prophetic_iter_laws(),
            it.decrease() is Some,
        decreases it.decrease()->0,
    {
        let ghost before = it.remaining();
        match it.next() {
            Some(c) => {
                v.push(c);
                assert(v@ + it.remaining() =~= s@) by {
                    assert(before == seq![c] + it.remaining());
                }
            },
            None => {
                assert(v@ =~= s@);
                return v;
            },
        }
    }
}

} // verus!
