//! Literal substring containment, over characters.

use vstd::prelude::*;
use vstd::std_specs::iter::IteratorSpec;

verus! {

/// The characters of a string, in order.
fn chars_of(s: &str) -> (v: Vec<char>)
    ensures
        v@ == s@,
{
    let mut v: Vec<char> = Vec::new();
    for c in it: s.chars()
        invariant
            it.seq() == s@,
            v@ == it.seq().take(it.index()),
    {
        v.push(c);
    }
    v
}

/// `needle` stands in `hay` at position `k`.
pub open spec fn occurs_at(needle: Seq<char>, hay: Seq<char>, k: int) -> bool {
    &&& 0 <= k
    &&& k + needle.len() <= hay.len()
    &&& hay.subrange(k, k + needle.len()) == needle
}

/// `needle` appears as a contiguous run of characters somewhere in `hay`.
pub open spec fn is_substring(needle: Seq<char>, hay: Seq<char>) -> bool {
    exists|k: int| occurs_at(needle, hay, k)
}

/// `prefix` stands at the start of `text`.
pub open spec fn begins_with(text: Seq<char>, prefix: Seq<char>) -> bool {
    occurs_at(prefix, text, 0)
}

/// Every string contains itself, and the empty string is in every string.
pub proof fn lemma_substring_reflexive(a: Seq<char>, b: Seq<char>)
    ensures
        is_substring(a, a),
        is_substring(Seq::<char>::empty(), b),
{
    assert(a.subrange(0, a.len() as int) =~= a);
    assert(occurs_at(a, a, 0));
    assert(b.subrange(0, 0) =~= Seq::<char>::empty());
    assert(occurs_at(Seq::<char>::empty(), b, 0));
}

/// A substring is no longer than what holds it, and one of the same length
/// is the whole.
pub proof fn lemma_substring_length(a: Seq<char>, b: Seq<char>)
    requires
        is_substring(a, b),
    ensures
        a.len() <= b.len(),
        a.len() == b.len() ==> a == b,
{
    let k = choose|k: int| occurs_at(a, b, k);
    assert(a.len() == b.len() ==> k == 0 && b.subrange(0, b.len() as int) =~= b);
}

/// Tells whether `needle` stands in `hay` at position `k`.
fn matches_at(hay: &Vec<char>, needle: &Vec<char>, k: usize) -> (r: bool)
    requires
        k + needle.len() <= hay.len(),
    ensures
        r == occurs_at(needle@, hay@, k as int),
{
    let mut m: usize = 0;
    while m < needle.len()
        invariant
            m <= needle.len(),
            k + needle.len() <= hay.len(),
            forall|t: int| 0 <= t < m ==> hay@[k + t] == needle@[t],
        decreases needle.len() - m,
    {
        if hay[k + m] != needle[m] {
            assert(hay@.subrange(k as int, k + needle.len())[m as int] != needle@[m as int]);
            return false;
        }
        m += 1;
    }
    assert(hay@.subrange(k as int, k + needle.len()) =~= needle@);
    true
}

/// Tells whether `text` begins with `prefix`.
pub fn starts_with(text: &str, prefix: &str) -> (r: bool)
    ensures
        r == begins_with(text@, prefix@),
{
    let hay = chars_of(text);
    let pat = chars_of(prefix);
    if pat.len() > hay.len() {
        return false;
    }
    matches_at(&hay, &pat, 0)
}

/// Tells whether `needle` appears in `haystack` as a literal substring.
pub fn contains(haystack: &str, needle: &str) -> (r: bool)
    ensures
        r == is_substring(needle@, haystack@),
{
    let hay = chars_of(haystack);
    let pat = chars_of(needle);
    if pat.len() > hay.len() {
        proof {
            if is_substring(needle@, haystack@) {
                lemma_substring_length(needle@, haystack@);
            }
        }
        return false;
    }
    let last: usize = hay.len() - pat.len();
    let mut k: usize = 0;
    while k < last
        invariant
            hay@ == haystack@,
            pat@ == needle@,
            k <= last,
            last == hay.len() - pat.len(),
            pat.len() <= hay.len(),
            forall|m: int| 0 <= m < k ==> !occurs_at(pat@, hay@, m),
        decreases last - k,
    {
        if matches_at(&hay, &pat, k) {
            return true;
        }
        k += 1;
    }
    matches_at(&hay, &pat, last)
}

} // verus!
