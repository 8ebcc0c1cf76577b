//! The text normalizer: one extracted text fragment becomes a trimmed,
//! single-spaced string.

use vstd::prelude::*;
use vstd::std_specs::iter::IteratorSpec;

verus! {

/// The characters with the Unicode property `White_Space`.
pub open spec fn is_whitespace(c: char) -> bool {
    let u: u32 = c as u32;
    ||| 0x09 <= u <= 0x0D
    ||| u == 0x20
    ||| u == 0x85
    ||| u == 0xA0
    ||| u == 0x1680
    ||| 0x2000 <= u <= 0x200A
    ||| u == 0x2028
    ||| u == 0x2029
    ||| u == 0x202F
    ||| u == 0x205F
    ||| u == 0x3000
}

/// `s` without its leading whitespace.
pub open spec fn trim_start(s: Seq<char>) -> Seq<char>
    decreases s.len(),
{
    if s.len() > 0 && is_whitespace(s[0]) {
        trim_start(s.drop_first())
    } else {
        s
    }
}

/// `s` without its trailing whitespace.
pub open spec fn trim_end(s: Seq<char>) -> Seq<char>
    decreases s.len(),
{
    if s.len() > 0 && is_whitespace(s.last()) {
        trim_end(s.drop_last())
    } else {
        s
    }
}

/// `s` without its leading and trailing whitespace.
pub open spec fn trim(s: Seq<char>) -> Seq<char> {
    trim_end(trim_start(s))
}

/// `s` with a space in place of every newline.
pub open spec fn replace_newlines(s: Seq<char>) -> Seq<char> {
    s.map_values(|c: char| if c == '\n' { ' ' } else { c })
}

/// The words of `s`: its maximal runs of characters that are not
/// whitespace, in order.
pub open spec fn words(s: Seq<char>) -> Seq<Seq<char>>
    decreases s.len(),
{
    if s.len() == 0 {
        Seq::empty()
    } else {
        let front = s.drop_last();
        let c = s.last();
        if is_whitespace(c) {
            words(front)
        } else if front.len() > 0 && !is_whitespace(front.last()) {
            words(front).drop_last().push(words(front).last().push(c))
        } else {
            words(front).push(seq![c])
        }
    }
}

/// The words put together again, with one space between neighbours.
pub open spec fn join_words(w: Seq<Seq<char>>) -> Seq<char>
    decreases w.len(),
{
    if w.len() == 0 {
        Seq::empty()
    } else if w.len() == 1 {
        w[0]
    } else {
        join_words(w.drop_last()) + seq![' '] + w.last()
    }
}

/// The normal form of a text fragment: trimmed, newlines turned into
/// spaces, then split at whitespace and joined with single spaces.
pub open spec fn normalized(s: Seq<char>) -> Seq<char> {
    join_words(words(replace_newlines(trim(s))))
}

/// Two whitespace characters stand side by side at position `i`.
pub open spec fn whitespace_pair(r: Seq<char>, i: int) -> bool {
    is_whitespace(r[i]) && is_whitespace(r[i + 1])
}

/// Two spaces stand side by side at position `i`.
pub open spec fn space_pair(r: Seq<char>, i: int) -> bool {
    r[i] == ' ' && r[i + 1] == ' '
}

/// A string in which the only whitespace is a single space between two
/// words: none at either end, no two in a row, and no kind but the space.
pub open spec fn is_clean(r: Seq<char>) -> bool {
    &&& forall|i: int| 0 <= i < r.len() && is_whitespace(#[trigger] r[i]) ==> r[i] == ' '
    &&& r.len() > 0 ==> !is_whitespace(r[0]) && !is_whitespace(r.last())
    &&& forall|i: int| 0 <= i < r.len() - 1 ==> !#[trigger] whitespace_pair(r, i)
}

/// Every word is non-empty and free of whitespace.
pub open spec fn are_words(w: Seq<Seq<char>>) -> bool {
    forall|k: int|
        0 <= k < w.len() ==> (#[trigger] w[k]).len() > 0 && forall|t: int|
            0 <= t < w[k].len() ==> !is_whitespace(#[trigger] w[k][t])
}

/// What `words` yields is a list of words, and it is empty only for a
/// string that is empty or ends in whitespace.
pub proof fn lemma_words_are_words(s: Seq<char>)
    ensures
        are_words(words(s)),
        s.len() > 0 && !is_whitespace(s.last()) ==> words(s).len() > 0,
    decreases s.len(),
{
    if s.len() > 0 {
        lemma_words_are_words(s.drop_last());
    }
}

/// Words stay words when the last one is left out.
proof fn lemma_words_front(w: Seq<Seq<char>>)
    requires
        are_words(w),
        w.len() > 0,
    ensures
        are_words(w.drop_last()),
{
    let front = w.drop_last();
    assert forall|k: int| 0 <= k < front.len() implies (#[trigger] front[k]).len() > 0
        && forall|t: int| 0 <= t < front[k].len() ==> !is_whitespace(#[trigger] front[k][t]) by {
        assert(front[k] == w[k]);
    }
}

/// One more character on the last word.
proof fn lemma_join_extend(w: Seq<Seq<char>>, c: char)
    requires
        w.len() > 0,
    ensures
        join_words(w.drop_last().push(w.last().push(c))) == join_words(w).push(c),
{
    let grown = w.drop_last().push(w.last().push(c));
    assert(grown.drop_last() =~= w.drop_last());
}

/// One more word at the end.
proof fn lemma_join_push(w: Seq<Seq<char>>, y: Seq<char>)
    ensures
        join_words(w.push(y)) == if w.len() == 0 {
            y
        } else {
            join_words(w) + seq![' '] + y
        },
{
    assert(w.push(y).drop_last() =~= w);
}

/// Joined words are empty only when there is no word.
proof fn lemma_join_len(w: Seq<Seq<char>>)
    requires
        are_words(w),
    ensures
        w.len() > 0 ==> join_words(w).len() > 0,
        w.len() == 0 ==> join_words(w).len() == 0,
{
    if w.len() > 0 {
        assert(w.last().len() > 0);
    }
}

/// Words joined by single spaces make a clean string.
proof fn lemma_join_is_clean(w: Seq<Seq<char>>)
    requires
        are_words(w),
    ensures
        is_clean(join_words(w)),
    decreases w.len(),
{
    let r = join_words(w);
    if w.len() == 1 {
        assert forall|i: int| 0 <= i < r.len() implies !is_whitespace(#[trigger] r[i]) by {
            assert(r[i] == w[0][i]);
        }
    } else if w.len() > 1 {
        // r is the clean string `front`, a space, and the word `tail`
        let front = join_words(w.drop_last());
        let tail = w.last();
        lemma_words_front(w);
        lemma_join_is_clean(w.drop_last());
        lemma_join_len(w.drop_last());
        let n = front.len() as int;
        assert forall|i: int| 0 <= i < r.len() implies (if i < n {
            #[trigger] r[i] == front[i]
        } else if i == n {
            r[i] == ' '
        } else {
            r[i] == tail[i - n - 1] && !is_whitespace(r[i])
        }) by {}
        assert forall|i: int| 0 <= i < r.len() - 1 implies !#[trigger] whitespace_pair(r, i) by {
            if i + 1 < n {
                assert(!whitespace_pair(front, i));
            }
        }
    }
}

/// A whitespace character in front of a string adds no word.
proof fn lemma_words_skip_leading(c: char, s: Seq<char>)
    requires
        is_whitespace(c),
    ensures
        words(seq![c] + s) == words(s),
    decreases s.len(),
{
    let whole = seq![c] + s;
    if s.len() == 0 {
        assert(whole.drop_last() =~= s);
    } else {
        assert(whole.drop_last() =~= seq![c] + s.drop_last());
        lemma_words_skip_leading(c, s.drop_last());
    }
}

/// Trimming changes no word.
proof fn lemma_words_of_trim(s: Seq<char>)
    ensures
        words(trim_start(s)) == words(s),
        words(trim_end(s)) == words(s),
    decreases s.len(),
{
    if s.len() > 0 {
        if is_whitespace(s[0]) {
            lemma_words_of_trim(s.drop_first());
            lemma_words_skip_leading(s[0], s.drop_first());
            assert(seq![s[0]] + s.drop_first() =~= s);
        }
        if is_whitespace(s.last()) {
            lemma_words_of_trim(s.drop_last());
        }
    }
}

/// A space in place of a newline changes no word.
proof fn lemma_words_of_replace(s: Seq<char>)
    ensures
        words(replace_newlines(s)) == words(s),
    decreases s.len(),
{
    let r = replace_newlines(s);
    if s.len() > 0 {
        lemma_words_of_replace(s.drop_last());
        assert(r.drop_last() =~= replace_newlines(s.drop_last()));
    }
}

/// The normal form is made of the words of the string itself: trimming
/// and replacing newlines only touch whitespace.
pub proof fn lemma_normalized_by_words(s: Seq<char>)
    ensures
        normalized(s) == join_words(words(s)),
{
    lemma_words_of_replace(trim(s));
    lemma_words_of_trim(trim_start(s));
    lemma_words_of_trim(s);
}

/// The normal form is clean: it holds no newline, no whitespace but the
/// space, no space at either end and no two spaces in a row.
pub proof fn lemma_normalized_is_clean(s: Seq<char>)
    ensures
        is_clean(normalized(s)),
        forall|i: int| 0 <= i < normalized(s).len() ==> normalized(s)[i] != '\n',
        forall|i: int| 0 <= i < normalized(s).len() - 1 ==> !#[trigger] space_pair(normalized(s), i),
{
    let r = normalized(s);
    lemma_normalized_by_words(s);
    lemma_words_are_words(s);
    lemma_join_is_clean(words(s));
    assert forall|i: int| 0 <= i < r.len() - 1 implies !#[trigger] space_pair(r, i) by {
        assert(!whitespace_pair(r, i));
    }
}

/// The words of the first `k` characters of a clean string, joined, are
/// those characters, less a space that stands last among them.
proof fn lemma_clean_prefix(r: Seq<char>, k: int)
    requires
        is_clean(r),
        0 <= k <= r.len(),
    ensures
        join_words(words(r.take(k))) == if k > 0 && is_whitespace(r[k - 1]) {
            r.take(k - 1)
        } else {
            r.take(k)
        },
    decreases k,
{
    if k > 0 {
        let c = r[k - 1];
        let front = r.take(k - 1);
        assert(r.take(k).drop_last() =~= front);
        lemma_clean_prefix(r, k - 1);
        lemma_words_are_words(front);
        lemma_join_len(words(front));
        if k > 1 {
            assert(!whitespace_pair(r, k - 2));
        }
        if !is_whitespace(c) {
            if k > 1 && !is_whitespace(r[k - 2]) {
                lemma_join_extend(words(front), c);
            } else {
                lemma_join_push(words(front), seq![c]);
            }
        }
    }
}

/// The clean strings are the normal forms: normalizing leaves a string
/// as it is exactly when the string is clean.
pub proof fn lemma_clean_iff_fixed(r: Seq<char>)
    ensures
        is_clean(r) <==> normalized(r) == r,
{
    lemma_normalized_is_clean(r);
    if is_clean(r) {
        lemma_normalized_by_words(r);
        lemma_clean_prefix(r, r.len() as int);
        assert(r.take(r.len() as int) =~= r);
    }
}

/// Normalizing twice gives what normalizing once gives.
pub proof fn lemma_normalized_idempotent(s: Seq<char>)
    ensures
        normalized(normalized(s)) == normalized(s),
{
    lemma_normalized_is_clean(s);
    lemma_clean_iff_fixed(normalized(s));
}

/// Tells whether a character is whitespace.
pub fn is_whitespace_char(c: char) -> (r: bool)
    ensures
        r == is_whitespace(c),
{
    let u: u32 = c as u32;
    (0x09 <= u && u <= 0x0D) || u == 0x20 || u == 0x85 || u == 0xA0 || u == 0x1680 || (0x2000 <= u
        && u <= 0x200A) || u == 0x2028 || u == 0x2029 || u == 0x202F || u == 0x205F || u == 0x3000
}

/// `String::push` of the standard library: the string grows by the one
/// character, at its end.
#[verifier::external_body]
fn push_char(s: &mut String, c: char)
    ensures
        final(s)@ == old(s)@.push(c),
{
    s.push(c);
}

/// Normalizes one text fragment: whitespace at the ends goes, and every
/// run of whitespace between two words, newlines included, becomes one
/// space. The empty string and a string of whitespace give the empty
/// string.
pub fn normalize(s: &str) -> (r: String)
    ensures
        r@ == normalized(s@),
        is_clean(r@),
{
    let mut out = String::new();
    let mut started = false;
    let mut pending = false;
    for c in it: s.chars()
        invariant
            it.seq() == s@,
            out@ == join_words(words(s@.take(it.index()))),
            started == (out@.len() > 0),
            pending == (it.index() > 0 && is_whitespace(s@[it.index() - 1])),
    {
        let ghost i = it.index();
        let ghost seen = s@.take(i);
        proof {
            assert(s@.take(i + 1).drop_last() =~= seen);
            lemma_words_are_words(seen);
            lemma_join_len(words(seen));
        }
        if is_whitespace_char(c) {
            pending = true;
        } else {
            if pending {
                proof {
                    lemma_join_push(words(seen), seq![c]);
                }
                if started {
                    push_char(&mut out, ' ');
                }
                push_char(&mut out, c);
            } else {
                proof {
                    if i > 0 {
                        lemma_join_extend(words(seen), c);
                    } else {
                        lemma_join_push(words(seen), seq![c]);
                    }
                }
                push_char(&mut out, c);
            }
            started = true;
            pending = false;
        }
    }
    proof {
        assert(s@.take(s@.len() as int) =~= s@);
        lemma_normalized_by_words(s@);
        lemma_normalized_is_clean(s@);
    }
    out
}

} // verus!
