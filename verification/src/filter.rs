//! The redundancy filter over cleaned ingredient strings.
//!
//! Two strings collide when the shorter of them occurs inside the other.
//! The filter walks the list from the front: each item that is still there
//! removes every later item that collides with it.

use vstd::prelude::*;
use vstd::string::*;
use crate::substring::{contains, is_substring, lemma_substring_length, lemma_substring_reflexive};
use crate::text::{
    is_clean, lemma_clean_iff_fixed, lemma_normalized_is_clean, normalize, normalized,
};

verus! {

/// The one of two strings that counts as the shorter: the first unless the
/// second has strictly fewer characters.
pub open spec fn shortest(a: Seq<char>, b: Seq<char>) -> Seq<char> {
    if a.len() <= b.len() {
        a
    } else {
        b
    }
}

/// The other one of the two: the second when `shortest` picked the first.
pub open spec fn longest(a: Seq<char>, b: Seq<char>) -> Seq<char> {
    if shortest(a, b) == a {
        b
    } else {
        a
    }
}

/// The later item `b` is redundant beside the earlier item `a`: the longer
/// of the two contains the shorter.
pub open spec fn redundant(a: Seq<char>, b: Seq<char>) -> bool {
    is_substring(shortest(a, b), longest(a, b))
}

/// What is left of `rest` once every item that is redundant beside `x` is
/// taken out; the order of the others is kept.
pub open spec fn sweep(x: Seq<char>, rest: Seq<Seq<char>>) -> Seq<Seq<char>> {
    rest.filter(|y: Seq<char>| !redundant(x, y))
}

/// The filtered list: the first item stays, the items that are redundant
/// beside it go, and what is left behind it is filtered in the same way.
pub open spec fn filtered(items: Seq<Seq<char>>) -> Seq<Seq<char>>
    decreases items.len(),
    via filtered_decreases
{
    if items.len() == 0 {
        items
    } else {
        seq![items[0]] + filtered(sweep(items[0], items.drop_first()))
    }
}

#[via_fn]
proof fn filtered_decreases(items: Seq<Seq<char>>) {
    if items.len() != 0 {
        items.drop_first().lemma_filter_len(|y: Seq<char>| !redundant(items[0], y));
    }
}

/// No item is a substring of an item at another place. Such a list holds
/// no string twice.
pub open spec fn pairwise_distinct(items: Seq<Seq<char>>) -> bool {
    forall|i: int, j: int|
        0 <= i < items.len() && 0 <= j < items.len() && i != j ==> !is_substring(
            #[trigger] items[i],
            #[trigger] items[j],
        )
}

/// `out` is what is left of `items` when the items at all places but `at`
/// are struck out: `at` names a place of `items` for each item of `out`,
/// in rising order.
pub open spec fn picks(out: Seq<Seq<char>>, items: Seq<Seq<char>>, at: Seq<int>) -> bool {
    &&& at.len() == out.len()
    &&& forall|p: int|
        0 <= p < out.len() ==> 0 <= #[trigger] at[p] < items.len() && items[at[p]] == out[p]
    &&& forall|p: int, q: int| 0 <= p < q < out.len() ==> #[trigger] at[p] < #[trigger] at[q]
}

/// `out` holds some of the items of `items`, in the order in which they
/// stand there.
pub open spec fn keeps_order(out: Seq<Seq<char>>, items: Seq<Seq<char>>) -> bool {
    exists|at: Seq<int>| picks(out, items, at)
}

/// The cleaned list: every item in normal form, then the redundant ones
/// taken out.
pub open spec fn cleaned(items: Seq<Seq<char>>) -> Seq<Seq<char>> {
    filtered(items.map_values(|s: Seq<char>| normalized(s)))
}

/// An ingredient list as the cleaning leaves it: every item is a clean
/// string, and no item is a substring of an item at another place.
pub open spec fn is_ingredient_list(items: Seq<Seq<char>>) -> bool {
    &&& forall|k: int| 0 <= k < items.len() ==> is_clean(#[trigger] items[k])
    &&& pairwise_distinct(items)
}

/// Two strings collide exactly when one of them is a substring of the
/// other, whichever comes first and however a tie in length is settled.
pub proof fn lemma_redundant_iff_substring(a: Seq<char>, b: Seq<char>)
    ensures
        redundant(a, b) <==> is_substring(a, b) || is_substring(b, a),
        redundant(a, b) == redundant(b, a),
{
    if is_substring(a, b) {
        lemma_substring_length(a, b);
    }
    if is_substring(b, a) {
        lemma_substring_length(b, a);
    }
    lemma_substring_reflexive(a, b);
}

/// Every item of the filtered list is an item of the input.
pub proof fn lemma_filtered_from_input(items: Seq<Seq<char>>, k: int)
    requires
        0 <= k < filtered(items).len(),
    ensures
        items.contains(filtered(items)[k]),
    decreases items.len(),
{
    if k > 0 {
        let keep = |y: Seq<char>| !redundant(items[0], y);
        let rest = items.drop_first();
        let swept = sweep(items[0], rest);
        rest.lemma_filter_len(keep);
        lemma_filtered_from_input(swept, k - 1);
        let item = filtered(swept)[k - 1];
        rest.lemma_filter_contains_rev(keep, item);
        let m = choose|m: int| 0 <= m < rest.len() && rest[m] == item;
        assert(items[m + 1] == item);
    }
}

/// No two items of the filtered list collide.
proof fn lemma_filtered_no_collision(items: Seq<Seq<char>>, p: int, q: int)
    requires
        0 <= p < filtered(items).len(),
        0 <= q < filtered(items).len(),
        p != q,
    ensures
        !redundant(filtered(items)[p], filtered(items)[q]),
    decreases items.len(),
{
    let out = filtered(items);
    let keep = |y: Seq<char>| !redundant(items[0], y);
    let rest = items.drop_first();
    let swept = sweep(items[0], rest);
    rest.lemma_filter_len(keep);
    if p > 0 && q > 0 {
        lemma_filtered_no_collision(swept, p - 1, q - 1);
    } else {
        // one of the two is the first item; the other came through its sweep
        let late = if p == 0 { q } else { p };
        let item = filtered(swept)[late - 1];
        lemma_filtered_from_input(swept, late - 1);
        let m = choose|m: int| 0 <= m < swept.len() && swept[m] == item;
        rest.lemma_filter_pred(keep, m);
        lemma_redundant_iff_substring(items[0], item);
    }
}

/// Of two items that are left after filtering, neither is a substring of
/// the other.
pub proof fn lemma_filtered_pairwise_distinct(items: Seq<Seq<char>>)
    ensures
        pairwise_distinct(filtered(items)),
{
    let out = filtered(items);
    assert forall|i: int, j: int|
        0 <= i < out.len() && 0 <= j < out.len() && i != j implies !is_substring(
        #[trigger] out[i],
        #[trigger] out[j],
    ) by {
        lemma_filtered_no_collision(items, i, j);
        lemma_redundant_iff_substring(out[i], out[j]);
    }
}

/// Every item of the input collides with an item that is left after
/// filtering: it is one of them, or one of them removed it.
pub proof fn lemma_filtered_covers(items: Seq<Seq<char>>, k: int)
    requires
        0 <= k < items.len(),
    ensures
        exists|p: int|
            0 <= p < filtered(items).len() && redundant(#[trigger] filtered(items)[p], items[k]),
    decreases items.len(),
{
    let out = filtered(items);
    let first = items[0];
    let keep = |y: Seq<char>| !redundant(first, y);
    let rest = items.drop_first();
    let swept = sweep(first, rest);
    if k == 0 {
        lemma_substring_reflexive(first, first);
        assert(redundant(out[0], items[k]));
    } else if redundant(first, items[k]) {
        assert(redundant(out[0], items[k]));
    } else {
        rest.lemma_filter_contains(keep, k - 1);
        let m = choose|m: int| 0 <= m < swept.len() && swept[m] == items[k];
        rest.lemma_filter_len(keep);
        lemma_filtered_covers(swept, m);
        let p = choose|p: int|
            0 <= p < filtered(swept).len() && redundant(#[trigger] filtered(swept)[p], swept[m]);
        assert(redundant(out[p + 1], items[k]));
    }
}

/// What passes a test stands in the order of what was tested.
proof fn lemma_filter_keeps_order(s: Seq<Seq<char>>, keep: spec_fn(Seq<char>) -> bool)
    ensures
        keeps_order(s.filter(keep), s),
    decreases s.len(),
{
    reveal(Seq::filter);
    if s.len() == 0 {
        assert(picks(s.filter(keep), s, Seq::<int>::empty()));
    } else {
        let front = s.drop_last();
        lemma_filter_keeps_order(front, keep);
        let at = choose|at: Seq<int>| picks(front.filter(keep), front, at);
        if keep(s.last()) {
            assert(picks(s.filter(keep), s, at.push(s.len() - 1)));
        } else {
            assert(picks(s.filter(keep), s, at));
        }
    }
}

/// Some of some of the items are some of the items.
proof fn lemma_keeps_order_transitive(a: Seq<Seq<char>>, b: Seq<Seq<char>>, c: Seq<Seq<char>>)
    requires
        keeps_order(a, b),
        keeps_order(b, c),
    ensures
        keeps_order(a, c),
{
    let in_b = choose|at: Seq<int>| picks(a, b, at);
    let in_c = choose|at: Seq<int>| picks(b, c, at);
    let at = Seq::new(a.len(), |p: int| in_c[in_b[p]]);
    assert(picks(a, c, at));
}

/// The filter keeps the order of the input: what is left are items of
/// the input, each standing behind the ones that stood before it.
pub proof fn lemma_filtered_keeps_order(items: Seq<Seq<char>>)
    ensures
        keeps_order(filtered(items), items),
    decreases items.len(),
{
    if items.len() == 0 {
        assert(picks(filtered(items), items, Seq::<int>::empty()));
    } else {
        let keep = |y: Seq<char>| !redundant(items[0], y);
        let rest = items.drop_first();
        let swept = sweep(items[0], rest);
        rest.lemma_filter_len(keep);
        lemma_filtered_keeps_order(swept);
        lemma_filter_keeps_order(rest, keep);
        lemma_keeps_order_transitive(filtered(swept), swept, rest);
        let in_rest = choose|at: Seq<int>| picks(filtered(swept), rest, at);
        // the first item stays where it is, the others stand one place further on
        let at = seq![0int] + Seq::new(in_rest.len(), |p: int| in_rest[p] + 1);
        assert forall|p: int| 0 <= p < filtered(items).len() implies 0 <= #[trigger] at[p]
            < items.len() && items[at[p]] == filtered(items)[p] by {}
        assert(picks(filtered(items), items, at));
    }
}

/// A list in which no item is a substring of an item at another place
/// passes the filter unchanged.
pub proof fn lemma_filtered_unchanged(items: Seq<Seq<char>>)
    requires
        pairwise_distinct(items),
    ensures
        filtered(items) == items,
    decreases items.len(),
{
    if items.len() > 0 {
        let keep = |y: Seq<char>| !redundant(items[0], y);
        let rest = items.drop_first();
        assert forall|m: int| 0 <= m < rest.len() implies keep(#[trigger] rest[m]) by {
            lemma_redundant_iff_substring(items[0], items[m + 1]);
        }
        lemma_filter_keeps_all(rest, keep);
        assert forall|i: int, j: int|
            0 <= i < rest.len() && 0 <= j < rest.len() && i != j implies !is_substring(
            #[trigger] rest[i],
            #[trigger] rest[j],
        ) by {
            assert(rest[i] == items[i + 1] && rest[j] == items[j + 1]);
        }
        lemma_filtered_unchanged(rest);
    }
}

/// A sequence whose items all pass a test is its own filtering by it.
proof fn lemma_filter_keeps_all(s: Seq<Seq<char>>, keep: spec_fn(Seq<char>) -> bool)
    requires
        forall|m: int| 0 <= m < s.len() ==> keep(#[trigger] s[m]),
    ensures
        s.filter(keep) == s,
    decreases s.len(),
{
    reveal(Seq::filter);
    if s.len() > 0 {
        let front = s.drop_last();
        assert forall|m: int| 0 <= m < front.len() implies keep(#[trigger] front[m]) by {
            assert(front[m] == s[m]);
        }
        lemma_filter_keeps_all(front, keep);
    }
}

/// Filtering a filtered list changes nothing.
pub proof fn lemma_filtered_idempotent(items: Seq<Seq<char>>)
    ensures
        filtered(filtered(items)) == filtered(items),
{
    lemma_filtered_pairwise_distinct(items);
    lemma_filtered_unchanged(filtered(items));
}

/// What the cleaning yields is an ingredient list, and an ingredient list
/// is cleaned to itself.
pub proof fn lemma_cleaned_is_ingredient_list(items: Seq<Seq<char>>)
    ensures
        is_ingredient_list(cleaned(items)),
        is_ingredient_list(items) ==> cleaned(items) == items,
{
    let normal = items.map_values(|s: Seq<char>| normalized(s));
    let out = cleaned(items);
    lemma_filtered_pairwise_distinct(normal);
    assert forall|k: int| 0 <= k < out.len() implies is_clean(#[trigger] out[k]) by {
        lemma_filtered_from_input(normal, k);
        let m = choose|m: int| 0 <= m < normal.len() && normal[m] == out[k];
        lemma_normalized_is_clean(items[m]);
    }
    if is_ingredient_list(items) {
        assert forall|k: int| 0 <= k < items.len() implies normal[k] == items[k] by {
            lemma_clean_iff_fixed(items[k]);
        }
        assert(normal =~= items);
        lemma_filtered_unchanged(items);
    }
}

/// Returns a copy of the shorter of two strings, by number of characters;
/// on a tie, of the first.
pub fn find_shortest(s1: &String, s2: &String) -> (r: String)
    ensures
        r@ == shortest(s1@, s2@),
{
    if s1.as_str().unicode_len() <= s2.as_str().unicode_len() {
        s1.clone()
    } else {
        s2.clone()
    }
}

/// Sweeping from position `j` on: a redundant item at `j` drops out, any
/// other one stays in front.
proof fn lemma_sweep_step(x: Seq<char>, list: Seq<Seq<char>>, j: int)
    requires
        0 <= j < list.len(),
    ensures
        sweep(x, list.skip(j)) == if redundant(x, list[j]) {
            sweep(x, list.skip(j + 1))
        } else {
            seq![list[j]] + sweep(x, list.skip(j + 1))
        },
{
    let keep = |y: Seq<char>| !redundant(x, y);
    assert(list.skip(j) =~= seq![list[j]] + list.skip(j + 1));
    list.skip(j + 1).lemma_filter_prepend(list[j], keep);
}

/// Removes every string that collides with a string that stands before it
/// and is still there, and returns what is left, in the order of the input.
pub fn check_substring_reuse(v: Vec<String>) -> (r: Vec<String>)
    ensures
        r.deep_view() == filtered(v.deep_view()),
        keeps_order(r.deep_view(), v.deep_view()),
        pairwise_distinct(r.deep_view()),
        pairwise_distinct(v.deep_view()) ==> r.deep_view() == v.deep_view(),
{
    let ghost items = v.deep_view();
    let mut cleaned_values = v;
    let mut i: usize = 0;
    assert(items.take(0) + filtered(items.skip(0)) =~= filtered(items)) by {
        assert(items.skip(0) =~= items);
    }
    while i < cleaned_values.len()
        invariant
            i <= cleaned_values.len(),
            // the items before `i` are final, and filtering the others gives the rest
            cleaned_values.deep_view().take(i as int) + filtered(
                cleaned_values.deep_view().skip(i as int),
            ) == filtered(items),
        decreases cleaned_values.len() - i,
    {
        let ghost before = cleaned_values.deep_view();
        let ghost x = before[i as int];
        let mut j: usize = i + 1;
        while j < cleaned_values.len()
            invariant
                i < j <= cleaned_values.len(),
                i < before.len(),
                x == before[i as int],
                cleaned_values.deep_view()[i as int] == x,
                // the items before `j` are swept, and sweeping the others finishes the sweep
                cleaned_values.deep_view().take(j as int) + sweep(
                    x,
                    cleaned_values.deep_view().skip(j as int),
                ) == before.take(i + 1) + sweep(x, before.skip(i + 1)),
            decreases cleaned_values.len() - j,
        {
            let ghost list = cleaned_values.deep_view();
            let shortest = find_shortest(&cleaned_values[i], &cleaned_values[j]);
            let longest: &String = if shortest == cleaned_values[i] {
                &cleaned_values[j]
            } else {
                &cleaned_values[i]
            };
            proof {
                lemma_sweep_step(x, list, j as int);
            }
            if contains(longest.as_str(), shortest.as_str()) {
                cleaned_values.remove(j);
                assert(cleaned_values.deep_view().skip(j as int) =~= list.skip(j + 1));
            } else {
                j += 1;
            }
        }
        proof {
            let after = cleaned_values.deep_view();
            assert(after =~= before.take(i + 1) + sweep(x, before.skip(i + 1))) by {
                reveal(Seq::filter);
            }
            assert(after.skip(i + 1) =~= sweep(x, before.skip(i + 1)));
            assert(before.skip(i as int).drop_first() =~= before.skip(i + 1));
        }
        i += 1;
    }
    proof {
        let done = cleaned_values.deep_view();
        assert(done.take(i as int) =~= done);
        lemma_filtered_keeps_order(items);
        lemma_filtered_pairwise_distinct(items);
        if pairwise_distinct(items) {
            lemma_filtered_unchanged(items);
        }
    }
    cleaned_values
}

/// Cleans an ingredient list: normalizes every string, then removes the
/// redundant ones.
pub fn clean_vector(v: Vec<String>) -> (r: Vec<String>)
    ensures
        r.deep_view() == cleaned(v.deep_view()),
        is_ingredient_list(r.deep_view()),
{
    let mut cleaned_values: Vec<String> = Vec::new();
    let mut k: usize = 0;
    while k < v.len()
        invariant
            k <= v.len(),
            cleaned_values.len() == k,
            forall|m: int| 0 <= m < k ==> (#[trigger] cleaned_values[m])@ == normalized(v[m]@),
        decreases v.len() - k,
    {
        let ingredient = normalize(v[k].as_str());
        cleaned_values.push(ingredient);
        k += 1;
    }
    proof {
        assert(cleaned_values.deep_view() =~= v.deep_view().map_values(
            |s: Seq<char>| normalized(s),
        ));
        lemma_cleaned_is_ingredient_list(v.deep_view());
    }
    check_substring_reuse(cleaned_values)
}

} // verus!
