//! The alphabetical order of texts, by the code points of their characters,
//! and sorting by it.
use vstd::prelude::*;
use vstd::relations::{sorted_by, total_ordering};

use crate::text::{chars_of, texts};

verus! {

/// `a` stands before `b` in the alphabetical order, or is the same text.
pub open spec fn not_after(a: Seq<char>, b: Seq<char>) -> bool
    decreases a.len(),
{
    if a.len() == 0 {
        true
    } else if b.len() == 0 {
        false
    } else if a[0] == b[0] {
        not_after(a.drop_first(), b.drop_first())
    } else {
        a[0] < b[0]
    }
}

pub open spec fn text_order() -> spec_fn(Seq<char>, Seq<char>) -> bool {
    |a: Seq<char>, b: Seq<char>| not_after(a, b)
}

/// The texts of `s` in alphabetical order.
pub open spec fn sorted_texts(s: Seq<Seq<char>>) -> Seq<Seq<char>> {
    s.sort_by(text_order())
}

proof fn lemma_not_after_reflexive(a: Seq<char>)
    ensures
        not_after(a, a),
    decreases a.len(),
{
    if a.len() > 0 {
        lemma_not_after_reflexive(a.drop_first());
    }
}

proof fn lemma_not_after_antisymmetric(a: Seq<char>, b: Seq<char>)
    requires
        not_after(a, b),
        not_after(b, a),
    ensures
        a == b,
    decreases a.len(),
{
    if a.len() > 0 && b.len() > 0 {
        lemma_not_after_antisymmetric(a.drop_first(), b.drop_first());
        assert(a =~= seq![a[0]] + a.drop_first());
        assert(b =~= seq![b[0]] + b.drop_first());
    } else {
        assert(a =~= b);
    }
}

proof fn lemma_not_after_transitive(a: Seq<char>, b: Seq<char>, c: Seq<char>)
    requires
        not_after(a, b),
        not_after(b, c),
    ensures
        not_after(a, c),
    decreases a.len(),
{
    if a.len() > 0 && a[0] == b[0] && b[0] == c[0] {
        lemma_not_after_transitive(a.drop_first(), b.drop_first(), c.drop_first());
    }
}

proof fn lemma_not_after_total(a: Seq<char>, b: Seq<char>)
    ensures
        not_after(a, b) || not_after(b, a),
    decreases a.len(),
{
    if a.len() > 0 && b.len() > 0 {
        lemma_not_after_total(a.drop_first(), b.drop_first());
    }
}

/// The alphabetical order is a total order on texts.
pub proof fn lemma_text_order_total()
    ensures
        total_ordering(text_order()),
{
    let order = text_order();
    assert forall|x: Seq<char>| #[trigger] order(x, x) by {
        lemma_not_after_reflexive(x);
    }
    assert forall|x: Seq<char>, y: Seq<char>| #[trigger] order(x, y) && #[trigger] order(
        y,
        x,
    ) implies x == y by {
        lemma_not_after_antisymmetric(x, y);
    }
    assert forall|x: Seq<char>, y: Seq<char>, z: Seq<char>| #[trigger]
        order(x, y) && #[trigger] order(y, z) implies order(x, z) by {
        lemma_not_after_transitive(x, y, z);
    }
    assert forall|x: Seq<char>, y: Seq<char>| #[trigger] order(x, y) || #[trigger] order(y, x) by {
        lemma_not_after_total(x, y);
    }
}

/// Sorting forgets the order in which the texts came.
pub proof fn lemma_sorted_texts_of_permutation(s: Seq<Seq<char>>, t: Seq<Seq<char>>)
    requires
        s.to_multiset() == t.to_multiset(),
    ensures
        sorted_texts(s) == sorted_texts(t),
{
    lemma_text_order_total();
    s.lemma_sort_by_ensures(text_order());
    t.lemma_sort_by_ensures(text_order());
    vstd::seq_lib::lemma_sorted_unique(sorted_texts(s), sorted_texts(t), text_order());
}

/// The sorted texts are the texts that were there.
pub proof fn lemma_sorted_texts(s: Seq<Seq<char>>)
    ensures
        sorted_texts(s).to_multiset() == s.to_multiset(),
        sorted_texts(s).len() == s.len(),
        sorted_by(sorted_texts(s), text_order()),
        forall|x: Seq<char>| s.contains(x) <==> #[trigger] sorted_texts(s).contains(x),
{
    lemma_text_order_total();
    s.lemma_sort_by_ensures(text_order());
    s.to_multiset_ensures();
    sorted_texts(s).to_multiset_ensures();
    assert forall|x: Seq<char>| s.contains(x) <==> #[trigger] sorted_texts(s).contains(x) by {
        assert(s.to_multiset().count(x) == sorted_texts(s).to_multiset().count(x));
    }
}

/// Whether `a` stands before `b` in the alphabetical order, or is the same text.
pub fn is_not_after(a: &str, b: &str) -> (r: bool)
    ensures
        r == not_after(a@, b@),
{
    let x = chars_of(a);
    let y = chars_of(b);
    let mut i: usize = 0;
    assert(x@.skip(0) =~= x@);
    assert(y@.skip(0) =~= y@);
    while i < x.len() && i < y.len() && x[i] == y[i]
        invariant
            i <= x@.len(),
            i <= y@.len(),
            not_after(x@, y@) == not_after(x@.skip(i as int), y@.skip(i as int)),
        decreases x@.len() - i,
    {
        assert(x@.skip(i as int).drop_first() =~= x@.skip(i + 1));
        assert(y@.skip(i as int).drop_first() =~= y@.skip(i + 1));
        i += 1;
    }
    if i == x.len() {
        true
    } else if i == y.len() {
        false
    } else {
        x[i] < y[i]
    }
}

/// Puts `item` into the sorted `list`, behind the texts that are not after it.
fn insert_sorted(list: &mut Vec<String>, item: String)
    requires
        sorted_by(texts(old(list)@), text_order()),
    ensures
        sorted_by(texts(final(list)@), text_order()),
        texts(final(list)@).to_multiset() == texts(old(list)@).to_multiset().insert(item@),
{
    let mut i: usize = 0;
    let ghost before = texts(list@);
    let ghost order = text_order();
    while i < list.len() && is_not_after(list[i].as_str(), item.as_str())
        invariant
            i <= list@.len(),
            before == texts(list@),
            order == text_order(),
            forall|k: int| 0 <= k < i ==> not_after(#[trigger] before[k], item@),
        decreases list@.len() - i,
    {
        assert(before[i as int] == list@[i as int]@);
        i += 1;
    }
    let ghost placed = item@;
    list.insert(i, item);
    proof {
        assert(texts(list@) =~= before.insert(i as int, placed));
        vstd::seq_lib::to_multiset_insert(before, i as int, placed);
        lemma_text_order_total();
        let after = before.insert(i as int, placed);
        if i < before.len() {
            assert(!not_after(before[i as int], placed));
            lemma_not_after_total(before[i as int], placed);
        }
        assert forall|j: int, k: int| 0 <= j < k < after.len() implies #[trigger] order(
            after[j],
            after[k],
        ) by {
            if j < i && k > i {
                assert(order(before[j], before[k - 1]));
            } else if j == i && k > i {
                if k - 1 > i {
                    assert(order(before[i as int], before[k - 1]));
                    lemma_not_after_transitive(placed, before[i as int], before[k - 1]);
                }
            } else if j > i {
                assert(order(before[j - 1], before[k - 1]));
            } else if k < i {
                assert(order(before[j], before[k]));
            }
        }
    }
}

/// `items` in alphabetical order.
pub fn sort_strings(items: Vec<String>) -> (r: Vec<String>)
    ensures
        texts(r@) == sorted_texts(texts(items@)),
        r@.len() == items@.len(),
{
    let mut r: Vec<String> = Vec::new();
    let ghost all = texts(items@);
    let mut i: usize = 0;
    assert(texts(r@) =~= all.take(0));
    while i < items.len()
        invariant
            i <= items@.len(),
            all == texts(items@),
            sorted_by(texts(r@), text_order()),
            texts(r@).to_multiset() == all.take(i as int).to_multiset(),
        decreases items@.len() - i,
    {
        insert_sorted(&mut r, items[i].clone());
        proof {
            assert(all.take(i + 1) =~= all.take(i as int).push(all[i as int]));
            vstd::seq_lib::to_multiset_build(all.take(i as int), all[i as int]);
        }
        i += 1;
    }
    proof {
        assert(all.take(i as int) =~= all);
        lemma_text_order_total();
        lemma_sorted_texts(all);
        vstd::seq_lib::lemma_sorted_unique(texts(r@), sorted_texts(all), text_order());
        texts(r@).to_multiset_ensures();
        all.to_multiset_ensures();
    }
    r
}

/// A text stands before another if it is its beginning, or if at the first place at which
/// they differ its character has the smaller code point; and not otherwise.
pub proof fn law_texts_are_ordered_by_their_first_difference(a: Seq<char>, b: Seq<char>, i: int)
    requires
        0 <= i <= a.len(),
        i <= b.len(),
        forall|j: int| 0 <= j < i ==> #[trigger] a[j] == b[j],
        i < a.len() && i < b.len() ==> a[i] != b[i],
        i == a.len() || i == b.len() || a[i] != b[i],
    ensures
        i == a.len() ==> not_after(a, b),
        i < a.len() && i == b.len() ==> !not_after(a, b),
        i < a.len() && i < b.len() ==> (not_after(a, b) <==> a[i] < b[i]),
    decreases i,
{
    if i > 0 {
        assert(a[0] == b[0]);
        let x = a.drop_first();
        let y = b.drop_first();
        assert forall|j: int| 0 <= j < i - 1 implies #[trigger] x[j] == y[j] by {
            assert(a[j + 1] == b[j + 1]);
        }
        law_texts_are_ordered_by_their_first_difference(x, y, i - 1);
    }
}

/// Sorted texts are the same texts, each as often as before, in ascending order.
pub proof fn law_sorting_keeps_the_texts(s: Seq<Seq<char>>, i: int, j: int)
    ensures
        sorted_texts(s).to_multiset() == s.to_multiset(),
        sorted_texts(s).len() == s.len(),
        0 <= i < j < s.len() ==> not_after(sorted_texts(s)[i], sorted_texts(s)[j]),
{
    lemma_sorted_texts(s);
    if 0 <= i < j < s.len() {
        let order = text_order();
        assert(order(sorted_texts(s)[i], sorted_texts(s)[j]));
    }
}

} // verus!
