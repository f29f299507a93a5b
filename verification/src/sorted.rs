//! The order of texts, and sorting by a text that each item is filed under.
//!
//! Texts are ordered as a dictionary orders words, with the characters in
//! the order of their code points. Sorting is stable: items filed under the
//! same text keep the order they came in.

use vstd::prelude::*;

verus! {

/// Whether `a` stands before `b` or is `b`: whether `a` is the beginning of
/// `b`, or has the smaller character where the two first differ.
pub open spec fn text_le(a: Seq<char>, b: Seq<char>) -> bool
    decreases a.len(),
{
    if a.len() == 0 {
        true
    } else if b.len() == 0 {
        false
    } else if a[0] != b[0] {
        a[0] < b[0]
    } else {
        text_le(a.drop_first(), b.drop_first())
    }
}

/// Every text stands before or at itself.
pub proof fn lemma_text_le_reflexive(a: Seq<char>)
    ensures
        text_le(a, a),
    decreases a.len(),
{
    if a.len() > 0 {
        lemma_text_le_reflexive(a.drop_first());
    }
}

/// Of two texts one stands before or at the other.
pub proof fn lemma_text_le_total(a: Seq<char>, b: Seq<char>)
    ensures
        text_le(a, b) || text_le(b, a),
    decreases a.len(),
{
    if a.len() > 0 && b.len() > 0 && a[0] == b[0] {
        lemma_text_le_total(a.drop_first(), b.drop_first());
    }
}

/// What stands before a text stands before all that the text stands before.
pub proof fn lemma_text_le_transitive(a: Seq<char>, b: Seq<char>, c: Seq<char>)
    requires
        text_le(a, b),
        text_le(b, c),
    ensures
        text_le(a, c),
    decreases a.len(),
{
    if a.len() > 0 && b.len() > 0 && c.len() > 0 && a[0] == b[0] && b[0] == c[0] {
        lemma_text_le_transitive(a.drop_first(), b.drop_first(), c.drop_first());
    }
}

/// Tests whether `a` stands before `b` or is `b`.
pub fn text_le_chars(a: &Vec<char>, b: &Vec<char>) -> (le: bool)
    ensures
        le == text_le(a@, b@),
{
    let mut i: usize = 0;
    assert(a@.skip(0) =~= a@ && b@.skip(0) =~= b@);
    while i < a.len() && i < b.len()
        invariant
            i <= a.len(),
            i <= b.len(),
            text_le(a@, b@) == text_le(a@.skip(i as int), b@.skip(i as int)),
        decreases a.len() - i,
    {
        assert(a@.skip(i as int).drop_first() =~= a@.skip(i + 1));
        assert(b@.skip(i as int).drop_first() =~= b@.skip(i + 1));
        if a[i] != b[i] {
            return a[i] < b[i];
        }
        i += 1;
    }
    i == a.len()
}

/// Whether the items of `s` stand in the order of the texts that `key`
/// files them under.
pub open spec fn sorted_by<T>(s: Seq<T>, key: spec_fn(T) -> Seq<char>) -> bool {
    forall|i: int, j: int| 0 <= i <= j < s.len() ==> text_le(#[trigger] key(s[i]), #[trigger] key(s[j]))
}

/// The test for the items that `key` files under `text`.
pub open spec fn filed_under<T>(key: spec_fn(T) -> Seq<char>, text: Seq<char>) -> spec_fn(T) -> bool {
    |item: T| key(item) == text
}

/// Whether `sorted` holds the items of `items` in the order of their keys,
/// those with the same key in the order they have in `items`.
pub open spec fn is_stable_sort_of<T>(sorted: Seq<T>, items: Seq<T>, key: spec_fn(T) -> Seq<char>) -> bool {
    &&& sorted_by(sorted, key)
    &&& forall|text: Seq<char>| #[trigger]
        sorted.filter(filed_under(key, text)) == items.filter(filed_under(key, text))
}

/// An item put before the first item that does not stand before it keeps a
/// sorted sequence sorted, and stands before all the items of its own key.
pub proof fn lemma_insert_sorted<T>(s: Seq<T>, key: spec_fn(T) -> Seq<char>, at: int, item: T)
    requires
        sorted_by(s, key),
        0 <= at <= s.len(),
        forall|j: int| 0 <= j < at ==> !text_le(key(item), #[trigger] key(s[j])),
        at < s.len() ==> text_le(key(item), key(s[at])),
    ensures
        sorted_by(s.insert(at, item), key),
        forall|text: Seq<char>| #[trigger]
            s.insert(at, item).filter(filed_under(key, text)) == (seq![item] + s).filter(
                filed_under(key, text),
            ),
{
    let t = s.insert(at, item);
    assert forall|i: int, j: int| 0 <= i <= j < t.len() implies text_le(
        #[trigger] key(t[i]),
        #[trigger] key(t[j]),
    ) by {
        if i == j {
            lemma_text_le_reflexive(key(t[i]));
        } else if j == at {
            lemma_text_le_total(key(item), key(s[i]));
        } else if i == at {
            lemma_text_le_transitive(key(item), key(s[at]), key(s[j - 1]));
        }
    }
    assert forall|text: Seq<char>| #[trigger]
        t.filter(filed_under(key, text)) == (seq![item] + s).filter(
            filed_under(key, text),
        ) by {
        let p = filed_under(key, text);
        let head = s.take(at);
        let tail = s.skip(at);
        assert(t =~= head + seq![item] + tail);
        assert(seq![item] + s =~= seq![item] + head + tail);
        Seq::filter_distributes_over_add(head + seq![item], tail, p);
        Seq::filter_distributes_over_add(head, seq![item], p);
        Seq::filter_distributes_over_add(seq![item] + head, tail, p);
        Seq::filter_distributes_over_add(seq![item], head, p);
        if p(item) {
            assert(head.filter(p) =~= Seq::<T>::empty()) by {
                head.lemma_filter_len(p);
                if head.filter(p).len() > 0 {
                    head.lemma_filter_pred(p, 0);
                    lemma_filter_member(head, p, 0);
                    lemma_text_le_reflexive(key(item));
                }
            }
        } else {
            assert(seq![item].filter(p) =~= Seq::<T>::empty()) by {
                reveal_with_fuel(Seq::filter, 2);
            }
        }
    }
}

/// What a filter keeps comes from what it was given.
pub proof fn lemma_filter_member<T>(s: Seq<T>, p: spec_fn(T) -> bool, i: int)
    requires
        0 <= i < s.filter(p).len(),
    ensures
        exists|j: int| 0 <= j < s.len() && s[j] == s.filter(p)[i],
    decreases s.len(),
{
    reveal(Seq::filter);
    if s.len() > 0 {
        let rest = s.drop_last();
        if !(p(s.last()) && i == rest.filter(p).len()) {
            lemma_filter_member(rest, p, i);
        }
    }
}

/// Sorts `items` by the texts they are filed under. `keys` holds the text
/// of each item, at the index of the item.
pub(crate) fn sort_by_key<T>(
    keys: Vec<Vec<char>>,
    items: Vec<T>,
    Ghost(key): Ghost<spec_fn(T) -> Seq<char>>,
) -> (sorted: Vec<T>)
    requires
        keys.len() == items.len(),
        forall|i: int| 0 <= i < items.len() ==> (#[trigger] keys[i])@ == key(items[i]),
    ensures
        is_stable_sort_of(sorted@, items@, key),
        sorted.len() == items.len(),
{
    let mut keys = keys;
    let mut items = items;
    let ghost all = items@;
    let mut out_keys: Vec<Vec<char>> = Vec::new();
    let mut out: Vec<T> = Vec::new();
    while items.len() > 0
        invariant
            keys.len() == items.len(),
            items@ == all.take(items.len() as int),
            forall|i: int| 0 <= i < items.len() ==> (#[trigger] keys[i])@ == key(items[i]),
            out_keys.len() == out.len(),
            out.len() + items.len() == all.len(),
            forall|i: int| 0 <= i < out.len() ==> (#[trigger] out_keys[i])@ == key(out[i]),
            sorted_by(out@, key),
            forall|text: Seq<char>| #[trigger]
                out@.filter(filed_under(key, text)) == all.skip(items.len() as int).filter(
                    filed_under(key, text),
                ),
        decreases items.len(),
    {
        let ghost before = out@;
        let ghost n = items.len() as int;
        let item_key = keys.pop().unwrap();
        let item = items.pop().unwrap();
        let mut at: usize = 0;
        while at < out_keys.len() && !text_le_chars(&item_key, &out_keys[at])
            invariant
                at <= out_keys.len(),
                out_keys.len() == out.len(),
                item_key@ == key(item),
                forall|i: int| 0 <= i < out.len() ==> (#[trigger] out_keys[i])@ == key(out[i]),
                forall|j: int| 0 <= j < at ==> !text_le(key(item), #[trigger] key(out[j])),
            decreases out_keys.len() - at,
        {
            at += 1;
        }
        proof {
            lemma_insert_sorted(before, key, at as int, item);
        }
        out_keys.insert(at, item_key);
        out.insert(at, item);
        assert forall|text: Seq<char>| #[trigger]
            out@.filter(filed_under(key, text)) == all.skip(n - 1).filter(
                filed_under(key, text),
            ) by {
            let p = filed_under(key, text);
            assert(all.skip(n - 1) =~= seq![item] + all.skip(n));
            Seq::filter_distributes_over_add(seq![item], all.skip(n), p);
            Seq::filter_distributes_over_add(seq![item], before, p);
        }
    }
    assert(all.skip(0) =~= all);
    out
}

} // verus!
