//! Ordering by a key, with ties kept in the order they came.
use vstd::prelude::*;

use crate::text::chars_of;

verus! {

/// Whether `a` comes before `b` in the order of their characters.
pub open spec fn text_less(a: Seq<char>, b: Seq<char>) -> bool
    decreases a.len(),
{
    if b.len() == 0 {
        false
    } else if a.len() == 0 {
        true
    } else if a[0] != b[0] {
        (a[0] as int) < (b[0] as int)
    } else {
        text_less(a.skip(1), b.skip(1))
    }
}

/// Exactly one of "before", "equal" and "after" holds of two texts.
pub proof fn text_less_trichotomy(a: Seq<char>, b: Seq<char>)
    ensures
        text_less(a, b) ==> !text_less(b, a) && a != b,
        a == b ==> !text_less(a, b),
        !text_less(a, b) && !text_less(b, a) ==> a == b,
    decreases a.len(),
{
    if a.len() == 0 || b.len() == 0 {
        if a.len() == 0 && b.len() == 0 {
            assert(a =~= b);
        }
    } else if a[0] == b[0] {
        text_less_trichotomy(a.skip(1), b.skip(1));
        assert(a =~= seq![a[0]] + a.skip(1));
        assert(b =~= seq![b[0]] + b.skip(1));
        if a == b {
            assert(a.skip(1) == b.skip(1));
        }
        if a.skip(1) == b.skip(1) {
            assert(a == b);
        }
    }
}

/// "Before" carries over.
pub proof fn text_less_transitive(a: Seq<char>, b: Seq<char>, c: Seq<char>)
    requires
        text_less(a, b),
        text_less(b, c),
    ensures
        text_less(a, c),
    decreases a.len(),
{
    if a.len() > 0 && a[0] == b[0] && b[0] == c[0] {
        text_less_transitive(a.skip(1), b.skip(1), c.skip(1));
    }
}

/// Whether `a` has the lower code point.
fn char_before(a: char, b: char) -> (r: bool)
    ensures
        r == ((a as int) < (b as int)),
{
    (a as u32) < (b as u32)
}

/// Whether `a` comes before `b` in the order of their characters.
pub fn text_before(a: &str, b: &str) -> (r: bool)
    ensures
        r == text_less(a@, b@),
{
    let x = chars_of(a);
    let y = chars_of(b);
    let mut i: usize = 0;
    proof {
        assert(a@.skip(0) =~= a@);
        assert(b@.skip(0) =~= b@);
    }
    while i < x.len() && i < y.len() && x[i] == y[i]
        invariant
            i <= x.len(),
            i <= y.len(),
            x@ == a@,
            y@ == b@,
            text_less(a@, b@) == text_less(a@.skip(i as int), b@.skip(i as int)),
        decreases x.len() - i,
    {
        proof {
            assert(a@.skip(i as int).skip(1) =~= a@.skip(i + 1));
            assert(b@.skip(i as int).skip(1) =~= b@.skip(i + 1));
        }
        i = i + 1;
    }
    if i == y.len() {
        false
    } else if i == x.len() {
        true
    } else {
        char_before(x[i], y[i])
    }
}

/// What a list is ordered by: a number, then a text.
pub struct Key {
    pub number: u64,
    pub text: String,
}

impl View for Key {
    type V = (int, Seq<char>);

    open spec fn view(&self) -> (int, Seq<char>) {
        (self.number as int, self.text@)
    }
}

/// What a list of keys holds.
pub open spec fn key_views(keys: Seq<Key>) -> Seq<(int, Seq<char>)> {
    Seq::new(keys.len(), |i: int| keys[i]@)
}

/// Whether the key `a` comes before the key `b`.
pub open spec fn key_less(a: (int, Seq<char>), b: (int, Seq<char>)) -> bool {
    a.0 < b.0 || (a.0 == b.0 && text_less(a.1, b.1))
}

/// Whether position `a` comes before position `b`: by key, and by position
/// where the keys are equal.
pub open spec fn precedes(keys: Seq<(int, Seq<char>)>, a: int, b: int) -> bool {
    key_less(keys[a], keys[b]) || (keys[a] == keys[b] && a < b)
}

/// Whether `order` lists every position of `keys` once, in order.
pub open spec fn is_stable_order(keys: Seq<(int, Seq<char>)>, order: Seq<int>) -> bool {
    &&& order.len() == keys.len()
    &&& forall|i: int| 0 <= i < order.len() ==> 0 <= (#[trigger] order[i]) < keys.len()
    &&& forall|i: int, j: int|
        0 <= i < j < order.len() ==> precedes(keys, #[trigger] order[i], #[trigger] order[j])
}

/// The order of the positions of `keys`; there is one, and one only.
pub open spec fn order_of(keys: Seq<(int, Seq<char>)>) -> Seq<int> {
    choose|order: Seq<int>| is_stable_order(keys, order)
}

/// The rows of `rows` in the order of their keys.
pub open spec fn in_order<T>(rows: Seq<T>, keys: Seq<(int, Seq<char>)>) -> Seq<T> {
    Seq::new(rows.len(), |i: int| rows[order_of(keys)[i]])
}

proof fn lemma_precedes_transitive(keys: Seq<(int, Seq<char>)>, a: int, b: int, c: int)
    requires
        precedes(keys, a, b),
        precedes(keys, b, c),
    ensures
        precedes(keys, a, c),
{
    let (x, y, z) = (keys[a].1, keys[b].1, keys[c].1);
    if text_less(x, y) && text_less(y, z) {
        text_less_transitive(x, y, z);
    }
}

proof fn lemma_precedes_total(keys: Seq<(int, Seq<char>)>, a: int, b: int)
    requires
        a < b,
        !key_less(keys[b], keys[a]),
    ensures
        precedes(keys, a, b),
{
    text_less_trichotomy(keys[a].1, keys[b].1);
}

proof fn lemma_precedes_strict(keys: Seq<(int, Seq<char>)>, a: int, b: int)
    requires
        precedes(keys, a, b),
    ensures
        a != b,
        !precedes(keys, b, a),
{
    text_less_trichotomy(keys[a].1, keys[b].1);
}

/// A stable order places every position, and places it once.
pub proof fn stable_order_is_a_permutation(keys: Seq<(int, Seq<char>)>, order: Seq<int>)
    requires
        is_stable_order(keys, order),
    ensures
        order.no_duplicates(),
        forall|p: int| 0 <= p < keys.len() ==> #[trigger] order.contains(p),
{
    assert forall|i: int, j: int| 0 <= i < j < order.len() implies order[i] != order[j] by {
        lemma_precedes_strict(keys, order[i], order[j]);
    }
    assert(order.no_duplicates());
    let range = vstd::set_lib::set_int_range(0, keys.len() as int);
    vstd::set_lib::lemma_int_range(0, keys.len() as int);
    order.unique_seq_to_set();
    assert(order.to_set().subset_of(range));
    vstd::set_lib::lemma_subset_equality(order.to_set(), range);
    assert forall|p: int| 0 <= p < keys.len() implies #[trigger] order.contains(p) by {
        assert(range.contains(p));
        assert(order.to_set().contains(p));
    }
}

/// Two stable orders of the same keys are the same order.
pub proof fn stable_order_is_unique(keys: Seq<(int, Seq<char>)>, a: Seq<int>, b: Seq<int>)
    requires
        is_stable_order(keys, a),
        is_stable_order(keys, b),
    ensures
        a == b,
{
    lemma_stable_orders_agree(keys, a, b, keys.len() as int);
    assert(a =~= b);
}

proof fn lemma_stable_orders_agree(
    keys: Seq<(int, Seq<char>)>,
    a: Seq<int>,
    b: Seq<int>,
    n: int,
)
    requires
        is_stable_order(keys, a),
        is_stable_order(keys, b),
        0 <= n <= keys.len(),
    ensures
        forall|i: int| 0 <= i < n ==> a[i] == b[i],
    decreases n,
{
    if n > 0 {
        lemma_stable_orders_agree(keys, a, b, n - 1);
        let k = n - 1;
        if a[k] != b[k] {
            stable_order_is_a_permutation(keys, a);
            stable_order_is_a_permutation(keys, b);
            assert(b.contains(a[k]) && a.contains(b[k]));
            let i = choose|i: int| 0 <= i < b.len() && #[trigger] b[i] == a[k];
            let j = choose|j: int| 0 <= j < a.len() && #[trigger] a[j] == b[k];
            assert(i > k) by {
                if i < k {
                    assert(a[i] == b[i]);
                }
            }
            assert(j > k) by {
                if j < k {
                    assert(a[j] == b[j]);
                }
            }
            assert(precedes(keys, b[k], b[i]));
            assert(precedes(keys, a[k], a[j]));
            lemma_precedes_strict(keys, a[k], b[k]);
        }
    }
}

/// Whether every key comes before those after it.
pub open spec fn ascending(keys: Seq<(int, Seq<char>)>) -> bool {
    forall|i: int, j: int|
        0 <= i < j < keys.len() ==> key_less(#[trigger] keys[i], #[trigger] keys[j])
}

/// Two ascending lists of the same keys are the same list.
pub proof fn ascending_keys_are_unique(a: Seq<(int, Seq<char>)>, b: Seq<(int, Seq<char>)>)
    requires
        ascending(a),
        ascending(b),
        forall|k: (int, Seq<char>)| a.contains(k) <==> b.contains(k),
    ensures
        a == b,
{
    let n = if a.len() <= b.len() {
        a.len() as int
    } else {
        b.len() as int
    };
    lemma_ascending_agree(a, b, n);
    if a.len() < b.len() {
        assert(b.contains(b[n]));
        let i = choose|i: int| 0 <= i < a.len() && a[i] == b[n];
        assert(a[i] == b[i]);
        lemma_key_strict(b[i], b[n]);
    } else if b.len() < a.len() {
        assert(a.contains(a[n]));
        let i = choose|i: int| 0 <= i < b.len() && b[i] == a[n];
        assert(a[i] == b[i]);
        lemma_key_strict(a[i], a[n]);
    }
    assert(a =~= b);
}

proof fn lemma_key_strict(a: (int, Seq<char>), b: (int, Seq<char>))
    requires
        key_less(a, b),
    ensures
        a != b,
        !key_less(b, a),
{
    text_less_trichotomy(a.1, b.1);
}

proof fn lemma_ascending_agree(a: Seq<(int, Seq<char>)>, b: Seq<(int, Seq<char>)>, n: int)
    requires
        ascending(a),
        ascending(b),
        forall|k: (int, Seq<char>)| a.contains(k) <==> b.contains(k),
        0 <= n <= a.len(),
        n <= b.len(),
    ensures
        forall|i: int| 0 <= i < n ==> a[i] == b[i],
    decreases n,
{
    if n > 0 {
        lemma_ascending_agree(a, b, n - 1);
        let k = n - 1;
        if a[k] != b[k] {
            assert(a.contains(a[k]) && b.contains(b[k]));
            let i = choose|i: int| 0 <= i < b.len() && b[i] == a[k];
            let j = choose|j: int| 0 <= j < a.len() && a[j] == b[k];
            if i < k {
                assert(a[i] == b[i]);
                lemma_key_strict(a[i], a[k]);
            }
            if j < k {
                assert(a[j] == b[j]);
                lemma_key_strict(b[j], b[k]);
            }
            assert(key_less(b[k], b[i]));
            assert(key_less(a[k], a[j]));
            lemma_key_strict(a[k], b[k]);
        }
    }
}

/// Where the new last position goes in an order of the positions before it.
spec fn slot(keys: Seq<(int, Seq<char>)>, order: Seq<int>, new: int, at: int) -> int
    decreases at,
{
    if at > 0 && key_less(keys[new], keys[order[at - 1]]) {
        slot(keys, order, new, at - 1)
    } else {
        at
    }
}

proof fn lemma_slot(keys: Seq<(int, Seq<char>)>, order: Seq<int>, new: int, at: int)
    requires
        0 <= at <= order.len(),
        forall|i: int| at <= i < order.len() ==> key_less(keys[new], keys[#[trigger] order[i]]),
    ensures
        0 <= slot(keys, order, new, at) <= order.len(),
        forall|i: int|
            slot(keys, order, new, at) <= i < order.len() ==> key_less(
                keys[new],
                keys[#[trigger] order[i]],
            ),
        slot(keys, order, new, at) > 0 ==> !key_less(
            keys[new],
            keys[order[slot(keys, order, new, at) - 1]],
        ),
    decreases at,
{
    if at > 0 && key_less(keys[new], keys[order[at - 1]]) {
        lemma_slot(keys, order, new, at - 1);
    }
}

/// Placing a new last position where it belongs keeps a stable order.
proof fn lemma_insert(keys: Seq<(int, Seq<char>)>, order: Seq<int>, at: int)
    requires
        keys.len() > 0,
        is_stable_order(keys.drop_last(), order),
        0 <= at <= order.len(),
        forall|i: int|
            at <= i < order.len() ==> key_less(keys.last(), keys[#[trigger] order[i]]),
        at > 0 ==> !key_less(keys.last(), keys[order[at - 1]]),
    ensures
        is_stable_order(keys, order.insert(at, keys.len() - 1)),
{
    let new = keys.len() - 1;
    let after = order.insert(at, new);
    assert forall|i: int, j: int| 0 <= i < j < order.len() implies precedes(
        keys,
        #[trigger] order[i],
        #[trigger] order[j],
    ) by {
        assert(precedes(keys.drop_last(), order[i], order[j]));
    }
    if at > 0 {
        let last = order[at - 1];
        lemma_precedes_total(keys, last, new);
        assert forall|i: int| 0 <= i < at implies precedes(keys, #[trigger] order[i], new) by {
            if i < at - 1 {
                lemma_precedes_transitive(keys, order[i], last, new);
            }
        }
    }
    assert forall|i: int, j: int| 0 <= i < j < after.len() implies precedes(
        keys,
        #[trigger] after[i],
        #[trigger] after[j],
    ) by {
        let x = if i < at {
            order[i]
        } else {
            order[i - 1]
        };
        let y = if j < at {
            order[j]
        } else {
            order[j - 1]
        };
    }
}

/// Every list of keys has a stable order, so [`order_of`] is one.
pub proof fn order_of_is_a_stable_order(keys: Seq<(int, Seq<char>)>)
    ensures
        is_stable_order(keys, order_of(keys)),
    decreases keys.len(),
{
    if keys.len() == 0 {
        assert(is_stable_order(keys, Seq::<int>::empty()));
    } else {
        let before = keys.drop_last();
        order_of_is_a_stable_order(before);
        let order = order_of(before);
        let new = keys.len() - 1;
        let at = slot(keys, order, new, order.len() as int);
        lemma_slot(keys, order, new, order.len() as int);
        lemma_insert(keys, order, at);
        assert(is_stable_order(keys, order.insert(at, new)));
    }
}

/// Whether `a` comes before `b`.
fn key_before(a: &Key, b: &Key) -> (r: bool)
    ensures
        r == key_less(a@, b@),
{
    a.number < b.number || (a.number == b.number && text_before(a.text.as_str(), b.text.as_str()))
}

/// The positions of `keys` in order, ties in the order they came.
pub fn stable_order(keys: &Vec<Key>) -> (order: Vec<usize>)
    ensures
        order.len() == keys.len(),
        forall|i: int|
            0 <= i < order.len() ==> (#[trigger] order@[i]) < keys.len() && order@[i] == order_of(
                key_views(keys@),
            )[i],
{
    let mut order: Vec<usize> = Vec::new();
    let ghost mut placed: Seq<int> = Seq::empty();
    let ghost all = key_views(keys@);
    let mut k: usize = 0;
    while k < keys.len()
        invariant
            k <= keys.len(),
            all == key_views(keys@),
            order.len() == k,
            placed.len() == k,
            forall|i: int| 0 <= i < k ==> #[trigger] order@[i] == placed[i],
            is_stable_order(all.take(k as int), placed),
        decreases keys.len() - k,
    {
        let mut at: usize = k;
        while at > 0 && key_before(&keys[k], &keys[order[at - 1]])
            invariant
                at <= k < keys.len(),
                all == key_views(keys@),
                order.len() == k,
                placed.len() == k,
                forall|i: int| 0 <= i < k ==> #[trigger] order@[i] == placed[i],
                forall|i: int| 0 <= i < k ==> 0 <= (#[trigger] placed[i]) < k,
                forall|i: int| at <= i < k ==> key_less(all[k as int], all[#[trigger] placed[i]]),
            decreases at,
        {
            at = at - 1;
        }
        proof {
            let next = all.take(k + 1);
            assert(next.drop_last() =~= all.take(k as int));
            assert(next.last() == all[k as int]);
            lemma_insert(next, placed, at as int);
            placed = placed.insert(at as int, k as int);
        }
        order.insert(at, k);
        k = k + 1;
    }
    proof {
        assert(all.take(k as int) =~= all);
        order_of_is_a_stable_order(all);
        stable_order_is_unique(all, placed, order_of(all));
    }
    order
}

/// A text comes before another where it is a proper beginning of it, or has the
/// lower character where the two first differ.
pub proof fn texts_are_ordered_by_where_they_differ(a: Seq<char>, b: Seq<char>, k: int)
    requires
        0 <= k <= a.len(),
        k <= b.len(),
        a.take(k) == b.take(k),
    ensures
        k == a.len() && k < b.len() ==> text_less(a, b),
        k == b.len() ==> !text_less(a, b),
        k < a.len() && k < b.len() && (a[k] as int) < (b[k] as int) ==> text_less(a, b),
        k < a.len() && k < b.len() && (a[k] as int) > (b[k] as int) ==> !text_less(a, b),
    decreases k,
{
    if k > 0 {
        assert(a[0] == a.take(k)[0] && b[0] == b.take(k)[0]);
        let (x, y) = (a.skip(1), b.skip(1));
        assert(x.take(k - 1) =~= a.take(k).skip(1));
        assert(y.take(k - 1) =~= b.take(k).skip(1));
        texts_are_ordered_by_where_they_differ(x, y, k - 1);
    }
}

/// A list is ordered by number first and by text among equal numbers, and what
/// is equal in both keeps its order.
pub proof fn an_order_is_by_number_and_then_by_text(
    keys: Vec<Key>,
    order: Vec<usize>,
    i: int,
    j: int,
)
    requires
        call_ensures(stable_order, (&keys,), order),
        0 <= i < j < order@.len(),
    ensures
        order@.len() == keys@.len(),
        order@[i] < keys@.len() && order@[j] < keys@.len(),
        order@[i] != order@[j],
        ({
            let (a, b) = (keys@[order@[i] as int], keys@[order@[j] as int]);
            ||| a.number < b.number
            ||| a.number == b.number && text_less(a.text@, b.text@)
            ||| a.number == b.number && a.text@ == b.text@ && order@[i] < order@[j]
        }),
{
    let views = key_views(keys@);
    order_of_is_a_stable_order(views);
    let spec = order_of(views);
    assert(order@[i] == spec[i] && order@[j] == spec[j]);
    assert(precedes(views, spec[i], spec[j]));
    lemma_precedes_strict(views, spec[i], spec[j]);
}

} // verus!
