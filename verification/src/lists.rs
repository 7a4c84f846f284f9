//! Lists of numbers and of texts: sorted, without repeats, picked from and laid
//! end to end.
use vstd::prelude::*;

use crate::order::{in_order, key_views, order_of, stable_order, text_before, text_less, Key};
use crate::text::{join_strings, same};
use crate::text::{join, views};

verus! {

// ---- lists of numbers ----

/// What numbers are ordered by.
pub open spec fn number_keys(list: Seq<u32>) -> Seq<(int, Seq<char>)> {
    Seq::new(list.len(), |i: int| (list[i] as int, ""@))
}

/// The numbers of `list` in ascending order.
pub open spec fn ascending(list: Seq<u32>) -> Seq<u32> {
    in_order(list, number_keys(list))
}

/// The numbers `1..=n`.
pub open spec fn one_to(n: int) -> Seq<u32> {
    Seq::new(n as nat, |i: int| (i + 1) as u32)
}

/// The numbers of `list` in ascending order.
pub fn ascending_of(list: &Vec<u32>) -> (out: Vec<u32>)
    ensures
        out@ == ascending(list@),
{
    let mut keys: Vec<Key> = Vec::new();
    let mut i: usize = 0;
    while i < list.len()
        invariant
            i <= list.len(),
            keys.len() == i,
            forall|k: int| 0 <= k < i ==> (#[trigger] keys@[k])@ == number_keys(list@)[k],
        decreases list.len() - i,
    {
        keys.push(Key { number: list[i] as u64, text: "".to_owned() });
        i = i + 1;
    }
    proof {
        assert(key_views(keys@) =~= number_keys(list@));
    }
    let order = stable_order(&keys);
    let mut out: Vec<u32> = Vec::new();
    let mut j: usize = 0;
    while j < order.len()
        invariant
            j <= order.len(),
            order.len() == list.len(),
            forall|k: int|
                0 <= k < order.len() ==> (#[trigger] order@[k]) < list.len() && order@[k]
                    == order_of(number_keys(list@))[k],
            out@ =~= ascending(list@).take(j as int),
        decreases order.len() - j,
    {
        out.push(list[order[j]]);
        j = j + 1;
    }
    out
}

/// The numbers `1..=n`.
pub fn one_to_of(n: u32) -> (out: Vec<u32>)
    ensures
        out@ == one_to(n as int),
{
    let mut out: Vec<u32> = Vec::new();
    let mut i: u32 = 0;
    while i < n
        invariant
            i <= n,
            out@ =~= one_to(i as int),
        decreases n - i,
    {
        i = i + 1;
        out.push(i);
    }
    out
}

/// Whether two lists of numbers are the same.
pub fn same_numbers(a: &Vec<u32>, b: &Vec<u32>) -> (r: bool)
    ensures
        r == (a@ == b@),
{
    if a.len() != b.len() {
        return false;
    }
    let mut i: usize = 0;
    while i < a.len()
        invariant
            i <= a.len(),
            a.len() == b.len(),
            forall|k: int| 0 <= k < i ==> a@[k] == b@[k],
        decreases a.len() - i,
    {
        if a[i] != b[i] {
            return false;
        }
        i = i + 1;
    }
    proof {
        assert(a@ =~= b@);
    }
    true
}

// ---- sets of texts ----

/// A text as Rust's `Debug` writes it: quoted, with what is not printable
/// escaped.
pub uninterp spec fn debug_text(s: Seq<char>) -> Seq<char>;

/// `str`'s `Debug` output, through `format!`. It is a function of the text;
/// which characters it escapes is not stated here.
#[verifier::external_body]
pub(crate) fn debug_of(s: &str) -> (out: String)
    ensures
        out@ == debug_text(s@),
{
    format!("{s:?}")
}

/// `set`, ascending and without repeats, with `t` put where it belongs.
pub open spec fn inserted(set: Seq<Seq<char>>, t: Seq<char>) -> Seq<Seq<char>>
    decreases set.len(),
{
    if set.len() == 0 {
        seq![t]
    } else if set.last() == t {
        set
    } else if text_less(set.last(), t) {
        set.push(t)
    } else {
        inserted(set.drop_last(), t).push(set.last())
    }
}

/// The distinct texts of `list`, ascending.
pub open spec fn distinct(list: Seq<Seq<char>>) -> Seq<Seq<char>>
    decreases list.len(),
{
    if list.len() == 0 {
        Seq::empty()
    } else {
        inserted(distinct(list.drop_last()), list.last())
    }
}

/// A list of texts as Rust's `Debug` writes its members.
pub open spec fn debug_each(list: Seq<Seq<char>>) -> Seq<char> {
    join(Seq::new(list.len(), |i: int| debug_text(list[i])), ", "@)
}

/// A set of texts as Rust's `Debug` writes it.
pub open spec fn text_set(set: Seq<Seq<char>>) -> Seq<char> {
    "{"@ + debug_each(set) + "}"@
}

/// A list of texts as Rust's `Debug` writes it.
pub open spec fn text_list(list: Seq<Seq<char>>) -> Seq<char> {
    "["@ + debug_each(list) + "]"@
}

fn debug_each_of(list: &Vec<String>) -> (out: String)
    ensures
        out@ == debug_each(views(list@)),
{
    let mut parts: Vec<String> = Vec::new();
    let mut i: usize = 0;
    while i < list.len()
        invariant
            i <= list.len(),
            parts.len() == i,
            forall|k: int| 0 <= k < i ==> (#[trigger] parts@[k])@ == debug_text(list@[k]@),
        decreases list.len() - i,
    {
        parts.push(debug_of(list[i].as_str()));
        i = i + 1;
    }
    proof {
        let all = views(list@);
        assert(views(parts@) =~= Seq::new(all.len(), |i: int| debug_text(all[i])));
    }
    join_strings(&parts, ", ")
}

/// A set of texts as Rust's `Debug` writes it.
pub fn text_set_of(set: &Vec<String>) -> (out: String)
    ensures
        out@ == text_set(views(set@)),
{
    "{".to_owned().concat(debug_each_of(set).as_str()).concat("}")
}

/// A list of texts as Rust's `Debug` writes it.
pub fn text_list_of(list: &Vec<String>) -> (out: String)
    ensures
        out@ == text_list(views(list@)),
{
    "[".to_owned().concat(debug_each_of(list).as_str()).concat("]")
}

/// Put `t` where it belongs in `set`, ascending and without repeats.
fn insert_text(set: &mut Vec<String>, t: String)
    ensures
        views(final(set)@) == inserted(views(old(set)@), t@),
{
    let ghost all = views(set@);
    let mut at: usize = set.len();
    proof {
        assert(all.take(at as int) =~= all);
        assert(inserted(all, t@) =~= inserted(all.take(at as int), t@) + all.skip(at as int));
    }
    while at > 0
        invariant
            at <= set.len(),
            set@ == old(set)@,
            all == views(set@),
            inserted(all, t@) == inserted(all.take(at as int), t@) + all.skip(at as int),
        decreases at,
    {
        let ghost now = all.take(at as int);
        proof {
            assert(now.last() == set@[at - 1]@);
            assert(now.drop_last() =~= all.take(at - 1));
        }
        if same(set[at - 1].as_str(), t.as_str()) {
            proof {
                assert(now + all.skip(at as int) =~= all);
            }
            return;
        }
        if text_before(set[at - 1].as_str(), t.as_str()) {
            set.insert(at, t);
            proof {
                assert(views(set@) =~= now.push(t@) + all.skip(at as int));
            }
            return;
        }
        proof {
            assert(inserted(all.take(at - 1), t@).push(now.last()) + all.skip(at as int)
                =~= inserted(all.take(at - 1), t@) + all.skip(at - 1));
        }
        at = at - 1;
    }
    set.insert(0, t);
    proof {
        assert(all.take(0).len() == 0);
        assert(views(set@) =~= seq![t@] + all.skip(0));
    }
}

/// The distinct texts of `list`, ascending.
pub fn distinct_of(list: &Vec<String>) -> (out: Vec<String>)
    ensures
        views(out@) == distinct(views(list@)),
{
    let ghost all = views(list@);
    let mut out: Vec<String> = Vec::new();
    let mut i: usize = 0;
    proof {
        assert(views(out@) =~= distinct(all.take(0)));
    }
    while i < list.len()
        invariant
            i <= list.len(),
            all == views(list@),
            views(out@) == distinct(all.take(i as int)),
        decreases list.len() - i,
    {
        proof {
            assert(all.take(i + 1).drop_last() =~= all.take(i as int));
            assert(all.take(i + 1).last() == list@[i as int]@);
        }
        insert_text(&mut out, list[i].clone());
        i = i + 1;
    }
    proof {
        assert(all.take(i as int) =~= all);
    }
    out
}

// ---- picking and flattening ----

/// The text in an optional text.
pub open spec fn text_of(o: Option<String>) -> Option<Seq<char>> {
    match o {
        Some(text) => Some(text@),
        None => None,
    }
}

/// The texts of `list` that are there, in order.
pub open spec fn kept(list: Seq<Option<Seq<char>>>) -> Seq<Seq<char>>
    decreases list.len(),
{
    if list.len() == 0 {
        Seq::empty()
    } else {
        match list.last() {
            Some(text) => kept(list.drop_last()).push(text),
            None => kept(list.drop_last()),
        }
    }
}

/// The texts of each list of `lists`, one list after the other.
pub open spec fn flat(lists: Seq<Seq<Seq<char>>>) -> Seq<Seq<char>>
    decreases lists.len(),
{
    if lists.len() == 0 {
        Seq::empty()
    } else {
        flat(lists.drop_last()) + lists.last()
    }
}

/// `out` with `item`, where there is one, as the next of `list`.
pub(crate) fn keep(out: Vec<String>, item: Option<String>, Ghost(list): Ghost<Seq<Option<Seq<char>>>>, Ghost(i): Ghost<int>) -> (r: Vec<String>)
    requires
        0 <= i < list.len(),
        views(out@) == kept(list.take(i)),
        text_of(item) == list[i],
    ensures
        views(r@) == kept(list.take(i + 1)),
{
    let mut r = out;
    proof {
        assert(list.take(i + 1).drop_last() =~= list.take(i));
    }
    if let Some(text) = item {
        r.push(text);
        proof {
            assert(views(r@) =~= views(out@).push(text@));
        }
    }
    r
}

/// `out` with `items` as the next of `lists`.
pub(crate) fn lay(out: Vec<String>, items: Vec<String>, Ghost(lists): Ghost<Seq<Seq<Seq<char>>>>, Ghost(i): Ghost<int>) -> (r: Vec<String>)
    requires
        0 <= i < lists.len(),
        views(out@) == flat(lists.take(i)),
        views(items@) == lists[i],
    ensures
        views(r@) == flat(lists.take(i + 1)),
{
    let mut r = out;
    let mut rest = items;
    proof {
        assert(lists.take(i + 1).drop_last() =~= lists.take(i));
    }
    r.append(&mut rest);
    proof {
        assert(views(r@) =~= views(out@) + views(items@));
    }
    r
}

/// One list of texts after another.
pub(crate) fn joined_lists(a: Vec<String>, b: Vec<String>) -> (r: Vec<String>)
    ensures
        views(r@) == views(a@) + views(b@),
{
    let mut r = a;
    let mut rest = b;
    r.append(&mut rest);
    proof {
        assert(views(r@) =~= views(a@) + views(b@));
    }
    r
}

/// Where nothing is kept, nothing was given.
pub(crate) proof fn lemma_kept_empty(list: Seq<Option<Seq<char>>>)
    requires
        kept(list).len() == 0,
    ensures
        forall|i: int| 0 <= i < list.len() ==> (#[trigger] list[i]) is None,
    decreases list.len(),
{
    if list.len() > 0 {
        lemma_kept_empty(list.drop_last());
        assert forall|i: int| 0 <= i < list.len() implies (#[trigger] list[i]) is None by {
            if i < list.len() - 1 {
                assert(list.drop_last()[i] == list[i]);
            }
        }
    }
}

/// Where lists laid end to end are empty, each of them is.
pub(crate) proof fn lemma_flat_empty(lists: Seq<Seq<Seq<char>>>)
    requires
        flat(lists).len() == 0,
    ensures
        forall|i: int| 0 <= i < lists.len() ==> (#[trigger] lists[i]).len() == 0,
    decreases lists.len(),
{
    if lists.len() > 0 {
        lemma_flat_empty(lists.drop_last());
        assert forall|i: int| 0 <= i < lists.len() implies (#[trigger] lists[i]).len() == 0 by {
            if i < lists.len() - 1 {
                assert(lists.drop_last()[i] == lists[i]);
            }
        }
    }
}

/// What is kept of a list is each text that is there, and nothing else.
pub proof fn what_is_there_is_kept(list: Seq<Option<Seq<char>>>, text: Seq<char>)
    ensures
        kept(list).contains(text) <==> list.contains(Some(text)),
    decreases list.len(),
{
    if list.len() > 0 {
        let (before, last) = (list.drop_last(), list.last());
        what_is_there_is_kept(before, text);
        assert(list =~= before.push(last));
        if list.contains(Some(text)) {
            let i = list.index_of(Some(text));
            if i < before.len() {
                assert(before[i] == Some(text));
                let k = kept(before).index_of(text);
                assert(kept(list)[k] == text);
            } else {
                assert(kept(list)[kept(list).len() - 1] == text);
            }
        }
        if kept(list).contains(text) {
            let k = kept(list).index_of(text);
            if k < kept(before).len() {
                assert(kept(before)[k] == text);
                let i = before.index_of(Some(text));
                assert(list[i] == Some(text));
            } else {
                assert(list[list.len() - 1] == Some(text));
            }
        }
    }
}

/// Lists laid one after the other hold what one of them holds, and nothing else.
pub proof fn lists_are_laid_end_to_end(lists: Seq<Seq<Seq<char>>>, text: Seq<char>)
    ensures
        flat(lists).contains(text) <==> exists|i: int|
            0 <= i < lists.len() && (#[trigger] lists[i]).contains(text),
    decreases lists.len(),
{
    if lists.len() > 0 {
        let (before, last) = (lists.drop_last(), lists.last());
        lists_are_laid_end_to_end(before, text);
        if flat(lists).contains(text) {
            let k = flat(lists).index_of(text);
            if k < flat(before).len() {
                assert(flat(before)[k] == text);
                let i = choose|i: int|
                    0 <= i < before.len() && (#[trigger] before[i]).contains(text);
                assert(lists[i].contains(text));
            } else {
                assert(last[k - flat(before).len()] == text);
                assert(lists[lists.len() - 1].contains(text));
            }
        }
        if exists|i: int| 0 <= i < lists.len() && (#[trigger] lists[i]).contains(text) {
            let i = choose|i: int| 0 <= i < lists.len() && (#[trigger] lists[i]).contains(text);
            if i < before.len() {
                assert(before[i].contains(text));
                let k = flat(before).index_of(text);
                assert(flat(lists)[k] == text);
            } else {
                let k = last.index_of(text);
                assert(flat(lists)[flat(before).len() + k] == text);
            }
        }
    }
}

proof fn lemma_inserted(set: Seq<Seq<char>>, t: Seq<char>, text: Seq<char>)
    ensures
        inserted(set, t).contains(text) <==> set.contains(text) || text == t,
    decreases set.len(),
{
    if set.len() == 0 {
        assert(seq![t][0] == t);
    } else if set.last() == t {
        assert(set[set.len() - 1] == t);
    } else {
        let (before, last) = (set.drop_last(), set.last());
        assert(set =~= before.push(last));
        lemma_inserted(before, t, text);
        lemma_pushed(before, last, text);
        lemma_pushed(set, t, text);
        lemma_pushed(inserted(before, t), last, text);
    }
}

proof fn lemma_pushed(list: Seq<Seq<char>>, last: Seq<char>, text: Seq<char>)
    ensures
        list.push(last).contains(text) <==> list.contains(text) || text == last,
{
    let all = list.push(last);
    assert(all[all.len() - 1] == last);
    if list.contains(text) {
        let i = list.index_of(text);
        assert(all[i] == text);
    }
    if all.contains(text) {
        let i = all.index_of(text);
        if i < list.len() {
            assert(list[i] == text);
        }
    }
}

/// The distinct texts of a list are its texts, and no others.
pub proof fn distinct_texts_are_those_of_the_list(list: Seq<Seq<char>>, text: Seq<char>)
    ensures
        distinct(list).contains(text) <==> list.contains(text),
    decreases list.len(),
{
    if list.len() > 0 {
        let (before, last) = (list.drop_last(), list.last());
        distinct_texts_are_those_of_the_list(before, text);
        assert(list =~= before.push(last));
        lemma_pushed(before, last, text);
        lemma_inserted(distinct(before), last, text);
    }
}

proof fn lemma_inserted_ascends(set: Seq<Seq<char>>, t: Seq<char>)
    requires
        forall|i: int, j: int|
            0 <= i < j < set.len() ==> text_less(#[trigger] set[i], #[trigger] set[j]),
    ensures
        forall|i: int, j: int|
            0 <= i < j < inserted(set, t).len() ==> text_less(
                #[trigger] inserted(set, t)[i],
                #[trigger] inserted(set, t)[j],
            ),
    decreases set.len(),
{
    if set.len() > 0 && set.last() != t {
        let (before, last) = (set.drop_last(), set.last());
        assert forall|i: int, j: int| 0 <= i < j < before.len() implies text_less(
            #[trigger] before[i],
            #[trigger] before[j],
        ) by {
            assert(before[i] == set[i] && before[j] == set[j]);
        }
        lemma_inserted_ascends(before, t);
        let all = inserted(set, t);
        assert forall|i: int, j: int| 0 <= i < j < all.len() implies text_less(
            #[trigger] all[i],
            #[trigger] all[j],
        ) by {
            if text_less(last, t) {
                if j == all.len() - 1 && i < set.len() - 1 {
                    assert(text_less(set[i], set[set.len() - 1]));
                    crate::order::text_less_transitive(set[i], last, t);
                }
            } else {
                crate::order::text_less_trichotomy(last, t);
                let front = inserted(before, t);
                if j == all.len() - 1 {
                    lemma_inserted(before, t, front[i]);
                    assert(front.contains(front[i]));
                    if before.contains(front[i]) {
                        let k = before.index_of(front[i]);
                        assert(text_less(set[k], set[set.len() - 1]));
                    }
                } else {
                    assert(all[i] == front[i] && all[j] == front[j]);
                }
            }
        }
    }
}

/// The distinct texts of a list come in ascending order, each once.
pub proof fn distinct_texts_ascend(list: Seq<Seq<char>>)
    ensures
        forall|i: int, j: int|
            0 <= i < j < distinct(list).len() ==> text_less(
                #[trigger] distinct(list)[i],
                #[trigger] distinct(list)[j],
            ),
    decreases list.len(),
{
    if list.len() > 0 {
        distinct_texts_ascend(list.drop_last());
        lemma_inserted_ascends(distinct(list.drop_last()), list.last());
    }
}

} // verus!
