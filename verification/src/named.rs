//! Rows that are looked up by name.
use vstd::prelude::*;

use crate::text::same;

verus! {

/// A row of a table, and the name it is looked up by.
pub trait Named: Sized {
    /// The name.
    spec fn key(&self) -> Seq<char>;

    /// The name.
    fn name_of(&self) -> (r: &str)
        ensures
            r@ == self.key(),
    ;
}

/// The first row from `i` on that has the name.
pub open spec fn row_from<T: Named>(rows: Seq<T>, name: Seq<char>, i: int) -> Option<T>
    decreases rows.len() - i,
{
    if i < 0 || i >= rows.len() {
        None
    } else if rows[i].key() == name {
        Some(rows[i])
    } else {
        row_from(rows, name, i + 1)
    }
}

/// The row of a name: the first that has it.
pub open spec fn row<T: Named>(rows: Seq<T>, name: Seq<char>) -> Option<T> {
    row_from(rows, name, 0)
}

/// What a lookup finds has the name and is a row; where it finds none, no row
/// has the name.
pub proof fn a_lookup_finds_the_name<T: Named>(rows: Seq<T>, name: Seq<char>)
    ensures
        match row(rows, name) {
            Some(r) => r.key() == name && rows.contains(r),
            None => forall|i: int| 0 <= i < rows.len() ==> (#[trigger] rows[i]).key() != name,
        },
{
    lemma_row_from(rows, name, 0);
}

proof fn lemma_row_from<T: Named>(rows: Seq<T>, name: Seq<char>, i: int)
    requires
        0 <= i,
    ensures
        match row_from(rows, name, i) {
            Some(r) => r.key() == name && rows.contains(r),
            None => forall|k: int| i <= k < rows.len() ==> (#[trigger] rows[k]).key() != name,
        },
    decreases rows.len() - i,
{
    if i < rows.len() && rows[i].key() != name {
        lemma_row_from(rows, name, i + 1);
    }
}

/// The row of a name: the first that has it.
pub fn find_row<'a, T: Named>(rows: &'a Vec<T>, name: &str) -> (r: Option<&'a T>)
    ensures
        match r {
            Some(x) => row(rows@, name@) == Some(*x),
            None => row(rows@, name@) is None,
        },
{
    let mut i: usize = 0;
    while i < rows.len()
        invariant
            i <= rows.len(),
            row(rows@, name@) == row_from(rows@, name@, i as int),
        decreases rows.len() - i,
    {
        if same(rows[i].name_of(), name) {
            return Some(&rows[i]);
        }
        i = i + 1;
    }
    None
}

/// Whether a list of strings holds a text.
pub open spec fn listed(list: Seq<String>, text: Seq<char>) -> bool {
    exists|i: int| 0 <= i < list.len() && (#[trigger] list[i])@ == text
}

/// Whether a list of strings holds a text.
pub fn is_listed(list: &Vec<String>, text: &str) -> (r: bool)
    ensures
        r == listed(list@, text@),
{
    let mut i: usize = 0;
    while i < list.len()
        invariant
            i <= list.len(),
            forall|k: int| 0 <= k < i ==> (#[trigger] list@[k])@ != text@,
        decreases list.len() - i,
    {
        if same(list[i].as_str(), text) {
            return true;
        }
        i = i + 1;
    }
    false
}

/// A list holds exactly the texts of its strings: each of them, wherever it
/// stands, and nothing else.
pub proof fn a_list_holds_its_strings_alone(list: Vec<String>, text: &str, r: bool)
    requires
        call_ensures(is_listed, (&list, text), r),
    ensures
        r <==> list@.map_values(|s: String| s@).contains(text@),
        forall|i: int| 0 <= i < list@.len() && (#[trigger] list@[i])@ == text@ ==> r,
        r ==> list@.len() > 0,
{
    let texts = list@.map_values(|s: String| s@);
    if r {
        let i = choose|i: int| 0 <= i < list@.len() && (#[trigger] list@[i])@ == text@;
        assert(texts[i] == text@);
    }
    if texts.contains(text@) {
        let i = choose|i: int| 0 <= i < texts.len() && texts[i] == text@;
        assert(list@[i]@ == text@);
    }
}

/// A lookup finds the first row that has the name, and finds one wherever a row
/// has it.
pub proof fn a_lookup_finds_the_first<T: Named>(rows: Seq<T>, name: Seq<char>, i: int)
    requires
        0 <= i < rows.len(),
        rows[i].key() == name,
        forall|k: int| 0 <= k < i ==> (#[trigger] rows[k]).key() != name,
    ensures
        row(rows, name) == Some(rows[i]),
{
    lemma_row_skips(rows, name, 0, i);
}

proof fn lemma_row_skips<T: Named>(rows: Seq<T>, name: Seq<char>, from: int, i: int)
    requires
        0 <= from <= i < rows.len(),
        rows[i].key() == name,
        forall|k: int| from <= k < i ==> (#[trigger] rows[k]).key() != name,
    ensures
        row_from(rows, name, from) == Some(rows[i]),
    decreases i - from,
{
    if from < i {
        lemma_row_skips(rows, name, from + 1, i);
    }
}

} // verus!
