//! Whether the committed tree is the rendered one.
//!
//! Two checks, and the second is the one that matters. The bytes agree: every
//! rendered file is committed as it renders, and nothing else is. And every
//! file is asserted about: it names registered claims, and every claim about
//! rendered artifacts is named by one --- else a tree that renders perfectly and
//! that nothing tests would pass.
use vstd::prelude::*;

use crate::lists::{distinct_of, joined_lists, keep, lay, lemma_flat_empty, lemma_kept_empty};
use crate::lists::{distinct, flat, kept, text_of};
use crate::model::GENERATED_DIR;
use crate::named::row;
use crate::registry::{class_of, IdRow, Ids};
use crate::registry::class_spec;
use crate::render::{contents_of, files, str_views, File};
use crate::render::{Rendered, Syntax, ASSERTED_BY, GENERATED_MARKER};
use crate::text::{contains, decimal_of, join_strings, same};
use crate::text::{decimal, holds, join, views};

verus! {

/// The class of the claims that assert over rendered artifacts.
pub const RENDER_CLASS: &'static str = "CD";

/// What reading a committed file gave, as values.
pub open spec fn read_view(read: Result<String, String>) -> Result<Seq<char>, Seq<char>> {
    match read {
        Ok(text) => Ok(text@),
        Err(why) => Err(why@),
    }
}

/// What reading the committed files gave, as values.
pub open spec fn read_views(list: Seq<Result<String, String>>) -> Seq<
    Result<Seq<char>, Seq<char>>,
> {
    Seq::new(list.len(), |i: int| read_view(list[i]))
}

// ---- the bytes agree ----

/// What is wrong with a committed file: it cannot be read, or it is not what
/// renders.
pub open spec fn byte_problem(file: File, read: Result<Seq<char>, Seq<char>>) -> Option<Seq<char>> {
    match read {
        Err(why) => Some(
                file.path
                    + ": "@
                    + why,
            ),
        Ok(text) => if text != contents_of(file) {
            Some(
                file.path
                    + ": the committed file disagrees with the model"@,
            )
        } else {
            None
        },
    }
}

fn byte_problem_of(file: &Rendered, read: &Result<String, String>) -> (r: Option<String>)
    ensures
        text_of(r) == byte_problem(file@, read_view(*read)),
{
    match read {
        Err(why) => Some(
                file.path.clone()
                    .concat(": ")
                    .concat(why.as_str()),
            ),
        Ok(text) => if !same(text.as_str(), file.contents().as_str()) {
            Some(
                file.path.clone()
                    .concat(": the committed file disagrees with the model"),
            )
        } else {
            None
        },
    }
}

/// The committed files that are not what renders.
pub open spec fn byte_problems(all: Seq<File>, committed: Seq<Result<Seq<char>, Seq<char>>>) -> Seq<Seq<char>> {
    kept(byte_problems_each(all, committed))
}

/// What each gives to [`byte_problems`].
pub open spec fn byte_problems_each(all: Seq<File>, committed: Seq<Result<Seq<char>, Seq<char>>>) -> Seq<Option<Seq<char>>> {
    Seq::new(all.len(), |i: int| byte_problem(all[i], committed[i]))
}

/// The committed files that are not what renders.
fn byte_problems_of(all: &Vec<Rendered>, committed: &Vec<Result<String, String>>) -> (out: Vec<String>)
    requires
        committed.len() == all.len(),
    ensures
        views(out@) == byte_problems(files(all@), read_views(committed@)),
{
    let ghost list = byte_problems_each(files(all@), read_views(committed@));
    let mut out: Vec<String> = Vec::new();
    let mut i: usize = 0;
    proof {
        assert(views(out@) =~= kept(list.take(0)));
    }
    while i < all.len()
        invariant
            i <= all.len(),
            all.len() == list.len(),
            list == byte_problems_each(files(all@), read_views(committed@)),
            committed.len() == all.len(),
            views(out@) == kept(list.take(i as int)),
        decreases all.len() - i,
    {
        proof {
            assert(files(all@)[i as int] == all@[i as int]@);
            assert(read_views(committed@)[i as int] == read_view(committed@[i as int]));
        }
        let item = byte_problem_of(&all[i], &committed[i]);
        out = keep(out, item, Ghost(list), Ghost(i as int));
        i = i + 1;
    }
    proof {
        assert(list.take(i as int) =~= list);
    }
    out
}

/// Whether a file of that path renders.
pub open spec fn renders(all: Seq<File>, path: Seq<char>) -> bool {
    exists|i: int| 0 <= i < all.len() && (#[trigger] all[i]).path == path
}

fn is_rendered(all: &Vec<Rendered>, path: &str) -> (r: bool)
    ensures
        r == renders(files(all@), path@),
{
    let mut i: usize = 0;
    while i < all.len()
        invariant
            i <= all.len(),
            forall|k: int| 0 <= k < i ==> (#[trigger] files(all@)[k]).path != path@,
        decreases all.len() - i,
    {
        proof {
            assert(files(all@)[i as int] == all@[i as int]@);
        }
        if same(all[i].path.as_str(), path) {
            return true;
        }
        i = i + 1;
    }
    false
}

/// What a file that nothing renders is told.
pub open spec fn stray(all: Seq<File>, path: Seq<char>) -> Option<Seq<char>> {
    if renders(all, path) {
        None
    } else {
        Some(
            path
                + ": present under "@
                + GENERATED_DIR@
                + "/ but rendered by nothing (§17.2)"@,
        )
    }
}

fn stray_of(all: &Vec<Rendered>, path: &str) -> (r: Option<String>)
    ensures
        text_of(r) == stray(files(all@), path@),
{
    if is_rendered(all, path) {
        None
    } else {
        Some(
            path.to_owned()
                .concat(": present under ")
                .concat(GENERATED_DIR)
                .concat("/ but rendered by nothing (§17.2)"),
        )
    }
}

/// The files found that nothing renders.
pub open spec fn strays(all: Seq<File>, found: Seq<Seq<char>>) -> Seq<Seq<char>> {
    kept(strays_each(all, found))
}

/// What each gives to [`strays`].
pub open spec fn strays_each(all: Seq<File>, found: Seq<Seq<char>>) -> Seq<Option<Seq<char>>> {
    Seq::new(found.len(), |i: int| stray(all, found[i]))
}

/// The files found that nothing renders.
fn strays_of(all: &Vec<Rendered>, found: &Vec<String>) -> (out: Vec<String>)
    ensures
        views(out@) == strays(files(all@), views(found@)),
{
    let ghost list = strays_each(files(all@), views(found@));
    let mut out: Vec<String> = Vec::new();
    let mut i: usize = 0;
    proof {
        assert(views(out@) =~= kept(list.take(0)));
    }
    while i < found.len()
        invariant
            i <= found.len(),
            found.len() == list.len(),
            list == strays_each(files(all@), views(found@)),
            views(out@) == kept(list.take(i as int)),
        decreases found.len() - i,
    {
        proof {
            assert(views(found@)[i as int] == found@[i as int]@);
        }
        let item = stray_of(all, found[i].as_str());
        out = keep(out, item, Ghost(list), Ghost(i as int));
        i = i + 1;
    }
    proof {
        assert(list.take(i as int) =~= list);
    }
    out
}

// ---- every file is asserted about ----

/// Whether a file's format carries a comment.
pub open spec fn carries_provenance(file: File) -> bool {
    Syntax::of_spec(file.body) != Syntax::Json
}

/// What a file without the marker is told.
pub open spec fn marker_gap(file: File) -> Option<Seq<char>> {
    if carries_provenance(file) && !holds(contents_of(file), GENERATED_MARKER@) {
        Some(
            file.path
                + ": no `"@
                + GENERATED_MARKER@
                + "` marker"@,
        )
    } else {
        None
    }
}

fn marker_gap_of(file: &Rendered) -> (r: Option<String>)
    ensures
        text_of(r) == marker_gap(file@),
{
    if Syntax::of(file.body.as_str()) != Syntax::Json && !contains(
        file.contents().as_str(),
        GENERATED_MARKER,
    ) {
        Some(
            file.path.clone()
                .concat(": no `")
                .concat(GENERATED_MARKER)
                .concat("` marker"),
        )
    } else {
        None
    }
}

/// What a file that names no claim is told.
pub open spec fn empty_gap(file: File) -> Option<Seq<char>> {
    if file.ids.len() == 0 {
        Some(
            file.path
                + ": names no conformance ID. Rendering an artifact nothing asserts about is a gap, not a convenience (§7.2)"@,
        )
    } else {
        None
    }
}

fn empty_gap_of(file: &Rendered) -> (r: Option<String>)
    ensures
        text_of(r) == empty_gap(file@),
{
    if file.ids.len() == 0 {
        Some(
            file.path.clone()
                .concat(": names no conformance ID. Rendering an artifact nothing asserts about is a gap, not a convenience (§7.2)"),
        )
    } else {
        None
    }
}

/// What a file that names an unregistered claim is told.
pub open spec fn unknown_gap(file: File, id: Seq<char>, ids: Ids) -> Option<Seq<char>> {
    if row(ids.id@, id) is None {
        Some(
            file.path
                + ": names `"@
                + id
                + "`, which is not in the register (§7.2)"@,
        )
    } else {
        None
    }
}

fn unknown_gap_of(file: &Rendered, id: &str, ids: &Ids) -> (r: Option<String>)
    ensures
        text_of(r) == unknown_gap(file@, id@, *ids),
{
    if ids.get(id).is_none() {
        Some(
            file.path.clone()
                .concat(": names `")
                .concat(id)
                .concat("`, which is not in the register (§7.2)"),
        )
    } else {
        None
    }
}

/// The unregistered claims a file names.
pub open spec fn unknown_gaps(file: File, ids: Ids) -> Seq<Seq<char>> {
    kept(unknown_gaps_each(file, ids))
}

/// What each gives to [`unknown_gaps`].
pub open spec fn unknown_gaps_each(file: File, ids: Ids) -> Seq<Option<Seq<char>>> {
    Seq::new(file.ids.len(), |i: int| unknown_gap(file, file.ids[i], ids))
}

/// The unregistered claims a file names.
fn unknown_gaps_of(file: &Rendered, ids: &Ids) -> (out: Vec<String>)
    ensures
        views(out@) == unknown_gaps(file@, *ids),
{
    let ghost list = unknown_gaps_each(file@, *ids);
    let mut out: Vec<String> = Vec::new();
    let mut i: usize = 0;
    proof {
        assert(views(out@) =~= kept(list.take(0)));
    }
    while i < file.ids.len()
        invariant
            i <= file.ids.len(),
            file.ids.len() == list.len(),
            list == unknown_gaps_each(file@, *ids),
            views(out@) == kept(list.take(i as int)),
        decreases file.ids.len() - i,
    {
        proof {
            assert(str_views(file.ids@)[i as int] == file.ids@[i as int]@);
        }
        let item = unknown_gap_of(file, file.ids[i], ids);
        out = keep(out, item, Ghost(list), Ghost(i as int));
        i = i + 1;
    }
    proof {
        assert(list.take(i as int) =~= list);
    }
    out
}

/// Whether a claim is of the class that asserts over rendered artifacts.
pub open spec fn is_render_claim(id: Seq<char>) -> bool {
    class_spec(id) == Some(RENDER_CLASS@)
}

fn render_claim(id: &str) -> (r: bool)
    ensures
        r == is_render_claim(id@),
{
    match class_of(id) {
        Some(class) => same(class.as_str(), RENDER_CLASS),
        None => false,
    }
}

/// Whether a file names a claim of the class that asserts over rendered
/// artifacts.
pub open spec fn names_render_claim(file: File) -> bool {
    exists|i: int| 0 <= i < file.ids.len() && is_render_claim(#[trigger] file.ids[i])
}

fn is_render_claimed(file: &Rendered) -> (r: bool)
    ensures
        r == names_render_claim(file@),
{
    let mut i: usize = 0;
    while i < file.ids.len()
        invariant
            i <= file.ids.len(),
            forall|k: int| 0 <= k < i ==> !is_render_claim(#[trigger] file@.ids[k]),
        decreases file.ids.len() - i,
    {
        proof {
            assert(file@.ids[i as int] == file.ids@[i as int]@);
        }
        if render_claim(file.ids[i]) {
            return true;
        }
        i = i + 1;
    }
    false
}

/// What a file that names no claim over rendered artifacts is told.
pub open spec fn class_gap(file: File) -> Option<Seq<char>> {
    if !names_render_claim(file) {
        Some(
            file.path
                + ": names no `"@
                + RENDER_CLASS@
                + "-` ID. A rendered artifact is asserted about by the class that exists for rendered artifacts (§19.2)"@,
        )
    } else {
        None
    }
}

fn class_gap_of(file: &Rendered) -> (r: Option<String>)
    ensures
        text_of(r) == class_gap(file@),
{
    if !is_render_claimed(file) {
        Some(
            file.path.clone()
                .concat(": names no `")
                .concat(RENDER_CLASS)
                .concat("-` ID. A rendered artifact is asserted about by the class that exists for rendered artifacts (§19.2)"),
        )
    } else {
        None
    }
}

/// What a file whose header names no claims is told.
pub open spec fn header_gap(file: File) -> Option<Seq<char>> {
    if carries_provenance(file) && !holds(contents_of(file), ASSERTED_BY@) {
        Some(
            file.path
                + ": header names no asserting IDs"@,
        )
    } else {
        None
    }
}

fn header_gap_of(file: &Rendered) -> (r: Option<String>)
    ensures
        text_of(r) == header_gap(file@),
{
    if Syntax::of(file.body.as_str()) != Syntax::Json && !contains(
        file.contents().as_str(),
        ASSERTED_BY,
    ) {
        Some(
            file.path.clone()
                .concat(": header names no asserting IDs"),
        )
    } else {
        None
    }
}

/// What there is of an optional text.
pub open spec fn of_option(o: Option<Seq<char>>) -> Seq<Seq<char>> {
    match o {
        Some(text) => seq![text],
        None => Seq::empty(),
    }
}

fn list_of(o: Option<String>) -> (r: Vec<String>)
    ensures
        views(r@) == of_option(text_of(o)),
{
    let mut r: Vec<String> = Vec::new();
    if let Some(text) = o {
        r.push(text);
    }
    proof {
        assert(views(r@) =~= of_option(text_of(o)));
    }
    r
}

/// Everything that keeps a file from being asserted about.
pub open spec fn file_gaps(file: File, ids: Ids) -> Seq<Seq<char>> {
    of_option(marker_gap(file)) + of_option(empty_gap(file)) + unknown_gaps(file, ids) + of_option(
        class_gap(file),
    ) + of_option(header_gap(file))
}

fn file_gaps_of(file: &Rendered, ids: &Ids) -> (r: Vec<String>)
    ensures
        views(r@) == file_gaps(file@, *ids),
{
    let r = joined_lists(list_of(marker_gap_of(file)), list_of(empty_gap_of(file)));
    let r = joined_lists(r, unknown_gaps_of(file, ids));
    let r = joined_lists(r, list_of(class_gap_of(file)));
    joined_lists(r, list_of(header_gap_of(file)))
}

/// Everything that keeps a file of the tree from being asserted about.
pub open spec fn tree_gaps(all: Seq<File>, ids: Ids) -> Seq<Seq<char>> {
    flat(tree_gaps_each(all, ids))
}

/// What each gives to [`tree_gaps`].
pub open spec fn tree_gaps_each(all: Seq<File>, ids: Ids) -> Seq<Seq<Seq<char>>> {
    Seq::new(all.len(), |i: int| file_gaps(all[i], ids))
}

/// Everything that keeps a file of the tree from being asserted about.
fn tree_gaps_of(all: &Vec<Rendered>, ids: &Ids) -> (out: Vec<String>)
    ensures
        views(out@) == tree_gaps(files(all@), *ids),
{
    let ghost list = tree_gaps_each(files(all@), *ids);
    let mut out: Vec<String> = Vec::new();
    let mut i: usize = 0;
    proof {
        assert(views(out@) =~= flat(list.take(0)));
    }
    while i < all.len()
        invariant
            i <= all.len(),
            all.len() == list.len(),
            list == tree_gaps_each(files(all@), *ids),
            views(out@) == flat(list.take(i as int)),
        decreases all.len() - i,
    {
        proof {
            assert(files(all@)[i as int] == all@[i as int]@);
        }
        let item = file_gaps_of(&all[i], ids);
        out = lay(out, item, Ghost(list), Ghost(i as int));
        i = i + 1;
    }
    proof {
        assert(list.take(i as int) =~= list);
    }
    out
}

fn owned_ids(file: &Rendered) -> (out: Vec<String>)
    ensures
        views(out@) == file@.ids,
{
    let mut out: Vec<String> = Vec::new();
    let mut i: usize = 0;
    while i < file.ids.len()
        invariant
            i <= file.ids.len(),
            out.len() == i,
            forall|k: int| 0 <= k < i ==> (#[trigger] out@[k])@ == file.ids@[k]@,
        decreases file.ids.len() - i,
    {
        out.push(file.ids[i].to_owned());
        i = i + 1;
    }
    proof {
        assert(views(out@) =~= file@.ids);
    }
    out
}

/// Every claim that a file names.
pub open spec fn named_claims(all: Seq<File>) -> Seq<Seq<char>> {
    flat(named_claims_each(all))
}

/// What each gives to [`named_claims`].
pub open spec fn named_claims_each(all: Seq<File>) -> Seq<Seq<Seq<char>>> {
    Seq::new(all.len(), |i: int| all[i].ids)
}

/// Every claim that a file names.
fn named_claims_of(all: &Vec<Rendered>) -> (out: Vec<String>)
    ensures
        views(out@) == named_claims(files(all@)),
{
    let ghost list = named_claims_each(files(all@));
    let mut out: Vec<String> = Vec::new();
    let mut i: usize = 0;
    proof {
        assert(views(out@) =~= flat(list.take(0)));
    }
    while i < all.len()
        invariant
            i <= all.len(),
            all.len() == list.len(),
            list == named_claims_each(files(all@)),
            views(out@) == flat(list.take(i as int)),
        decreases all.len() - i,
    {
        proof {
            assert(files(all@)[i as int] == all@[i as int]@);
        }
        let item = owned_ids(&all[i]);
        out = lay(out, item, Ghost(list), Ghost(i as int));
        i = i + 1;
    }
    proof {
        assert(list.take(i as int) =~= list);
    }
    out
}

fn is_named(named: &Vec<String>, id: &str) -> (r: bool)
    ensures
        r == views(named@).contains(id@),
{
    let mut i: usize = 0;
    while i < named.len()
        invariant
            i <= named.len(),
            forall|k: int| 0 <= k < i ==> (#[trigger] views(named@)[k]) != id@,
        decreases named.len() - i,
    {
        proof {
            assert(views(named@)[i as int] == named@[i as int]@);
        }
        if same(named[i].as_str(), id) {
            return true;
        }
        i = i + 1;
    }
    false
}

/// What a claim about the tree that no file names is told.
pub open spec fn vacuous(named: Seq<Seq<char>>, claim: IdRow) -> Option<Seq<char>> {
    if is_render_claim(claim.id@) && !named.contains(claim.id@) {
        Some(
            claim.id@
                + ": registered as a `"@
                + RENDER_CLASS@
                + "-` claim but no rendered file names it. A claim about the rendered tree that touches none of it is vacuous (§7.2, §19.2)"@,
        )
    } else {
        None
    }
}

fn vacuous_of(named: &Vec<String>, claim: &IdRow) -> (r: Option<String>)
    ensures
        text_of(r) == vacuous(views(named@), *claim),
{
    if render_claim(claim.id.as_str()) && !is_named(named, claim.id.as_str()) {
        Some(
            claim.id.clone()
                .concat(": registered as a `")
                .concat(RENDER_CLASS)
                .concat("-` claim but no rendered file names it. A claim about the rendered tree that touches none of it is vacuous (§7.2, §19.2)"),
        )
    } else {
        None
    }
}

/// The claims about the tree that no file names.
pub open spec fn vacuous_claims(named: Seq<Seq<char>>, ids: Ids) -> Seq<Seq<char>> {
    kept(vacuous_claims_each(named, ids))
}

/// What each gives to [`vacuous_claims`].
pub open spec fn vacuous_claims_each(named: Seq<Seq<char>>, ids: Ids) -> Seq<Option<Seq<char>>> {
    Seq::new(ids.id@.len(), |i: int| vacuous(named, ids.id@[i]))
}

/// The claims about the tree that no file names.
fn vacuous_claims_of(named: &Vec<String>, ids: &Ids) -> (out: Vec<String>)
    ensures
        views(out@) == vacuous_claims(views(named@), *ids),
{
    let ghost list = vacuous_claims_each(views(named@), *ids);
    let mut out: Vec<String> = Vec::new();
    let mut i: usize = 0;
    proof {
        assert(views(out@) =~= kept(list.take(0)));
    }
    while i < ids.id.len()
        invariant
            i <= ids.id.len(),
            ids.id.len() == list.len(),
            list == vacuous_claims_each(views(named@), *ids),
            views(out@) == kept(list.take(i as int)),
        decreases ids.id.len() - i,
    {
        let item = vacuous_of(named, &ids.id[i]);
        out = keep(out, item, Ghost(list), Ghost(i as int));
        i = i + 1;
    }
    proof {
        assert(list.take(i as int) =~= list);
    }
    out
}

/// What is wrong with a committed tree: a file that is not what renders, or one
/// that nothing renders.
pub open spec fn problems(
    all: Seq<File>,
    committed: Seq<Result<Seq<char>, Seq<char>>>,
    found: Seq<Seq<char>>,
) -> Seq<Seq<char>> {
    byte_problems(all, committed) + strays(all, found)
}

/// What keeps the tree and the claims about it from covering each other.
pub open spec fn gaps(all: Seq<File>, ids: Ids) -> Seq<Seq<char>> {
    tree_gaps(all, ids) + vacuous_claims(named_claims(all), ids)
}

/// What is wrong with the tree, where something is.
pub open spec fn tree_fault(
    all: Seq<File>,
    committed: Seq<Result<Seq<char>, Seq<char>>>,
    found: Seq<Seq<char>>,
    ids: Ids,
) -> Option<Seq<char>> {
    if all.len() == 0 {
        Some("the model renders no artifacts, which cannot be right (§7.2)"@)
    } else if problems(all, committed, found).len() > 0 {
        Some(
            "R1: the model is the single source, and `"@
                + GENERATED_DIR@
                + "/` is rendered from it. A hand-edited artifact is the same class of error as a hand-edited CONFORMANCE.md. Run `just render`.\n\n"@
                + join(problems(all, committed, found), "\n"@),
        )
    } else if gaps(all, ids).len() > 0 {
        Some(
            "R1: every rendered artifact names the claims that assert over it, and every `"@
                + RENDER_CLASS@
                + "-` claim names an artifact.\n\n"@
                + join(gaps(all, ids), "\n"@),
        )
    } else {
        None
    }
}

/// What is said of a tree with nothing wrong.
pub open spec fn tree_report(all: Seq<File>) -> Seq<char> {
    let claims = distinct(named_claims(all));
    "check-render: "@
        + decimal(all.len() as nat)
        + " rendered files equal the model, "@
        + decimal(claims.len() as nat)
        + " CD- claims cover them (§7.2)"@
}

/// Check that the committed tree is the rendered one, and that the tree and the
/// claims about it cover each other.
///
/// `committed` is what reading each rendered file's place gave; `found` is every
/// file below the tree's root, relative to it.
pub fn check_render(
    all: &Vec<Rendered>,
    committed: &Vec<Result<String, String>>,
    found: &Vec<String>,
    ids: &Ids,
) -> (r: Result<String, String>)
    requires
        committed.len() == all.len(),
    ensures
        match r {
            Ok(report) => tree_fault(files(all@), read_views(committed@), views(found@), *ids) is None
                && report@ == tree_report(files(all@)),
            Err(why) => tree_fault(files(all@), read_views(committed@), views(found@), *ids) == Some(
                why@,
            ),
        },
{
    proof {
        assert(files(all@).len() == all.len());
    }
    if all.len() == 0 {
        return Err("the model renders no artifacts, which cannot be right (§7.2)".to_owned());
    }
    let wrong = joined_lists(byte_problems_of(all, committed), strays_of(all, found));
    proof {
        assert(views(wrong@).len() == wrong.len());
    }
    if wrong.len() > 0 {
        return Err(
            "R1: the model is the single source, and `".to_owned()
                .concat(GENERATED_DIR)
                .concat("/` is rendered from it. A hand-edited artifact is the same class of error as a hand-edited CONFORMANCE.md. Run `just render`.\n\n")
                .concat(join_strings(&wrong, "\n").as_str()),
        );
    }
    let named = named_claims_of(all);
    let open = joined_lists(tree_gaps_of(all, ids), vacuous_claims_of(&named, ids));
    proof {
        assert(views(open@).len() == open.len());
    }
    if open.len() > 0 {
        return Err(
            "R1: every rendered artifact names the claims that assert over it, and every `".to_owned()
                .concat(RENDER_CLASS)
                .concat("-` claim names an artifact.\n\n")
                .concat(join_strings(&open, "\n").as_str()),
        );
    }
    let claims = distinct_of(&named);
    proof {
        assert(views(claims@).len() == claims.len());
    }
    Ok(
        "check-render: ".to_owned()
            .concat(decimal_of(all.len() as u64).as_str())
            .concat(" rendered files equal the model, ")
            .concat(decimal_of(claims.len() as u64).as_str())
            .concat(" CD- claims cover them (§7.2)"),
    )
}

// ---- what a tree that passes guarantees ----

/// In a tree that passes, every rendered file is committed as it renders, and
/// every file found renders.
pub proof fn a_passing_tree_is_the_rendered_one(
    all: Seq<File>,
    committed: Seq<Result<Seq<char>, Seq<char>>>,
    found: Seq<Seq<char>>,
    ids: Ids,
)
    requires
        committed.len() == all.len(),
        tree_fault(all, committed, found, ids) is None,
    ensures
        forall|i: int|
            0 <= i < all.len() ==> (#[trigger] committed[i]) == Ok::<Seq<char>, Seq<char>>(
                contents_of(all[i]),
            ),
        forall|i: int| 0 <= i < found.len() ==> renders(all, #[trigger] found[i]),
{
    assert(byte_problems(all, committed).len() == 0);
    assert(strays(all, found).len() == 0);
    lemma_kept_empty(byte_problems_each(all, committed));
    lemma_kept_empty(strays_each(all, found));
    assert forall|i: int| 0 <= i < all.len() implies (#[trigger] committed[i]) == Ok::<
        Seq<char>,
        Seq<char>,
    >(contents_of(all[i])) by {
        assert(byte_problems_each(all, committed)[i] is None);
    }
    assert forall|i: int| 0 <= i < found.len() implies renders(all, #[trigger] found[i]) by {
        assert(strays_each(all, found)[i] is None);
    }
}

/// In a tree that passes, no two rendered files want one path for two texts:
/// what is read at a path is one text.
pub proof fn a_passing_tree_holds_one_text_per_path(
    all: Seq<File>,
    committed: Seq<Result<Seq<char>, Seq<char>>>,
    found: Seq<Seq<char>>,
    ids: Ids,
    i: int,
    j: int,
)
    requires
        committed.len() == all.len(),
        tree_fault(all, committed, found, ids) is None,
        0 <= i < all.len(),
        0 <= j < all.len(),
        all[i].path == all[j].path,
        committed[i] == committed[j],
    ensures
        contents_of(all[i]) == contents_of(all[j]),
{
    a_passing_tree_is_the_rendered_one(all, committed, found, ids);
    assert(committed[i] == Ok::<Seq<char>, Seq<char>>(contents_of(all[i])));
    assert(committed[j] == Ok::<Seq<char>, Seq<char>>(contents_of(all[j])));
}

/// In a tree that passes, every file names only registered claims, one of them
/// about rendered artifacts; and every such claim of the register is named by a
/// file.
pub proof fn a_passing_tree_is_asserted_about(
    all: Seq<File>,
    committed: Seq<Result<Seq<char>, Seq<char>>>,
    found: Seq<Seq<char>>,
    ids: Ids,
)
    requires
        tree_fault(all, committed, found, ids) is None,
    ensures
        forall|i: int| 0 <= i < all.len() ==> names_render_claim(#[trigger] all[i]),
        forall|i: int, k: int|
            0 <= i < all.len() && 0 <= k < all[i].ids.len() ==> row(
                ids.id@,
                #[trigger] all[i].ids[k],
            ) is Some,
        forall|i: int|
            0 <= i < ids.id@.len() && is_render_claim((#[trigger] ids.id@[i]).id@)
                ==> named_claims(all).contains(ids.id@[i].id@),
{
    assert(tree_gaps(all, ids).len() == 0);
    assert(vacuous_claims(named_claims(all), ids).len() == 0);
    lemma_flat_empty(tree_gaps_each(all, ids));
    lemma_kept_empty(vacuous_claims_each(named_claims(all), ids));
    assert forall|i: int| 0 <= i < all.len() implies names_render_claim(#[trigger] all[i]) by {
        assert(tree_gaps_each(all, ids)[i].len() == 0);
        assert(of_option(class_gap(all[i])).len() == 0);
    }
    assert forall|i: int, k: int| 0 <= i < all.len() && 0 <= k < all[i].ids.len() implies row(
        ids.id@,
        #[trigger] all[i].ids[k],
    ) is Some by {
        assert(tree_gaps_each(all, ids)[i].len() == 0);
        assert(unknown_gaps(all[i], ids).len() == 0);
        lemma_kept_empty(unknown_gaps_each(all[i], ids));
        assert(unknown_gaps_each(all[i], ids)[k] is None);
    }
    assert forall|i: int|
        0 <= i < ids.id@.len() && is_render_claim((#[trigger] ids.id@[i]).id@) implies named_claims(
        all,
    ).contains(ids.id@[i].id@) by {
        assert(vacuous_claims_each(named_claims(all), ids)[i] is None);
    }
}

} // verus!
