//! Nothing dangles, and nothing is inert.
//!
//! That the rendered tree is the model's says nothing about whether anything
//! consumes it. These checks read the joins that the compiler cannot see: a
//! rendered file nothing copies into an image, a unit that invokes what nothing
//! ships, an image nobody builds, an endpoint no route serves, a mounted
//! configuration nothing renders, and a field nobody reads.
use vstd::prelude::*;

use crate::images::{Quadlet, QuadletMount, Variant};
use crate::lists::{distinct_of, joined_lists, keep, lay, text_set_of};
use crate::lists::{distinct, flat, kept, text_of, text_set};
use crate::model::{Cluster, GENERATED_DIR};
use crate::render::Rendered;
use crate::render::{files, File};
use crate::text::{
    chars_of,
    concat_strings,
    contains,
    decimal_of,
    digit_of,
    ends_with,
    join_strings,
    replace,
    same,
    space,
    split_lines,
    split_on,
    split_once,
    split_words,
    starts_with,
    string_of,
    strip_trailing,
    trim,
};
use crate::text::{
    begins,
    byte_count,
    concat_all,
    decimal,
    digit_value,
    ends,
    first_from,
    halves,
    holds,
    is_space,
    join,
    lemma_first_from,
    lines,
    replaced,
    split,
    trimmed,
    views,
    without_trailing,
    words,
};

verus! {

/// A file: what it is called, and what it holds.
#[derive(Debug)]
pub struct Source {
    /// Its name, or its path relative to where it was looked for.
    pub name: String,
    /// What it holds.
    pub text: String,
}

/// Something referred to, and the files that refer to it.
#[derive(Debug)]
pub struct Reference {
    /// What is referred to.
    pub to: String,
    /// Who refers to it, ascending and without repeats.
    pub from: Vec<String>,
}

// ---- prefixes ----

/// `s` without `prefix`, however often it begins with it.
pub open spec fn unprefixed(s: Seq<char>, prefix: Seq<char>) -> Seq<char>
    decreases s.len(),
{
    if prefix.len() > 0 && begins(s, prefix) {
        unprefixed(s.skip(prefix.len() as int), prefix)
    } else {
        s
    }
}

/// `s` without `prefix`, however often it begins with it.
pub fn strip_prefixes(s: &str, prefix: &str) -> (out: String)
    ensures
        out@ == unprefixed(s@, prefix@),
{
    let text = chars_of(s);
    let pattern = chars_of(prefix);
    if pattern.len() == 0 {
        return s.to_owned();
    }
    let mut at: usize = 0;
    proof {
        assert(s@.skip(0) =~= s@);
    }
    while text.len() - at >= pattern.len() && crate::text::stands_at(&text, &pattern, at)
        invariant
            at <= text.len(),
            text@ == s@,
            pattern@ == prefix@,
            pattern.len() > 0,
            unprefixed(s@, prefix@) == unprefixed(s@.skip(at as int), prefix@),
        decreases text.len() - at,
    {
        proof {
            let rest = s@.skip(at as int);
            assert(rest.subrange(0, prefix@.len() as int) =~= s@.subrange(
                at as int,
                at + prefix@.len(),
            ));
            assert(rest.skip(prefix@.len() as int) =~= s@.skip(at + prefix@.len()));
        }
        at = at + pattern.len();
    }
    let out = string_of(&text, at, text.len());
    proof {
        let rest = s@.skip(at as int);
        assert(out@ =~= rest);
        if begins(rest, prefix@) {
            assert(s@.subrange(at as int, at + prefix@.len()) =~= rest.subrange(
                0,
                prefix@.len() as int,
            ));
        }
    }
    out
}

/// What follows `prefix` in `s`, where `s` begins with it.
pub open spec fn after_prefix(s: Seq<char>, prefix: Seq<char>) -> Option<Seq<char>> {
    if begins(s, prefix) {
        Some(s.skip(prefix.len() as int))
    } else {
        None
    }
}

/// What follows `prefix` in `s`, where `s` begins with it.
pub fn strip_prefix(s: &str, prefix: &str) -> (r: Option<String>)
    ensures
        text_of(r) == after_prefix(s@, prefix@),
{
    let text = chars_of(s);
    let pattern = chars_of(prefix);
    if pattern.len() <= text.len() && crate::text::stands_at(&text, &pattern, 0) {
        let out = string_of(&text, pattern.len(), text.len());
        proof {
            assert(out@ =~= s@.skip(prefix@.len() as int));
        }
        Some(out)
    } else {
        None
    }
}

/// `s` without the first `pat` in it.
pub open spec fn without_first(s: Seq<char>, pat: Seq<char>) -> Seq<char> {
    match halves(s, pat) {
        Some((before, after)) => before + after,
        None => s,
    }
}

fn remove_first(s: &str, pat: &str) -> (r: String)
    ensures
        r@ == without_first(s@, pat@),
{
    match split_once(s, pat) {
        Some(h) => {
            let (before, after) = h;
            before.concat(after.as_str())
        },
        None => s.to_owned(),
    }
}

fn is_member(list: &Vec<String>, text: &str) -> (r: bool)
    ensures
        r == views(list@).contains(text@),
{
    let mut i: usize = 0;
    while i < list.len()
        invariant
            i <= list.len(),
            forall|k: int| 0 <= k < i ==> (#[trigger] views(list@)[k]) != text@,
        decreases list.len() - i,
    {
        proof {
            assert(views(list@)[i as int] == list@[i as int]@);
        }
        if same(list[i].as_str(), text) {
            return true;
        }
        i = i + 1;
    }
    false
}

// ---- what the image builds copy ----

/// What a line of an image build copies: what follows the word, unless the line
/// is a comment.
pub open spec fn copied(line: Seq<char>) -> Option<Seq<char>> {
    let l = trimmed(line);
    if begins(l, "#"@) {
        None
    } else {
        after_prefix(l, "COPY "@)
    }
}

fn copied_of(line: &str) -> (r: Option<String>)
    ensures
        text_of(r) == copied(line@),
{
    let l = trim(line);
    if starts_with(l.as_str(), "#") {
        None
    } else {
        strip_prefix(l.as_str(), "COPY ")
    }
}

/// The directory a line of an image build copies into. A copy to a file makes
/// that file and nothing else.
pub open spec fn destination(line: Seq<char>) -> Option<Seq<char>> {
    match copied(line) {
        Some(rest) => if words(rest).len() > 0 && ends(words(rest).last(), "/"@) {
            Some(words(rest).last())
        } else {
            None
        },
        None => None,
    }
}

fn destination_of(line: &str) -> (r: Option<String>)
    ensures
        text_of(r) == destination(line@),
{
    match copied_of(line) {
        Some(rest) => {
            let list = split_words(rest.as_str());
            proof {
                assert(views(list@).len() == list.len());
                if list.len() > 0 {
                    assert(views(list@).last() == list@[list.len() - 1]@);
                }
            }
            if list.len() > 0 && ends_with(list[list.len() - 1].as_str(), "/") {
                Some(list[list.len() - 1].clone())
            } else {
                None
            }
        },
        None => None,
    }
}

/// The directories a file copies into.
pub open spec fn file_destinations(source: Source) -> Seq<Seq<char>> {
    kept(file_destinations_each(source))
}

/// What each gives to [`file_destinations`].
pub open spec fn file_destinations_each(source: Source) -> Seq<Option<Seq<char>>> {
    Seq::new(lines(source.text@).len(), |i: int| destination(lines(source.text@)[i]))
}

/// The directories a file copies into.
fn file_destinations_of(source: &Source) -> (out: Vec<String>)
    ensures
        views(out@) == file_destinations(*source),
{
    let ghost list = file_destinations_each(*source);
    let split = split_lines(source.text.as_str());
    proof {
        assert(views(split@).len() == split.len());
    }
    let mut out: Vec<String> = Vec::new();
    let mut i: usize = 0;
    proof {
        assert(views(out@) =~= kept(list.take(0)));
    }
    while i < split.len()
        invariant
            i <= split.len(),
            split.len() == list.len(),
            list == file_destinations_each(*source),
            views(split@) == lines(source.text@),
            views(out@) == kept(list.take(i as int)),
        decreases split.len() - i,
    {
        proof {
            assert(views(split@)[i as int] == split@[i as int]@);
        }
        let item = destination_of(split[i].as_str());
        out = keep(out, item, Ghost(list), Ghost(i as int));
        i = i + 1;
    }
    proof {
        assert(list.take(i as int) =~= list);
    }
    out
}

/// Every directory a copy writes into, across the image builds.
pub open spec fn copy_destinations_spec(sources: Seq<Source>) -> Seq<Seq<char>> {
    flat(copy_destinations_each(sources))
}

/// What each gives to [`copy_destinations_spec`].
pub open spec fn copy_destinations_each(sources: Seq<Source>) -> Seq<Seq<Seq<char>>> {
    Seq::new(sources.len(), |i: int| file_destinations(sources[i]))
}

/// Every directory a copy writes into, across the image builds.
pub fn copy_destinations(sources: &Vec<Source>) -> (out: Vec<String>)
    ensures
        views(out@) == copy_destinations_spec(sources@),
{
    let ghost list = copy_destinations_each(sources@);
    let mut out: Vec<String> = Vec::new();
    let mut i: usize = 0;
    proof {
        assert(views(out@) =~= flat(list.take(0)));
    }
    while i < sources.len()
        invariant
            i <= sources.len(),
            sources.len() == list.len(),
            list == copy_destinations_each(sources@),
            views(out@) == flat(list.take(i as int)),
        decreases sources.len() - i,
    {
        let item = file_destinations_of(&sources[i]);
        out = lay(out, item, Ghost(list), Ghost(i as int));
        i = i + 1;
    }
    proof {
        assert(list.take(i as int) =~= list);
    }
    out
}

/// A word that names something of the rendered tree.
pub open spec fn rendered_source(word: Seq<char>) -> Option<Seq<char>> {
    if begins(word, GENERATED_DIR@ + "/"@) {
        Some(word)
    } else {
        None
    }
}

fn rendered_source_of(word: &str) -> (r: Option<String>)
    ensures
        text_of(r) == rendered_source(word@),
{
    if starts_with(word, GENERATED_DIR.to_owned().concat("/").as_str()) {
        Some(word.to_owned())
    } else {
        None
    }
}

/// The words that name something of the rendered tree.
pub open spec fn rendered_words(list: Seq<Seq<char>>) -> Seq<Seq<char>> {
    kept(rendered_words_each(list))
}

/// What each gives to [`rendered_words`].
pub open spec fn rendered_words_each(list: Seq<Seq<char>>) -> Seq<Option<Seq<char>>> {
    Seq::new(list.len(), |i: int| rendered_source(list[i]))
}

/// The words that name something of the rendered tree.
fn rendered_words_of(list: &Vec<String>) -> (out: Vec<String>)
    ensures
        views(out@) == rendered_words(views(list@)),
{
    let ghost each = rendered_words_each(views(list@));
    let mut out: Vec<String> = Vec::new();
    let mut i: usize = 0;
    proof {
        assert(views(out@) =~= kept(each.take(0)));
    }
    while i < list.len()
        invariant
            i <= list.len(),
            list.len() == each.len(),
            each == rendered_words_each(views(list@)),
            views(out@) == kept(each.take(i as int)),
        decreases list.len() - i,
    {
        proof {
            assert(views(list@)[i as int] == list@[i as int]@);
        }
        let item = rendered_source_of(list[i].as_str());
        out = keep(out, item, Ghost(each), Ghost(i as int));
        i = i + 1;
    }
    proof {
        assert(each.take(i as int) =~= each);
    }
    out
}

/// What a line of an image build copies out of the rendered tree.
pub open spec fn line_sources(line: Seq<char>) -> Seq<Seq<char>> {
    match copied(line) {
        Some(rest) => rendered_words(words(rest)),
        None => Seq::empty(),
    }
}

fn line_sources_of(line: &str) -> (r: Vec<String>)
    ensures
        views(r@) == line_sources(line@),
{
    match copied_of(line) {
        Some(rest) => rendered_words_of(&split_words(rest.as_str())),
        None => {
            let r: Vec<String> = Vec::new();
            proof {
                assert(views(r@) =~= Seq::<Seq<char>>::empty());
            }
            r
        },
    }
}

/// What a file copies out of the rendered tree.
pub open spec fn file_sources(source: Source) -> Seq<Seq<char>> {
    flat(file_sources_each(source))
}

/// What each gives to [`file_sources`].
pub open spec fn file_sources_each(source: Source) -> Seq<Seq<Seq<char>>> {
    Seq::new(lines(source.text@).len(), |i: int| line_sources(lines(source.text@)[i]))
}

/// What a file copies out of the rendered tree.
fn file_sources_of(source: &Source) -> (out: Vec<String>)
    ensures
        views(out@) == file_sources(*source),
{
    let ghost list = file_sources_each(*source);
    let split = split_lines(source.text.as_str());
    proof {
        assert(views(split@).len() == split.len());
    }
    let mut out: Vec<String> = Vec::new();
    let mut i: usize = 0;
    proof {
        assert(views(out@) =~= flat(list.take(0)));
    }
    while i < split.len()
        invariant
            i <= split.len(),
            split.len() == list.len(),
            list == file_sources_each(*source),
            views(split@) == lines(source.text@),
            views(out@) == flat(list.take(i as int)),
        decreases split.len() - i,
    {
        proof {
            assert(views(split@)[i as int] == split@[i as int]@);
        }
        let item = line_sources_of(split[i].as_str());
        out = lay(out, item, Ghost(list), Ghost(i as int));
        i = i + 1;
    }
    proof {
        assert(list.take(i as int) =~= list);
    }
    out
}

/// Everything copied out of the rendered tree, across the image builds.
pub open spec fn copy_sources_spec(sources: Seq<Source>) -> Seq<Seq<char>> {
    flat(copy_sources_each(sources))
}

/// What each gives to [`copy_sources_spec`].
pub open spec fn copy_sources_each(sources: Seq<Source>) -> Seq<Seq<Seq<char>>> {
    Seq::new(sources.len(), |i: int| file_sources(sources[i]))
}

/// Everything copied out of the rendered tree, across the image builds.
pub fn copy_sources(sources: &Vec<Source>) -> (out: Vec<String>)
    ensures
        views(out@) == copy_sources_spec(sources@),
{
    let ghost list = copy_sources_each(sources@);
    let mut out: Vec<String> = Vec::new();
    let mut i: usize = 0;
    proof {
        assert(views(out@) =~= flat(list.take(0)));
    }
    while i < sources.len()
        invariant
            i <= sources.len(),
            sources.len() == list.len(),
            list == copy_sources_each(sources@),
            views(out@) == flat(list.take(i as int)),
        decreases sources.len() - i,
    {
        let item = file_sources_of(&sources[i]);
        out = lay(out, item, Ghost(list), Ghost(i as int));
        i = i + 1;
    }
    proof {
        assert(list.take(i as int) =~= list);
    }
    out
}

// ---- every rendered file is consumed ----

/// Whether somebody applies a rendered file by hand: the installer, a
/// workstation, or the tailnet.
pub open spec fn operator_applied(path: Seq<char>) -> bool {
    begins(path, "bootstrap/"@) || begins(path, "tailscale/"@) || path == "ssh_config"@
}

/// The first part of a path, and the rest of it.
pub open spec fn first_part(path: Seq<char>) -> (Seq<char>, Seq<char>) {
    match halves(path, "/"@) {
        Some((first, rest)) => (first, rest),
        None => (path, Seq::empty()),
    }
}

/// Whether what is copied takes a file with it: the file itself, or a directory
/// it stands in.
pub open spec fn takes(source: Seq<char>, node: Seq<char>, relative: Seq<char>) -> bool {
    let named = replaced(source, "${NODE}"@, node);
    let below = unprefixed(without_first(named, GENERATED_DIR@ + "/"@), node + "/"@);
    relative == below || (ends(below, "/"@) && begins(relative, below))
}

fn does_take(source: &str, node: &str, relative: &str) -> (r: bool)
    ensures
        r == takes(source@, node@, relative@),
{
    let named = replace(source, "${NODE}", node);
    let shorter = remove_first(named.as_str(), GENERATED_DIR.to_owned().concat("/").as_str());
    let below = strip_prefixes(shorter.as_str(), node.to_owned().concat("/").as_str());
    same(relative, below.as_str()) || (ends_with(below.as_str(), "/") && starts_with(
        relative,
        below.as_str(),
    ))
}

/// Whether some copy takes a rendered file into an image.
pub open spec fn consumed(sources: Seq<Seq<char>>, path: Seq<char>) -> bool {
    let (node, relative) = first_part(path);
    exists|i: int| 0 <= i < sources.len() && takes(#[trigger] sources[i], node, relative)
}

fn is_consumed(sources: &Vec<String>, path: &str) -> (r: bool)
    ensures
        r == consumed(views(sources@), path@),
{
    let (node, relative) = match split_once(path, "/") {
        Some(h) => h,
        None => (path.to_owned(), String::new()),
    };
    let mut i: usize = 0;
    while i < sources.len()
        invariant
            i <= sources.len(),
            (node@, relative@) == first_part(path@),
            forall|k: int|
                0 <= k < i ==> !takes(#[trigger] views(sources@)[k], node@, relative@),
        decreases sources.len() - i,
    {
        proof {
            assert(views(sources@)[i as int] == sources@[i as int]@);
        }
        if does_take(sources[i].as_str(), node.as_str(), relative.as_str()) {
            return true;
        }
        i = i + 1;
    }
    false
}

/// What a rendered file nothing copies is told.
pub open spec fn inert(file: File, sources: Seq<Seq<char>>) -> Option<Seq<char>> {
    if operator_applied(file.path) || consumed(sources, file.path) {
        None
    } else {
        Some(
            GENERATED_DIR@
                + "/"@
                + file.path
                + ": rendered and copied into no image. It passes check-render, a CD- claim asserts over it, and it never reaches a node (§7.2)"@,
        )
    }
}

fn inert_of(file: &Rendered, sources: &Vec<String>) -> (r: Option<String>)
    ensures
        text_of(r) == inert(file@, views(sources@)),
{
    if starts_with(file.path.as_str(), "bootstrap/") || starts_with(
        file.path.as_str(),
        "tailscale/",
    ) || same(file.path.as_str(), "ssh_config") || is_consumed(sources, file.path.as_str()) {
        None
    } else {
        Some(
            GENERATED_DIR.to_owned()
                .concat("/")
                .concat(file.path.as_str())
                .concat(": rendered and copied into no image. It passes check-render, a CD- claim asserts over it, and it never reaches a node (§7.2)"),
        )
    }
}

/// The rendered files that reach no node.
pub open spec fn every_rendered_file_is_consumed_spec(all: Seq<File>, sources: Seq<Seq<char>>) -> Seq<Seq<char>> {
    kept(every_rendered_file_is_consumed_each(all, sources))
}

/// What each gives to [`every_rendered_file_is_consumed_spec`].
pub open spec fn every_rendered_file_is_consumed_each(all: Seq<File>, sources: Seq<Seq<char>>) -> Seq<Option<Seq<char>>> {
    Seq::new(all.len(), |i: int| inert(all[i], sources))
}

/// The rendered files that reach no node.
pub fn every_rendered_file_is_consumed(all: &Vec<Rendered>, sources: &Vec<String>) -> (out: Vec<String>)
    ensures
        views(out@) == every_rendered_file_is_consumed_spec(files(all@), views(sources@)),
{
    let ghost list = every_rendered_file_is_consumed_each(files(all@), views(sources@));
    let mut out: Vec<String> = Vec::new();
    let mut i: usize = 0;
    proof {
        assert(views(out@) =~= kept(list.take(0)));
    }
    while i < all.len()
        invariant
            i <= all.len(),
            all.len() == list.len(),
            list == every_rendered_file_is_consumed_each(files(all@), views(sources@)),
            views(out@) == kept(list.take(i as int)),
        decreases all.len() - i,
    {
        proof {
            assert(files(all@)[i as int] == all@[i as int]@);
        }
        let item = inert_of(&all[i], sources);
        out = keep(out, item, Ghost(list), Ghost(i as int));
        i = i + 1;
    }
    proof {
        assert(list.take(i as int) =~= list);
    }
    out
}

// ---- every mounted configuration is rendered ----

/// Whether a mount is of configuration: read-only, and below `/etc`.
pub open spec fn is_configuration(mount: QuadletMount) -> bool {
    split(mount.options@, ',').contains("ro"@) && begins(mount.source@, "/etc/"@)
}

/// Whether something puts what a mount needs in its place.
pub open spec fn provided(mount: QuadletMount, paths: Seq<Seq<char>>, builds: Seq<char>) -> bool {
    let tail = unprefixed(mount.source@, "/etc/"@);
    let expected = "node/"@ + tail;
    paths.contains(expected) || (exists|i: int|
        0 <= i < paths.len() && begins(#[trigger] paths[i], expected + "/"@)) || holds(
        builds,
        tail,
    )
}

fn is_provided(mount: &QuadletMount, paths: &Vec<String>, builds: &str) -> (r: bool)
    ensures
        r == provided(*mount, views(paths@), builds@),
{
    let tail = strip_prefixes(mount.source.as_str(), "/etc/");
    let expected = "node/".to_owned().concat(tail.as_str());
    if is_member(paths, expected.as_str()) || contains(builds, tail.as_str()) {
        return true;
    }
    let below = expected.clone().concat("/");
    let mut i: usize = 0;
    while i < paths.len()
        invariant
            i <= paths.len(),
            below@ == "node/"@ + unprefixed(mount.source@, "/etc/"@) + "/"@,
            forall|k: int| 0 <= k < i ==> !begins(#[trigger] views(paths@)[k], below@),
        decreases paths.len() - i,
    {
        proof {
            assert(views(paths@)[i as int] == paths@[i as int]@);
        }
        if starts_with(paths[i].as_str(), below.as_str()) {
            return true;
        }
        i = i + 1;
    }
    false
}

/// What a mount of a configuration nothing renders is told.
pub open spec fn unprovided(variant: Variant, quadlet: Quadlet, mount: QuadletMount, paths: Seq<Seq<char>>, builds: Seq<char>) -> Option<Seq<char>> {
    if is_configuration(mount) && !provided(mount, paths, builds) {
        Some(
            variant.id@
                + ": quadlet `"@
                + quadlet.name@
                + "` mounts "@
                + mount.source@
                + " read-only and nothing renders it. The container starts, stays active, and does nothing --- which §10.1's fifth check cannot tell from working (§5.4)"@,
        )
    } else {
        None
    }
}

fn unprovided_of(variant: &Variant, quadlet: &Quadlet, mount: &QuadletMount, paths: &Vec<String>, builds: &str) -> (r: Option<String>)
    ensures
        text_of(r) == unprovided(*variant, *quadlet, *mount, views(paths@), builds@),
{
    if is_member(&split_on(mount.options.as_str(), ','), "ro") && starts_with(
        mount.source.as_str(),
        "/etc/",
    ) && !is_provided(mount, paths, builds) {
        Some(
            variant.id.clone()
                .concat(": quadlet `")
                .concat(quadlet.name.as_str())
                .concat("` mounts ")
                .concat(mount.source.as_str())
                .concat(" read-only and nothing renders it. The container starts, stays active, and does nothing --- which §10.1's fifth check cannot tell from working (§5.4)"),
        )
    } else {
        None
    }
}

/// The mounts of a unit that find nothing.
pub open spec fn quadlet_mounts(variant: Variant, quadlet: Quadlet, paths: Seq<Seq<char>>, builds: Seq<char>) -> Seq<Seq<char>> {
    kept(quadlet_mounts_each(variant, quadlet, paths, builds))
}

/// What each gives to [`quadlet_mounts`].
pub open spec fn quadlet_mounts_each(variant: Variant, quadlet: Quadlet, paths: Seq<Seq<char>>, builds: Seq<char>) -> Seq<Option<Seq<char>>> {
    Seq::new(quadlet.mount@.len(), |i: int| unprovided(variant, quadlet, quadlet.mount@[i], paths, builds))
}

/// The mounts of a unit that find nothing.
fn quadlet_mounts_of(variant: &Variant, quadlet: &Quadlet, paths: &Vec<String>, builds: &str) -> (out: Vec<String>)
    ensures
        views(out@) == quadlet_mounts(*variant, *quadlet, views(paths@), builds@),
{
    let ghost list = quadlet_mounts_each(*variant, *quadlet, views(paths@), builds@);
    let mut out: Vec<String> = Vec::new();
    let mut i: usize = 0;
    proof {
        assert(views(out@) =~= kept(list.take(0)));
    }
    while i < quadlet.mount.len()
        invariant
            i <= quadlet.mount.len(),
            quadlet.mount.len() == list.len(),
            list == quadlet_mounts_each(*variant, *quadlet, views(paths@), builds@),
            views(out@) == kept(list.take(i as int)),
        decreases quadlet.mount.len() - i,
    {
        let item = unprovided_of(variant, quadlet, &quadlet.mount[i], paths, builds);
        out = keep(out, item, Ghost(list), Ghost(i as int));
        i = i + 1;
    }
    proof {
        assert(list.take(i as int) =~= list);
    }
    out
}

/// The mounts of a variant that find nothing.
pub open spec fn variant_mounts(c: Cluster, variant: Variant, paths: Seq<Seq<char>>, builds: Seq<char>) -> Seq<Seq<char>> {
    flat(variant_mounts_each(c, variant, paths, builds))
}

/// What each gives to [`variant_mounts`].
pub open spec fn variant_mounts_each(c: Cluster, variant: Variant, paths: Seq<Seq<char>>, builds: Seq<char>) -> Seq<Seq<Seq<char>>> {
    Seq::new(c.images.base.quadlet@.len() + variant.quadlet@.len(), |i: int| quadlet_mounts(
            variant,
            (c.images.base.quadlet@ + variant.quadlet@)[i],
            paths,
            builds,
        ))
}

/// The mounts of a variant that find nothing.
fn variant_mounts_of(c: &Cluster, variant: &Variant, paths: &Vec<String>, builds: &str) -> (out: Vec<String>)
    ensures
        views(out@) == variant_mounts(*c, *variant, views(paths@), builds@),
{
    let ghost list = variant_mounts_each(*c, *variant, views(paths@), builds@);
    let quadlets = variant.all_quadlets(&c.images.base);
    let mut out: Vec<String> = Vec::new();
    let mut i: usize = 0;
    proof {
        assert(views(out@) =~= flat(list.take(0)));
    }
    while i < quadlets.len()
        invariant
            i <= quadlets.len(),
            quadlets.len() == list.len(),
            list == variant_mounts_each(*c, *variant, views(paths@), builds@),
            quadlets.len() == c.images.base.quadlet@.len() + variant.quadlet@.len(),
            forall|k: int|
                0 <= k < quadlets.len() ==> *(#[trigger] quadlets@[k]) == (c.images.base.quadlet@
                    + variant.quadlet@)[k],
            views(out@) == flat(list.take(i as int)),
        decreases quadlets.len() - i,
    {
        proof {
            assert(*quadlets@[i as int] == (c.images.base.quadlet@ + variant.quadlet@)[i as int]);
        }
        let item = quadlet_mounts_of(variant, quadlets[i], paths, builds);
        out = lay(out, item, Ghost(list), Ghost(i as int));
        i = i + 1;
    }
    proof {
        assert(list.take(i as int) =~= list);
    }
    out
}

/// The configurations mounted that nothing renders.
pub open spec fn every_mounted_config_is_rendered_spec(c: Cluster, paths: Seq<Seq<char>>, builds: Seq<char>) -> Seq<Seq<char>> {
    flat(every_mounted_config_is_rendered_each(c, paths, builds))
}

/// What each gives to [`every_mounted_config_is_rendered_spec`].
pub open spec fn every_mounted_config_is_rendered_each(c: Cluster, paths: Seq<Seq<char>>, builds: Seq<char>) -> Seq<Seq<Seq<char>>> {
    Seq::new(c.images.variant@.len(), |i: int| variant_mounts(c, c.images.variant@[i], paths, builds))
}

/// The configurations mounted that nothing renders.
pub fn every_mounted_config_is_rendered(c: &Cluster, paths: &Vec<String>, builds: &str) -> (out: Vec<String>)
    ensures
        views(out@) == every_mounted_config_is_rendered_spec(*c, views(paths@), builds@),
{
    let ghost list = every_mounted_config_is_rendered_each(*c, views(paths@), builds@);
    let mut out: Vec<String> = Vec::new();
    let mut i: usize = 0;
    proof {
        assert(views(out@) =~= flat(list.take(0)));
    }
    while i < c.images.variant.len()
        invariant
            i <= c.images.variant.len(),
            c.images.variant.len() == list.len(),
            list == every_mounted_config_is_rendered_each(*c, views(paths@), builds@),
            views(out@) == flat(list.take(i as int)),
        decreases c.images.variant.len() - i,
    {
        let item = variant_mounts_of(c, &c.images.variant[i], paths, builds);
        out = lay(out, item, Ghost(list), Ghost(i as int));
        i = i + 1;
    }
    proof {
        assert(list.take(i as int) =~= list);
    }
    out
}

// ---- every field is read ----

/// A field as the code spells it: a few names are taken there.
pub open spec fn spelled(key: Seq<char>) -> Seq<char> {
    if key == "ref"@ {
        "ref_"@
    } else if key == "where"@ {
        "where_"@
    } else if key == "type"@ {
        "fstype"@
    } else if key == "crate"@ {
        "krate"@
    } else {
        key
    }
}

fn spelled_of(key: &str) -> (r: String)
    ensures
        r@ == spelled(key@),
{
    if same(key, "ref") {
        "ref_".to_owned()
    } else if same(key, "where") {
        "where_".to_owned()
    } else if same(key, "type") {
        "fstype".to_owned()
    } else if same(key, "crate") {
        "krate".to_owned()
    } else {
        key.to_owned()
    }
}

/// The field a line of a model file sets, if it sets one. A quoted line is an
/// element of a list, not a field.
pub open spec fn field(line: Seq<char>) -> Option<Seq<char>> {
    let l = trimmed(line);
    if begins(l, "#"@) || begins(l, "["@) || begins(l, "\""@) {
        None
    } else {
        match halves(l, "="@) {
            Some((before, after)) => {
                let key = trimmed(before);
                if key.len() == 0 || holds(key, " "@) || key == "spec"@ {
                    None
                } else {
                    Some(key)
                }
            },
            None => None,
        }
    }
}

fn field_of(line: &str) -> (r: Option<String>)
    ensures
        text_of(r) == field(line@),
{
    let l = trim(line);
    if starts_with(l.as_str(), "#") || starts_with(l.as_str(), "[") || starts_with(
        l.as_str(),
        "\"",
    ) {
        return None;
    }
    match split_once(l.as_str(), "=") {
        Some(h) => {
            let (before, after) = h;
            let key = trim(before.as_str());
            if key.as_str().is_empty() || contains(key.as_str(), " ") || same(key.as_str(), "spec") {
                None
            } else {
                Some(key)
            }
        },
        None => None,
    }
}

/// What a field nobody reads is told.
pub open spec fn unread(source: Source, number: int, line: Seq<char>, code: Seq<char>) -> Option<Seq<char>> {
    match field(line) {
        Some(key) => if holds(code, spelled(key)) {
            None
        } else {
            Some(
                "model/"@
                    + source.name@
                    + ".toml:"@
                    + decimal(number as nat)
                    + ": `"@
                    + key
                    + "` is declared and read by nothing. R1 makes the model the single source, and a source nobody reads is not one --- the setting simply never takes effect"@,
            )
        },
        None => None,
    }
}

fn unread_of(source: &Source, number: usize, line: &str, code: &str) -> (r: Option<String>)
    ensures
        text_of(r) == unread(*source, number as int, line@, code@),
{
    match field_of(line) {
        Some(key) => if contains(code, spelled_of(key.as_str()).as_str()) {
            None
        } else {
            Some(
                "model/".to_owned()
                    .concat(source.name.as_str())
                    .concat(".toml:")
                    .concat(decimal_of(number as u64).as_str())
                    .concat(": `")
                    .concat(key.as_str())
                    .concat("` is declared and read by nothing. R1 makes the model the single source, and a source nobody reads is not one --- the setting simply never takes effect"),
            )
        },
        None => None,
    }
}

/// The fields of one model file that nobody reads.
pub open spec fn file_unread(source: Source, code: Seq<char>) -> Seq<Seq<char>> {
    kept(file_unread_each(source, code))
}

/// What each gives to [`file_unread`].
pub open spec fn file_unread_each(source: Source, code: Seq<char>) -> Seq<Option<Seq<char>>> {
    Seq::new(lines(source.text@).len(), |i: int| unread(source, i + 1, lines(source.text@)[i], code))
}

/// The fields of one model file that nobody reads.
fn file_unread_of(source: &Source, code: &str) -> (out: Vec<String>)
    ensures
        views(out@) == file_unread(*source, code@),
{
    let ghost list = file_unread_each(*source, code@);
    let split = split_lines(source.text.as_str());
    proof {
        assert(views(split@).len() == split.len());
    }
    let mut out: Vec<String> = Vec::new();
    let mut i: usize = 0;
    proof {
        assert(views(out@) =~= kept(list.take(0)));
    }
    while i < split.len()
        invariant
            i <= split.len(),
            split.len() == list.len(),
            list == file_unread_each(*source, code@),
            views(split@) == lines(source.text@),
            views(out@) == kept(list.take(i as int)),
        decreases split.len() - i,
    {
        proof {
            assert(views(split@)[i as int] == split@[i as int]@);
        }
        let item = unread_of(source, i + 1, split[i].as_str(), code);
        out = keep(out, item, Ghost(list), Ghost(i as int));
        i = i + 1;
    }
    proof {
        assert(list.take(i as int) =~= list);
    }
    out
}

/// The fields of the model files that nobody reads.
pub open spec fn all_unread(sources: Seq<Source>, code: Seq<char>) -> Seq<Seq<char>> {
    flat(all_unread_each(sources, code))
}

/// What each gives to [`all_unread`].
pub open spec fn all_unread_each(sources: Seq<Source>, code: Seq<char>) -> Seq<Seq<Seq<char>>> {
    Seq::new(sources.len(), |i: int| file_unread(sources[i], code))
}

/// The fields of the model files that nobody reads.
fn all_unread_of(sources: &Vec<Source>, code: &str) -> (out: Vec<String>)
    ensures
        views(out@) == all_unread(sources@, code@),
{
    let ghost list = all_unread_each(sources@, code@);
    let mut out: Vec<String> = Vec::new();
    let mut i: usize = 0;
    proof {
        assert(views(out@) =~= flat(list.take(0)));
    }
    while i < sources.len()
        invariant
            i <= sources.len(),
            sources.len() == list.len(),
            list == all_unread_each(sources@, code@),
            views(out@) == flat(list.take(i as int)),
        decreases sources.len() - i,
    {
        let item = file_unread_of(&sources[i], code);
        out = lay(out, item, Ghost(list), Ghost(i as int));
        i = i + 1;
    }
    proof {
        assert(list.take(i as int) =~= list);
    }
    out
}

/// The fields the model declares and no code reads.
pub fn every_model_field_is_read(models: &Vec<Source>, code: &str) -> (out: Vec<String>)
    ensures
        views(out@) == distinct(all_unread(models@, code@)),
{
    distinct_of(&all_unread_of(models, code))
}

// ---- references ----

/// What one file refers to.
#[derive(Debug)]
pub struct Mentions {
    /// The file.
    pub from: String,
    /// What it refers to, as it comes.
    pub to: Vec<String>,
}

/// What a list of mentions holds: each file, and what it refers to.
pub open spec fn mention_views(list: Seq<Mentions>) -> Seq<(Seq<char>, Seq<Seq<char>>)> {
    Seq::new(list.len(), |i: int| (list[i].from@, views(list[i].to@)))
}

/// What a list of references holds: what is referred to, and by which files.
pub open spec fn reference_views(list: Seq<Reference>) -> Seq<(Seq<char>, Seq<Seq<char>>)> {
    Seq::new(list.len(), |i: int| (list[i].to@, views(list[i].from@)))
}

/// Everything the files refer to, as it comes.
pub open spec fn everything(list: Seq<(Seq<char>, Seq<Seq<char>>)>) -> Seq<Seq<char>> {
    flat(Seq::new(list.len(), |i: int| list[i].1))
}

/// The files that refer to something.
pub open spec fn referrers(list: Seq<(Seq<char>, Seq<Seq<char>>)>, to: Seq<char>) -> Seq<
    Seq<char>,
> {
    distinct(
        kept(
            Seq::new(
                list.len(),
                |i: int|
                    if list[i].1.contains(to) {
                        Some(list[i].0)
                    } else {
                        None
                    },
            ),
        ),
    )
}

/// Everything the files refer to, ascending and once, each with the files that
/// refer to it.
pub open spec fn gathered(list: Seq<(Seq<char>, Seq<Seq<char>>)>) -> Seq<
    (Seq<char>, Seq<Seq<char>>),
> {
    let targets = distinct(everything(list));
    Seq::new(targets.len(), |i: int| (targets[i], referrers(list, targets[i])))
}

fn everything_of(list: &Vec<Mentions>) -> (out: Vec<String>)
    ensures
        views(out@) == everything(mention_views(list@)),
{
    let ghost all = mention_views(list@);
    let ghost each = Seq::new(all.len(), |i: int| all[i].1);
    let mut out: Vec<String> = Vec::new();
    let mut i: usize = 0;
    proof {
        assert(views(out@) =~= flat(each.take(0)));
    }
    while i < list.len()
        invariant
            i <= list.len(),
            all == mention_views(list@),
            each == Seq::new(all.len(), |i: int| all[i].1),
            views(out@) == flat(each.take(i as int)),
        decreases list.len() - i,
    {
        let items = crate::text::clone_strings(&list[i].to);
        proof {
            assert(each[i as int] == views(list@[i as int].to@));
        }
        out = lay(out, items, Ghost(each), Ghost(i as int));
        i = i + 1;
    }
    proof {
        assert(each.take(i as int) =~= each);
    }
    out
}

fn referrers_of(list: &Vec<Mentions>, to: &str) -> (out: Vec<String>)
    ensures
        views(out@) == referrers(mention_views(list@), to@),
{
    let ghost all = mention_views(list@);
    let ghost each = Seq::new(
        all.len(),
        |i: int|
            if all[i].1.contains(to@) {
                Some(all[i].0)
            } else {
                None
            },
    );
    let mut out: Vec<String> = Vec::new();
    let mut i: usize = 0;
    proof {
        assert(views(out@) =~= kept(each.take(0)));
    }
    while i < list.len()
        invariant
            i <= list.len(),
            all == mention_views(list@),
            each == Seq::new(
                all.len(),
                |i: int|
                    if all[i].1.contains(to@) {
                        Some(all[i].0)
                    } else {
                        None
                    },
            ),
            views(out@) == kept(each.take(i as int)),
        decreases list.len() - i,
    {
        let item = if is_member(&list[i].to, to) {
            Some(list[i].from.clone())
        } else {
            None
        };
        proof {
            assert(all[i as int].1 == views(list@[i as int].to@));
        }
        out = keep(out, item, Ghost(each), Ghost(i as int));
        i = i + 1;
    }
    proof {
        assert(each.take(i as int) =~= each);
    }
    distinct_of(&out)
}

/// Everything the files refer to, ascending and once, each with the files that
/// refer to it.
pub fn gather(list: &Vec<Mentions>) -> (out: Vec<Reference>)
    ensures
        reference_views(out@) == gathered(mention_views(list@)),
{
    let ghost all = mention_views(list@);
    let targets = distinct_of(&everything_of(list));
    let mut out: Vec<Reference> = Vec::new();
    let mut i: usize = 0;
    while i < targets.len()
        invariant
            i <= targets.len(),
            all == mention_views(list@),
            out.len() == i,
            forall|k: int|
                0 <= k < i ==> (#[trigger] out@[k]).to@ == targets@[k]@ && views(out@[k].from@)
                    == referrers(all, targets@[k]@),
        decreases targets.len() - i,
    {
        let from = referrers_of(list, targets[i].as_str());
        out.push(Reference { to: targets[i].clone(), from });
        i = i + 1;
    }
    proof {
        assert(views(targets@).len() == targets.len());
        assert forall|k: int| 0 <= k < targets.len() implies views(targets@)[k] == (
        #[trigger] targets@[k])@ by {}
        assert(reference_views(out@) =~= gathered(all));
    }
    out
}

// ---- every invoked path is produced ----

/// The executable a word invokes, if it invokes one. A directory is where
/// something is copied, not what is invoked.
pub open spec fn invoked(word: Seq<char>) -> Option<Seq<char>> {
    let path = unprefixed(unprefixed(word, "ExecStart="@), "ExecStop="@);
    if begins(path, "/usr/"@) && !ends(path, "/"@) {
        Some(path)
    } else {
        None
    }
}

fn invoked_of(word: &str) -> (r: Option<String>)
    ensures
        text_of(r) == invoked(word@),
{
    let path = strip_prefixes(strip_prefixes(word, "ExecStart=").as_str(), "ExecStop=");
    if starts_with(path.as_str(), "/usr/") && !ends_with(path.as_str(), "/") {
        Some(path)
    } else {
        None
    }
}

/// The executables some words invoke.
pub open spec fn invoked_words(line_words: Seq<Seq<char>>) -> Seq<Seq<char>> {
    kept(invoked_words_each(line_words))
}

/// What each gives to [`invoked_words`].
pub open spec fn invoked_words_each(line_words: Seq<Seq<char>>) -> Seq<Option<Seq<char>>> {
    Seq::new(line_words.len(), |i: int| invoked(line_words[i]))
}

/// The executables some words invoke.
fn invoked_words_of(line_words: &Vec<String>) -> (out: Vec<String>)
    ensures
        views(out@) == invoked_words(views(line_words@)),
{
    let ghost list = invoked_words_each(views(line_words@));
    let mut out: Vec<String> = Vec::new();
    let mut i: usize = 0;
    proof {
        assert(views(out@) =~= kept(list.take(0)));
    }
    while i < line_words.len()
        invariant
            i <= line_words.len(),
            line_words.len() == list.len(),
            list == invoked_words_each(views(line_words@)),
            views(out@) == kept(list.take(i as int)),
        decreases line_words.len() - i,
    {
        proof {
            assert(views(line_words@)[i as int] == line_words@[i as int]@);
        }
        let item = invoked_of(line_words[i].as_str());
        out = keep(out, item, Ghost(list), Ghost(i as int));
        i = i + 1;
    }
    proof {
        assert(list.take(i as int) =~= list);
    }
    out
}

/// The executables a line invokes, unless it is a comment.
pub open spec fn line_invokes(line: Seq<char>) -> Seq<Seq<char>> {
    if begins(trimmed(line), "#"@) {
        Seq::empty()
    } else {
        invoked_words(words(trimmed(line)))
    }
}

fn line_invokes_of(line: &str) -> (r: Vec<String>)
    ensures
        views(r@) == line_invokes(line@),
{
    let l = trim(line);
    if starts_with(l.as_str(), "#") {
        let r: Vec<String> = Vec::new();
        proof {
            assert(views(r@) =~= Seq::<Seq<char>>::empty());
        }
        r
    } else {
        invoked_words_of(&split_words(l.as_str()))
    }
}

/// The executables a file invokes.
pub open spec fn file_invokes(source: Source) -> Seq<Seq<char>> {
    flat(file_invokes_each(source))
}

/// What each gives to [`file_invokes`].
pub open spec fn file_invokes_each(source: Source) -> Seq<Seq<Seq<char>>> {
    Seq::new(lines(source.text@).len(), |i: int| line_invokes(lines(source.text@)[i]))
}

/// The executables a file invokes.
fn file_invokes_of(source: &Source) -> (out: Vec<String>)
    ensures
        views(out@) == file_invokes(*source),
{
    let ghost list = file_invokes_each(*source);
    let split = split_lines(source.text.as_str());
    proof {
        assert(views(split@).len() == split.len());
    }
    let mut out: Vec<String> = Vec::new();
    let mut i: usize = 0;
    proof {
        assert(views(out@) =~= flat(list.take(0)));
    }
    while i < split.len()
        invariant
            i <= split.len(),
            split.len() == list.len(),
            list == file_invokes_each(*source),
            views(split@) == lines(source.text@),
            views(out@) == flat(list.take(i as int)),
        decreases split.len() - i,
    {
        proof {
            assert(views(split@)[i as int] == split@[i as int]@);
        }
        let item = line_invokes_of(split[i].as_str());
        out = lay(out, item, Ghost(list), Ghost(i as int));
        i = i + 1;
    }
    proof {
        assert(list.take(i as int) =~= list);
    }
    out
}

/// What each file refers to.
pub open spec fn invoked_paths_mentions(sources: Seq<Source>) -> Seq<(Seq<char>, Seq<Seq<char>>)> {
    Seq::new(sources.len(), |i: int| (sources[i].name@, file_invokes(sources[i])))
}

/// The executables the rendered files invoke, and where from.
pub fn invoked_paths(sources: &Vec<Source>) -> (out: Vec<Reference>)
    ensures
        reference_views(out@) == gathered(invoked_paths_mentions(sources@)),
{
    let mut list: Vec<Mentions> = Vec::new();
    let mut i: usize = 0;
    while i < sources.len()
        invariant
            i <= sources.len(),
            list.len() == i,
            forall|k: int|
                0 <= k < i ==> (#[trigger] list@[k]).from@ == sources@[k].name@ && views(
                    list@[k].to@,
                ) == file_invokes(sources@[k]),
        decreases sources.len() - i,
    {
        let to = file_invokes_of(&sources[i]);
        list.push(Mentions { from: sources[i].name.clone(), to });
        i = i + 1;
    }
    proof {
        assert(mention_views(list@) =~= invoked_paths_mentions(sources@));
    }
    gather(&list)
}

/// Whether an executable comes with a declared package or with the base.
pub open spec fn from_packages(path: Seq<char>) -> bool {
    ||| path == "/usr/bin/bash"@
    ||| path == "/usr/bin/env"@
    ||| path == "/usr/bin/podman"@
    ||| path == "/usr/bin/curl"@
    ||| path == "/usr/bin/jq"@
    ||| path == "/usr/bin/restic"@
    ||| path == "/usr/bin/rsync"@
    ||| path == "/usr/bin/timeout"@
    ||| path == "/usr/bin/systemctl"@
    ||| path == "/usr/bin/nft"@
    ||| path == "/usr/sbin/nft"@
    ||| path == "/usr/bin/install"@
    ||| path == "/usr/bin/ostree"@
}

/// Whether an executable comes with a declared package or with the base.
pub fn is_from_packages(path: &str) -> (r: bool)
    ensures
        r == from_packages(path@),
{
    same(path, "/usr/bin/bash")
        || same(path, "/usr/bin/env")
        || same(path, "/usr/bin/podman")
        || same(path, "/usr/bin/curl")
        || same(path, "/usr/bin/jq")
        || same(path, "/usr/bin/restic")
        || same(path, "/usr/bin/rsync")
        || same(path, "/usr/bin/timeout")
        || same(path, "/usr/bin/systemctl")
        || same(path, "/usr/bin/nft")
        || same(path, "/usr/sbin/nft")
        || same(path, "/usr/bin/install")
        || same(path, "/usr/bin/ostree")
}

/// Whether an image build produces a path: it names it, or copies into a
/// directory above it.
pub open spec fn produced(path: Seq<char>, builds: Seq<char>, directories: Seq<Seq<char>>) -> bool {
    from_packages(path) || holds(builds, path) || exists|i: int|
        0 <= i < directories.len() && begins(path, #[trigger] directories[i])
}

fn is_produced(path: &str, builds: &str, directories: &Vec<String>) -> (r: bool)
    ensures
        r == produced(path@, builds@, views(directories@)),
{
    if is_from_packages(path) || contains(builds, path) {
        return true;
    }
    let mut i: usize = 0;
    while i < directories.len()
        invariant
            i <= directories.len(),
            forall|k: int| 0 <= k < i ==> !begins(path@, #[trigger] views(directories@)[k]),
        decreases directories.len() - i,
    {
        proof {
            assert(views(directories@)[i as int] == directories@[i as int]@);
        }
        if starts_with(path, directories[i].as_str()) {
            return true;
        }
        i = i + 1;
    }
    false
}

/// What an executable no build produces is told.
pub open spec fn unproduced(reference: (Seq<char>, Seq<Seq<char>>), builds: Seq<char>, directories: Seq<Seq<char>>) -> Option<Seq<char>> {
    if produced(reference.0, builds, directories) {
        None
    } else {
        Some(
            reference.0
                + ": invoked by "@
                + join(reference.1, ", "@)
                + " and produced by no image build. A unit that invokes a path nothing ships fails at boot, which is the most expensive place to find out (§7.2)"@,
        )
    }
}

fn unproduced_of(reference: &Reference, builds: &str, directories: &Vec<String>) -> (r: Option<String>)
    ensures
        text_of(r) == unproduced((reference.to@, views(reference.from@)), builds@, views(directories@)),
{
    if is_produced(reference.to.as_str(), builds, directories) {
        None
    } else {
        Some(
            reference.to.clone()
                .concat(": invoked by ")
                .concat(join_strings(&reference.from, ", ").as_str())
                .concat(" and produced by no image build. A unit that invokes a path nothing ships fails at boot, which is the most expensive place to find out (§7.2)"),
        )
    }
}

/// The executables invoked that no image build produces.
pub open spec fn every_invoked_path_is_produced_spec(references: Seq<(Seq<char>, Seq<Seq<char>>)>, builds: Seq<char>, directories: Seq<Seq<char>>) -> Seq<Seq<char>> {
    kept(every_invoked_path_is_produced_each(references, builds, directories))
}

/// What each gives to [`every_invoked_path_is_produced_spec`].
pub open spec fn every_invoked_path_is_produced_each(references: Seq<(Seq<char>, Seq<Seq<char>>)>, builds: Seq<char>, directories: Seq<Seq<char>>) -> Seq<Option<Seq<char>>> {
    Seq::new(references.len(), |i: int| unproduced(references[i], builds, directories))
}

/// The executables invoked that no image build produces.
pub fn every_invoked_path_is_produced(references: &Vec<Reference>, builds: &str, directories: &Vec<String>) -> (out: Vec<String>)
    ensures
        views(out@) == every_invoked_path_is_produced_spec(reference_views(references@), builds@, views(directories@)),
{
    let ghost list = every_invoked_path_is_produced_each(reference_views(references@), builds@, views(directories@));
    let mut out: Vec<String> = Vec::new();
    let mut i: usize = 0;
    proof {
        assert(views(out@) =~= kept(list.take(0)));
    }
    while i < references.len()
        invariant
            i <= references.len(),
            references.len() == list.len(),
            list == every_invoked_path_is_produced_each(reference_views(references@), builds@, views(directories@)),
            views(out@) == kept(list.take(i as int)),
        decreases references.len() - i,
    {
        let item = unproduced_of(&references[i], builds, directories);
        out = keep(out, item, Ghost(list), Ghost(i as int));
        i = i + 1;
    }
    proof {
        assert(list.take(i as int) =~= list);
    }
    out
}

// ---- every owned image is built ----

/// The name of an image in this repository's namespace.
pub open spec fn owned_name(c: Cluster, image: Seq<char>) -> Option<Seq<char>> {
    match after_prefix(image, "ghcr.io/"@ + c.images.signing.repository@ + "/"@) {
        Some(tail) => Some(split(tail, ':')[0]),
        None => None,
    }
}

fn owned_name_of(c: &Cluster, image: &str) -> (r: Option<String>)
    ensures
        text_of(r) == owned_name(*c, image@),
{
    let namespace = "ghcr.io/".to_owned().concat(c.images.signing.repository.as_str()).concat("/");
    match strip_prefix(image, namespace.as_str()) {
        Some(tail) => {
            let parts = split_on(tail.as_str(), ':');
            proof {
                assert(views(parts@)[0] == parts@[0]@);
            }
            Some(parts[0].clone())
        },
        None => None,
    }
}

/// What a unit whose image nobody builds is told.
pub open spec fn unbuilt(c: Cluster, variant: Variant, quadlet: Quadlet, built: Seq<Seq<char>>) -> Option<Seq<char>> {
    match owned_name(c, quadlet.image@) {
        Some(name) => if built.contains(name) {
            None
        } else {
            Some(
                variant.id@
                    + ": quadlet `"@
                    + quadlet.name@
                    + "` runs `"@
                    + quadlet.image@
                    + "`, which is in this repository's namespace and has no Containerfile. A reference to an image nobody builds is a unit that never starts (§17.2)"@,
            )
        },
        None => None,
    }
}

fn unbuilt_of(c: &Cluster, variant: &Variant, quadlet: &Quadlet, built: &Vec<String>) -> (r: Option<String>)
    ensures
        text_of(r) == unbuilt(*c, *variant, *quadlet, views(built@)),
{
    match owned_name_of(c, quadlet.image.as_str()) {
        Some(name) => if is_member(built, name.as_str()) {
            None
        } else {
            Some(
                variant.id.clone()
                    .concat(": quadlet `")
                    .concat(quadlet.name.as_str())
                    .concat("` runs `")
                    .concat(quadlet.image.as_str())
                    .concat("`, which is in this repository's namespace and has no Containerfile. A reference to an image nobody builds is a unit that never starts (§17.2)"),
            )
        },
        None => None,
    }
}

/// The units of a variant whose image nobody builds.
pub open spec fn variant_unbuilt(c: Cluster, variant: Variant, built: Seq<Seq<char>>) -> Seq<Seq<char>> {
    kept(variant_unbuilt_each(c, variant, built))
}

/// What each gives to [`variant_unbuilt`].
pub open spec fn variant_unbuilt_each(c: Cluster, variant: Variant, built: Seq<Seq<char>>) -> Seq<Option<Seq<char>>> {
    Seq::new(c.images.base.quadlet@.len() + variant.quadlet@.len(), |i: int| unbuilt(c, variant, (c.images.base.quadlet@ + variant.quadlet@)[i], built))
}

/// The units of a variant whose image nobody builds.
fn variant_unbuilt_of(c: &Cluster, variant: &Variant, built: &Vec<String>) -> (out: Vec<String>)
    ensures
        views(out@) == variant_unbuilt(*c, *variant, views(built@)),
{
    let ghost list = variant_unbuilt_each(*c, *variant, views(built@));
    let quadlets = variant.all_quadlets(&c.images.base);
    let mut out: Vec<String> = Vec::new();
    let mut i: usize = 0;
    proof {
        assert(views(out@) =~= kept(list.take(0)));
    }
    while i < quadlets.len()
        invariant
            i <= quadlets.len(),
            quadlets.len() == list.len(),
            list == variant_unbuilt_each(*c, *variant, views(built@)),
            quadlets.len() == c.images.base.quadlet@.len() + variant.quadlet@.len(),
            forall|k: int|
                0 <= k < quadlets.len() ==> *(#[trigger] quadlets@[k]) == (c.images.base.quadlet@
                    + variant.quadlet@)[k],
            views(out@) == kept(list.take(i as int)),
        decreases quadlets.len() - i,
    {
        proof {
            assert(*quadlets@[i as int] == (c.images.base.quadlet@ + variant.quadlet@)[i as int]);
        }
        let item = unbuilt_of(c, variant, quadlets[i], built);
        out = keep(out, item, Ghost(list), Ghost(i as int));
        i = i + 1;
    }
    proof {
        assert(list.take(i as int) =~= list);
    }
    out
}

/// The units whose image is this repository's and built by nobody.
pub open spec fn every_owned_image_is_built_spec(c: Cluster, built: Seq<Seq<char>>) -> Seq<Seq<char>> {
    flat(every_owned_image_is_built_each(c, built))
}

/// What each gives to [`every_owned_image_is_built_spec`].
pub open spec fn every_owned_image_is_built_each(c: Cluster, built: Seq<Seq<char>>) -> Seq<Seq<Seq<char>>> {
    Seq::new(c.images.variant@.len(), |i: int| variant_unbuilt(c, c.images.variant@[i], built))
}

/// The units whose image is this repository's and built by nobody.
pub fn every_owned_image_is_built(c: &Cluster, built: &Vec<String>) -> (out: Vec<String>)
    ensures
        views(out@) == every_owned_image_is_built_spec(*c, views(built@)),
{
    let ghost list = every_owned_image_is_built_each(*c, views(built@));
    let mut out: Vec<String> = Vec::new();
    let mut i: usize = 0;
    proof {
        assert(views(out@) =~= flat(list.take(0)));
    }
    while i < c.images.variant.len()
        invariant
            i <= c.images.variant.len(),
            c.images.variant.len() == list.len(),
            list == every_owned_image_is_built_each(*c, views(built@)),
            views(out@) == flat(list.take(i as int)),
        decreases c.images.variant.len() - i,
    {
        let item = variant_unbuilt_of(c, &c.images.variant[i], built);
        out = lay(out, item, Ghost(list), Ghost(i as int));
        i = i + 1;
    }
    proof {
        assert(list.take(i as int) =~= list);
    }
    out
}

// ---- every called endpoint is routed ----

/// Whether a segment is shaped like an id: it holds a decimal digit, which no
/// name of a collection or an action does.
pub open spec fn id_shaped(segment: Seq<char>) -> bool {
    exists|i: int| 0 <= i < segment.len() && digit_value(#[trigger] segment[i], 10) is Some
}

fn is_id_shaped(segment: &str) -> (r: bool)
    ensures
        r == id_shaped(segment@),
{
    let text = chars_of(segment);
    let mut i: usize = 0;
    while i < text.len()
        invariant
            i <= text.len(),
            text@ == segment@,
            forall|k: int| 0 <= k < i ==> digit_value(#[trigger] segment@[k], 10) is None,
        decreases text.len() - i,
    {
        if digit_of(text[i], 10).is_some() {
            proof {
                assert(digit_value(segment@[i as int], 10) is Some);
            }
            return true;
        }
        i = i + 1;
    }
    false
}

/// Whether a segment of a path stands for something else: a parameter, what a
/// format or a shell puts in, or an id.
pub open spec fn variable(segment: Seq<char>) -> bool {
    begins(segment, "{"@) || begins(segment, ":"@) || holds(segment, "{}"@) || begins(
        segment,
        "$("@,
    ) || begins(segment, "$"@) || id_shaped(segment)
}

/// Each segment, a variable one as a wildcard.
pub open spec fn wildcards(segments: Seq<Seq<char>>) -> Seq<Seq<char>> {
    Seq::new(
        segments.len(),
        |i: int|
            if variable(segments[i]) {
                "*"@
            } else {
                segments[i]
            },
    )
}

/// A route with its variable segments as wildcards, and without the slashes it
/// ends with: who appends an id to one names the collection.
pub open spec fn normalised(route: Seq<char>) -> Seq<char> {
    join(wildcards(split(without_trailing(route, '/'), '/')), "/"@)
}

/// A route with its variable segments as wildcards.
pub fn normalise_route(route: &str) -> (r: String)
    ensures
        r@ == normalised(route@),
{
    let segments = split_on(strip_trailing(route, '/').as_str(), '/');
    let mut out: Vec<String> = Vec::new();
    let mut i: usize = 0;
    while i < segments.len()
        invariant
            i <= segments.len(),
            out.len() == i,
            forall|k: int|
                0 <= k < i ==> (#[trigger] out@[k])@ == (if variable(segments@[k]@) {
                    "*"@
                } else {
                    segments@[k]@
                }),
        decreases segments.len() - i,
    {
        let segment = segments[i].as_str();
        if starts_with(segment, "{") || starts_with(segment, ":") || contains(segment, "{}")
            || starts_with(segment, "$(") || starts_with(segment, "$") || is_id_shaped(segment) {
            out.push("*".to_owned());
        } else {
            out.push(segments[i].clone());
        }
        i = i + 1;
    }
    proof {
        assert(views(out@) =~= wildcards(views(segments@)));
    }
    join_strings(&out, "/")
}

/// Two spellings of a route compare equal where their segments agree but for
/// those that stand for something else in both.
pub proof fn the_spellings_of_a_route_are_one(a: Seq<char>, b: Seq<char>)
    requires
        split(without_trailing(a, '/'), '/').len() == split(without_trailing(b, '/'), '/').len(),
        forall|i: int|
            0 <= i < split(without_trailing(a, '/'), '/').len() ==> {
                let (x, y) = (
                    #[trigger] split(without_trailing(a, '/'), '/')[i],
                    split(without_trailing(b, '/'), '/')[i],
                );
                x == y || (variable(x) && variable(y))
            },
    ensures
        normalised(a) == normalised(b),
{
    let (x, y) = (split(without_trailing(a, '/'), '/'), split(without_trailing(b, '/'), '/'));
    assert forall|i: int| 0 <= i < x.len() implies wildcards(x)[i] == wildcards(y)[i] by {
        assert(x[i] == y[i] || (variable(x[i]) && variable(y[i])));
    }
    assert(wildcards(x) =~= wildcards(y));
}

/// Whether a route serves a call, segment by segment. A wildcard matches any
/// one.
pub open spec fn served(route: Seq<char>, call: Seq<char>) -> bool {
    let (r, c) = (split(route, '/'), split(call, '/'));
    r.len() == c.len() && forall|i: int| 0 <= i < r.len() ==> r[i] == "*"@ || #[trigger] r[i] == c[i]
}

/// Whether a route serves a call.
pub fn serves(route: &str, call: &str) -> (r: bool)
    ensures
        r == served(route@, call@),
{
    let a = split_on(route, '/');
    let b = split_on(call, '/');
    proof {
        assert(views(a@).len() == a.len() && views(b@).len() == b.len());
    }
    if a.len() != b.len() {
        return false;
    }
    let mut i: usize = 0;
    while i < a.len()
        invariant
            i <= a.len(),
            a.len() == b.len(),
            views(a@) == split(route@, '/'),
            views(b@) == split(call@, '/'),
            forall|k: int|
                0 <= k < i ==> split(route@, '/')[k] == "*"@ || #[trigger] split(route@, '/')[k]
                    == split(call@, '/')[k],
        decreases a.len() - i,
    {
        proof {
            assert(views(a@)[i as int] == a@[i as int]@);
            assert(views(b@)[i as int] == b@[i as int]@);
        }
        if !same(a[i].as_str(), "*") && !same(a[i].as_str(), b[i].as_str()) {
            return false;
        }
        i = i + 1;
    }
    true
}

/// A route serves the call of its own name.
pub proof fn a_route_serves_itself(route: Seq<char>)
    ensures
        served(route, route),
{
}

/// Where a path ends in a text, looking from `i` on: at white space, or at what
/// code and prose put around a path. A brace is no end: it delimits a segment.
pub open spec fn path_end(s: Seq<char>, i: int) -> int
    decreases s.len() - i,
{
    if i < 0 || i >= s.len() {
        s.len() as int
    } else if closes(s[i]) {
        i
    } else {
        path_end(s, i + 1)
    }
}

/// Whether a character ends a path.
pub open spec fn closes(c: char) -> bool {
    is_space(c) || c == '"' || c == '\\' || c == '\'' || c == '`' || c == ')' || c == ']' || c == ','
        || c == ';' || c == '|'
}

fn does_close(c: char) -> (r: bool)
    ensures
        r == closes(c),
{
    space(c) || c == '"' || c == '\\' || c == '\'' || c == '`' || c == ')' || c == ']' || c == ','
        || c == ';' || c == '|'
}

proof fn lemma_path_end(s: Seq<char>, i: int)
    requires
        0 <= i <= s.len(),
    ensures
        i <= path_end(s, i) <= s.len(),
    decreases s.len() - i,
{
    if i < s.len() && !closes(s[i]) {
        lemma_path_end(s, i + 1);
    }
}

fn end_of_path(s: &Vec<char>, from: usize) -> (r: usize)
    requires
        from <= s.len(),
    ensures
        r == path_end(s@, from as int),
        from <= r <= s.len(),
{
    let mut i: usize = from;
    while i < s.len() && !does_close(s[i])
        invariant
            from <= i <= s.len(),
            path_end(s@, from as int) == path_end(s@, i as int),
        decreases s.len() - i,
    {
        i = i + 1;
    }
    i
}

/// The endpoints a text names, from `i` on. A name that is only the common
/// prefix is none.
pub open spec fn endpoints_from(s: Seq<char>, i: int) -> Seq<Seq<char>>
    decreases s.len() - i,
{
    match first_from(s, "/api/"@, i) {
        None => Seq::empty(),
        Some(at) => if at < i || at + "/api/"@.len() > s.len() || "/api/"@.len() == 0 {
            Seq::empty()
        } else {
            let end = path_end(s, at + "/api/"@.len());
            let endpoint = normalised(s.subrange(at, end));
            let rest = if end <= i || end > s.len() {
                Seq::empty()
            } else {
                endpoints_from(s, end)
            };
            if byte_count(endpoint) > 5 {
                seq![endpoint] + rest
            } else {
                rest
            }
        },
    }
}

/// The endpoints a text calls.
pub open spec fn calls(text: Seq<char>) -> Seq<Seq<char>> {
    endpoints_from(text, 0)
}

fn calls_of(source: &str) -> (out: Vec<String>)
    ensures
        views(out@) == calls(source@),
{
    let text = chars_of(source);
    let pattern = chars_of("/api/");
    let ghost s = source@;
    let mut out: Vec<String> = Vec::new();
    let mut i: usize = 0;
    proof {
        reveal_strlit("/api/");
        assert(views(out@) + endpoints_from(s, 0) =~= endpoints_from(s, 0));
    }
    loop
        invariant
            i <= text.len(),
            text@ == s,
            s == source@,
            pattern@ == "/api/"@,
            pattern.len() == 5,
            calls(source@) == views(out@) + endpoints_from(s, i as int),
        decreases text.len() - i,
    {
        proof {
            lemma_first_from(s, "/api/"@, i as int);
        }
        let at: usize = match crate::text::position_from(&text, &pattern, i) {
            Some(at) => at,
            None => {
                proof {
                    assert(views(out@) + endpoints_from(s, i as int) =~= views(out@));
                }
                return out;
            },
        };
        let end = end_of_path(&text, at + 5);
        let called = string_of(&text, at, end);
        let endpoint = normalise_route(called.as_str());
        let ghost before = views(out@);
        let ghost rest = endpoints_from(s, end as int);
        proof {
            assert(called@ =~= s.subrange(at as int, end as int));
        }
        if endpoint.as_str().len() > 5 {
            out.push(endpoint);
            proof {
                assert(views(out@) =~= before.push(endpoint@));
                assert(before + (seq![endpoint@] + rest) =~= views(out@) + rest);
            }
        }
        i = end;
    }
}

/// What a list of files holds: the name of each, and its text.
pub open spec fn source_views(sources: Seq<Source>) -> Seq<(Seq<char>, Seq<char>)> {
    Seq::new(sources.len(), |i: int| (sources[i].name@, sources[i].text@))
}

/// What each file refers to.
pub open spec fn called_endpoints_mentions(sources: Seq<(Seq<char>, Seq<char>)>) -> Seq<
    (Seq<char>, Seq<Seq<char>>),
> {
    Seq::new(sources.len(), |i: int| (sources[i].0, calls(sources[i].1)))
}

/// The endpoints the components call, and where from.
pub fn called_endpoints(sources: &Vec<Source>) -> (out: Vec<Reference>)
    ensures
        reference_views(out@) == gathered(called_endpoints_mentions(source_views(sources@))),
{
    let mut list: Vec<Mentions> = Vec::new();
    let mut i: usize = 0;
    while i < sources.len()
        invariant
            i <= sources.len(),
            list.len() == i,
            forall|k: int|
                0 <= k < i ==> (#[trigger] list@[k]).from@ == sources@[k].name@ && views(
                    list@[k].to@,
                ) == calls(sources@[k].text@),
        decreases sources.len() - i,
    {
        let to = calls_of(sources[i].text.as_str());
        list.push(Mentions { from: sources[i].name.clone(), to });
        i = i + 1;
    }
    proof {
        assert(mention_views(list@) =~= called_endpoints_mentions(source_views(sources@)));
    }
    gather(&list)
}

/// The route a line of the router declares.
pub open spec fn route_line(line: Seq<char>) -> Option<Seq<char>> {
    match after_prefix(trimmed(line), ".route(\""@) {
        Some(rest) => Some(normalised(split(rest, '"')[0])),
        None => None,
    }
}

fn route_line_of(line: &str) -> (r: Option<String>)
    ensures
        text_of(r) == route_line(line@),
{
    match strip_prefix(trim(line).as_str(), ".route(\"") {
        Some(rest) => {
            let parts = split_on(rest.as_str(), '"');
            proof {
                assert(views(parts@)[0] == parts@[0]@);
            }
            Some(normalise_route(parts[0].as_str()))
        },
        None => None,
    }
}

/// The routes a router declares.
pub open spec fn routes(source: Source) -> Seq<Seq<char>> {
    kept(routes_each(source))
}

/// What each gives to [`routes`].
pub open spec fn routes_each(source: Source) -> Seq<Option<Seq<char>>> {
    Seq::new(lines(source.text@).len(), |i: int| route_line(lines(source.text@)[i]))
}

/// The routes a router declares.
fn routes_of(source: &Source) -> (out: Vec<String>)
    ensures
        views(out@) == routes(*source),
{
    let ghost list = routes_each(*source);
    let split = split_lines(source.text.as_str());
    proof {
        assert(views(split@).len() == split.len());
    }
    let mut out: Vec<String> = Vec::new();
    let mut i: usize = 0;
    proof {
        assert(views(out@) =~= kept(list.take(0)));
    }
    while i < split.len()
        invariant
            i <= split.len(),
            split.len() == list.len(),
            list == routes_each(*source),
            views(split@) == lines(source.text@),
            views(out@) == kept(list.take(i as int)),
        decreases split.len() - i,
    {
        proof {
            assert(views(split@)[i as int] == split@[i as int]@);
        }
        let item = route_line_of(split[i].as_str());
        out = keep(out, item, Ghost(list), Ghost(i as int));
        i = i + 1;
    }
    proof {
        assert(list.take(i as int) =~= list);
    }
    out
}

/// Whether some route serves a call.
pub open spec fn is_served(routed: Seq<Seq<char>>, call: Seq<char>) -> bool {
    exists|i: int| 0 <= i < routed.len() && served(#[trigger] routed[i], call)
}

fn any_serves(routed: &Vec<String>, call: &str) -> (r: bool)
    ensures
        r == is_served(views(routed@), call@),
{
    let mut i: usize = 0;
    while i < routed.len()
        invariant
            i <= routed.len(),
            forall|k: int| 0 <= k < i ==> !served(#[trigger] views(routed@)[k], call@),
        decreases routed.len() - i,
    {
        proof {
            assert(views(routed@)[i as int] == routed@[i as int]@);
        }
        if serves(routed[i].as_str(), call) {
            return true;
        }
        i = i + 1;
    }
    false
}

/// What an endpoint no route serves is told.
pub open spec fn unrouted(reference: (Seq<char>, Seq<Seq<char>>), routed: Seq<Seq<char>>) -> Option<Seq<char>> {
    if is_served(routed, reference.0) {
        None
    } else {
        Some(
            reference.0
                + ": called by "@
                + join(reference.1, ", "@)
                + " and served by no route. A caller and a router in different crates are joined by a string the compiler cannot check (§16.1, §17.2). Routes: "@
                + text_set(routed),
        )
    }
}

fn unrouted_of(reference: &Reference, routed: &Vec<String>) -> (r: Option<String>)
    ensures
        text_of(r) == unrouted((reference.to@, views(reference.from@)), views(routed@)),
{
    if any_serves(routed, reference.to.as_str()) {
        None
    } else {
        Some(
            reference.to.clone()
                .concat(": called by ")
                .concat(join_strings(&reference.from, ", ").as_str())
                .concat(" and served by no route. A caller and a router in different crates are joined by a string the compiler cannot check (§16.1, §17.2). Routes: ")
                .concat(text_set_of(routed).as_str()),
        )
    }
}

/// The endpoints called that no route serves.
pub open spec fn unrouted_calls(references: Seq<(Seq<char>, Seq<Seq<char>>)>, routed: Seq<Seq<char>>) -> Seq<Seq<char>> {
    kept(unrouted_calls_each(references, routed))
}

/// What each gives to [`unrouted_calls`].
pub open spec fn unrouted_calls_each(references: Seq<(Seq<char>, Seq<Seq<char>>)>, routed: Seq<Seq<char>>) -> Seq<Option<Seq<char>>> {
    Seq::new(references.len(), |i: int| unrouted(references[i], routed))
}

/// The endpoints called that no route serves.
fn unrouted_calls_of(references: &Vec<Reference>, routed: &Vec<String>) -> (out: Vec<String>)
    ensures
        views(out@) == unrouted_calls(reference_views(references@), views(routed@)),
{
    let ghost list = unrouted_calls_each(reference_views(references@), views(routed@));
    let mut out: Vec<String> = Vec::new();
    let mut i: usize = 0;
    proof {
        assert(views(out@) =~= kept(list.take(0)));
    }
    while i < references.len()
        invariant
            i <= references.len(),
            references.len() == list.len(),
            list == unrouted_calls_each(reference_views(references@), views(routed@)),
            views(out@) == kept(list.take(i as int)),
        decreases references.len() - i,
    {
        let item = unrouted_of(&references[i], routed);
        out = keep(out, item, Ghost(list), Ghost(i as int));
        i = i + 1;
    }
    proof {
        assert(list.take(i as int) =~= list);
    }
    out
}

/// The endpoints called that the router does not serve.
pub fn every_called_endpoint_is_routed(router: &Source, references: &Vec<Reference>) -> (out: Vec<
    String,
>)
    ensures
        views(out@) == unrouted_calls(reference_views(references@), distinct(routes(*router))),
{
    let routed = distinct_of(&routes_of(router));
    unrouted_calls_of(references, &routed)
}

// ---- which files count ----

/// The parts of a file's name, between its dots.
pub open spec fn name_parts(path: Seq<char>) -> Seq<Seq<char>> {
    split(split(path, '/').last(), '.')
}

fn name_parts_of(path: &str) -> (out: Vec<String>)
    ensures
        views(out@) == name_parts(path@),
        out.len() > 0,
{
    let parts = split_on(path, '/');
    let last = parts[parts.len() - 1].as_str();
    proof {
        assert(views(parts@).last() == last@);
    }
    split_on(last, '.')
}

/// Whether a file is code: its name ends in `.rs`, after something else.
pub open spec fn is_code(path: Seq<char>) -> bool {
    let parts = name_parts(path);
    parts.len() > 1 && parts.last() == "rs"@ && (parts.len() > 2 || parts[0].len() > 0)
}

fn code(path: &str) -> (r: bool)
    ensures
        r == is_code(path@),
{
    let parts = name_parts_of(path);
    proof {
        assert(views(parts@).last() == parts@[parts.len() - 1]@);
        assert(views(parts@)[0] == parts@[0]@);
    }
    parts.len() > 1 && same(parts[parts.len() - 1].as_str(), "rs") && (parts.len() > 2
        || !parts[0].as_str().is_empty())
}

/// Whether a file declares the model's fields: it is one of the four of the
/// model's crate that parse them. A field stands there whether or not anything
/// reads it.
pub open spec fn declares(path: Seq<char>) -> bool {
    let parts = split(path, '/');
    let n = parts.len() as int;
    let stem = name_parts(path)[0];
    &&& n >= 4
    &&& parts[n - 4] == "crates"@
    &&& parts[n - 3] == "cluster-model"@
    &&& parts[n - 2] == "src"@
    &&& name_parts(path).len() <= 2
    &&& stem == "cluster"@ || stem == "network"@ || stem == "images"@ || stem == "policy"@
}

/// Whether a file declares the model's fields, rather than reading them.
pub fn declares_fields(path: &str) -> (b: bool)
    ensures
        b == declares(path@),
{
    let parts = split_on(path, '/');
    let name = name_parts_of(path);
    let n: usize = parts.len();
    proof {
        assert(views(parts@).len() == n);
        assert(views(name@).len() == name.len());
        assert(views(name@)[0] == name@[0]@);
        assert(forall|k: int| 0 <= k < n ==> views(parts@)[k] == (#[trigger] parts@[k])@);
    }
    if n < 4 || name.len() > 2 {
        return false;
    }
    let stem = name[0].as_str();
    same(parts[n - 4].as_str(), "crates") && same(parts[n - 3].as_str(), "cluster-model") && same(
        parts[n - 2].as_str(),
        "src",
    ) && (same(stem, "cluster") || same(stem, "network") || same(stem, "images") || same(
        stem,
        "policy",
    ))
}

/// Whether a file is the control plane's own.
pub open spec fn is_control_plane(path: Seq<char>) -> bool {
    let parts = split(path, '/');
    parts.len() > 1 && parts[0] == "crates"@ && parts[1] == "cluster-ctl"@
}

/// Whether a file is the control plane's own, and so no caller of it.
pub fn control_plane(path: &str) -> (b: bool)
    ensures
        b == is_control_plane(path@),
{
    let parts = split_on(path, '/');
    proof {
        assert(views(parts@).len() == parts.len());
        assert(forall|k: int|
            0 <= k < parts.len() ==> views(parts@)[k] == (#[trigger] parts@[k])@);
    }
    parts.len() > 1 && same(parts[0].as_str(), "crates") && same(parts[1].as_str(), "cluster-ctl")
}

/// Whether a file is below a directory of build outputs.
pub open spec fn is_build_output(path: Seq<char>) -> bool {
    split(path, '/').drop_last().contains("target"@)
}

/// Whether a file is below a directory of build outputs.
pub fn build_output(path: &str) -> (b: bool)
    ensures
        b == is_build_output(path@),
{
    let parts = split_on(path, '/');
    let ghost above = split(path@, '/').drop_last();
    proof {
        assert(views(parts@).len() == parts.len());
    }
    let mut i: usize = 0;
    while i < parts.len() - 1
        invariant
            parts.len() > 0,
            i <= parts.len() - 1,
            views(parts@) == split(path@, '/'),
            above == split(path@, '/').drop_last(),
            above.len() == parts.len() - 1,
            forall|k: int| 0 <= k < i ==> (#[trigger] above[k]) != "target"@,
        decreases parts.len() - i,
    {
        proof {
            assert(above[i as int] == views(parts@)[i as int]);
            assert(views(parts@)[i as int] == parts@[i as int]@);
        }
        if same(parts[i].as_str(), "target") {
            proof {
                assert(above.contains("target"@));
            }
            return true;
        }
        i = i + 1;
    }
    false
}

/// The text of a file of the crates, where it is code that may read a field of
/// the model.
pub open spec fn reader(source: Source) -> Option<Seq<char>> {
    if is_code(source.name@) && !declares(source.name@) && !is_build_output(source.name@) {
        Some(source.text@)
    } else {
        None
    }
}

/// The code that may read a field of the model, put together.
pub open spec fn reading_code(crates: Seq<Source>) -> Seq<char> {
    concat_all(kept(reading_code_each(crates)))
}

/// What each gives to [`reading_code`].
pub open spec fn reading_code_each(crates: Seq<Source>) -> Seq<Option<Seq<char>>> {
    Seq::new(crates.len(), |i: int| reader(crates[i]))
}

/// The code that may read a field of the model, put together.
pub fn reading_code_of(crates: &Vec<Source>) -> (r: String)
    ensures
        r@ == reading_code(crates@),
{
    let ghost list = reading_code_each(crates@);
    let mut out: Vec<String> = Vec::new();
    let mut i: usize = 0;
    proof {
        assert(views(out@) =~= kept(list.take(0)));
    }
    while i < crates.len()
        invariant
            i <= crates.len(),
            crates.len() == list.len(),
            list == reading_code_each(crates@),
            views(out@) == kept(list.take(i as int)),
        decreases crates.len() - i,
    {
        let name = crates[i].name.as_str();
        let item = if code(name) && !declares_fields(name) && !build_output(name) {
            Some(crates[i].text.clone())
        } else {
            None
        };
        out = keep(out, item, Ghost(list), Ghost(i as int));
        i = i + 1;
    }
    proof {
        assert(list.take(i as int) =~= list);
    }
    concat_strings(&out)
}

/// The files of the crates that may call the control plane.
pub open spec fn crate_callers(crates: Seq<Source>) -> Seq<(Seq<char>, Seq<char>)>
    decreases crates.len(),
{
    if crates.len() == 0 {
        Seq::empty()
    } else {
        let source = crates.last();
        let before = crate_callers(crates.drop_last());
        if is_control_plane(source.name@) || is_build_output(source.name@) {
            before
        } else {
            before.push((source.name@, source.text@))
        }
    }
}

/// The files of the committed tree, which may all call it, by path from the
/// repository's root.
pub open spec fn tree_callers(generated: Seq<Source>) -> Seq<(Seq<char>, Seq<char>)>
    decreases generated.len(),
{
    if generated.len() == 0 {
        Seq::empty()
    } else {
        let source = generated.last();
        let before = tree_callers(generated.drop_last());
        if is_build_output(source.name@) {
            before
        } else {
            before.push((GENERATED_DIR@ + "/"@ + source.name@, source.text@))
        }
    }
}

/// Everything that may call the control plane: every component but itself, and
/// the committed tree.
pub open spec fn callers(crates: Seq<Source>, generated: Seq<Source>) -> Seq<
    (Seq<char>, Seq<char>),
> {
    crate_callers(crates) + tree_callers(generated)
}

/// Everything that may call the control plane.
pub fn callers_of(crates: &Vec<Source>, generated: &Vec<Source>) -> (out: Vec<Source>)
    ensures
        source_views(out@) == callers(crates@, generated@),
{
    let mut out: Vec<Source> = Vec::new();
    let mut i: usize = 0;
    proof {
        assert(crates@.take(0) =~= Seq::empty());
        assert(source_views(out@) =~= crate_callers(crates@.take(0)));
    }
    while i < crates.len()
        invariant
            i <= crates.len(),
            source_views(out@) == crate_callers(crates@.take(i as int)),
        decreases crates.len() - i,
    {
        let ghost before = out@;
        proof {
            assert(crates@.take(i + 1).drop_last() =~= crates@.take(i as int));
            assert(crates@.take(i + 1).last() == crates@[i as int]);
        }
        let source = &crates[i];
        if !control_plane(source.name.as_str()) && !build_output(source.name.as_str()) {
            out.push(Source { name: source.name.clone(), text: source.text.clone() });
            proof {
                assert(source_views(out@) =~= source_views(before).push(
                    (source.name@, source.text@),
                ));
            }
        }
        i = i + 1;
    }
    let ghost first = crate_callers(crates@);
    let mut j: usize = 0;
    proof {
        assert(crates@.take(i as int) =~= crates@);
        assert(generated@.take(0) =~= Seq::empty());
        assert(source_views(out@) =~= first + tree_callers(generated@.take(0)));
    }
    while j < generated.len()
        invariant
            j <= generated.len(),
            source_views(out@) == first + tree_callers(generated@.take(j as int)),
        decreases generated.len() - j,
    {
        let ghost before = out@;
        proof {
            assert(generated@.take(j + 1).drop_last() =~= generated@.take(j as int));
            assert(generated@.take(j + 1).last() == generated@[j as int]);
        }
        let source = &generated[j];
        if !build_output(source.name.as_str()) {
            let name = GENERATED_DIR.to_owned().concat("/").concat(source.name.as_str());
            out.push(Source { name, text: source.text.clone() });
            proof {
                let pair = (GENERATED_DIR@ + "/"@ + source.name@, source.text@);
                assert(source_views(out@) =~= source_views(before).push(pair));
                assert(first + tree_callers(generated@.take(j as int)).push(pair) =~= source_views(
                    before,
                ).push(pair));
            }
        }
        j = j + 1;
    }
    proof {
        assert(generated@.take(j as int) =~= generated@);
    }
    out
}

// ---- all of it ----

/// Everything the checks read.
#[derive(Debug)]
pub struct Repository {
    /// The image builds, by the name of the image.
    pub builds: Vec<Source>,
    /// The committed tree's files, by path below its root.
    pub generated: Vec<Source>,
    /// The model's files, by name without the ending.
    pub models: Vec<Source>,
    /// The components' files, by path from the repository's root.
    pub crates: Vec<Source>,
    /// The control plane's router.
    pub router: Source,
}

/// What a list of files holds, put together.
pub open spec fn all_text(sources: Seq<Source>) -> Seq<char> {
    concat_all(Seq::new(sources.len(), |i: int| sources[i].text@))
}

fn all_text_of(sources: &Vec<Source>) -> (r: String)
    ensures
        r@ == all_text(sources@),
{
    let mut parts: Vec<String> = Vec::new();
    let mut i: usize = 0;
    while i < sources.len()
        invariant
            i <= sources.len(),
            parts.len() == i,
            forall|k: int| 0 <= k < i ==> (#[trigger] parts@[k])@ == sources@[k].text@,
        decreases sources.len() - i,
    {
        parts.push(sources[i].text.clone());
        i = i + 1;
    }
    proof {
        assert(views(parts@) =~= Seq::new(sources@.len(), |i: int| sources@[i].text@));
    }
    concat_strings(&parts)
}

/// The names of a list of files.
pub open spec fn all_names(sources: Seq<Source>) -> Seq<Seq<char>> {
    Seq::new(sources.len(), |i: int| sources[i].name@)
}

fn all_names_of(sources: &Vec<Source>) -> (out: Vec<String>)
    ensures
        views(out@) == all_names(sources@),
{
    let mut out: Vec<String> = Vec::new();
    let mut i: usize = 0;
    while i < sources.len()
        invariant
            i <= sources.len(),
            out.len() == i,
            forall|k: int| 0 <= k < i ==> (#[trigger] out@[k])@ == sources@[k].name@,
        decreases sources.len() - i,
    {
        out.push(sources[i].name.clone());
        i = i + 1;
    }
    proof {
        assert(views(out@) =~= all_names(sources@));
    }
    out
}

/// The paths of the rendered files.
pub open spec fn all_paths(all: Seq<File>) -> Seq<Seq<char>> {
    Seq::new(all.len(), |i: int| all[i].path)
}

fn all_paths_of(all: &Vec<Rendered>) -> (out: Vec<String>)
    ensures
        views(out@) == all_paths(files(all@)),
{
    let mut out: Vec<String> = Vec::new();
    let mut i: usize = 0;
    while i < all.len()
        invariant
            i <= all.len(),
            out.len() == i,
            forall|k: int| 0 <= k < i ==> (#[trigger] out@[k])@ == all@[k].path@,
        decreases all.len() - i,
    {
        out.push(all[i].path.clone());
        i = i + 1;
    }
    proof {
        assert(views(out@) =~= all_paths(files(all@)));
    }
    out
}

/// Everything that dangles or is inert.
pub open spec fn dangling(c: Cluster, all: Seq<File>, repository: Repository) -> Seq<Seq<char>> {
    let builds = all_text(repository.builds@);
    every_rendered_file_is_consumed_spec(all, copy_sources_spec(repository.builds@))
        + every_invoked_path_is_produced_spec(
        gathered(invoked_paths_mentions(repository.generated@)),
        builds,
        copy_destinations_spec(repository.builds@),
    ) + every_owned_image_is_built_spec(c, all_names(repository.builds@)) + unrouted_calls(
        gathered(called_endpoints_mentions(callers(repository.crates@, repository.generated@))),
        distinct(routes(repository.router)),
    ) + every_mounted_config_is_rendered_spec(c, all_paths(all), builds) + distinct(
        all_unread(repository.models@, reading_code(repository.crates@)),
    )
}

/// Everything that dangles or is inert.
fn dangling_of(c: &Cluster, all: &Vec<Rendered>, repository: &Repository) -> (out: Vec<String>)
    ensures
        views(out@) == dangling(*c, files(all@), *repository),
{
    let builds = all_text_of(&repository.builds);
    let copies = copy_sources(&repository.builds);
    let directories = copy_destinations(&repository.builds);
    let invoked = invoked_paths(&repository.generated);
    let called = called_endpoints(&callers_of(&repository.crates, &repository.generated));
    let code = reading_code_of(&repository.crates);
    let names = all_names_of(&repository.builds);
    let paths = all_paths_of(all);
    let out = every_rendered_file_is_consumed(all, &copies);
    let out = joined_lists(
        out,
        every_invoked_path_is_produced(&invoked, builds.as_str(), &directories),
    );
    let out = joined_lists(out, every_owned_image_is_built(c, &names));
    let out = joined_lists(out, every_called_endpoint_is_routed(&repository.router, &called));
    let out = joined_lists(out, every_mounted_config_is_rendered(c, &paths, builds.as_str()));
    joined_lists(out, every_model_field_is_read(&repository.models, code.as_str()))
}

/// Check that every rendered artifact is consumed and every reference resolves.
pub fn check_wiring(c: &Cluster, all: &Vec<Rendered>, repository: &Repository) -> (r: Result<
    String,
    String,
>)
    ensures
        match r {
            Ok(report) => dangling(*c, files(all@), *repository).len() == 0 && report@
                == "check-wiring: every rendered artifact is consumed and every reference resolves"@,
            Err(why) => dangling(*c, files(all@), *repository).len() > 0 && why@
                == "R1, §17.2: a dangling reference is a build failure, not a stale file. These references cross a boundary the compiler cannot see.\n\n"@
                + join(dangling(*c, files(all@), *repository), "\n"@),
        },
{
    let wrong = dangling_of(c, all, repository);
    proof {
        assert(views(wrong@).len() == wrong.len());
    }
    if wrong.len() > 0 {
        return Err(
            "R1, §17.2: a dangling reference is a build failure, not a stale file. These references cross a boundary the compiler cannot see.\n\n".to_owned().concat(
                join_strings(&wrong, "\n").as_str(),
            ),
        );
    }
    Ok("check-wiring: every rendered artifact is consumed and every reference resolves".to_owned())
}

} // verus!
