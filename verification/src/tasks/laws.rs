//! What holds of a repository in which nothing dangles.
use vstd::prelude::*;

use crate::lists::{distinct, inserted, lemma_flat_empty, lemma_kept_empty};
use crate::model::{Cluster, GENERATED_DIR};
use crate::render::File;
use crate::tasks::wiring::{
    all_names,
    all_paths,
    all_text,
    all_unread,
    all_unread_each,
    called_endpoints_mentions,
    callers,
    consumed,
    copy_destinations_spec,
    copy_sources_spec,
    dangling,
    every_invoked_path_is_produced_spec,
    every_invoked_path_is_produced_each,
    every_mounted_config_is_rendered_spec,
    every_mounted_config_is_rendered_each,
    every_owned_image_is_built_spec,
    every_owned_image_is_built_each,
    every_rendered_file_is_consumed_spec,
    every_rendered_file_is_consumed_each,
    field,
    file_unread,
    file_unread_each,
    gathered,
    invoked_paths_mentions,
    is_served,
    operator_applied,
    owned_name,
    produced,
    quadlet_mounts,
    quadlet_mounts_each,
    reading_code,
    routes,
    spelled,
    unprovided,
    unrouted_calls,
    unrouted_calls_each,
    variant_mounts,
    variant_mounts_each,
    variant_unbuilt,
    variant_unbuilt_each,
    Repository,
};
use crate::images::QuadletMount;
use crate::lists::{
    distinct_texts_are_those_of_the_list,
    kept,
    flat,
    lists_are_laid_end_to_end,
    what_is_there_is_kept,
};
use crate::named::row;
use crate::registry::{class_spec, Ids};
use crate::render::{contents_of, files, str_views, Rendered, Syntax};
use crate::tasks::tree::{
    byte_problems,
    byte_problems_each,
    check_render,
    file_gaps,
    is_render_claim,
    named_claims,
    named_claims_each,
    names_render_claim,
    read_views,
    strays,
    strays_each,
    tree_gaps,
    tree_gaps_each,
    unknown_gaps,
    unknown_gaps_each,
    vacuous_claims_each,
};
use crate::tasks::wiring::{
    check_wiring,
    crate_callers,
    destination,
    every_called_endpoint_is_routed,
    every_invoked_path_is_produced,
    every_model_field_is_read,
    every_mounted_config_is_rendered,
    every_owned_image_is_built,
    every_rendered_file_is_consumed,
    everything,
    file_destinations_each,
    copy_destinations_each,
    file_invokes_each,
    first_part,
    id_shaped,
    invoked,
    invoked_words_each,
    is_build_output,
    is_configuration,
    is_control_plane,
    provided,
    reference_views,
    route_line,
    routes_each,
    served,
    takes,
    tree_callers,
    unprefixed,
    variable,
    without_first,
    Reference,
    Source,
};
use crate::text::{
    a_separator_parts_the_pieces,
    a_text_is_found_where_it_stands,
    begins,
    digit_value,
    ends,
    first_from,
    halves,
    holds,
    join,
    lemma_first_from,
    lines,
    occurs_at,
    pieces_are_cut_at_every_separator,
    replaced,
    split,
    trimmed,
    views,
    words,
};

verus! {

/// Where nothing dangles, every rendered file is applied by an operator or
/// copied into an image.
pub proof fn every_file_reaches_its_place(c: Cluster, all: Seq<File>, r: Repository, i: int)
    requires
        dangling(c, all, r).len() == 0,
        0 <= i < all.len(),
    ensures
        operator_applied(all[i].path) || consumed(copy_sources_spec(r.builds@), all[i].path),
{
    let each = every_rendered_file_is_consumed_each(all, copy_sources_spec(r.builds@));
    assert(every_rendered_file_is_consumed_spec(all, copy_sources_spec(r.builds@)).len() == 0);
    lemma_kept_empty(each);
    assert(each[i] is None);
}

/// Where nothing dangles, every path a unit invokes is shipped by a package or
/// by an image build.
pub proof fn every_invoked_path_is_shipped(c: Cluster, all: Seq<File>, r: Repository, i: int)
    requires
        dangling(c, all, r).len() == 0,
        0 <= i < gathered(invoked_paths_mentions(r.generated@)).len(),
    ensures
        produced(
            gathered(invoked_paths_mentions(r.generated@))[i].0,
            all_text(r.builds@),
            copy_destinations_spec(r.builds@),
        ),
{
    let references = gathered(invoked_paths_mentions(r.generated@));
    let each = every_invoked_path_is_produced_each(
        references,
        all_text(r.builds@),
        copy_destinations_spec(r.builds@),
    );
    assert(every_invoked_path_is_produced_spec(
        references,
        all_text(r.builds@),
        copy_destinations_spec(r.builds@),
    ).len() == 0);
    lemma_kept_empty(each);
    assert(each[i] is None);
}

/// Where nothing dangles, every endpoint a component calls is served by a route.
pub proof fn every_called_endpoint_is_served(c: Cluster, all: Seq<File>, r: Repository, i: int)
    requires
        dangling(c, all, r).len() == 0,
        0 <= i < gathered(called_endpoints_mentions(callers(r.crates@, r.generated@))).len(),
    ensures
        is_served(
            distinct(routes(r.router)),
            gathered(called_endpoints_mentions(callers(r.crates@, r.generated@)))[i].0,
        ),
{
    let references = gathered(called_endpoints_mentions(callers(r.crates@, r.generated@)));
    let each = unrouted_calls_each(references, distinct(routes(r.router)));
    assert(unrouted_calls(references, distinct(routes(r.router))).len() == 0);
    lemma_kept_empty(each);
    assert(each[i] is None);
}

/// Where nothing dangles, every image of this repository's own that a unit runs
/// is built here.
pub proof fn every_image_is_built(c: Cluster, all: Seq<File>, r: Repository, v: int, q: int)
    requires
        dangling(c, all, r).len() == 0,
        0 <= v < c.images.variant@.len(),
        0 <= q < c.images.base.quadlet@.len() + c.images.variant@[v].quadlet@.len(),
    ensures
        owned_name(
            c,
            (c.images.base.quadlet@ + c.images.variant@[v].quadlet@)[q].image@,
        ) matches Some(name) ==> all_names(r.builds@).contains(name),
{
    let built = all_names(r.builds@);
    let variant = c.images.variant@[v];
    let each = every_owned_image_is_built_each(c, built);
    assert(every_owned_image_is_built_spec(c, built).len() == 0);
    lemma_flat_empty(each);
    assert(each[v] == variant_unbuilt(c, variant, built));
    lemma_kept_empty(variant_unbuilt_each(c, variant, built));
    assert(variant_unbuilt_each(c, variant, built)[q] is None);
}

/// Where nothing dangles, every configuration a unit mounts read-only is
/// provided.
pub proof fn every_mounted_configuration_is_provided(
    c: Cluster,
    all: Seq<File>,
    r: Repository,
    v: int,
    q: int,
    m: int,
)
    requires
        dangling(c, all, r).len() == 0,
        0 <= v < c.images.variant@.len(),
        0 <= q < c.images.base.quadlet@.len() + c.images.variant@[v].quadlet@.len(),
        0 <= m < (c.images.base.quadlet@ + c.images.variant@[v].quadlet@)[q].mount@.len(),
    ensures
        ({
            let unit = (c.images.base.quadlet@ + c.images.variant@[v].quadlet@)[q];
            unprovided(
                c.images.variant@[v],
                unit,
                unit.mount@[m],
                all_paths(all),
                all_text(r.builds@),
            ) is None
        }),
{
    let (paths, builds) = (all_paths(all), all_text(r.builds@));
    let variant = c.images.variant@[v];
    let unit = (c.images.base.quadlet@ + variant.quadlet@)[q];
    let each = every_mounted_config_is_rendered_each(c, paths, builds);
    assert(every_mounted_config_is_rendered_spec(c, paths, builds).len() == 0);
    lemma_flat_empty(each);
    assert(each[v] == variant_mounts(c, variant, paths, builds));
    let units = variant_mounts_each(c, variant, paths, builds);
    lemma_flat_empty(units);
    assert(units[q] == quadlet_mounts(variant, unit, paths, builds));
    let mounts = quadlet_mounts_each(variant, unit, paths, builds);
    lemma_kept_empty(mounts);
    assert(mounts[m] is None);
}

/// Where nothing dangles, every field the model declares is read by the code.
pub proof fn every_declared_field_is_read(
    c: Cluster,
    all: Seq<File>,
    r: Repository,
    s: int,
    n: int,
)
    requires
        dangling(c, all, r).len() == 0,
        0 <= s < r.models@.len(),
        0 <= n < lines(r.models@[s].text@).len(),
    ensures
        field(lines(r.models@[s].text@)[n]) matches Some(key) ==> holds(reading_code(r.crates@), spelled(key)),
{
    let unread = all_unread(r.models@, reading_code(r.crates@));
    assert(distinct(unread).len() == 0);
    assert(unread.len() > 0 ==> inserted(distinct(unread.drop_last()), unread.last()).len() > 0);
    lemma_flat_empty(all_unread_each(r.models@, reading_code(r.crates@)));
    assert(all_unread_each(r.models@, reading_code(r.crates@))[s] == file_unread(r.models@[s], reading_code(r.crates@)));
    let each = file_unread_each(r.models@[s], reading_code(r.crates@));
    lemma_kept_empty(each);
    assert(each[n] is None);
}

// ---- what each check lets pass ----

/// Whether `pat` stands somewhere in `s`.
pub open spec fn stands_in(s: Seq<char>, pat: Seq<char>) -> bool {
    exists|i: int| 0 <= i <= s.len() - pat.len() && #[trigger] s.subrange(i, i + pat.len()) =~= pat
}

/// An invoked path passes exactly where it is an executable of a package, all of
/// which are listed here, or the image builds name it, or they copy into a
/// directory that it begins with.
pub proof fn an_invoked_path_passes_where_it_is_shipped(
    references: Vec<Reference>,
    builds: &str,
    directories: Vec<String>,
    out: Vec<String>,
)
    requires
        call_ensures(every_invoked_path_is_produced, (&references, builds, &directories), out),
    ensures
        out@.len() == 0 <==> forall|i: int|
            0 <= i < references@.len() ==> {
                let path = (#[trigger] references@[i]).to@;
                ||| path == "/usr/bin/bash"@
                ||| path == "/usr/bin/env"@
                ||| path == "/usr/bin/podman"@
                ||| path == "/usr/bin/curl"@
                ||| path == "/usr/bin/jq"@
                ||| path == "/usr/bin/restic"@
                ||| path == "/usr/bin/rsync"@
                ||| path == "/usr/bin/timeout"@
                ||| path == "/usr/bin/systemctl"@
                ||| path == "/usr/bin/nft"@
                ||| path == "/usr/sbin/nft"@
                ||| path == "/usr/bin/install"@
                ||| path == "/usr/bin/ostree"@
                ||| stands_in(builds@, path)
                ||| exists|k: int|
                    0 <= k < directories@.len() && (#[trigger] directories@[k])@.is_prefix_of(path)
            },
{
    let list = reference_views(references@);
    let each = every_invoked_path_is_produced_each(list, builds@, views(directories@));
    assert(views(out@).len() == out@.len());
    assert forall|i: int| 0 <= i < references@.len() implies ({
        let path = (#[trigger] references@[i]).to@;
        each[i] is None <==> {
            ||| path == "/usr/bin/bash"@
            ||| path == "/usr/bin/env"@
            ||| path == "/usr/bin/podman"@
            ||| path == "/usr/bin/curl"@
            ||| path == "/usr/bin/jq"@
            ||| path == "/usr/bin/restic"@
            ||| path == "/usr/bin/rsync"@
            ||| path == "/usr/bin/timeout"@
            ||| path == "/usr/bin/systemctl"@
            ||| path == "/usr/bin/nft"@
            ||| path == "/usr/sbin/nft"@
            ||| path == "/usr/bin/install"@
            ||| path == "/usr/bin/ostree"@
            ||| stands_in(builds@, path)
            ||| exists|k: int|
                0 <= k < directories@.len() && (#[trigger] directories@[k])@.is_prefix_of(path)
        }
    }) by {
        let path = references@[i].to@;
        a_text_is_found_where_it_stands(builds@, path);
        assert(list[i].0 == path);
        if exists|k: int|
            0 <= k < directories@.len() && (#[trigger] directories@[k])@.is_prefix_of(path) {
            let k = choose|k: int|
                0 <= k < directories@.len() && (#[trigger] directories@[k])@.is_prefix_of(path);
            a_text_is_found_where_it_stands(path, directories@[k]@);
            assert(begins(path, views(directories@)[k]));
        }
        if exists|k: int|
            0 <= k < views(directories@).len() && begins(path, #[trigger] views(directories@)[k]) {
            let k = choose|k: int|
                0 <= k < views(directories@).len() && begins(
                    path,
                    #[trigger] views(directories@)[k],
                );
            a_text_is_found_where_it_stands(path, directories@[k]@);
            assert(directories@[k]@.is_prefix_of(path));
        }
    }
    lemma_kept_nothing(each);
}

/// Nothing is kept of a list exactly where nothing is there.
proof fn lemma_kept_nothing(list: Seq<Option<Seq<char>>>)
    ensures
        kept(list).len() == 0 <==> forall|i: int| 0 <= i < list.len() ==> (#[trigger] list[i]) is None,
{
    if kept(list).len() == 0 {
        lemma_kept_empty(list);
    } else {
        let text = kept(list)[0];
        assert(kept(list).contains(text));
        what_is_there_is_kept(list, text);
        let i = list.index_of(Some(text));
        assert(list[i] is Some);
    }
}

/// A path that a unit starts or stops is one that has to be shipped: what a word
/// names below `/usr`, after `ExecStart=` or `ExecStop=` or by itself, unless it
/// names a directory.
pub proof fn a_word_invokes_what_it_starts(word: Seq<char>, path: Seq<char>)
    requires
        word == path || word == "ExecStart="@ + path || word == "ExecStop="@ + path,
        "/usr/"@.is_prefix_of(path),
        path.last() != '/',
    ensures
        invoked(word) == Some(path),
{
    reveal_strlit("/usr/");
    reveal_strlit("ExecStart=");
    reveal_strlit("ExecStop=");
    reveal_strlit("/");
    assert(path[0] == '/') by {
        assert(path.subrange(0, 5)[0] == '/');
    }
    let (a, b) = ("ExecStart="@, "ExecStop="@);
    assert(!begins(path, a)) by {
        if begins(path, a) {
            assert(path.subrange(0, a.len() as int)[0] == 'E');
        }
    }
    assert(!begins(path, b)) by {
        if begins(path, b) {
            assert(path.subrange(0, b.len() as int)[0] == 'E');
        }
    }
    if word == a + path {
        assert(word.subrange(0, a.len() as int) =~= a);
        assert(word.skip(a.len() as int) =~= path);
        assert(unprefixed(word, a) == unprefixed(path, a));
    }
    if word == b + path {
        assert(!begins(word, a)) by {
            if begins(word, a) {
                assert(word.subrange(0, a.len() as int)[5] == a[5]);
                assert(word[5] == b[5]);
                assert(word.subrange(0, a.len() as int)[6] == a[6]);
                assert(word[6] == b[6]);
            }
        }
        assert(word.subrange(0, b.len() as int) =~= b);
        assert(word.skip(b.len() as int) =~= path);
        assert(unprefixed(word, b) == unprefixed(path, b));
    }
    a_text_is_found_where_it_stands(path, "/usr/"@);
    assert(!ends(path, "/"@)) by {
        if ends(path, "/"@) {
            assert(path.subrange(path.len() - 1, path.len() as int)[0] == '/');
        }
    }
}

/// A line of an image build copies into a directory where it is a `COPY` whose
/// last word ends in a slash; a comment copies nothing.
pub proof fn a_copy_ships_into_its_last_word(line: Seq<char>)
    ensures
        destination(line) matches Some(to) ==> {
            &&& "COPY "@.is_prefix_of(trimmed(line))
            &&& words(trimmed(line).skip(5)).len() > 0
            &&& words(trimmed(line).skip(5)).last() == to
            &&& to.len() > 0 && to.last() == '/'
        },
        "COPY "@.is_prefix_of(trimmed(line)) && words(trimmed(line).skip(5)).len() > 0 && words(
            trimmed(line).skip(5),
        ).last().len() > 0 && words(trimmed(line).skip(5)).last().last() == '/' ==> destination(
            line,
        ) == Some(words(trimmed(line).skip(5)).last()),
        trimmed(line).len() > 0 && trimmed(line)[0] == '#' ==> destination(line) is None,
{
    reveal_strlit("COPY ");
    reveal_strlit("#");
    reveal_strlit("/");
    let l = trimmed(line);
    a_text_is_found_where_it_stands(l, "COPY "@);
    a_text_is_found_where_it_stands(l, "#"@);
    if l.len() > 0 && l[0] == '#' {
        assert(l.subrange(0, 1) =~= "#"@);
    }
    if "COPY "@.is_prefix_of(l) {
        assert(l.subrange(0, 5)[0] == 'C');
        assert(l[0] == 'C');
        if begins(l, "#"@) {
            assert(l.subrange(0, 1)[0] == '#');
        }
    }
    if words(l.skip(5)).len() > 0 {
        let to = words(l.skip(5)).last();
        if ends(to, "/"@) {
            assert(to.subrange(to.len() - 1, to.len() as int)[0] == '/');
        }
        if to.len() > 0 && to.last() == '/' {
            assert(to.subrange(to.len() - 1, to.len() as int) =~= "/"@);
        }
    }
}

/// Where the check passes, a path that a line of the committed tree starts is
/// shipped: by a package, all of which are listed here, by an image build that
/// names it, or by one that copies into a directory it begins with.
pub proof fn a_passing_repository_ships_what_it_starts(
    c: Cluster,
    all: Vec<Rendered>,
    r: Repository,
    report: Result<String, String>,
    s: int,
    n: int,
    w: int,
    path: Seq<char>,
)
    requires
        call_ensures(check_wiring, (&c, &all, &r), report),
        report is Ok,
        0 <= s < r.generated@.len(),
        0 <= n < lines(r.generated@[s].text@).len(),
        trimmed(lines(r.generated@[s].text@)[n]).len() > 0,
        trimmed(lines(r.generated@[s].text@)[n])[0] != '#',
        0 <= w < words(trimmed(lines(r.generated@[s].text@)[n])).len(),
        ({
            let word = words(trimmed(lines(r.generated@[s].text@)[n]))[w];
            word == path || word == "ExecStart="@ + path || word == "ExecStop="@ + path
        }),
        "/usr/"@.is_prefix_of(path),
        path.last() != '/',
    ensures
        ({
            ||| path == "/usr/bin/bash"@
            ||| path == "/usr/bin/env"@
            ||| path == "/usr/bin/podman"@
            ||| path == "/usr/bin/curl"@
            ||| path == "/usr/bin/jq"@
            ||| path == "/usr/bin/restic"@
            ||| path == "/usr/bin/rsync"@
            ||| path == "/usr/bin/timeout"@
            ||| path == "/usr/bin/systemctl"@
            ||| path == "/usr/bin/nft"@
            ||| path == "/usr/sbin/nft"@
            ||| path == "/usr/bin/install"@
            ||| path == "/usr/bin/ostree"@
            ||| stands_in(all_text(r.builds@), path)
            ||| exists|b: int, l: int|
                0 <= b < r.builds@.len() && 0 <= l < lines(r.builds@[b].text@).len()
                    && #[trigger] ships_into(lines(r.builds@[b].text@)[l], path)
        }),
{
    let line = lines(r.generated@[s].text@)[n];
    let word = words(trimmed(line))[w];
    a_word_invokes_what_it_starts(word, path);
    reveal_strlit("#");
    if begins(trimmed(line), "#"@) {
        assert(trimmed(line).subrange(0, 1)[0] == '#');
    }
    // The path is among what the tree refers to.
    let each = invoked_words_each(words(trimmed(line)));
    assert(each[w] == Some(path));
    assert(each.contains(Some(path)));
    what_is_there_is_kept(each, path);
    assert(file_invokes_each(r.generated@[s])[n].contains(path));
    lists_are_laid_end_to_end(file_invokes_each(r.generated@[s]), path);
    let mentions = invoked_paths_mentions(r.generated@);
    let lists = Seq::new(mentions.len(), |i: int| mentions[i].1);
    assert(lists[s].contains(path));
    lists_are_laid_end_to_end(lists, path);
    assert(everything(mentions) =~= flat(lists));
    distinct_texts_are_those_of_the_list(everything(mentions), path);
    let targets = distinct(everything(mentions));
    let i = targets.index_of(path);
    assert(gathered(mentions)[i].0 == path);
    every_invoked_path_is_shipped(c, files(all@), r, i);
    a_text_is_found_where_it_stands(all_text(r.builds@), path);
    let directories = copy_destinations_spec(r.builds@);
    if exists|k: int| 0 <= k < directories.len() && begins(path, #[trigger] directories[k]) {
        let k = choose|k: int| 0 <= k < directories.len() && begins(path, #[trigger] directories[k]);
        let to = directories[k];
        assert(directories.contains(to));
        lists_are_laid_end_to_end(copy_destinations_each(r.builds@), to);
        let b = choose|b: int|
            0 <= b < copy_destinations_each(r.builds@).len() && (
            #[trigger] copy_destinations_each(r.builds@)[b]).contains(to);
        what_is_there_is_kept(file_destinations_each(r.builds@[b]), to);
        let l = file_destinations_each(r.builds@[b]).index_of(Some(to));
        let copy = lines(r.builds@[b].text@)[l];
        assert(destination(copy) == Some(to));
        a_copy_ships_into_its_last_word(copy);
        a_text_is_found_where_it_stands(path, to);
        assert(ships_into(lines(r.builds@[b].text@)[l], path));
    }
}

/// Whether a line of an image build copies into a directory that a path begins
/// with.
pub open spec fn ships_into(line: Seq<char>, path: Seq<char>) -> bool {
    let l = trimmed(line);
    &&& "COPY "@.is_prefix_of(l)
    &&& words(l.skip(5)).len() > 0
    &&& words(l.skip(5)).last().len() > 0
    &&& words(l.skip(5)).last().last() == '/'
    &&& words(l.skip(5)).last().is_prefix_of(path)
}

/// A rendered file passes exactly where an operator applies it, or where a copy
/// takes it: the copy names it below the tree, with the node's name in the place
/// of `${NODE}`, or names a directory it stands in.
pub proof fn a_rendered_file_passes_where_it_is_taken(
    all: Vec<Rendered>,
    sources: Vec<String>,
    out: Vec<String>,
)
    requires
        call_ensures(every_rendered_file_is_consumed, (&all, &sources), out),
    ensures
        out@.len() == 0 <==> forall|i: int|
            0 <= i < all@.len() ==> {
                let path = (#[trigger] all@[i]).path@;
                ||| "bootstrap/"@.is_prefix_of(path)
                ||| "tailscale/"@.is_prefix_of(path)
                ||| path == "ssh_config"@
                ||| exists|k: int|
                    0 <= k < sources@.len() && is_taken(
                        (#[trigger] sources@[k])@,
                        first_part(path).0,
                        first_part(path).1,
                    )
            },
{
    let each = every_rendered_file_is_consumed_each(files(all@), views(sources@));
    assert(views(out@).len() == out@.len());
    assert forall|i: int| 0 <= i < all@.len() implies ({
        let path = (#[trigger] all@[i]).path@;
        each[i] is None <==> {
            ||| "bootstrap/"@.is_prefix_of(path)
            ||| "tailscale/"@.is_prefix_of(path)
            ||| path == "ssh_config"@
            ||| exists|k: int|
                0 <= k < sources@.len() && is_taken(
                    (#[trigger] sources@[k])@,
                    first_part(path).0,
                    first_part(path).1,
                )
        }
    }) by {
        let path = all@[i].path@;
        let (node, relative) = first_part(path);
        assert(files(all@)[i].path == path);
        a_text_is_found_where_it_stands(path, "bootstrap/"@);
        a_text_is_found_where_it_stands(path, "tailscale/"@);
        assert forall|k: int| 0 <= k < sources@.len() implies is_taken(
            (#[trigger] sources@[k])@,
            node,
            relative,
        ) == takes(views(sources@)[k], node, relative) by {
            lemma_taken(sources@[k]@, node, relative);
        }
        if exists|k: int|
            0 <= k < sources@.len() && is_taken((#[trigger] sources@[k])@, node, relative) {
            let k = choose|k: int|
                0 <= k < sources@.len() && is_taken((#[trigger] sources@[k])@, node, relative);
            assert(takes(views(sources@)[k], node, relative));
        }
        if exists|k: int|
            0 <= k < views(sources@).len() && takes(#[trigger] views(sources@)[k], node, relative) {
            let k = choose|k: int|
                0 <= k < views(sources@).len() && takes(
                    #[trigger] views(sources@)[k],
                    node,
                    relative,
                );
            assert(is_taken(sources@[k]@, node, relative));
        }
    }
    lemma_kept_nothing(each);
}

/// Whether what a copy names takes a file below a node's directory: the path
/// below the tree and the node's directory is the file's, or that of a directory
/// above it.
pub open spec fn is_taken(source: Seq<char>, node: Seq<char>, relative: Seq<char>) -> bool {
    let named = replaced(source, "${NODE}"@, node);
    let inside = match halves(named, "generated/"@) {
        Some((before, after)) => before + after,
        None => named,
    };
    let below = unprefixed(inside, node + "/"@);
    relative == below || (below.len() > 0 && below.last() == '/' && below.is_prefix_of(relative))
}

proof fn lemma_taken(source: Seq<char>, node: Seq<char>, relative: Seq<char>)
    ensures
        is_taken(source, node, relative) == takes(source, node, relative),
{
    reveal_strlit("generated");
    reveal_strlit("generated/");
    reveal_strlit("/");
    assert(GENERATED_DIR@ + "/"@ =~= "generated/"@);
    let named = replaced(source, "${NODE}"@, node);
    let below = unprefixed(without_first(named, GENERATED_DIR@ + "/"@), node + "/"@);
    a_text_is_found_where_it_stands(relative, below);
    if ends(below, "/"@) {
        assert(below.subrange(below.len() - 1, below.len() as int)[0] == '/');
    }
    if below.len() > 0 && below.last() == '/' {
        assert(below.subrange(below.len() - 1, below.len() as int) =~= "/"@);
    }
}

/// The first part of a path is what stands before its first slash, and the rest
/// is what comes after it.
pub proof fn a_path_is_its_parts(path: Seq<char>, at: int)
    requires
        0 <= at < path.len(),
        path[at] == '/',
        forall|k: int| 0 <= k < at ==> path[k] != '/',
    ensures
        first_part(path) == (path.take(at), path.skip(at + 1)),
{
    reveal_strlit("/");
    assert("/"@ =~= seq!['/']);
    lemma_first_from(path, "/"@, 0);
    assert(path.subrange(at, at + 1) =~= "/"@);
    assert(occurs_at(path, "/"@, at));
    let k = first_from(path, "/"@, 0).unwrap();
    assert(path.subrange(k, k + 1)[0] == '/');
}

/// An image of this repository's namespace passes exactly where it is built
/// here, by its name before the first colon; any other image passes.
pub proof fn an_owned_image_passes_where_it_is_built(c: Cluster, built: Vec<String>, out: Vec<String>)
    requires
        call_ensures(every_owned_image_is_built, (&c, &built), out),
    ensures
        out@.len() == 0 <==> forall|v: int, q: int|
            0 <= v < c.images.variant@.len() && 0 <= q < c.images.base.quadlet@.len()
                + c.images.variant@[v].quadlet@.len() ==> #[trigger] is_built_here(c, views(built@), v, q),
{
    let names = views(built@);
    assert(views(out@).len() == out@.len());
    let each = every_owned_image_is_built_each(c, names);
    assert forall|v: int| 0 <= v < each.len() implies ((#[trigger] each[v]).len() == 0 <==> forall|
        q: int,
    |
        0 <= q < c.images.base.quadlet@.len() + c.images.variant@[v].quadlet@.len()
            ==> #[trigger] is_built_here(c, names, v, q)) by {
        let variant = c.images.variant@[v];
        let inner = variant_unbuilt_each(c, variant, names);
        assert forall|q: int| 0 <= q < inner.len() implies (#[trigger] inner[q] is None
            <==> is_built_here(c, names, v, q)) by {
            let image = (c.images.base.quadlet@ + variant.quadlet@)[q].image@;
            a_text_is_found_where_it_stands(
                image,
                "ghcr.io/"@ + c.images.signing.repository@ + "/"@,
            );
        }
        lemma_kept_nothing(inner);
        if each[v].len() == 0 {
            assert forall|q: int|
                0 <= q < c.images.base.quadlet@.len() + c.images.variant@[v].quadlet@.len() implies
                #[trigger] is_built_here(c, names, v, q) by {
                assert(inner[q] is None);
            }
        }
    }
    lemma_flat_nothing(each);
    if out@.len() == 0 {
        assert forall|v: int, q: int|
            0 <= v < c.images.variant@.len() && 0 <= q < c.images.base.quadlet@.len()
                + c.images.variant@[v].quadlet@.len() implies #[trigger] is_built_here(
            c,
            names,
            v,
            q,
        ) by {
            assert(each[v].len() == 0);
        }
    } else {
        let v = choose|v: int| 0 <= v < each.len() && (#[trigger] each[v]).len() != 0;
        assert(0 <= v < c.images.variant@.len());
    }
}

/// Whether the unit `q` of the base and of variant `v` runs an image that is
/// built here, or one that is not this repository's.
pub open spec fn is_built_here(c: Cluster, built: Seq<Seq<char>>, v: int, q: int) -> bool {
    let image = (c.images.base.quadlet@ + c.images.variant@[v].quadlet@)[q].image@;
    let namespace = "ghcr.io/"@ + c.images.signing.repository@ + "/"@;
    namespace.is_prefix_of(image) ==> built.contains(
        split(image.skip(namespace.len() as int), ':')[0],
    )
}

/// Nothing is laid end to end exactly where every list is empty.
proof fn lemma_flat_nothing(lists: Seq<Seq<Seq<char>>>)
    ensures
        flat(lists).len() == 0 <==> forall|i: int|
            0 <= i < lists.len() ==> (#[trigger] lists[i]).len() == 0,
{
    if flat(lists).len() == 0 {
        lemma_flat_empty(lists);
    } else {
        let text = flat(lists)[0];
        assert(flat(lists).contains(text));
        lists_are_laid_end_to_end(lists, text);
        let i = choose|i: int| 0 <= i < lists.len() && (#[trigger] lists[i]).contains(text);
        assert(lists[i].len() > 0);
    }
}

/// A read-only mount from below `/etc` passes exactly where the tree has the
/// file, or files below it, or an image build names it; any other mount passes.
pub proof fn a_mounted_configuration_passes_where_it_is_there(
    c: Cluster,
    paths: Vec<String>,
    builds: &str,
    out: Vec<String>,
)
    requires
        call_ensures(every_mounted_config_is_rendered, (&c, &paths, builds), out),
    ensures
        out@.len() == 0 <==> forall|v: int, q: int, m: int|
            0 <= v < c.images.variant@.len() && 0 <= q < c.images.base.quadlet@.len()
                + c.images.variant@[v].quadlet@.len() && 0 <= m < (c.images.base.quadlet@
                + c.images.variant@[v].quadlet@)[q].mount@.len() ==> #[trigger] is_there(
                c,
                views(paths@),
                builds@,
                v,
                q,
                m,
            ),
{
    let names = views(paths@);
    assert(views(out@).len() == out@.len());
    let each = every_mounted_config_is_rendered_each(c, names, builds@);
    assert forall|v: int| 0 <= v < each.len() implies ((#[trigger] each[v]).len() == 0 <==> forall|
        q: int,
        m: int,
    |
        0 <= q < c.images.base.quadlet@.len() + c.images.variant@[v].quadlet@.len() && 0 <= m < (
        c.images.base.quadlet@ + c.images.variant@[v].quadlet@)[q].mount@.len()
            ==> #[trigger] is_there(c, names, builds@, v, q, m)) by {
        let variant = c.images.variant@[v];
        let units = variant_mounts_each(c, variant, names, builds@);
        lemma_flat_nothing(units);
        assert forall|q: int| 0 <= q < units.len() implies ((#[trigger] units[q]).len() == 0
            <==> forall|m: int|
            0 <= m < (c.images.base.quadlet@ + variant.quadlet@)[q].mount@.len()
                ==> #[trigger] is_there(c, names, builds@, v, q, m)) by {
            let unit = (c.images.base.quadlet@ + variant.quadlet@)[q];
            let mounts = quadlet_mounts_each(variant, unit, names, builds@);
            lemma_kept_nothing(mounts);
            assert forall|m: int| 0 <= m < mounts.len() implies (#[trigger] mounts[m] is None
                <==> is_there(c, names, builds@, v, q, m)) by {
                lemma_is_there(unit.mount@[m], names, builds@);
            }
            if units[q].len() == 0 {
                assert forall|m: int|
                    0 <= m < (c.images.base.quadlet@ + variant.quadlet@)[q].mount@.len() implies
                    #[trigger] is_there(c, names, builds@, v, q, m) by {
                    assert(mounts[m] is None);
                }
            }
        }
        if each[v].len() == 0 {
            assert forall|q: int, m: int|
                0 <= q < c.images.base.quadlet@.len() + c.images.variant@[v].quadlet@.len() && 0
                    <= m < (c.images.base.quadlet@ + c.images.variant@[v].quadlet@)[q].mount@.len() implies
                #[trigger] is_there(c, names, builds@, v, q, m) by {
                assert(units[q].len() == 0);
            }
        } else {
            let q = choose|q: int| 0 <= q < units.len() && (#[trigger] units[q]).len() != 0;
            assert(0 <= q < c.images.base.quadlet@.len() + c.images.variant@[v].quadlet@.len());
        }
    }
    lemma_flat_nothing(each);
    if out@.len() == 0 {
        assert forall|v: int, q: int, m: int|
            0 <= v < c.images.variant@.len() && 0 <= q < c.images.base.quadlet@.len()
                + c.images.variant@[v].quadlet@.len() && 0 <= m < (c.images.base.quadlet@
                + c.images.variant@[v].quadlet@)[q].mount@.len() implies #[trigger] is_there(
            c,
            names,
            builds@,
            v,
            q,
            m,
        ) by {
            assert(each[v].len() == 0);
        }
    } else {
        let v = choose|v: int| 0 <= v < each.len() && (#[trigger] each[v]).len() != 0;
        assert(0 <= v < c.images.variant@.len());
    }
}

/// Whether what a mount needs is in its place, where it is read-only and below
/// `/etc`.
pub open spec fn is_there(
    c: Cluster,
    paths: Seq<Seq<char>>,
    builds: Seq<char>,
    v: int,
    q: int,
    m: int,
) -> bool {
    let mount = (c.images.base.quadlet@ + c.images.variant@[v].quadlet@)[q].mount@[m];
    let tail = unprefixed(mount.source@, "/etc/"@);
    split(mount.options@, ',').contains("ro"@) && "/etc/"@.is_prefix_of(mount.source@) ==> {
        ||| paths.contains("node/"@ + tail)
        ||| exists|i: int|
            0 <= i < paths.len() && ("node/"@ + tail + "/"@).is_prefix_of(#[trigger] paths[i])
        ||| stands_in(builds, tail)
    }
}

proof fn lemma_is_there(mount: QuadletMount, paths: Seq<Seq<char>>, builds: Seq<char>)
    ensures
        ({
            let tail = unprefixed(mount.source@, "/etc/"@);
            (is_configuration(mount) ==> provided(mount, paths, builds)) <==> (split(
                mount.options@,
                ',',
            ).contains("ro"@) && "/etc/"@.is_prefix_of(mount.source@) ==> {
                ||| paths.contains("node/"@ + tail)
                ||| exists|i: int|
                    0 <= i < paths.len() && ("node/"@ + tail + "/"@).is_prefix_of(
                        #[trigger] paths[i],
                    )
                ||| stands_in(builds, tail)
            })
        }),
{
    let tail = unprefixed(mount.source@, "/etc/"@);
    a_text_is_found_where_it_stands(mount.source@, "/etc/"@);
    a_text_is_found_where_it_stands(builds, tail);
    let below = "node/"@ + tail + "/"@;
    assert forall|i: int| 0 <= i < paths.len() implies begins(#[trigger] paths[i], below)
        == below.is_prefix_of(paths[i]) by {
        a_text_is_found_where_it_stands(paths[i], below);
    }
    if exists|i: int| 0 <= i < paths.len() && begins(#[trigger] paths[i], below) {
        let i = choose|i: int| 0 <= i < paths.len() && begins(#[trigger] paths[i], below);
        assert(below.is_prefix_of(paths[i]));
    }
    if exists|i: int| 0 <= i < paths.len() && below.is_prefix_of(#[trigger] paths[i]) {
        let i = choose|i: int| 0 <= i < paths.len() && below.is_prefix_of(#[trigger] paths[i]);
        assert(begins(paths[i], below));
    }
}

/// A field of the model passes exactly where the code holds its name, or the
/// name it has there: a few words are taken in code.
pub proof fn a_field_passes_where_it_is_read(models: Vec<Source>, code: &str, out: Vec<String>)
    requires
        call_ensures(every_model_field_is_read, (&models, code), out),
    ensures
        out@.len() == 0 <==> forall|s: int, n: int|
            0 <= s < models@.len() && 0 <= n < lines(models@[s].text@).len()
                ==> #[trigger] is_read(models@, code@, s, n),
{
    assert(views(out@).len() == out@.len());
    let unread = all_unread(models@, code@);
    if distinct(unread).len() == 0 {
        if unread.len() > 0 {
            assert(unread.contains(unread[0]));
            distinct_texts_are_those_of_the_list(unread, unread[0]);
        }
    } else {
        let text = distinct(unread)[0];
        assert(distinct(unread).contains(text));
        distinct_texts_are_those_of_the_list(unread, text);
        assert(unread.len() > 0);
    }
    let each = all_unread_each(models@, code@);
    lemma_flat_nothing(each);
    assert forall|s: int| 0 <= s < each.len() implies ((#[trigger] each[s]).len() == 0 <==> forall|
        n: int,
    |
        0 <= n < lines(models@[s].text@).len() ==> #[trigger] is_read(models@, code@, s, n)) by {
        let inner = file_unread_each(models@[s], code@);
        lemma_kept_nothing(inner);
        assert forall|n: int| 0 <= n < inner.len() implies (#[trigger] inner[n] is None <==> is_read(
            models@,
            code@,
            s,
            n,
        )) by {
            if let Some(key) = field(lines(models@[s].text@)[n]) {
                a_text_is_found_where_it_stands(code@, spelled(key));
            }
        }
        if each[s].len() == 0 {
            assert forall|n: int| 0 <= n < lines(models@[s].text@).len() implies #[trigger] is_read(
                models@,
                code@,
                s,
                n,
            ) by {
                assert(inner[n] is None);
            }
        }
    }
    if out@.len() == 0 {
        assert forall|s: int, n: int|
            0 <= s < models@.len() && 0 <= n < lines(models@[s].text@).len() implies
            #[trigger] is_read(models@, code@, s, n) by {
            assert(each[s].len() == 0);
        }
    } else {
        let s = choose|s: int| 0 <= s < each.len() && (#[trigger] each[s]).len() != 0;
        assert(0 <= s < models@.len());
    }
}

/// Whether the field that a line sets, where it sets one, stands in the code.
pub open spec fn is_read(models: Seq<Source>, code: Seq<char>, s: int, n: int) -> bool {
    field(lines(models[s].text@)[n]) matches Some(key) ==> stands_in(
        code,
        if key == "ref"@ {
            "ref_"@
        } else if key == "where"@ {
            "where_"@
        } else if key == "type"@ {
            "fstype"@
        } else if key == "crate"@ {
            "krate"@
        } else {
            key
        },
    )
}

/// The check as a whole passes exactly where each of its six parts has nothing
/// to say, of the repository that it was given.
pub proof fn the_check_passes_where_every_part_does(
    c: Cluster,
    all: Vec<Rendered>,
    r: Repository,
    report: Result<String, String>,
)
    requires
        call_ensures(check_wiring, (&c, &all, &r), report),
    ensures
        report is Ok <==> {
            &&& every_rendered_file_is_consumed_spec(files(all@), copy_sources_spec(r.builds@)).len()
                == 0
            &&& every_invoked_path_is_produced_spec(
                gathered(invoked_paths_mentions(r.generated@)),
                all_text(r.builds@),
                copy_destinations_spec(r.builds@),
            ).len() == 0
            &&& every_owned_image_is_built_spec(c, all_names(r.builds@)).len() == 0
            &&& unrouted_calls(
                gathered(called_endpoints_mentions(callers(r.crates@, r.generated@))),
                distinct(routes(r.router)),
            ).len() == 0
            &&& every_mounted_config_is_rendered_spec(
                c,
                all_paths(files(all@)),
                all_text(r.builds@),
            ).len() == 0
            &&& distinct(all_unread(r.models@, reading_code(r.crates@))).len() == 0
        },
{
}

/// A call passes exactly where a route of the router serves it: as many
/// segments, each the route's own or standing for any.
pub proof fn a_call_passes_where_a_route_serves_it(
    router: Source,
    references: Vec<Reference>,
    out: Vec<String>,
)
    requires
        call_ensures(every_called_endpoint_is_routed, (&router, &references), out),
    ensures
        out@.len() == 0 <==> forall|i: int|
            0 <= i < references@.len() ==> exists|n: int|
                0 <= n < lines(router.text@).len() && #[trigger] route_line(
                    lines(router.text@)[n],
                ) is Some && answers(
                    route_line(lines(router.text@)[n]).unwrap(),
                    (#[trigger] references@[i]).to@,
                ),
{
    let list = reference_views(references@);
    let routed = distinct(routes(router));
    let each = unrouted_calls_each(list, routed);
    assert(views(out@).len() == out@.len());
    lemma_kept_nothing(each);
    assert forall|i: int| 0 <= i < references@.len() implies (each[i] is None <==> exists|n: int|
        0 <= n < lines(router.text@).len() && #[trigger] route_line(lines(router.text@)[n]) is Some
            && answers(
            route_line(lines(router.text@)[n]).unwrap(),
            (#[trigger] references@[i]).to@,
        )) by {
        let call = references@[i].to@;
        assert(list[i].0 == call);
        if is_served(routed, call) {
            let k = choose|k: int| 0 <= k < routed.len() && served(#[trigger] routed[k], call);
            let route = routed[k];
            assert(routed.contains(route));
            distinct_texts_are_those_of_the_list(routes(router), route);
            what_is_there_is_kept(routes_each(router), route);
            let n = routes_each(router).index_of(Some(route));
            assert(route_line(lines(router.text@)[n]) == Some(route));
            assert(answers(route, call));
        }
        if exists|n: int|
            0 <= n < lines(router.text@).len() && #[trigger] route_line(lines(router.text@)[n])
                is Some && answers(route_line(lines(router.text@)[n]).unwrap(), call) {
            let n = choose|n: int|
                0 <= n < lines(router.text@).len() && #[trigger] route_line(
                    lines(router.text@)[n],
                ) is Some && answers(route_line(lines(router.text@)[n]).unwrap(), call);
            let route = route_line(lines(router.text@)[n]).unwrap();
            assert(routes_each(router)[n] == Some(route));
            assert(routes_each(router).contains(Some(route)));
            what_is_there_is_kept(routes_each(router), route);
            distinct_texts_are_those_of_the_list(routes(router), route);
            let k = routed.index_of(route);
            assert(served(routed[k], call));
        }
    }
    if out@.len() == 0 {
        assert forall|i: int| 0 <= i < references@.len() implies exists|n: int|
            0 <= n < lines(router.text@).len() && #[trigger] route_line(lines(router.text@)[n])
                is Some && answers(
                route_line(lines(router.text@)[n]).unwrap(),
                (#[trigger] references@[i]).to@,
            ) by {
            assert(each[i] is None);
        }
    } else {
        let i = choose|i: int| 0 <= i < each.len() && !(#[trigger] each[i] is None);
        assert(0 <= i < references@.len());
        let call = references@[i].to@;
    }
}

/// Whether a route serves a call: as many segments, each the same, or one that
/// stands for any.
pub open spec fn answers(route: Seq<char>, call: Seq<char>) -> bool {
    let (r, c) = (split(route, '/'), split(call, '/'));
    r.len() == c.len() && forall|i: int| 0 <= i < r.len() ==> #[trigger] r[i] == c[i] || r[i] == "*"@
}

/// A segment stands for any where it is a parameter, is filled in by a format or
/// a shell, or holds a digit; one of letters stands for itself.
pub proof fn a_segment_of_letters_stands_for_itself(segment: Seq<char>)
    ensures
        segment.len() > 0 && (segment[0] == '{' || segment[0] == ':' || segment[0] == '$')
            ==> variable(segment),
        (exists|i: int| 0 <= i < segment.len() && '0' <= (#[trigger] segment[i]) <= '9')
            ==> variable(segment),
        (forall|i: int|
            0 <= i < segment.len() ==> 'a' <= (#[trigger] segment[i]) <= 'z' || segment[i] == '-'
                || segment[i] == '_') ==> !variable(segment),
{
    reveal_strlit("{");
    reveal_strlit(":");
    reveal_strlit("{}");
    reveal_strlit("$(");
    reveal_strlit("$");
    if segment.len() > 0 && segment[0] == '{' {
        assert(segment.subrange(0, 1) =~= "{"@);
    }
    if segment.len() > 0 && segment[0] == ':' {
        assert(segment.subrange(0, 1) =~= ":"@);
    }
    if segment.len() > 0 && segment[0] == '$' {
        assert(segment.subrange(0, 1) =~= "$"@);
    }
    if exists|i: int| 0 <= i < segment.len() && '0' <= (#[trigger] segment[i]) <= '9' {
        let i = choose|i: int| 0 <= i < segment.len() && '0' <= (#[trigger] segment[i]) <= '9';
        assert(digit_value(segment[i], 10) is Some);
        assert(id_shaped(segment));
    }
    if forall|i: int|
        0 <= i < segment.len() ==> 'a' <= (#[trigger] segment[i]) <= 'z' || segment[i] == '-'
            || segment[i] == '_' {
        if holds(segment, "{}"@) {
            let i = choose|i: int| occurs_at(segment, "{}"@, i);
            assert(segment.subrange(i, i + 2)[0] == '{');
            assert(segment[i] == '{');
        }
        if begins(segment, "{"@) {
            assert(segment.subrange(0, 1)[0] == '{');
        }
        if begins(segment, ":"@) {
            assert(segment.subrange(0, 1)[0] == ':');
        }
        if begins(segment, "$("@) {
            assert(segment.subrange(0, 2)[0] == '$');
        }
        if begins(segment, "$"@) {
            assert(segment.subrange(0, 1)[0] == '$');
        }
        if id_shaped(segment) {
            let i = choose|i: int|
                0 <= i < segment.len() && digit_value(#[trigger] segment[i], 10) is Some;
            assert(48 <= segment[i] as int <= 57);
        }
    }
}

/// Every component but the control plane itself, and every file of the committed
/// tree, may call it; nothing below a directory of build outputs counts.
pub proof fn everything_but_the_control_plane_calls_it(
    crates: Seq<Source>,
    generated: Seq<Source>,
    i: int,
)
    ensures
        0 <= i < crates.len() && split(crates[i].name@, '/').len() > 1 && !split(
            crates[i].name@,
            '/',
        ).contains("target"@) && !(split(crates[i].name@, '/')[0] == "crates"@ && split(
            crates[i].name@,
            '/',
        )[1] == "cluster-ctl"@) ==> callers(crates, generated).contains(
            (crates[i].name@, crates[i].text@),
        ),
        0 <= i < generated.len() && !split(generated[i].name@, '/').contains("target"@) ==> callers(
            crates,
            generated,
        ).contains(("generated/"@ + generated[i].name@, generated[i].text@)),
{
    reveal_strlit("generated");
    reveal_strlit("generated/");
    reveal_strlit("/");
    assert(GENERATED_DIR@ + "/"@ =~= "generated/"@);
    let (a, b) = (crate_callers(crates), tree_callers(generated));
    if 0 <= i < crates.len() && !is_control_plane(crates[i].name@) && !is_build_output(
        crates[i].name@,
    ) {
        lemma_crate_calls(crates, i);
        let k = a.index_of((crates[i].name@, crates[i].text@));
        assert((a + b)[k] == a[k]);
    }
    if 0 <= i < crates.len() {
        lemma_not_below(split(crates[i].name@, '/'));
    }
    if 0 <= i < generated.len() {
        lemma_not_below(split(generated[i].name@, '/'));
        if !is_build_output(generated[i].name@) {
            lemma_tree_calls(generated, i);
            let k = b.index_of(("generated/"@ + generated[i].name@, generated[i].text@));
            assert((a + b)[a.len() + k] == b[k]);
        }
    }
}

proof fn lemma_not_below(parts: Seq<Seq<char>>)
    requires
        parts.len() > 0,
    ensures
        !parts.contains("target"@) ==> !parts.drop_last().contains("target"@),
{
    if parts.drop_last().contains("target"@) {
        let k = parts.drop_last().index_of("target"@);
        assert(parts[k] == "target"@);
    }
}

proof fn lemma_crate_calls(crates: Seq<Source>, i: int)
    requires
        0 <= i < crates.len(),
        !is_control_plane(crates[i].name@),
        !is_build_output(crates[i].name@),
    ensures
        crate_callers(crates).contains((crates[i].name@, crates[i].text@)),
    decreases crates.len(),
{
    let all = crate_callers(crates);
    let pair = (crates[i].name@, crates[i].text@);
    if i == crates.len() - 1 {
        assert(all[all.len() - 1] == pair);
    } else {
        lemma_crate_calls(crates.drop_last(), i);
        let before = crate_callers(crates.drop_last());
        let k = before.index_of(pair);
        assert(all[k] == pair);
    }
}

proof fn lemma_tree_calls(generated: Seq<Source>, i: int)
    requires
        0 <= i < generated.len(),
        !is_build_output(generated[i].name@),
    ensures
        tree_callers(generated).contains(
            (GENERATED_DIR@ + "/"@ + generated[i].name@, generated[i].text@),
        ),
    decreases generated.len(),
{
    let all = tree_callers(generated);
    let pair = (GENERATED_DIR@ + "/"@ + generated[i].name@, generated[i].text@);
    if i == generated.len() - 1 {
        assert(all[all.len() - 1] == pair);
    } else {
        lemma_tree_calls(generated.drop_last(), i);
        let before = tree_callers(generated.drop_last());
        let k = before.index_of(pair);
        assert(all[k] == pair);
    }
}

// ---- the committed tree ----

/// The committed tree passes exactly where something is rendered, every file
/// reads as it is rendered, nothing else stands there, every claim that a file
/// names is registered, and every claim of the renderer's class covers a file.
pub proof fn the_tree_passes_where_it_is_as_rendered(
    all: Vec<Rendered>,
    committed: Vec<Result<String, String>>,
    found: Vec<String>,
    ids: Ids,
    r: Result<String, String>,
)
    requires
        committed@.len() == all@.len(),
        call_ensures(check_render, (&all, &committed, &found, &ids), r),
    ensures
        r is Ok <==> {
            &&& all@.len() > 0
            &&& forall|i: int|
                0 <= i < all@.len() ==> (#[trigger] committed@[i]) is Ok && committed@[i].unwrap()@
                    == contents_of(all@[i]@)
            &&& forall|k: int|
                0 <= k < found@.len() ==> exists|i: int|
                    0 <= i < all@.len() && (#[trigger] all@[i]).path@ == (#[trigger] found@[k])@
            &&& forall|i: int| 0 <= i < all@.len() ==> file_gaps((#[trigger] all@[i])@, ids).len() == 0
            &&& forall|k: int|
                0 <= k < ids.id@.len() && class_spec((#[trigger] ids.id@[k]).id@) == Some("CD"@)
                    ==> exists|i: int|
                    0 <= i < all@.len() && str_views((#[trigger] all@[i]).ids@).contains(
                        ids.id@[k].id@,
                    )
        },
{
    let list = files(all@);
    let reads = read_views(committed@);
    assert(list.len() == all@.len());
    let bytes = byte_problems_each(list, reads);
    let stray = strays_each(list, views(found@));
    lemma_kept_nothing(bytes);
    lemma_kept_nothing(stray);
    assert forall|i: int| 0 <= i < all@.len() implies (bytes[i] is None <==> (
    #[trigger] committed@[i]) is Ok && committed@[i].unwrap()@ == contents_of(all@[i]@)) by {
        assert(list[i] == all@[i]@);
    }
    assert forall|k: int| 0 <= k < found@.len() implies (stray[k] is None <==> exists|i: int|
        0 <= i < all@.len() && (#[trigger] all@[i]).path@ == (#[trigger] found@[k])@) by {
        assert(views(found@)[k] == found@[k]@);
        if exists|i: int| 0 <= i < list.len() && (#[trigger] list[i]).path == found@[k]@ {
            let i = choose|i: int| 0 <= i < list.len() && (#[trigger] list[i]).path == found@[k]@;
            assert(all@[i].path@ == found@[k]@);
        }
        if exists|i: int| 0 <= i < all@.len() && (#[trigger] all@[i]).path@ == found@[k]@ {
            let i = choose|i: int| 0 <= i < all@.len() && (#[trigger] all@[i]).path@ == found@[k]@;
            assert(list[i].path == found@[k]@);
        }
    }
    let gaps_each = tree_gaps_each(list, ids);
    lemma_flat_nothing(gaps_each);
    assert forall|i: int| 0 <= i < all@.len() implies gaps_each[i] == file_gaps(
        (#[trigger] all@[i])@,
        ids,
    ) by {
        assert(list[i] == all@[i]@);
    }
    let named = named_claims(list);
    let vacuous_each = vacuous_claims_each(named, ids);
    lemma_kept_nothing(vacuous_each);
    assert forall|k: int| 0 <= k < ids.id@.len() implies (vacuous_each[k] is None <==> (class_spec(
        (#[trigger] ids.id@[k]).id@,
    ) == Some("CD"@) ==> exists|i: int|
        0 <= i < all@.len() && str_views((#[trigger] all@[i]).ids@).contains(ids.id@[k].id@))) by {
        let id = ids.id@[k].id@;
        lists_are_laid_end_to_end(named_claims_each(list), id);
        if named.contains(id) {
            let i = choose|i: int|
                0 <= i < named_claims_each(list).len() && (
                #[trigger] named_claims_each(list)[i]).contains(id);
            assert(list[i] == all@[i]@);
            assert(str_views(all@[i].ids@).contains(id));
        }
        if exists|i: int|
            0 <= i < all@.len() && str_views((#[trigger] all@[i]).ids@).contains(id) {
            let i = choose|i: int|
                0 <= i < all@.len() && str_views((#[trigger] all@[i]).ids@).contains(id);
            assert(list[i] == all@[i]@);
            assert(named_claims_each(list)[i].contains(id));
        }
    }
    if r is Ok {
        assert forall|i: int| 0 <= i < all@.len() implies (#[trigger] committed@[i]) is Ok
            && committed@[i].unwrap()@ == contents_of(all@[i]@) by {
            assert(bytes[i] is None);
        }
        assert forall|k: int| 0 <= k < found@.len() implies exists|i: int|
            0 <= i < all@.len() && (#[trigger] all@[i]).path@ == (#[trigger] found@[k])@ by {
            assert(stray[k] is None);
        }
        assert forall|i: int| 0 <= i < all@.len() implies file_gaps((#[trigger] all@[i])@, ids).len()
            == 0 by {
            assert(gaps_each[i].len() == 0);
        }
        assert forall|k: int|
            0 <= k < ids.id@.len() && class_spec((#[trigger] ids.id@[k]).id@) == Some("CD"@) implies
            exists|i: int|
            0 <= i < all@.len() && str_views((#[trigger] all@[i]).ids@).contains(ids.id@[k].id@) by {
            assert(vacuous_each[k] is None);
        }
    } else if all@.len() > 0 {
        if byte_problems(list, reads).len() > 0 {
            let i = choose|i: int| 0 <= i < bytes.len() && !(#[trigger] bytes[i] is None);
            assert(committed@[i] == committed@[i]);
        } else if strays(list, views(found@)).len() > 0 {
            let k = choose|k: int| 0 <= k < stray.len() && !(#[trigger] stray[k] is None);
            assert(found@[k] == found@[k]);
        } else if tree_gaps(list, ids).len() > 0 {
            let i = choose|i: int| 0 <= i < gaps_each.len() && (#[trigger] gaps_each[i]).len() != 0;
            assert(all@[i] == all@[i]);
        } else {
            let k = choose|k: int| 0 <= k < vacuous_each.len() && !(#[trigger] vacuous_each[k] is None);
            assert(ids.id@[k] == ids.id@[k]);
        }
    }
}

/// A file leaves nothing open exactly where it names claims, all of them
/// registered and one of the renderer's class, and says that it is generated and
/// by whom it is asserted, unless it is a document in JSON.
pub proof fn a_file_names_registered_claims(file: File, ids: Ids)
    ensures
        file_gaps(file, ids).len() == 0 <==> {
            let json = Syntax::of_spec(file.body) == Syntax::Json;
            &&& json || stands_in(contents_of(file), "@generated"@)
            &&& json || stands_in(contents_of(file), "Asserted by:"@)
            &&& file.ids.len() > 0
            &&& forall|i: int|
                0 <= i < file.ids.len() ==> row(ids.id@, #[trigger] file.ids[i]) is Some
            &&& exists|i: int|
                0 <= i < file.ids.len() && class_spec(#[trigger] file.ids[i]) == Some("CD"@)
        },
{
    a_text_is_found_where_it_stands(contents_of(file), "@generated"@);
    a_text_is_found_where_it_stands(contents_of(file), "Asserted by:"@);
    let each = unknown_gaps_each(file, ids);
    lemma_kept_nothing(each);
    assert forall|i: int| 0 <= i < file.ids.len() implies (each[i] is None <==> row(
        ids.id@,
        #[trigger] file.ids[i],
    ) is Some) by {}
    if unknown_gaps(file, ids).len() == 0 {
        assert forall|i: int| 0 <= i < file.ids.len() implies row(ids.id@, #[trigger] file.ids[i])
            is Some by {
            assert(each[i] is None);
        }
    } else {
        let i = choose|i: int| 0 <= i < each.len() && !(#[trigger] each[i] is None);
        assert(row(ids.id@, file.ids[i]) is None);
    }
    if names_render_claim(file) {
        let i = choose|i: int| 0 <= i < file.ids.len() && is_render_claim(#[trigger] file.ids[i]);
        assert(class_spec(file.ids[i]) == Some("CD"@));
    }
    if exists|i: int| 0 <= i < file.ids.len() && class_spec(#[trigger] file.ids[i]) == Some("CD"@) {
        let i = choose|i: int|
            0 <= i < file.ids.len() && class_spec(#[trigger] file.ids[i]) == Some("CD"@);
        assert(is_render_claim(file.ids[i]));
    }
}

/// What stands below a directory of build outputs is one, and a name alone is
/// not.
pub proof fn what_is_below_target_is_built(above: Seq<char>, below: Seq<char>, name: Seq<char>)
    requires
        !name.contains('/'),
    ensures
        is_build_output(above + seq!['/'] + "target"@ + seq!['/'] + below),
        is_build_output("target"@ + seq!['/'] + below),
        !is_build_output(name),
{
    let word = "target"@;
    assert(!word.contains('/')) by {
        reveal_strlit("target");
    }
    lemma_one_piece(word);
    lemma_one_piece(name);
    pieces_are_cut_at_every_separator(below, '/');
    let inner = word + seq!['/'] + below;
    a_separator_parts_the_pieces(word, '/', below);
    let pieces = split(inner, '/');
    assert(pieces[0] == word);
    assert(pieces.drop_last()[0] == word);
    let path = above + seq!['/'] + word + seq!['/'] + below;
    assert(path =~= above + seq!['/'] + inner);
    a_separator_parts_the_pieces(above, '/', inner);
    let all = split(path, '/');
    let n = split(above, '/').len() as int;
    assert(all[n] == pieces[0]);
    assert(all.drop_last()[n] == word);
    assert(split(name, '/').drop_last() =~= Seq::<Seq<char>>::empty());
}

proof fn lemma_one_piece(name: Seq<char>)
    requires
        !name.contains('/'),
    ensures
        split(name, '/') == seq![name],
{
    pieces_are_cut_at_every_separator(name, '/');
    let pieces = split(name, '/');
    if pieces.len() > 1 {
        let (before, last) = (pieces.drop_last(), pieces.last());
        assert(join(pieces, seq!['/']) == join(before, seq!['/']) + seq!['/'] + last);
        assert(name[join(before, seq!['/']).len() as int] == '/');
    }
    assert(pieces =~= seq![name]);
}

/// A prefix is taken off as often as it stands there, and what does not begin
/// with it is kept.
pub proof fn a_prefix_is_taken_off_whole(s: Seq<char>, prefix: Seq<char>)
    requires
        prefix.len() > 0,
    ensures
        unprefixed(prefix + s, prefix) == unprefixed(s, prefix),
        !prefix.is_prefix_of(s) ==> unprefixed(s, prefix) == s,
{
    a_text_is_found_where_it_stands(s, prefix);
    a_text_is_found_where_it_stands(prefix + s, prefix);
    assert(prefix.is_prefix_of(prefix + s));
    assert((prefix + s).skip(prefix.len() as int) =~= s);
}

} // verus!
