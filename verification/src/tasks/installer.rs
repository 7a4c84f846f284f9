//! The installer configuration an image is built from.
//!
//! The template holds a placeholder where the rendered kickstart goes. The
//! escaping that fills it is not trusted: the filled configuration is read
//! back, and what is read must be what was rendered.
use vstd::prelude::*;

use crate::agent::service::{join_path, joined};
use crate::render::kickstart::KICKSTART_PLACEHOLDER;
use crate::text::{
    byte_count,
    chars_of,
    contains,
    decimal,
    decimal_of,
    holds,
    join,
    join_strings,
    lines,
    replace,
    replaced,
    same,
    split_lines,
    strip_trailing,
    views,
    without_trailing,
};

verus! {

/// The template that is filled.
pub const TEMPLATE: &'static str = "bootstrap/config.toml";

/// The rendered kickstart that fills it.
pub const KICKSTART: &'static str = "generated/bootstrap/node.ks";

/// Where the filled configuration is written when nothing says otherwise.
pub const DEFAULT_OUTPUT: &'static str = "iso/config.toml";

// ---- escaping ----

/// A digit of base sixteen, in upper case.
pub open spec fn hex_digit(d: int) -> char {
    if d < 10 {
        (48 + d) as char
    } else {
        (55 + d) as char
    }
}

/// What one character is written as inside a multi-line basic string.
///
/// Every quote is escaped, not merely a run of three: a value that ends in one
/// would otherwise close the string early. A tab and a line feed are the only
/// control characters that may stand for themselves.
pub open spec fn escaped_char(c: char) -> Seq<char> {
    let n = c as int;
    if c == '\\' {
        seq!['\\', '\\']
    } else if c == '"' {
        seq!['\\', '"']
    } else if c == '\n' || c == '\t' {
        seq![c]
    } else if n < 32 || n == 127 {
        seq!['\\', 'u', '0', '0', hex_digit(n / 16), hex_digit(n % 16)]
    } else {
        seq![c]
    }
}

/// A value, written for a multi-line basic string.
pub open spec fn escaped(value: Seq<char>) -> Seq<char>
    decreases value.len(),
{
    if value.len() == 0 {
        value
    } else {
        escaped(value.drop_last()) + escaped_char(value.last())
    }
}

fn hex(d: u32) -> (r: char)
    requires
        d < 16,
    ensures
        r == hex_digit(d as int),
{
    let digits: [char; 16] = [
        '0',
        '1',
        '2',
        '3',
        '4',
        '5',
        '6',
        '7',
        '8',
        '9',
        'A',
        'B',
        'C',
        'D',
        'E',
        'F',
    ];
    digits[d as usize]
}

fn push_escaped(out: &mut String, c: char)
    ensures
        final(out)@ == old(out)@ + escaped_char(c),
{
    let n: u32 = c as u32;
    if c == '\\' {
        out.push('\\');
        out.push('\\');
    } else if c == '"' {
        out.push('\\');
        out.push('"');
    } else if c == '\n' || c == '\t' {
        out.push(c);
    } else if n < 32 || n == 127 {
        out.push('\\');
        out.push('u');
        out.push('0');
        out.push('0');
        out.push(hex(n / 16));
        out.push(hex(n % 16));
    } else {
        out.push(c);
    }
    proof {
        assert(out@ =~= old(out)@ + escaped_char(c));
    }
}

/// Escape a value for a multi-line basic string.
pub fn escape_basic(value: &str) -> (out: String)
    ensures
        out@ == escaped(value@),
{
    let text = chars_of(value);
    let mut out = String::new();
    let mut i: usize = 0;
    proof {
        assert(escaped(value@.take(0)) =~= Seq::<char>::empty());
    }
    while i < text.len()
        invariant
            i <= text.len(),
            text@ == value@,
            out@ == escaped(value@.take(i as int)),
        decreases text.len() - i,
    {
        proof {
            assert(value@.take(i + 1).drop_last() =~= value@.take(i as int));
        }
        push_escaped(&mut out, text[i]);
        i = i + 1;
    }
    proof {
        assert(value@.take(i as int) =~= value@);
    }
    out
}

// ---- reading back ----

/// The text a TOML document holds at a path of four keys, where it holds one;
/// or why it is no TOML document.
pub uninterp spec fn toml_text(
    document: Seq<char>,
    a: Seq<char>,
    b: Seq<char>,
    c: Seq<char>,
    d: Seq<char>,
) -> Result<Option<Seq<char>>, Seq<char>>;

/// `toml::from_str` into a `toml::Value`, then `Value::get` once for each key
/// and `Value::as_str`. What it gives is a function of the document and the
/// keys: the text at the path, nothing where no text stands there, or the
/// parser's message.
#[verifier::external_body]
pub(crate) fn read_toml(document: &str, a: &str, b: &str, c: &str, d: &str) -> (r: Result<
    Option<String>,
    String,
>)
    ensures
        match r {
            Ok(Some(text)) => toml_text(document@, a@, b@, c@, d@) == Ok::<
                Option<Seq<char>>,
                Seq<char>,
            >(Some(text@)),
            Ok(None) => toml_text(document@, a@, b@, c@, d@) == Ok::<Option<Seq<char>>, Seq<char>>(
                None,
            ),
            Err(why) => toml_text(document@, a@, b@, c@, d@) == Err::<Option<Seq<char>>, Seq<char>>(
                why@,
            ),
        },
{
    let value: toml::Value = toml::from_str(document).map_err(
        |e: toml::de::Error| e.to_string(),
    )?;
    let found = value.get(a).and_then(|v| v.get(b)).and_then(|v| v.get(c)).and_then(|v| v.get(d));
    Ok(found.and_then(|v| v.as_str()).map(|s| s.to_owned()))
}

// ---- filling ----

/// The template with the kickstart in place of the placeholder.
pub open spec fn substituted(template: Seq<char>, kickstart: Seq<char>) -> Seq<char> {
    replaced(template, KICKSTART_PLACEHOLDER@, escaped(kickstart))
}

/// What a template without the placeholder is told.
pub open spec fn no_placeholder() -> Seq<char> {
    TEMPLATE@ + " no longer names "@ + KICKSTART_PLACEHOLDER@
        + ". Either the template stopped needing a kickstart --- in which case this step should go --- or the placeholder was renamed and the ISO would ship whatever the template says instead (§12.1)"@
}

/// The lines of a list that hold a placeholder's marks.
pub open spec fn marked(list: Seq<Seq<char>>) -> Seq<Seq<char>>
    decreases list.len(),
{
    if list.len() == 0 {
        Seq::empty()
    } else if holds(list.last(), "@@"@) {
        marked(list.drop_last()).push(list.last())
    } else {
        marked(list.drop_last())
    }
}

/// What is wrong with a filled configuration, given what was read back of it.
pub open spec fn reading_fault(
    kickstart: Seq<char>,
    read: Result<Option<Seq<char>>, Seq<char>>,
) -> Option<Seq<char>> {
    match read {
        Err(why) => Some("the filled configuration is not TOML: "@ + why),
        Ok(None) => Some(
            "the filled configuration carries no [customizations.installer.kickstart] contents"@,
        ),
        Ok(Some(contents)) => {
            let rendered = without_trailing(kickstart, '\n');
            let got = without_trailing(contents, '\n');
            if got != rendered {
                Some(
                    "the kickstart does not survive the round trip. The builder would install something other than what `just render` produced.\nrendered "@
                        + decimal(byte_count(rendered) as nat) + " bytes, read back "@ + decimal(
                        byte_count(got) as nat,
                    ) + " bytes"@,
                )
            } else if holds(contents, "@@"@) {
                Some(
                    "a placeholder survived the substitution: the ISO would carry it literally, which fails at install and nowhere earlier (§12.1)\n"@
                        + join(marked(lines(contents)), "\n"@),
                )
            } else {
                None
            }
        },
    }
}

/// The lines of a text that hold a placeholder's marks.
fn marked_lines(contents: &str) -> (out: Vec<String>)
    ensures
        views(out@) == marked(lines(contents@)),
{
    let list = split_lines(contents);
    let ghost all = lines(contents@);
    let mut out: Vec<String> = Vec::new();
    let mut i: usize = 0;
    proof {
        assert(views(out@) =~= marked(all.take(0)));
    }
    while i < list.len()
        invariant
            i <= list.len(),
            views(list@) == all,
            views(out@) == marked(all.take(i as int)),
        decreases list.len() - i,
    {
        let ghost before = out@;
        proof {
            assert(views(list@)[i as int] == list@[i as int]@);
            assert(all.take(i + 1).drop_last() =~= all.take(i as int));
        }
        if contains(list[i].as_str(), "@@") {
            out.push(list[i].clone());
            proof {
                assert(views(out@) =~= views(before).push(list@[i as int]@));
            }
        }
        i = i + 1;
    }
    proof {
        assert(views(list@).len() == list.len());
        assert(all.take(i as int) =~= all);
    }
    out
}

/// What was read back, as values.
pub open spec fn read_view(read: Result<Option<String>, String>) -> Result<
    Option<Seq<char>>,
    Seq<char>,
> {
    match read {
        Ok(Some(text)) => Ok(Some(text@)),
        Ok(None) => Ok(None),
        Err(why) => Err(why@),
    }
}

/// The filled configuration, where what was read back of it is what was
/// rendered; or what is wrong.
///
/// Trailing line feeds are the template's layout, not the kickstart's content.
pub fn accept(filled: String, kickstart: &str, read: &Result<Option<String>, String>) -> (r: Result<
    String,
    String,
>)
    ensures
        match r {
            Ok(text) => text == filled && reading_fault(kickstart@, read_view(*read)) is None,
            Err(why) => reading_fault(kickstart@, read_view(*read)) == Some(why@),
        },
{
    let contents = match read {
        Err(why) => {
            return Err("the filled configuration is not TOML: ".to_owned().concat(why.as_str()));
        },
        Ok(None) => {
            return Err(
                "the filled configuration carries no [customizations.installer.kickstart] contents".to_owned(),
            );
        },
        Ok(Some(contents)) => contents,
    };
    let rendered = strip_trailing(kickstart, '\n');
    let got = strip_trailing(contents.as_str(), '\n');
    if !same(got.as_str(), rendered.as_str()) {
        return Err(
            "the kickstart does not survive the round trip. The builder would install something other than what `just render` produced.\nrendered ".to_owned().concat(
                decimal_of(rendered.as_str().len() as u64).as_str(),
            ).concat(" bytes, read back ").concat(decimal_of(got.as_str().len() as u64).as_str()).concat(
                " bytes",
            ),
        );
    }
    if contains(contents.as_str(), "@@") {
        return Err(
            "a placeholder survived the substitution: the ISO would carry it literally, which fails at install and nowhere earlier (§12.1)\n".to_owned().concat(
                join_strings(&marked_lines(contents.as_str()), "\n").as_str(),
            ),
        );
    }
    Ok(filled)
}

/// What is read back of a filled template.
pub open spec fn read_back(template: Seq<char>, kickstart: Seq<char>) -> Result<
    Option<Seq<char>>,
    Seq<char>,
> {
    toml_text(
        substituted(template, kickstart),
        "customizations"@,
        "installer"@,
        "kickstart"@,
        "contents"@,
    )
}

/// What is wrong with a template and a kickstart, where something is.
pub open spec fn fill_fault(template: Seq<char>, kickstart: Seq<char>) -> Option<Seq<char>> {
    if !holds(template, KICKSTART_PLACEHOLDER@) {
        Some(no_placeholder())
    } else {
        reading_fault(kickstart, read_back(template, kickstart))
    }
}

/// Substitute the kickstart into the template, and read the result back.
///
/// That it parses would not be enough: what the builder reads has to be what
/// the model rendered.
pub fn fill(template: &str, kickstart: &str) -> (r: Result<String, String>)
    ensures
        match r {
            Ok(filled) => filled@ == substituted(template@, kickstart@) && fill_fault(
                template@,
                kickstart@,
            ) is None,
            Err(why) => fill_fault(template@, kickstart@) == Some(why@),
        },
{
    if !contains(template, KICKSTART_PLACEHOLDER) {
        return Err(
            TEMPLATE.to_owned().concat(" no longer names ").concat(KICKSTART_PLACEHOLDER).concat(
                ". Either the template stopped needing a kickstart --- in which case this step should go --- or the placeholder was renamed and the ISO would ship whatever the template says instead (§12.1)",
            ),
        );
    }
    let filled = replace(template, KICKSTART_PLACEHOLDER, escape_basic(kickstart).as_str());
    let read = read_toml(
        filled.as_str(),
        "customizations",
        "installer",
        "kickstart",
        "contents",
    );
    accept(filled, kickstart, &read)
}

/// A configuration that is accepted carries the kickstart that was rendered, up
/// to the line feeds it ends with, and no placeholder's marks.
pub proof fn what_the_builder_reads_was_rendered(template: Seq<char>, kickstart: Seq<char>)
    requires
        fill_fault(template, kickstart) is None,
    ensures
        read_back(template, kickstart) matches Ok(Some(contents)) && {
            &&& without_trailing(contents, '\n') == without_trailing(kickstart, '\n')
            &&& !holds(contents, "@@"@)
        },
{
}

/// Where the value of `--output` stands among the arguments, at `i` or later.
pub open spec fn output_from(args: Seq<Seq<char>>, i: int) -> Option<Seq<char>>
    decreases args.len() - i,
{
    if i < 0 || i >= args.len() {
        None
    } else if args[i] == "--output"@ {
        if i + 1 < args.len() {
            Some(args[i + 1])
        } else {
            None
        }
    } else {
        output_from(args, i + 1)
    }
}

/// Where the filled configuration is written: where the command line says, or
/// below the root.
pub fn output_path(args: &Vec<String>, root: &str) -> (r: String)
    ensures
        r@ == match output_from(views(args@), 0) {
            Some(explicit) => explicit,
            None => joined(root@, DEFAULT_OUTPUT@),
        },
{
    let mut i: usize = 0;
    while i < args.len()
        invariant
            i <= args.len(),
            output_from(views(args@), 0) == output_from(views(args@), i as int),
        decreases args.len() - i,
    {
        proof {
            assert(views(args@)[i as int] == args@[i as int]@);
        }
        if same(args[i].as_str(), "--output") {
            if i + 1 < args.len() {
                proof {
                    assert(views(args@)[i + 1] == args@[i + 1]@);
                }
                return args[i + 1].clone();
            }
            return join_path(root, DEFAULT_OUTPUT);
        }
        i = i + 1;
    }
    join_path(root, DEFAULT_OUTPUT)
}

// ---- what the escaping guarantees ----

/// No quote of an escaped value closes the string: each follows a backslash.
pub proof fn no_quote_stands_bare(value: Seq<char>, i: int)
    requires
        0 <= i < escaped(value).len(),
        escaped(value)[i] == '"',
    ensures
        i > 0,
        escaped(value)[i - 1] == '\\',
    decreases value.len(),
{
    let before = escaped(value.drop_last());
    if i < before.len() {
        no_quote_stands_bare(value.drop_last(), i);
        assert(escaped(value)[i - 1] == before[i - 1]);
    } else {
        let k = i - before.len();
        lemma_quote(value.last(), k);
    }
}

proof fn lemma_quote(c: char, k: int)
    requires
        0 <= k < escaped_char(c).len(),
        escaped_char(c)[k] == '"',
    ensures
        k == 1,
        escaped_char(c)[0] == '\\',
{
    let n = c as int;
    if n < 32 || n == 127 {
        assert(hex_digit(n / 16) as int >= 48);
        assert(hex_digit(n % 16) as int >= 48);
    }
}

/// A value reads back from what it was written as: two values written alike are
/// the same value.
pub proof fn escaping_loses_nothing(a: Seq<char>, b: Seq<char>)
    requires
        escaped(a) == escaped(b),
    ensures
        a == b,
{
    lemma_forward(a);
    lemma_forward(b);
    lemma_escaping_loses_nothing(a, b);
}

/// A value, written character by character from the front.
spec fn written(value: Seq<char>) -> Seq<char>
    decreases value.len(),
{
    if value.len() == 0 {
        value
    } else {
        escaped_char(value[0]) + written(value.skip(1))
    }
}

proof fn lemma_written_add(a: Seq<char>, c: char)
    ensures
        written(a.push(c)) == written(a) + escaped_char(c),
    decreases a.len(),
{
    if a.len() == 0 {
        let rest = a.push(c).skip(1);
        assert(rest =~= Seq::<char>::empty());
        assert(written(rest) =~= rest);
        assert(written(a) =~= a);
        assert(written(a.push(c)) =~= written(a) + escaped_char(c));
    } else {
        assert(a.push(c).skip(1) =~= a.skip(1).push(c));
        lemma_written_add(a.skip(1), c);
        assert(written(a.push(c)) =~= written(a) + escaped_char(c));
    }
}

proof fn lemma_forward(value: Seq<char>)
    ensures
        escaped(value) == written(value),
    decreases value.len(),
{
    if value.len() > 0 {
        lemma_forward(value.drop_last());
        lemma_written_add(value.drop_last(), value.last());
        assert(value.drop_last().push(value.last()) =~= value);
    }
}

proof fn lemma_escaped_char(a: char, b: char, x: Seq<char>, y: Seq<char>)
    requires
        escaped_char(a) + x == escaped_char(b) + y,
    ensures
        a == b,
        x == y,
{
    let (p, q) = (escaped_char(a), escaped_char(b));
    let (s, t) = (p + x, q + y);
    assert(p[0] == s[0] && q[0] == t[0]);
    if p.len() > 1 {
        assert(p[1] == s[1]);
    }
    if q.len() > 1 {
        assert(q[1] == t[1]);
    }
    if p.len() > 4 && q.len() > 4 {
        assert(p[4] == s[4] && p[5] == s[5]);
        assert(q[4] == t[4] && q[5] == t[5]);
        let (m, n) = (a as int, b as int);
        assert(hex_digit(m / 16) == hex_digit(n / 16));
        assert(hex_digit(m % 16) == hex_digit(n % 16));
        assert(m / 16 == n / 16);
        assert(m % 16 == n % 16);
    }
    assert(a == b);
    assert(s.skip(p.len() as int) =~= x);
    assert(t.skip(q.len() as int) =~= y);
}

proof fn lemma_escaping_loses_nothing(a: Seq<char>, b: Seq<char>)
    requires
        written(a) == written(b),
    ensures
        a == b,
    decreases a.len(),
{
    if a.len() == 0 || b.len() == 0 {
        assert(a =~= b);
    } else {
        lemma_escaped_char(a[0], b[0], written(a.skip(1)), written(b.skip(1)));
        lemma_escaping_loses_nothing(a.skip(1), b.skip(1));
        assert(a =~= seq![a[0]] + a.skip(1));
        assert(b =~= seq![b[0]] + b.skip(1));
    }
}

/// A configuration is accepted exactly where what it reads back is the kickstart,
/// but for line feeds at its end, and no mark of a placeholder is left in it.
pub proof fn only_what_reads_back_is_accepted(
    filled: String,
    kickstart: &str,
    read: Result<Option<String>, String>,
    r: Result<String, String>,
)
    requires
        call_ensures(accept, (filled, kickstart, &read), r),
    ensures
        read is Err ==> r is Err,
        (read matches Ok(found) && found is None) ==> r is Err,
        r matches Ok(text) ==> text@ == filled@ && (read matches Ok(found) && found is Some
            && without_trailing(found.unwrap()@, '\n') == without_trailing(kickstart@, '\n')
            && !holds(found.unwrap()@, "@@"@)),
        (read matches Ok(found) && found is Some && without_trailing(found.unwrap()@, '\n')
            == without_trailing(kickstart@, '\n') && !holds(found.unwrap()@, "@@"@)) ==> r is Ok,
{
}

/// The output goes where it is asked to: to what follows the first `--output`.
pub proof fn the_output_goes_where_it_is_asked_to(args: Seq<Seq<char>>, i: int)
    requires
        0 <= i < args.len() - 1,
        args[i] == "--output"@,
        forall|k: int| 0 <= k < i ==> (#[trigger] args[k]) != "--output"@,
    ensures
        output_from(args, 0) == Some(args[i + 1]),
{
    lemma_output(args, 0, i);
}

proof fn lemma_output(args: Seq<Seq<char>>, from: int, i: int)
    requires
        0 <= from <= i < args.len() - 1,
        args[i] == "--output"@,
        forall|k: int| from <= k < i ==> (#[trigger] args[k]) != "--output"@,
    ensures
        output_from(args, from) == Some(args[i + 1]),
    decreases i - from,
{
    if from < i {
        lemma_output(args, from + 1, i);
    }
}

} // verus!
