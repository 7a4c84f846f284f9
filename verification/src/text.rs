//! Text, as sequences of characters.
//!
//! Every rendered file and every message is stated as a `Seq<char>`. This
//! module holds the vocabulary those statements share, and the executable
//! functions that compute it.
use vstd::prelude::*;

verus! {

/// `String::push` appends one character.
pub assume_specification[ String::push ](s: &mut String, c: char)
    ensures
        final(s)@ == old(s)@.push(c),
;

// ---- building ----

/// Every part, one after the other.
pub open spec fn concat_all(parts: Seq<Seq<char>>) -> Seq<char>
    decreases parts.len(),
{
    if parts.len() == 0 {
        Seq::empty()
    } else {
        concat_all(parts.drop_last()) + parts.last()
    }
}

/// Every part, with `sep` between neighbours.
pub open spec fn join(parts: Seq<Seq<char>>, sep: Seq<char>) -> Seq<char>
    decreases parts.len(),
{
    if parts.len() == 0 {
        Seq::empty()
    } else if parts.len() == 1 {
        parts[0]
    } else {
        join(parts.drop_last(), sep) + sep + parts.last()
    }
}

/// What a list of strings holds.
pub open spec fn views(strings: Seq<String>) -> Seq<Seq<char>> {
    Seq::new(strings.len(), |i: int| strings[i]@)
}

/// The strings of `parts`, one after the other.
pub fn concat_strings(parts: &Vec<String>) -> (out: String)
    ensures
        out@ == concat_all(views(parts@)),
{
    let mut out = String::new();
    let mut i: usize = 0;
    while i < parts.len()
        invariant
            i <= parts.len(),
            out@ == concat_all(views(parts@).take(i as int)),
        decreases parts.len() - i,
    {
        proof {
            let next = views(parts@).take(i + 1);
            assert(next.drop_last() =~= views(parts@).take(i as int));
            assert(next.last() == parts@[i as int]@);
        }
        out.append(parts[i].as_str());
        i = i + 1;
    }
    proof {
        assert(views(parts@).take(i as int) =~= views(parts@));
    }
    out
}

/// The strings of `parts`, separated by `sep`.
pub fn join_strings(parts: &Vec<String>, sep: &str) -> (out: String)
    ensures
        out@ == join(views(parts@), sep@),
{
    let mut out = String::new();
    let mut i: usize = 0;
    while i < parts.len()
        invariant
            i <= parts.len(),
            out@ == join(views(parts@).take(i as int), sep@),
        decreases parts.len() - i,
    {
        proof {
            let next = views(parts@).take(i + 1);
            assert(next.drop_last() =~= views(parts@).take(i as int));
            assert(next.last() == parts@[i as int]@);
        }
        if i > 0 {
            out.append(sep);
            out.append(parts[i].as_str());
        } else {
            out = parts[i].clone();
        }
        i = i + 1;
    }
    proof {
        assert(views(parts@).take(i as int) =~= views(parts@));
    }
    out
}

/// Whether two strings hold the same characters.
pub fn same(a: &str, b: &str) -> (r: bool)
    ensures
        r == (a@ == b@),
{
    a.to_owned() == b.to_owned()
}

/// A deep copy of a list of strings.
pub fn clone_strings(list: &Vec<String>) -> (out: Vec<String>)
    ensures
        out@ == list@,
{
    let mut out: Vec<String> = Vec::new();
    let mut i: usize = 0;
    while i < list.len()
        invariant
            i <= list.len(),
            out@ =~= list@.take(i as int),
        decreases list.len() - i,
    {
        out.push(list[i].clone());
        i = i + 1;
    }
    out
}

// ---- numbers ----

/// The character of one decimal digit.
pub open spec fn digit(d: nat) -> char {
    (48 + d) as char
}

/// `n` in decimal, without leading zeros.
pub open spec fn decimal(n: nat) -> Seq<char>
    decreases n,
{
    if n < 10 {
        seq![digit(n)]
    } else {
        decimal(n / 10).push(digit(n % 10))
    }
}

/// A number in decimal is written in digits alone.
pub proof fn lemma_decimal_is_digits(n: nat)
    ensures
        forall|i: int| 0 <= i < decimal(n).len() ==> 48 <= (#[trigger] decimal(n)[i]) as int <= 57,
    decreases n,
{
    if n < 10 {
        assert(decimal(n)[0] == digit(n));
        assert(48 <= digit(n) as int <= 57);
    } else {
        lemma_decimal_is_digits(n / 10);
        assert(48 <= digit(n % 10) as int <= 57);
        let before = decimal(n / 10);
        assert forall|i: int| 0 <= i < decimal(n).len() implies 48 <= (#[trigger] decimal(
            n,
        )[i]) as int <= 57 by {
            if i < before.len() {
                assert(decimal(n)[i] == before[i]);
            } else {
                assert(decimal(n)[i] == digit(n % 10));
            }
        }
    }
}

/// `n` in decimal.
pub fn decimal_of(n: u64) -> (out: String)
    ensures
        out@ == decimal(n as nat),
    decreases n,
{
    if n < 10 {
        let mut out = String::new();
        out.push((48u8 + n as u8) as char);
        out
    } else {
        let mut out = decimal_of(n / 10);
        out.push((48u8 + (n % 10) as u8) as char);
        out
    }
}

/// The numbers of `list` as Rust's `Debug` writes a list of them.
pub open spec fn number_list(list: Seq<u32>) -> Seq<char> {
    "["@ + join(Seq::new(list.len(), |i: int| decimal(list[i] as nat)), ", "@) + "]"@
}

/// The numbers of `list`, bracketed and separated by commas.
pub fn number_list_of(list: &Vec<u32>) -> (out: String)
    ensures
        out@ == number_list(list@),
{
    let mut parts: Vec<String> = Vec::new();
    let mut i: usize = 0;
    while i < list.len()
        invariant
            i <= list.len(),
            parts.len() == i,
            forall|k: int| 0 <= k < i ==> parts@[k]@ == decimal(list@[k] as nat),
        decreases list.len() - i,
    {
        parts.push(decimal_of(list[i] as u64));
        i = i + 1;
    }
    proof {
        assert(views(parts@) =~= Seq::new(list@.len(), |i: int| decimal(list@[i] as nat)));
    }
    "[".to_owned().concat(join_strings(&parts, ", ").as_str()).concat("]")
}

/// The value of the digit `c`, where it is one below `radix`.
pub open spec fn digit_value(c: char, radix: nat) -> Option<nat> {
    if 48 <= c as int && (c as int) < 48 + radix {
        Some((c as int - 48) as nat)
    } else {
        None
    }
}

/// Whether every character of `s` is a digit below `radix`.
pub open spec fn all_digits(s: Seq<char>, radix: nat) -> bool {
    forall|i: int| 0 <= i < s.len() ==> digit_value(#[trigger] s[i], radix) is Some
}

/// The number that the digits of `s` write.
pub open spec fn digits_value(s: Seq<char>, radix: nat) -> nat
    decreases s.len(),
{
    if s.len() == 0 {
        0
    } else {
        digits_value(s.drop_last(), radix) * radix + digit_value(s.last(), radix).unwrap_or(0)
    }
}

/// `s` without one leading `+`.
pub open spec fn unsigned_part(s: Seq<char>) -> Seq<char> {
    if s.len() > 0 && s[0] == '+' {
        s.skip(1)
    } else {
        s
    }
}

/// The number `s` writes: digits, at least one, after an optional `+`.
pub open spec fn numeral(s: Seq<char>, radix: nat) -> Option<nat> {
    let digits = unsigned_part(s);
    if digits.len() > 0 && all_digits(digits, radix) {
        Some(digits_value(digits, radix))
    } else {
        None
    }
}

/// More digits never make a smaller number.
proof fn lemma_digits_value_grows(s: Seq<char>, radix: nat, n: int)
    requires
        0 <= n <= s.len(),
        radix >= 1,
    ensures
        digits_value(s.take(n), radix) <= digits_value(s, radix),
    decreases s.len() - n,
{
    if n < s.len() {
        lemma_digits_value_grows(s, radix, n + 1);
        let more = s.take(n + 1);
        assert(more.drop_last() =~= s.take(n));
        let v = digits_value(s.take(n), radix);
        assert(v <= v * radix) by (nonlinear_arith)
            requires
                radix >= 1,
        ;
    } else {
        assert(s.take(n) =~= s);
    }
}

/// The value of the digit `c`, where it is one below `radix`.
pub fn digit_of(c: char, radix: u8) -> (r: Option<u8>)
    requires
        radix <= 10,
    ensures
        match r {
            Some(d) => digit_value(c, radix as nat) == Some(d as nat),
            None => digit_value(c, radix as nat) is None,
        },
{
    let n: u32 = c as u32;
    if n < 48 || n >= 48 + radix as u32 {
        None
    } else {
        Some((n - 48) as u8)
    }
}

/// The number `s` writes, where it is at most `max`.
pub fn parse_number(s: &str, radix: u8, max: u64) -> (r: Option<u64>)
    requires
        2 <= radix <= 10,
    ensures
        match r {
            Some(n) => numeral(s@, radix as nat) == Some(n as nat) && n <= max,
            None => match numeral(s@, radix as nat) {
                Some(n) => n > max,
                None => true,
            },
        },
{
    let text = chars_of(s);
    let start: usize = if text.len() > 0 && text[0] == '+' {
        1
    } else {
        0
    };
    let ghost digits = unsigned_part(s@);
    proof {
        assert(digits =~= s@.skip(start as int));
    }
    if start == text.len() {
        return None;
    }
    let mut value: u128 = 0;
    let mut i: usize = start;
    proof {
        assert(digits.take(0).len() == 0);
    }
    while i < text.len()
        invariant
            2 <= radix <= 10,
            start <= i <= text.len(),
            text@ == s@,
            digits == s@.skip(start as int),
            digits == unsigned_part(s@),
            value <= max,
            value == digits_value(digits.take(i - start), radix as nat),
            forall|k: int|
                0 <= k < i - start ==> digit_value(#[trigger] digits[k], radix as nat) is Some,
        decreases text.len() - i,
    {
        let c: char = text[i];
        proof {
            assert(digits[i - start] == c);
        }
        let d: u8 = match digit_of(c, radix) {
            Some(d) => d,
            None => {
                proof {
                    assert(!all_digits(digits, radix as nat)) by {
                        assert(digit_value(digits[i - start], radix as nat) is None);
                    }
                }
                return None;
            },
        };
        proof {
            let next = digits.take(i - start + 1);
            assert(next.drop_last() =~= digits.take(i - start));
            assert(next.last() == c);
            assert(value * radix <= 0xffff_ffff_ffff_ffff * 10) by (nonlinear_arith)
                requires
                    value <= 0xffff_ffff_ffff_ffff,
                    radix <= 10,
            ;
        }
        value = value * (radix as u128) + d as u128;
        i = i + 1;
        if value > max as u128 {
            proof {
                lemma_digits_value_grows(digits, radix as nat, i - start);
            }
            return None;
        }
    }
    proof {
        assert(digits.take(i - start) =~= digits);
    }
    Some(value as u64)
}

// ---- characters ----

/// The characters of a string.
pub fn chars_of(s: &str) -> (out: Vec<char>)
    ensures
        out@ == s@,
{
    let mut out: Vec<char> = Vec::new();
    for c in it: s.chars()
        invariant
            out@ == it.seq().take(it.index() as int),
            it.seq() == s@,
    {
        out.push(c);
    }
    out
}

/// The characters `from..to` of `list`, as a string.
pub fn string_of(list: &Vec<char>, from: usize, to: usize) -> (out: String)
    requires
        from <= to <= list.len(),
    ensures
        out@ == list@.subrange(from as int, to as int),
{
    let mut out = String::new();
    let mut i: usize = from;
    while i < to
        invariant
            from <= i <= to <= list.len(),
            out@ =~= list@.subrange(from as int, i as int),
        decreases to - i,
    {
        out.push(list[i]);
        i = i + 1;
    }
    out
}

// ---- searching ----

/// Whether `pat` stands in `s` at position `i`.
pub open spec fn occurs_at(s: Seq<char>, pat: Seq<char>, i: int) -> bool {
    0 <= i && i + pat.len() <= s.len() && s.subrange(i, i + pat.len()) == pat
}

/// Whether `s` begins with `pat`.
pub open spec fn begins(s: Seq<char>, pat: Seq<char>) -> bool {
    occurs_at(s, pat, 0)
}

/// Whether `s` ends with `pat`.
pub open spec fn ends(s: Seq<char>, pat: Seq<char>) -> bool {
    occurs_at(s, pat, s.len() - pat.len())
}

/// Whether `pat` stands anywhere in `s`.
pub open spec fn holds(s: Seq<char>, pat: Seq<char>) -> bool {
    exists|i: int| occurs_at(s, pat, i)
}

/// Where `pat` first stands in `s`, at `i` or later.
pub open spec fn first_from(s: Seq<char>, pat: Seq<char>, i: int) -> Option<int>
    decreases s.len() - i + 1,
{
    if i < 0 || i + pat.len() > s.len() {
        None
    } else if occurs_at(s, pat, i) {
        Some(i)
    } else {
        first_from(s, pat, i + 1)
    }
}

/// What [`first_from`] finds is an occurrence, and none stands before it.
pub proof fn lemma_first_from(s: Seq<char>, pat: Seq<char>, i: int)
    requires
        0 <= i,
    ensures
        match first_from(s, pat, i) {
            Some(k) => i <= k && occurs_at(s, pat, k) && forall|j: int|
                i <= j < k ==> !occurs_at(s, pat, j),
            None => forall|j: int| i <= j ==> !occurs_at(s, pat, j),
        },
    decreases s.len() - i + 1,
{
    if i + pat.len() > s.len() {
    } else if occurs_at(s, pat, i) {
    } else {
        lemma_first_from(s, pat, i + 1);
    }
}

/// Whether `pat` stands in `s` at `i`.
pub fn stands_at(s: &Vec<char>, pat: &Vec<char>, i: usize) -> (r: bool)
    ensures
        r == occurs_at(s@, pat@, i as int),
{
    if i > s.len() || pat.len() > s.len() - i {
        return false;
    }
    let mut k: usize = 0;
    while k < pat.len()
        invariant
            k <= pat.len(),
            i + pat.len() <= s.len(),
            forall|j: int| 0 <= j < k ==> s@[i + j] == pat@[j],
        decreases pat.len() - k,
    {
        if s[i + k] != pat[k] {
            proof {
                assert(s@.subrange(i as int, i + pat@.len())[k as int] == s@[i + k]);
            }
            return false;
        }
        k = k + 1;
    }
    proof {
        assert(s@.subrange(i as int, i + pat@.len()) =~= pat@);
    }
    true
}

/// Where `pat` first stands in `s`, at `from` or later.
pub fn position_from(s: &Vec<char>, pat: &Vec<char>, from: usize) -> (r: Option<usize>)
    requires
        from <= s.len(),
    ensures
        match r {
            Some(k) => first_from(s@, pat@, from as int) == Some(k as int),
            None => first_from(s@, pat@, from as int) is None,
        },
        r matches Some(k) ==> from <= k && k + pat.len() <= s.len(),
{
    let mut i: usize = from;
    while i <= s.len() && pat.len() <= s.len() - i
        invariant
            from <= i,
            first_from(s@, pat@, from as int) == first_from(s@, pat@, i as int),
        decreases s.len() - i + 1,
    {
        if stands_at(s, pat, i) {
            return Some(i);
        }
        proof {
            if i == s.len() {
                assert(s@.subrange(i as int, i + pat@.len()) =~= pat@);
            }
        }
        i = i + 1;
    }
    None
}

/// Whether `s` begins with `pat`.
pub fn starts_with(s: &str, pat: &str) -> (r: bool)
    ensures
        r == begins(s@, pat@),
{
    stands_at(&chars_of(s), &chars_of(pat), 0)
}

/// Whether `s` ends with `pat`.
pub fn ends_with(s: &str, pat: &str) -> (r: bool)
    ensures
        r == ends(s@, pat@),
{
    let text = chars_of(s);
    let tail = chars_of(pat);
    if tail.len() > text.len() {
        return false;
    }
    stands_at(&text, &tail, text.len() - tail.len())
}

/// Whether `pat` stands anywhere in `s`.
pub fn contains(s: &str, pat: &str) -> (r: bool)
    ensures
        r == holds(s@, pat@),
{
    let found = position_from(&chars_of(s), &chars_of(pat), 0);
    proof {
        lemma_first_from(s@, pat@, 0);
    }
    found.is_some()
}

// ---- splitting ----

/// The pieces of `s` between occurrences of `sep`.
pub open spec fn split(s: Seq<char>, sep: char) -> Seq<Seq<char>>
    decreases s.len(),
{
    match first_from(s, seq![sep], 0) {
        Some(k) => if 0 <= k < s.len() {
            seq![s.take(k)] + split(s.skip(k + 1), sep)
        } else {
            seq![s]
        },
        None => seq![s],
    }
}

/// The pieces of `s` between occurrences of `sep`.
pub fn split_on(s: &str, sep: char) -> (out: Vec<String>)
    ensures
        views(out@) == split(s@, sep),
        out.len() > 0,
{
    let text = chars_of(s);
    let mut pattern: Vec<char> = Vec::new();
    pattern.push(sep);
    let mut out: Vec<String> = Vec::new();
    let mut at: usize = 0;
    proof {
        assert(pattern@ =~= seq![sep]);
        assert(s@.skip(0) =~= s@);
        assert(split(s@, sep) =~= views(out@) + split(s@.skip(0), sep));
    }
    loop
        invariant
            at <= text.len(),
            text@ == s@,
            pattern@ == seq![sep],
            split(s@, sep) == views(out@) + split(s@.skip(at as int), sep),
        decreases text.len() - at,
    {
        let ghost rest = s@.skip(at as int);
        let ghost before = views(out@);
        proof {
            lemma_first_from_skip(s@, seq![sep], at as int, at as int);
            lemma_first_from(s@, seq![sep], at as int);
        }
        match position_from(&text, &pattern, at) {
            Some(k) => {
                out.push(string_of(&text, at, k));
                proof {
                    assert(rest.take(k - at) =~= s@.subrange(at as int, k as int));
                    assert(rest.skip(k - at + 1) =~= s@.skip(k + 1));
                    assert(views(out@) =~= before.push(rest.take(k - at)));
                    assert(before + (seq![rest.take(k - at)] + split(s@.skip(k + 1), sep))
                        =~= views(out@) + split(s@.skip(k + 1), sep));
                }
                at = k + 1;
            },
            None => {
                out.push(string_of(&text, at, text.len()));
                proof {
                    assert(rest =~= s@.subrange(at as int, s@.len() as int));
                    assert(views(out@) =~= before.push(rest));
                    assert(before + seq![rest] =~= before.push(rest));
                }
                return out;
            },
        }
    }
}

/// What stands before and after the first `sep` of `s`.
pub open spec fn halves(s: Seq<char>, sep: Seq<char>) -> Option<(Seq<char>, Seq<char>)> {
    match first_from(s, sep, 0) {
        Some(k) => Some((s.take(k), s.skip(k + sep.len()))),
        None => None,
    }
}

/// What stands before and after the first `sep` of `s`.
pub fn split_once(s: &str, sep: &str) -> (r: Option<(String, String)>)
    ensures
        match r {
            Some(h) => halves(s@, sep@) == Some((h.0@, h.1@)),
            None => halves(s@, sep@) is None,
        },
{
    let text = chars_of(s);
    let pattern = chars_of(sep);
    match position_from(&text, &pattern, 0) {
        Some(k) => {
            let left = string_of(&text, 0, k);
            let right = string_of(&text, k + pattern.len(), text.len());
            proof {
                assert(left@ =~= s@.take(k as int));
                assert(right@ =~= s@.skip(k + sep@.len()));
            }
            Some((left, right))
        },
        None => None,
    }
}

// ---- replacing ----

/// `s` with every occurrence of `pat`, taken from the left without overlap,
/// replaced by `with`. An empty `pat` replaces nothing.
pub open spec fn replaced(s: Seq<char>, pat: Seq<char>, with: Seq<char>) -> Seq<char>
    decreases s.len(),
{
    match first_from(s, pat, 0) {
        Some(k) => if pat.len() > 0 && 0 <= k && k + pat.len() <= s.len() {
            s.take(k) + with + replaced(s.skip(k + pat.len()), pat, with)
        } else {
            s
        },
        None => s,
    }
}

/// `s` with every occurrence of `pat` replaced by `with`.
pub fn replace(s: &str, pat: &str, with: &str) -> (out: String)
    ensures
        out@ == replaced(s@, pat@, with@),
{
    let text = chars_of(s);
    let pattern = chars_of(pat);
    if pattern.len() == 0 {
        return s.to_owned();
    }
    let mut out = String::new();
    let mut at: usize = 0;
    proof {
        assert(s@.skip(0) =~= s@);
        assert(replaced(s@, pat@, with@) =~= out@ + replaced(s@.skip(0), pat@, with@));
    }
    loop
        invariant
            at <= text.len(),
            text@ == s@,
            pattern@ == pat@,
            pattern.len() > 0,
            replaced(s@, pat@, with@) == out@ + replaced(s@.skip(at as int), pat@, with@),
        decreases text.len() - at,
    {
        let ghost rest = s@.skip(at as int);
        proof {
            lemma_first_from_skip(s@, pat@, at as int, at as int);
            lemma_first_from(s@, pat@, at as int);
        }
        match position_from(&text, &pattern, at) {
            Some(k) => {
                let ghost before = out@;
                out.append(string_of(&text, at, k).as_str());
                out.append(with);
                proof {
                    assert(rest.take(k - at) =~= s@.subrange(at as int, k as int));
                    assert(rest.skip(k - at + pat@.len()) =~= s@.skip(k + pat@.len()));
                    assert(before + (rest.take(k - at) + with@ + replaced(
                        s@.skip(k + pat@.len()),
                        pat@,
                        with@,
                    )) =~= out@ + replaced(s@.skip(k + pat@.len()), pat@, with@));
                }
                at = k + pattern.len();
            },
            None => {
                out.append(string_of(&text, at, text.len()).as_str());
                proof {
                    assert(rest =~= s@.subrange(at as int, s@.len() as int));
                }
                return out;
            },
        }
    }
}

/// Searching from `i` is searching what follows `at`, shifted.
pub proof fn lemma_first_from_skip(s: Seq<char>, pat: Seq<char>, at: int, i: int)
    requires
        0 <= at <= i,
        at <= s.len(),
    ensures
        first_from(s.skip(at), pat, i - at) == (match first_from(s, pat, i) {
            Some(k) => Some(k - at),
            None => None::<int>,
        }),
    decreases s.len() - i + 1,
{
    if i + pat.len() <= s.len() {
        assert(s.skip(at).subrange(i - at, i - at + pat.len()) =~= s.subrange(i, i + pat.len()));
        if !occurs_at(s, pat, i) {
            lemma_first_from_skip(s, pat, at, i + 1);
        }
    }
}

// ---- pieces of paths ----

/// `s` without the characters `c` it begins with.
pub open spec fn without_leading(s: Seq<char>, c: char) -> Seq<char>
    decreases s.len(),
{
    if s.len() > 0 && s[0] == c {
        without_leading(s.skip(1), c)
    } else {
        s
    }
}

/// `s` without the characters `c` it begins with.
pub fn strip_leading(s: &str, c: char) -> (out: String)
    ensures
        out@ == without_leading(s@, c),
{
    let text = chars_of(s);
    let mut at: usize = 0;
    proof {
        assert(s@.skip(0) =~= s@);
    }
    while at < text.len() && text[at] == c
        invariant
            at <= text.len(),
            text@ == s@,
            without_leading(s@, c) == without_leading(s@.skip(at as int), c),
        decreases text.len() - at,
    {
        proof {
            assert(s@.skip(at as int).skip(1) =~= s@.skip(at + 1));
        }
        at = at + 1;
    }
    let out = string_of(&text, at, text.len());
    proof {
        assert(out@ =~= s@.skip(at as int));
    }
    out
}

/// `s` without the characters `c` it ends with.
pub open spec fn without_trailing(s: Seq<char>, c: char) -> Seq<char>
    decreases s.len(),
{
    if s.len() > 0 && s.last() == c {
        without_trailing(s.drop_last(), c)
    } else {
        s
    }
}

/// `s` without the characters `c` it ends with.
pub fn strip_trailing(s: &str, c: char) -> (out: String)
    ensures
        out@ == without_trailing(s@, c),
{
    let text = chars_of(s);
    let mut end: usize = text.len();
    proof {
        assert(s@.take(end as int) =~= s@);
    }
    while end > 0 && text[end - 1] == c
        invariant
            end <= text.len(),
            text@ == s@,
            without_trailing(s@, c) == without_trailing(s@.take(end as int), c),
        decreases end,
    {
        proof {
            assert(s@.take(end as int).drop_last() =~= s@.take(end - 1));
        }
        end = end - 1;
    }
    let out = string_of(&text, 0, end);
    proof {
        assert(out@ =~= s@.take(end as int));
    }
    out
}

/// The last piece of `s` between occurrences of `sep`.
pub fn last_piece(s: &str, sep: char) -> (out: String)
    ensures
        out@ == split(s@, sep).last(),
{
    let pieces = split_on(s, sep);
    pieces[pieces.len() - 1].clone()
}

// ---- lines ----

/// `line` without the carriage return it ends with, if it does.
pub open spec fn without_return(line: Seq<char>) -> Seq<char> {
    if line.len() > 0 && line.last() == '\r' {
        line.drop_last()
    } else {
        line
    }
}

/// The lines of `s`. A line ends in a line feed, with or without a carriage
/// return before it; the last one need not end in either.
pub open spec fn lines(s: Seq<char>) -> Seq<Seq<char>> {
    let pieces = split(s, '\n');
    let ended = Seq::new((pieces.len() - 1) as nat, |i: int| without_return(pieces[i]));
    if pieces.last().len() == 0 {
        ended
    } else {
        ended.push(pieces.last())
    }
}

/// The lines of `s`.
pub fn split_lines(s: &str) -> (out: Vec<String>)
    ensures
        views(out@) == lines(s@),
{
    let pieces = split_on(s, '\n');
    let n: usize = pieces.len() - 1;
    let ghost list = split(s@, '\n');
    let mut out: Vec<String> = Vec::new();
    let mut i: usize = 0;
    while i < n
        invariant
            i <= n,
            n == pieces.len() - 1,
            out.len() == i,
            forall|k: int| 0 <= k < i ==> (#[trigger] out@[k])@ == without_return(pieces@[k]@),
        decreases n - i,
    {
        let text = chars_of(pieces[i].as_str());
        if text.len() > 0 && text[text.len() - 1] == '\r' {
            let line = string_of(&text, 0, text.len() - 1);
            proof {
                assert(line@ =~= pieces@[i as int]@.drop_last());
            }
            out.push(line);
        } else {
            out.push(pieces[i].clone());
        }
        i = i + 1;
    }
    proof {
        assert forall|k: int| 0 <= k < pieces.len() implies pieces@[k]@ == list[k] by {
            assert(views(pieces@)[k] == list[k]);
        }
    }
    if !pieces[n].as_str().is_empty() {
        out.push(pieces[n].clone());
    }
    proof {
        assert(views(out@) =~= lines(s@));
    }
    out
}

/// How many bytes a text takes.
pub open spec fn byte_count(s: Seq<char>) -> usize {
    vstd::utf8::encode_utf8(s).len() as usize
}

// ---- case ----

/// `s` in upper case, by the rules of Unicode.
pub uninterp spec fn uppercase(s: Seq<char>) -> Seq<char>;

/// A letter of the alphabet `a` to `z` in upper case; any other character
/// itself.
pub open spec fn ascii_upper(c: char) -> char {
    if 97 <= c as int <= 122 {
        (c as int - 32) as char
    } else {
        c
    }
}

/// `str::to_uppercase`. It is a function of the text. Of a text whose
/// characters are all ASCII it maps the letters `a` to `z` and keeps the rest;
/// what it makes of other characters is not stated here.
#[verifier::external_body]
pub(crate) fn to_uppercase(s: &str) -> (out: String)
    ensures
        out@ == uppercase(s@),
        (forall|i: int| 0 <= i < s@.len() ==> (#[trigger] s@[i]) as int <= 127) ==> out@
            == Seq::new(s@.len(), |i: int| ascii_upper(s@[i])),
{
    s.to_uppercase()
}

// ---- white space ----

/// The characters Unicode gives the `White_Space` property.
pub open spec fn is_space(c: char) -> bool {
    let n = c as u32;
    ||| 0x9 <= n <= 0xd
    ||| n == 0x20
    ||| n == 0x85
    ||| n == 0xa0
    ||| n == 0x1680
    ||| 0x2000 <= n <= 0x200a
    ||| n == 0x2028
    ||| n == 0x2029
    ||| n == 0x202f
    ||| n == 0x205f
    ||| n == 0x3000
}

/// Whether `c` is white space.
pub fn space(c: char) -> (r: bool)
    ensures
        r == is_space(c),
{
    let n: u32 = c as u32;
    (0x9 <= n && n <= 0xd) || n == 0x20 || n == 0x85 || n == 0xa0 || n == 0x1680 || (0x2000 <= n
        && n <= 0x200a) || n == 0x2028 || n == 0x2029 || n == 0x202f || n == 0x205f || n == 0x3000
}

/// Where the white space at `i` ends.
pub open spec fn space_end(s: Seq<char>, i: int) -> int
    decreases s.len() - i,
{
    if 0 <= i < s.len() && is_space(s[i]) {
        space_end(s, i + 1)
    } else {
        i
    }
}

/// Where the word at `i` ends.
pub open spec fn word_end(s: Seq<char>, i: int) -> int
    decreases s.len() - i,
{
    if 0 <= i < s.len() && !is_space(s[i]) {
        word_end(s, i + 1)
    } else {
        i
    }
}

pub proof fn lemma_space_end(s: Seq<char>, i: int)
    requires
        0 <= i <= s.len(),
    ensures
        i <= space_end(s, i) <= s.len(),
        space_end(s, i) < s.len() ==> !is_space(s[space_end(s, i)]),
        forall|k: int| i <= k < space_end(s, i) ==> is_space(s[k]),
    decreases s.len() - i,
{
    if i < s.len() && is_space(s[i]) {
        lemma_space_end(s, i + 1);
    }
}

pub proof fn lemma_word_end(s: Seq<char>, i: int)
    requires
        0 <= i <= s.len(),
    ensures
        i <= word_end(s, i) <= s.len(),
        i < s.len() && !is_space(s[i]) ==> i < word_end(s, i),
        word_end(s, i) < s.len() ==> is_space(s[word_end(s, i)]),
        forall|k: int| i <= k < word_end(s, i) ==> !is_space(s[k]),
    decreases s.len() - i,
{
    if i < s.len() && !is_space(s[i]) {
        lemma_word_end(s, i + 1);
    }
}

/// `s` without the white space it begins with.
pub open spec fn trimmed_start(s: Seq<char>) -> Seq<char> {
    s.skip(space_end(s, 0))
}

/// `s` without the white space it ends with.
pub open spec fn trimmed_end(s: Seq<char>) -> Seq<char>
    decreases s.len(),
{
    if s.len() > 0 && is_space(s.last()) {
        trimmed_end(s.drop_last())
    } else {
        s
    }
}

/// `s` without the white space around it.
pub open spec fn trimmed(s: Seq<char>) -> Seq<char> {
    trimmed_end(trimmed_start(s))
}

/// Where the white space at `from` ends.
pub fn skip_space(s: &Vec<char>, from: usize) -> (r: usize)
    requires
        from <= s.len(),
    ensures
        r == space_end(s@, from as int),
        from <= r <= s.len(),
{
    let mut i: usize = from;
    while i < s.len() && space(s[i])
        invariant
            from <= i <= s.len(),
            space_end(s@, from as int) == space_end(s@, i as int),
        decreases s.len() - i,
    {
        i = i + 1;
    }
    i
}

/// Where the word at `from` ends.
pub fn skip_word(s: &Vec<char>, from: usize) -> (r: usize)
    requires
        from <= s.len(),
    ensures
        r == word_end(s@, from as int),
        from <= r <= s.len(),
{
    let mut i: usize = from;
    while i < s.len() && !space(s[i])
        invariant
            from <= i <= s.len(),
            word_end(s@, from as int) == word_end(s@, i as int),
        decreases s.len() - i,
    {
        i = i + 1;
    }
    i
}

/// `s` without the white space it begins with.
pub fn trim_start(s: &str) -> (out: String)
    ensures
        out@ == trimmed_start(s@),
{
    let text = chars_of(s);
    let from = skip_space(&text, 0);
    proof {
        assert(text@.subrange(from as int, text@.len() as int) =~= s@.skip(from as int));
    }
    string_of(&text, from, text.len())
}

/// `s` without the white space around it.
pub fn trim(s: &str) -> (out: String)
    ensures
        out@ == trimmed(s@),
{
    let text = chars_of(s);
    let from = skip_space(&text, 0);
    let mut to: usize = text.len();
    proof {
        assert(text@.subrange(from as int, to as int) =~= trimmed_start(s@));
    }
    while from < to && space(text[to - 1])
        invariant
            from <= to <= text.len(),
            trimmed(s@) == trimmed_end(text@.subrange(from as int, to as int)),
        decreases to - from,
    {
        proof {
            let cut = text@.subrange(from as int, to as int);
            assert(cut.drop_last() =~= text@.subrange(from as int, to - 1));
        }
        to = to - 1;
    }
    string_of(&text, from, to)
}

/// The words of `s` from `i` on: the longest runs without white space.
pub open spec fn words_from(s: Seq<char>, i: int) -> Seq<Seq<char>>
    decreases s.len() - i,
{
    if 0 <= i <= s.len() {
        let a = space_end(s, i);
        let b = word_end(s, a);
        proof {
            lemma_space_end(s, i);
            lemma_word_end(s, a);
        }
        if a < s.len() {
            seq![s.subrange(a, b)] + words_from(s, b)
        } else {
            Seq::empty()
        }
    } else {
        Seq::empty()
    }
}

/// The words of `s`.
pub open spec fn words(s: Seq<char>) -> Seq<Seq<char>> {
    words_from(s, 0)
}

/// The words of `s`.
pub fn split_words(s: &str) -> (out: Vec<String>)
    ensures
        views(out@) == words(s@),
{
    let text = chars_of(s);
    let mut out: Vec<String> = Vec::new();
    let mut at: usize = skip_space(&text, 0);
    proof {
        lemma_space_end(s@, 0);
        lemma_words_from_space(s@, 0);
        assert(views(out@) + words_from(s@, at as int) =~= words(s@));
    }
    while at < text.len()
        invariant
            at <= text.len(),
            text@ == s@,
            at < text.len() ==> !is_space(text@[at as int]),
            views(out@) + words_from(s@, at as int) == words(s@),
        decreases text.len() - at,
    {
        let end = skip_word(&text, at);
        let ghost before = views(out@);
        proof {
            lemma_word_end(s@, at as int);
            assert(space_end(s@, at as int) == at);
        }
        out.push(string_of(&text, at, end));
        proof {
            let word = s@.subrange(at as int, end as int);
            assert(views(out@) =~= before.push(word));
            assert(before + (seq![word] + words_from(s@, end as int)) =~= before.push(word)
                + words_from(s@, end as int));
            lemma_space_end(s@, end as int);
            lemma_words_from_space(s@, end as int);
        }
        at = skip_space(&text, end);
    }
    proof {
        assert(views(out@) + words_from(s@, at as int) =~= views(out@));
    }
    out
}

/// White space before a word belongs to no word.
proof fn lemma_words_from_space(s: Seq<char>, i: int)
    requires
        0 <= i <= s.len(),
    ensures
        words_from(s, i) == words_from(s, space_end(s, i)),
{
    lemma_space_end(s, i);
    let a = space_end(s, i);
    assert(space_end(s, a) == a);
}

// ---- laws of texts ----

/// White space is what trimming takes and nothing else: blanks, tabs and the
/// ends of lines are, and no printable ASCII character is.
pub proof fn what_is_printed_is_no_space(c: char)
    ensures
        c == ' ' || c == '\t' || c == '\n' || c == '\r' ==> is_space(c),
        0x21 <= c as int <= 0x7e ==> !is_space(c),
{
}

proof fn lemma_trimmed_end(s: Seq<char>, k: int)
    requires
        0 <= k < s.len(),
        !is_space(s[k]),
    ensures
        trimmed_end(s).len() > k,
        trimmed_end(s).is_prefix_of(s),
    decreases s.len(),
{
    if is_space(s.last()) {
        lemma_trimmed_end(s.drop_last(), k);
        let t = trimmed_end(s.drop_last());
        assert(t =~= s.drop_last().take(t.len() as int));
        assert(t =~= s.take(t.len() as int));
    } else {
        assert(s.take(s.len() as int) =~= s);
    }
}

/// A text with a character that is no white space is not trimmed to nothing.
pub proof fn a_trimmed_text_keeps_what_is_no_space(s: Seq<char>, k: int)
    requires
        0 <= k < s.len(),
        !is_space(s[k]),
    ensures
        trimmed(s).len() > 0,
        trimmed(s).contains(s[k]),
{
    let a = space_end(s, 0);
    lemma_space_end(s, 0);
    lemma_space_end_stops(s, 0, k);
    let rest = s.skip(a);
    assert(rest[k - a] == s[k]);
    lemma_trimmed_end(rest, k - a);
    let t = trimmed_end(rest);
    assert(t =~= rest.take(t.len() as int));
    assert(t[k - a] == s[k]);
}

proof fn lemma_space_end_stops(s: Seq<char>, i: int, k: int)
    requires
        0 <= i <= k < s.len(),
        !is_space(s[k]),
    ensures
        space_end(s, i) <= k,
    decreases k - i,
{
    if i < k && is_space(s[i]) {
        lemma_space_end_stops(s, i + 1, k);
    }
}

/// A text begins with another, ends with it or holds it where it is put together
/// of it and what comes after it, before it, or around it.
pub proof fn a_text_is_found_where_it_stands(s: Seq<char>, pat: Seq<char>)
    ensures
        begins(s, pat) <==> pat.is_prefix_of(s),
        ends(s, pat) <==> pat.is_suffix_of(s),
        holds(s, pat) <==> exists|i: int|
            0 <= i <= s.len() - pat.len() && #[trigger] s.subrange(i, i + pat.len()) =~= pat,
{
    if holds(s, pat) {
        let i = choose|i: int| occurs_at(s, pat, i);
        assert(s.subrange(i, i + pat.len()) =~= pat);
    }
    if exists|i: int|
        0 <= i <= s.len() - pat.len() && #[trigger] s.subrange(i, i + pat.len()) =~= pat {
        let i = choose|i: int|
            0 <= i <= s.len() - pat.len() && #[trigger] s.subrange(i, i + pat.len()) =~= pat;
        assert(occurs_at(s, pat, i));
    }
}

/// Each part stands in a text put together of parts.
pub proof fn parts_are_put_together_in_order(a: Seq<Seq<char>>, b: Seq<Seq<char>>, p: Seq<char>)
    ensures
        concat_all(Seq::<Seq<char>>::empty()) =~= Seq::<char>::empty(),
        concat_all(seq![p]) =~= p,
        concat_all(a + b) =~= concat_all(a) + concat_all(b),
    decreases b.len(),
{
    reveal_with_fuel(concat_all, 2);
    assert(seq![p].drop_last() =~= Seq::<Seq<char>>::empty());
    assert(Seq::<char>::empty() + p =~= p);
    if b.len() == 0 {
        assert(a + b =~= a);
    } else {
        parts_are_put_together_in_order(a, b.drop_last(), p);
        assert((a + b).drop_last() =~= a + b.drop_last());
    }
}

/// Parts are joined in order, with the separator between neighbours and nowhere
/// else.
pub proof fn parts_are_joined_in_order(
    a: Seq<Seq<char>>,
    b: Seq<Seq<char>>,
    p: Seq<char>,
    sep: Seq<char>,
)
    ensures
        join(Seq::<Seq<char>>::empty(), sep) =~= Seq::<char>::empty(),
        join(seq![p], sep) == p,
        a.len() > 0 && b.len() > 0 ==> join(a + b, sep) =~= join(a, sep) + sep + join(b, sep),
    decreases b.len(),
{
    if a.len() > 0 && b.len() > 0 {
        assert((a + b).drop_last() =~= a + b.drop_last());
        assert((a + b).last() == b.last());
        if b.len() == 1 {
            assert(a + b.drop_last() =~= a);
        } else {
            parts_are_joined_in_order(a, b.drop_last(), p, sep);
        }
    }
}

/// A number in decimal reads back as the number.
pub proof fn a_number_reads_back(n: nat)
    ensures
        digits_value(decimal(n), 10) == n,
        decimal(n).len() > 0,
        n > 0 ==> decimal(n)[0] != '0',
    decreases n,
{
    if n >= 10 {
        a_number_reads_back(n / 10);
        assert(decimal(n).drop_last() =~= decimal(n / 10));
        assert(decimal(n)[0] == decimal(n / 10)[0]);
    } else {
        assert(decimal(n).drop_last() =~= Seq::<char>::empty());
        assert(digits_value(Seq::<char>::empty(), 10) == 0);
    }
}

/// The pieces of a text, put together again with the separator between them, are
/// the text, and no piece holds the separator.
pub proof fn pieces_are_cut_at_every_separator(s: Seq<char>, sep: char)
    ensures
        split(s, sep).len() > 0,
        join(split(s, sep), seq![sep]) =~= s,
        forall|i: int| 0 <= i < split(s, sep).len() ==> !(#[trigger] split(s, sep)[i]).contains(sep),
    decreases s.len(),
{
    lemma_first_char_of(s, sep, 0);
    match first_from(s, seq![sep], 0) {
        Some(k) => {
            let rest = s.skip(k + 1);
            pieces_are_cut_at_every_separator(rest, sep);
            let head = seq![s.take(k)];
            assert(split(s, sep) == head + split(rest, sep));
            parts_are_joined_in_order(head, split(rest, sep), s.take(k), seq![sep]);
            assert(s =~= s.take(k) + seq![sep] + rest);
            assert(!s.take(k).contains(sep));
            assert forall|i: int| 0 <= i < split(s, sep).len() implies !(#[trigger] split(
                s,
                sep,
            )[i]).contains(sep) by {
                if i > 0 {
                    assert(split(s, sep)[i] == split(rest, sep)[i - 1]);
                }
            }
        },
        None => {
            assert(split(s, sep) == seq![s]);
        },
    }
}

proof fn lemma_first_char_of(s: Seq<char>, c: char, from: int)
    requires
        0 <= from,
    ensures
        match first_from(s, seq![c], from) {
            Some(k) => from <= k < s.len() && s[k] == c && forall|i: int|
                from <= i < k ==> (#[trigger] s[i]) != c,
            None => forall|i: int| from <= i < s.len() ==> (#[trigger] s[i]) != c,
        },
    decreases s.len() - from,
{
    if from < s.len() {
        assert(s.subrange(from, from + 1) =~= seq![s[from]]);
        assert(seq![s[from]][0] == s[from]);
        assert(seq![c][0] == c);
        if s[from] != c {
            lemma_first_char_of(s, c, from + 1);
        }
    }
}

/// Every occurrence is replaced from the left, what stands before it is kept, and
/// a text without any is kept whole.
pub proof fn every_occurrence_is_replaced(
    s: Seq<char>,
    pat: Seq<char>,
    with: Seq<char>,
    k: int,
)
    requires
        pat.len() > 0,
    ensures
        (forall|i: int| 0 <= i <= s.len() - pat.len() ==> #[trigger] s.subrange(i, i + pat.len())
            != pat) ==> replaced(s, pat, with) == s,
        0 <= k <= s.len() - pat.len() && s.subrange(k, k + pat.len()) == pat && (forall|i: int|
            0 <= i < k ==> #[trigger] s.subrange(i, i + pat.len()) != pat) ==> replaced(
            s,
            pat,
            with,
        ) == s.take(k) + with + replaced(s.skip(k + pat.len()), pat, with),
{
    if forall|i: int| 0 <= i <= s.len() - pat.len() ==> #[trigger] s.subrange(i, i + pat.len())
        != pat {
        lemma_never_from(s, pat, 0);
    }
    if 0 <= k <= s.len() - pat.len() && s.subrange(k, k + pat.len()) == pat && (forall|i: int|
        0 <= i < k ==> #[trigger] s.subrange(i, i + pat.len()) != pat) {
        lemma_first_at(s, pat, 0, k);
    }
}

proof fn lemma_never_from(s: Seq<char>, pat: Seq<char>, from: int)
    requires
        0 <= from,
        forall|i: int|
            from <= i <= s.len() - pat.len() ==> #[trigger] s.subrange(i, i + pat.len()) != pat,
    ensures
        first_from(s, pat, from) is None,
    decreases s.len() - from + 1,
{
    if from + pat.len() <= s.len() {
        assert(s.subrange(from, from + pat.len()) != pat);
        lemma_never_from(s, pat, from + 1);
    }
}

proof fn lemma_first_at(s: Seq<char>, pat: Seq<char>, from: int, k: int)
    requires
        0 <= from <= k <= s.len() - pat.len(),
        s.subrange(k, k + pat.len()) == pat,
        forall|i: int| from <= i < k ==> #[trigger] s.subrange(i, i + pat.len()) != pat,
    ensures
        first_from(s, pat, from) == Some(k),
    decreases k - from,
{
    if from < k {
        assert(s.subrange(from, from + pat.len()) != pat);
        lemma_first_at(s, pat, from + 1, k);
    }
}

/// A line ends at its line feed, and the next begins behind it; a carriage return
/// before the line feed is no part of the line; what is not ended is a line where
/// there is any of it.
pub proof fn a_line_ends_at_its_feed(line: Seq<char>, rest: Seq<char>)
    requires
        !line.contains('\n'),
    ensures
        lines(line + seq!['\n'] + rest) == seq![without_return(line)] + lines(rest),
        line.len() > 0 ==> lines(line) == seq![line],
        lines(Seq::<char>::empty()) == Seq::<Seq<char>>::empty(),
        (line.len() == 0 || line.last() != '\r') ==> without_return(line) == line,
        without_return(line + seq!['\r']) == line,
{
    let s = line + seq!['\n'] + rest;
    let k = line.len() as int;
    assert(without_return(line + seq!['\r']) =~= line);
    lemma_first_char_of(s, '\n', 0);
    lemma_first_char_of(line, '\n', 0);
    lemma_first_char_of(Seq::<char>::empty(), '\n', 0);
    pieces_are_cut_at_every_separator(rest, '\n');
    let at = first_from(s, seq!['\n'], 0).unwrap();
    assert(s[k] == '\n');
    if at < k {
        assert(line[at] == s[at]);
        assert(line.contains('\n'));
    }
    assert(at == k);
    assert(s.take(k) =~= line);
    assert(s.skip(k + 1) =~= rest);
    let pieces = split(rest, '\n');
    assert(split(s, '\n') == seq![line] + pieces);
    assert(lines(s) =~= seq![without_return(line)] + lines(rest));
    assert(first_from(line, seq!['\n'], 0) is None) by {
        if first_from(line, seq!['\n'], 0) is Some {
            assert(line.contains(line[first_from(line, seq!['\n'], 0).unwrap()]));
        }
    }
    assert(split(line, '\n') =~= seq![line]);
    assert(line.len() > 0 ==> lines(line) =~= seq![line]);
    assert(lines(Seq::<char>::empty()) =~= Seq::<Seq<char>>::empty());
}

/// Every character that is no space stands in a word, in its order, and no word
/// holds a space or is empty.
pub proof fn words_are_what_is_between_spaces(s: Seq<char>)
    ensures
        concat_all(words(s)) == s.filter(|c: char| !is_space(c)),
        forall|k: int|
            0 <= k < words(s).len() ==> (#[trigger] words(s)[k]).len() > 0 && forall|i: int|
                0 <= i < words(s)[k].len() ==> !is_space(#[trigger] words(s)[k][i]),
{
    lemma_words_between(s, 0);
    assert(s.subrange(0, s.len() as int) =~= s);
}

proof fn lemma_words_between(s: Seq<char>, from: int)
    requires
        0 <= from <= s.len(),
    ensures
        concat_all(words_from(s, from)) == s.subrange(from, s.len() as int).filter(
            |c: char| !is_space(c),
        ),
        forall|k: int|
            0 <= k < words_from(s, from).len() ==> (#[trigger] words_from(s, from)[k]).len() > 0
                && forall|i: int|
                0 <= i < words_from(s, from)[k].len() ==> !is_space(
                    #[trigger] words_from(s, from)[k][i],
                ),
    decreases s.len() - from,
{
    let p = |c: char| !is_space(c);
    let n = s.len() as int;
    let a = space_end(s, from);
    lemma_space_end(s, from);
    lemma_space_run(s, from);
    lemma_none_kept(s.subrange(from, a), p);
    assert(s.subrange(from, n) =~= s.subrange(from, a) + s.subrange(a, n));
    Seq::filter_distributes_over_add(s.subrange(from, a), s.subrange(a, n), p);
    if a < n {
        let b = word_end(s, a);
        lemma_word_end(s, a);
        lemma_word_run(s, a);
        lemma_all_kept(s.subrange(a, b), p);
        assert(s.subrange(a, n) =~= s.subrange(a, b) + s.subrange(b, n));
        Seq::filter_distributes_over_add(s.subrange(a, b), s.subrange(b, n), p);
        lemma_words_between(s, b);
        let w = s.subrange(a, b);
        let rest = words_from(s, b);
        assert(words_from(s, from) == seq![w] + rest);
        parts_are_put_together_in_order(seq![w], rest, w);
        assert forall|k: int| 0 <= k < words_from(s, from).len() implies (#[trigger] words_from(
            s,
            from,
        )[k]).len() > 0 && forall|i: int|
            0 <= i < words_from(s, from)[k].len() ==> !is_space(
                #[trigger] words_from(s, from)[k][i],
            ) by {
            if k > 0 {
                assert(words_from(s, from)[k] == rest[k - 1]);
            }
        }
    } else {
        assert(s.subrange(a, n) =~= Seq::<char>::empty());
        lemma_none_kept(s.subrange(a, n), p);
        assert(words_from(s, from) =~= Seq::<Seq<char>>::empty());
    }
}

proof fn lemma_space_run(s: Seq<char>, from: int)
    requires
        0 <= from <= s.len(),
    ensures
        from <= space_end(s, from) <= s.len(),
        forall|i: int| from <= i < space_end(s, from) ==> is_space(#[trigger] s[i]),
        space_end(s, from) < s.len() ==> !is_space(s[space_end(s, from)]),
    decreases s.len() - from,
{
    if from < s.len() && is_space(s[from]) {
        lemma_space_run(s, from + 1);
    }
}

proof fn lemma_word_run(s: Seq<char>, from: int)
    requires
        0 <= from <= s.len(),
    ensures
        from <= word_end(s, from) <= s.len(),
        forall|i: int| from <= i < word_end(s, from) ==> !is_space(#[trigger] s[i]),
        from < s.len() && !is_space(s[from]) ==> from < word_end(s, from),
    decreases s.len() - from,
{
    if from < s.len() && !is_space(s[from]) {
        lemma_word_run(s, from + 1);
    }
}

proof fn lemma_none_kept(s: Seq<char>, p: spec_fn(char) -> bool)
    requires
        forall|i: int| 0 <= i < s.len() ==> !p(#[trigger] s[i]),
    ensures
        s.filter(p) == Seq::<char>::empty(),
    decreases s.len(),
{
    reveal(Seq::filter);
    if s.len() > 0 {
        lemma_none_kept(s.drop_last(), p);
        assert(!p(s[s.len() - 1]));
    } else {
        assert(s =~= Seq::<char>::empty());
    }
}

proof fn lemma_all_kept(s: Seq<char>, p: spec_fn(char) -> bool)
    requires
        forall|i: int| 0 <= i < s.len() ==> p(#[trigger] s[i]),
    ensures
        s.filter(p) == s,
    decreases s.len(),
{
    reveal(Seq::filter);
    if s.len() > 0 {
        lemma_all_kept(s.drop_last(), p);
        assert(p(s[s.len() - 1]));
        assert(s.drop_last().push(s.last()) =~= s);
    } else {
        assert(s =~= Seq::<char>::empty());
    }
}

/// Every one of a character at an end is taken off, and nothing else is.
pub proof fn an_end_is_taken_off_whole(s: Seq<char>, c: char)
    ensures
        without_trailing(s + seq![c], c) == without_trailing(s, c),
        s.len() == 0 || s.last() != c ==> without_trailing(s, c) == s,
        without_leading(seq![c] + s, c) == without_leading(s, c),
        s.len() == 0 || s[0] != c ==> without_leading(s, c) == s,
{
    assert((s + seq![c]).drop_last() =~= s);
    assert((seq![c] + s).skip(1) =~= s);
}

/// A text is a number where it is digits, after a plus sign or none, and each
/// digit counts the radix times the next.
pub proof fn a_number_is_digits(s: Seq<char>, c: char)
    requires
        s.len() > 0,
        forall|i: int| 0 <= i < s.len() ==> '0' <= #[trigger] s[i] <= '9',
    ensures
        numeral(s, 10) is Some,
        numeral(seq!['+'] + s, 10) == numeral(s, 10),
        '0' <= c <= '9' ==> numeral(s.push(c), 10) == Some(
            numeral(s, 10).unwrap() * 10 + (c as nat - '0' as nat) as nat,
        ),
        !('0' <= c <= '9') ==> numeral(s.push(c), 10) is None,
        numeral(Seq::<char>::empty(), 10) is None,
{
    assert((seq!['+'] + s).skip(1) =~= s);
    assert(s[0] != '+');
    let t = s.push(c);
    assert(t.drop_last() =~= s);
    assert(t[0] == s[0]);
    assert(unsigned_part(t) == t);
    if '0' <= c <= '9' {
        assert forall|i: int| 0 <= i < t.len() implies digit_value(#[trigger] t[i], 10) is Some by {
            if i < s.len() {
                assert(t[i] == s[i]);
            }
        }
    } else {
        assert(digit_value(t[s.len() as int], 10) is None);
    }
}

/// A text around a separator is cut into the pieces of what stands before it and
/// those of what stands behind.
pub proof fn a_separator_parts_the_pieces(a: Seq<char>, sep: char, b: Seq<char>)
    ensures
        split(a + seq![sep] + b, sep) == split(a, sep) + split(b, sep),
    decreases a.len(),
{
    let s = a + seq![sep] + b;
    lemma_first_char_of(s, sep, 0);
    lemma_first_char_of(a, sep, 0);
    assert(s[a.len() as int] == sep);
    let k = first_from(s, seq![sep], 0).unwrap();
    match first_from(a, seq![sep], 0) {
        Some(j) => {
            assert(s[j] == a[j]);
            if k < j {
                assert(a[k] == s[k]);
            }
            assert(k == j);
            let rest = a.skip(j + 1);
            a_separator_parts_the_pieces(rest, sep, b);
            assert(s.skip(j + 1) =~= rest + seq![sep] + b);
            assert(s.take(j) =~= a.take(j));
            assert(split(s, sep) =~= split(a, sep) + split(b, sep));
        },
        None => {
            if k < a.len() {
                assert(a[k] == s[k]);
            }
            assert(s.take(k) =~= a);
            assert(s.skip(k + 1) =~= b);
            assert(split(s, sep) =~= split(a, sep) + split(b, sep));
        },
    }
}

} // verus!
