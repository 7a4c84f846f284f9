//! Addresses: IPv4 values with their dotted text, and the grammar of IPv6.
use vstd::prelude::*;

use crate::text::{chars_of, decimal_of, digit_of, same, split_on, split_once};
use crate::text::{decimal, digit, digit_value, halves, lemma_decimal_is_digits, split, views};

verus! {

/// An IPv4 address.
#[derive(Debug, Clone, Copy, PartialEq, Eq, Structural)]
pub struct Ipv4 {
    /// The four octets, the first in the highest place.
    pub bits: u32,
}

/// One octet of an address, counted from the left.
pub open spec fn octet(bits: u32, place: int) -> nat {
    if place == 0 {
        (bits / 0x100_0000) as nat
    } else if place == 1 {
        (bits / 0x1_0000 % 0x100) as nat
    } else if place == 2 {
        (bits / 0x100 % 0x100) as nat
    } else {
        (bits % 0x100) as nat
    }
}

/// The dotted text of an address: four octets in decimal.
pub open spec fn dotted(bits: u32) -> Seq<char> {
    decimal(octet(bits, 0)) + "."@ + decimal(octet(bits, 1)) + "."@ + decimal(octet(bits, 2))
        + "."@ + decimal(octet(bits, 3))
}

/// The address whose dotted text is `s`, where there is one.
#[verifier::opaque]
pub open spec fn ipv4_of(s: Seq<char>) -> Option<u32> {
    if exists|bits: u32| dotted(bits) == s {
        Some(choose|bits: u32| dotted(bits) == s)
    } else {
        None
    }
}

impl Ipv4 {
    /// The dotted text.
    pub fn to_text(&self) -> (out: String)
        ensures
            out@ == dotted(self.bits),
    {
        let a = decimal_of((self.bits / 0x100_0000) as u64);
        let b = decimal_of((self.bits / 0x1_0000 % 0x100) as u64);
        let c = decimal_of((self.bits / 0x100 % 0x100) as u64);
        let d = decimal_of((self.bits % 0x100) as u64);
        a.concat(".").concat(b.as_str()).concat(".").concat(c.as_str()).concat(".").concat(
            d.as_str(),
        )
    }

    /// The address whose dotted text is `s`: four octets in decimal, none with
    /// a leading zero and none above 255.
    pub fn parse(s: &str) -> (r: Option<Ipv4>)
        ensures
            match r {
                Some(a) => ipv4_of(s@) == Some(a.bits) && s@ == dotted(a.bits),
                None => ipv4_of(s@) is None,
            },
    {
        proof {
            reveal(ipv4_of);
        }
        let text = chars_of(s);
        let mut whole: u64 = 0;
        let mut part: u64 = 0;
        let mut i: usize = 0;
        while i < text.len()
            invariant
                i <= text.len(),
                text@ == s@,
                whole < 0x1_0000_0000,
                part < 0x1_0000_0000,
                reading(s@.take(i as int)) == (whole as int, part as int),
            decreases text.len() - i,
        {
            proof {
                assert(s@.take(i + 1).drop_last() =~= s@.take(i as int));
                assert(s@.take(i + 1).last() == s@[i as int]);
            }
            match digit_of(text[i], 10) {
                Some(d) => {
                    part = (part * 10 + d as u64) % 0x1_0000_0000;
                },
                None => {
                    whole = (whole * 256 + part) % 0x1_0000_0000;
                    part = 0;
                },
            }
            i = i + 1;
        }
        let bits: u32 = ((whole * 256 + part) % 0x1_0000_0000) as u32;
        proof {
            assert(s@.take(i as int) =~= s@);
            assert forall|other: u32| dotted(other) == s@ implies other == bits by {
                lemma_read_back(other);
            }
        }
        let address = Ipv4 { bits };
        if same(address.to_text().as_str(), s) {
            Some(address)
        } else {
            None
        }
    }
}

/// Reading a text from the left as dotted decimal, modulo the address space:
/// the octets that a separator has closed, and the one still open.
pub closed spec fn reading(s: Seq<char>) -> (int, int)
    decreases s.len(),
{
    if s.len() == 0 {
        (0, 0)
    } else {
        let (whole, part) = reading(s.drop_last());
        match digit_value(s.last(), 10) {
            Some(d) => (whole, (part * 10 + d) % 0x1_0000_0000),
            None => ((whole * 256 + part) % 0x1_0000_0000, 0),
        }
    }
}

proof fn lemma_reading_number(s: Seq<char>, n: nat)
    requires
        n < 256,
        reading(s).1 == 0,
    ensures
        reading(s + decimal(n)) == (reading(s).0, n as int),
    decreases n,
{
    let next = s + decimal(n);
    assert(digit_value(digit(n % 10), 10) == Some(n % 10));
    if n < 10 {
        assert(next.drop_last() =~= s);
        assert(next.last() == digit(n));
    } else {
        lemma_reading_number(s, n / 10);
        assert(next.drop_last() =~= s + decimal(n / 10));
        assert(next.last() == digit(n % 10));
    }
}

proof fn lemma_reading_dot(s: Seq<char>)
    ensures
        reading(s + "."@) == ((reading(s).0 * 256 + reading(s).1) % 0x1_0000_0000, 0int),
{
    reveal_strlit(".");
    assert((s + "."@).drop_last() =~= s);
    assert((s + "."@).last() == '.');
}

proof fn lemma_octets(bits: u32)
    ensures
        bits == octet(bits, 0) * 0x100_0000 + octet(bits, 1) * 0x1_0000 + octet(bits, 2) * 0x100
            + octet(bits, 3),
        octet(bits, 0) < 256,
        octet(bits, 1) < 256,
        octet(bits, 2) < 256,
        octet(bits, 3) < 256,
{
}

/// Reading the dotted text of an address gives the address back.
#[verifier::spinoff_prover]
#[verifier::rlimit(40)]
proof fn lemma_read_back(bits: u32)
    ensures
        ({
            let (whole, part) = reading(dotted(bits));
            (whole * 256 + part) % 0x1_0000_0000 == bits
        }),
{
    let (a, b, c, d) = (octet(bits, 0), octet(bits, 1), octet(bits, 2), octet(bits, 3));
    lemma_octets(bits);
    let s0 = Seq::<char>::empty();
    lemma_reading_number(s0, a);
    assert(s0 + decimal(a) =~= decimal(a));
    let s1 = decimal(a) + "."@;
    lemma_reading_dot(decimal(a));
    lemma_reading_number(s1, b);
    let s2 = s1 + decimal(b) + "."@;
    lemma_reading_dot(s1 + decimal(b));
    lemma_reading_number(s2, c);
    let s3 = s2 + decimal(c) + "."@;
    lemma_reading_dot(s2 + decimal(c));
    lemma_reading_number(s3, d);
    let (whole, part) = reading(s3 + decimal(d));
    assert(whole == a * 0x1_0000 + b * 0x100 + c);
    assert(part == d);
}

/// Two addresses with the same dotted text are the same address.
pub proof fn dotted_text_is_unique(a: u32, b: u32)
    requires
        dotted(a) == dotted(b),
    ensures
        a == b,
{
    lemma_read_back(a);
    lemma_read_back(b);
}

/// The dotted text of an address is written in digits and dots.
pub proof fn dotted_text_is_digits_and_dots(bits: u32)
    ensures
        forall|i: int|
            0 <= i < dotted(bits).len() ==> (#[trigger] dotted(bits)[i]) == '.' || 48
                <= dotted(bits)[i] as int <= 57,
{
    reveal_strlit(".");
    lemma_decimal_is_digits(octet(bits, 0));
    lemma_decimal_is_digits(octet(bits, 1));
    lemma_decimal_is_digits(octet(bits, 2));
    lemma_decimal_is_digits(octet(bits, 3));
}

/// The dotted text of an address reads back as that address.
pub proof fn dotted_text_reads_back(bits: u32)
    ensures
        ipv4_of(dotted(bits)) == Some(bits),
{
    reveal(ipv4_of);
    let found = choose|other: u32| dotted(other) == dotted(bits);
    assert(dotted(found) == dotted(bits));
    dotted_text_is_unique(found, bits);
}

// ---- IPv6 ----

/// Whether `c` is a hexadecimal digit.
pub open spec fn is_hex(c: char) -> bool {
    let n = c as int;
    48 <= n <= 57 || 65 <= n <= 70 || 97 <= n <= 102
}

/// One to four hexadecimal digits.
pub open spec fn is_group(s: Seq<char>) -> bool {
    1 <= s.len() <= 4 && forall|i: int| 0 <= i < s.len() ==> is_hex(#[trigger] s[i])
}

/// How many groups the colon-separated pieces `0..n` fill, where each is a
/// group and the last of all may be an IPv4 address, which fills two.
pub open spec fn groups(pieces: Seq<Seq<char>>, n: int, dotted_tail: bool) -> Option<nat>
    decreases n,
{
    if n <= 0 {
        Some(0)
    } else {
        let piece = pieces[n - 1];
        match groups(pieces, n - 1, dotted_tail) {
            Some(count) => if is_group(piece) {
                Some(count + 1)
            } else if dotted_tail && n == pieces.len() && ipv4_of(piece) is Some {
                Some(count + 2)
            } else {
                None
            },
            None => None,
        }
    }
}

/// How many groups a text without `::` fills; an empty text fills none.
pub open spec fn run_of_groups(s: Seq<char>, dotted_tail: bool) -> Option<nat> {
    if s.len() == 0 {
        Some(0)
    } else {
        let pieces = split(s, ':');
        groups(pieces, pieces.len() as int, dotted_tail)
    }
}

/// The textual forms of an IPv6 address: eight groups, or fewer with one `::`
/// standing for at least one group of zeros. An IPv4 address may end either.
pub open spec fn is_ipv6(s: Seq<char>) -> bool {
    match halves(s, "::"@) {
        Some((head, tail)) => match (run_of_groups(head, false), run_of_groups(tail, true)) {
            (Some(a), Some(b)) => a + b <= 7,
            _ => false,
        },
        None => run_of_groups(s, true) == Some(8nat),
    }
}

fn hex(c: char) -> (r: bool)
    ensures
        r == is_hex(c),
{
    let n: u32 = c as u32;
    (48 <= n && n <= 57) || (65 <= n && n <= 70) || (97 <= n && n <= 102)
}

fn group(s: &str) -> (r: bool)
    ensures
        r == is_group(s@),
{
    let text = chars_of(s);
    if text.len() == 0 || text.len() > 4 {
        return false;
    }
    let mut i: usize = 0;
    while i < text.len()
        invariant
            i <= text.len(),
            text@ == s@,
            forall|k: int| 0 <= k < i ==> is_hex(#[trigger] s@[k]),
        decreases text.len() - i,
    {
        if !hex(text[i]) {
            proof {
                assert(!is_hex(s@[i as int]));
            }
            return false;
        }
        i = i + 1;
    }
    true
}

fn count_groups(s: &str, dotted_tail: bool) -> (r: Option<u128>)
    ensures
        match r {
            Some(n) => run_of_groups(s@, dotted_tail) == Some(n as nat),
            None => run_of_groups(s@, dotted_tail) is None,
        },
{
    if s.is_empty() {
        return Some(0);
    }
    let pieces = split_on(s, ':');
    let ghost all = split(s@, ':');
    let mut count: u128 = 0;
    let mut i: usize = 0;
    while i < pieces.len()
        invariant
            i <= pieces.len(),
            s@.len() > 0,
            all == split(s@, ':'),
            views(pieces@) == all,
            count <= 2 * i,
            groups(all, i as int, dotted_tail) == Some(count as nat),
        decreases pieces.len() - i,
    {
        proof {
            assert(all[i as int] == pieces@[i as int]@);
            if groups(all, i + 1, dotted_tail) is None {
                lemma_groups_none(all, i + 1, dotted_tail);
            }
        }
        if group(pieces[i].as_str()) {
            count = count + 1;
        } else if dotted_tail && i + 1 == pieces.len() {
            if Ipv4::parse(pieces[i].as_str()).is_none() {
                return None;
            }
            count = count + 2;
        } else {
            return None;
        }
        i = i + 1;
    }
    Some(count)
}

proof fn lemma_groups_none(pieces: Seq<Seq<char>>, n: int, dotted_tail: bool)
    requires
        0 <= n <= pieces.len(),
        groups(pieces, n, dotted_tail) is None,
    ensures
        groups(pieces, pieces.len() as int, dotted_tail) is None,
    decreases pieces.len() - n,
{
    if n < pieces.len() {
        lemma_groups_none(pieces, n + 1, dotted_tail);
    }
}

/// Whether `s` is the text of an IPv6 address.
pub fn ipv6(s: &str) -> (r: bool)
    ensures
        r == is_ipv6(s@),
{
    match split_once(s, "::") {
        Some(h) => match (count_groups(h.0.as_str(), false), count_groups(h.1.as_str(), true)) {
            (Some(a), Some(b)) => a <= 7 && b <= 7 - a,
            _ => false,
        },
        None => match count_groups(s, true) {
            Some(n) => n == 8,
            None => false,
        },
    }
}

// ---- laws of the addresses ----

proof fn lemma_four_octets(a: int, b: int, c: int, d: int)
    requires
        0 <= a < 256,
        0 <= b < 256,
        0 <= c < 256,
        0 <= d < 256,
    ensures
        ({
            let bits = (a * 0x100_0000 + b * 0x1_0000 + c * 0x100 + d) as u32;
            &&& octet(bits, 0) == a
            &&& octet(bits, 1) == b
            &&& octet(bits, 2) == c
            &&& octet(bits, 3) == d
        }),
{
    let n = a * 0x100_0000 + b * 0x1_0000 + c * 0x100 + d;
    assert(n / 0x100 == a * 0x1_0000 + b * 0x100 + c);
    assert(n / 0x1_0000 == a * 0x100 + b);
    assert(n / 0x100_0000 == a);
}

/// An address is written as its four bytes, the first the highest, and is read
/// so.
pub proof fn an_address_is_its_four_bytes(a: u8, b: u8, c: u8, d: u8)
    ensures
        ({
            let bits = (a * 0x100_0000 + b * 0x1_0000 + c * 0x100 + d) as u32;
            let text = decimal(a as nat) + "."@ + decimal(b as nat) + "."@ + decimal(c as nat)
                + "."@ + decimal(d as nat);
            &&& dotted(bits) == text
            &&& ipv4_of(text) == Some(bits)
        }),
{
    let bits = (a * 0x100_0000 + b * 0x1_0000 + c * 0x100 + d) as u32;
    lemma_four_octets(a as int, b as int, c as int, d as int);
    dotted_text_reads_back(bits);
}

/// A group is of one to four hexadecimal digits, in capitals or not.
pub proof fn a_group_is_of_hexadecimal_digits(s: Seq<char>)
    ensures
        is_group(s) <==> 1 <= s.len() <= 4 && forall|i: int|
            0 <= i < s.len() ==> '0' <= #[trigger] s[i] <= '9' || 'a' <= s[i] <= 'f' || 'A' <= s[i]
                <= 'F',
{
    assert forall|i: int| 0 <= i < s.len() implies (is_hex(#[trigger] s[i]) <==> ('0' <= s[i]
        <= '9' || 'a' <= s[i] <= 'f' || 'A' <= s[i] <= 'F')) by {}
}

} // verus!
