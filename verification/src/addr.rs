//! Network addresses, and the literals that name them.

use crate::ascii::{DIGIT_0, DIGIT_9, DOT, PLUS};
use crate::bytes::{
    find_byte, lemma_split_on_concat, lemma_split_on_single, lemma_split_on_some,
    lemma_split_on_step, split_on,
};
use crate::text::{ascii_bytes, decimal_text, digit_char, lemma_ascii_bytes, lemma_ascii_concat};
use vstd::prelude::*;
use vstd::slice::slice_subrange;
use vstd::utf8::{encode_utf8, is_ascii_chars};

verus! {

/// An IPv4 address: its four octets, first to last.
#[derive(Clone, Copy, Debug, PartialEq, Eq, Structural)]
pub struct Ipv4Address(pub u8, pub u8, pub u8, pub u8);

/// An IPv6 address: its eight groups, first to last.
#[derive(Clone, Copy, Debug, PartialEq, Eq, Structural)]
pub struct Ipv6Address(pub u16, pub u16, pub u16, pub u16, pub u16, pub u16, pub u16, pub u16);

/// A network address of either family.
#[derive(Clone, Copy, Debug, PartialEq, Eq, Structural)]
pub enum IpAddress {
    V4(Ipv4Address),
    V6(Ipv6Address),
}

/// The address family that a socket is created for.
#[derive(Clone, Copy, Debug, PartialEq, Eq, Structural)]
pub enum IpFamily {
    V4,
    V6,
}

/// An address and a port. An IPv6 socket address also carries flow
/// information and a scope.
#[allow(inconsistent_fields)]
#[derive(Clone, Copy, Debug, PartialEq, Eq, Structural)]
pub enum SocketAddress {
    V4 { address: Ipv4Address, port: u16 },
    V6 { address: Ipv6Address, port: u16, flow_info: u32, scope_id: u32 },
}

impl IpAddress {
    /// The family of this address.
    pub open spec fn family_of(self) -> IpFamily {
        match self {
            IpAddress::V4(_) => IpFamily::V4,
            IpAddress::V6(_) => IpFamily::V6,
        }
    }

    /// This address with a port. An IPv6 address gets no flow information
    /// and no scope.
    pub open spec fn at_port(self, port: u16) -> SocketAddress {
        match self {
            IpAddress::V4(address) => SocketAddress::V4 { address, port },
            IpAddress::V6(address) => SocketAddress::V6 {
                address,
                port,
                flow_info: 0,
                scope_id: 0,
            },
        }
    }

    /// The family of this address.
    pub fn family(&self) -> (r: IpFamily)
        ensures
            r == self.family_of(),
    {
        match self {
            IpAddress::V4(_) => IpFamily::V4,
            IpAddress::V6(_) => IpFamily::V6,
        }
    }

    /// Pairs this address with a port.
    pub fn with_port(&self, port: u16) -> (r: SocketAddress)
        ensures
            r == self.at_port(port),
            r.family_of() == self.family_of(),
    {
        match *self {
            IpAddress::V4(address) => SocketAddress::V4 { address, port },
            IpAddress::V6(address) => SocketAddress::V6 {
                address,
                port,
                flow_info: 0,
                scope_id: 0,
            },
        }
    }
}

impl SocketAddress {
    /// The family of this socket address.
    pub open spec fn family_of(self) -> IpFamily {
        match self {
            SocketAddress::V4 { .. } => IpFamily::V4,
            SocketAddress::V6 { .. } => IpFamily::V6,
        }
    }

    /// The family that a socket for this address is created in.
    pub fn family(&self) -> (r: IpFamily)
        ensures
            r == self.family_of(),
    {
        match self {
            SocketAddress::V4 { .. } => IpFamily::V4,
            SocketAddress::V6 { .. } => IpFamily::V6,
        }
    }
}

/// Whether `b` is an ASCII decimal digit.
pub open spec fn is_digit(b: u8) -> bool {
    DIGIT_0 <= b <= DIGIT_9
}

/// Whether `s` holds decimal digits only.
pub open spec fn all_digits(s: Seq<u8>) -> bool {
    forall|i: int| 0 <= i < s.len() ==> is_digit(#[trigger] s[i])
}

/// The number that a run of decimal digits writes.
pub open spec fn digits_value(s: Seq<u8>) -> nat
    decreases s.len(),
{
    if s.len() == 0 {
        0
    } else {
        digits_value(s.drop_last()) * 10 + (s.last() - DIGIT_0) as nat
    }
}

/// A numeral without the plus sign that may lead it.
pub open spec fn unsigned_part(s: Seq<u8>) -> Seq<u8> {
    if s.len() > 0 && s[0] == PLUS {
        s.drop_first()
    } else {
        s
    }
}

/// The number that `s` writes, if `s` is a numeral for at most `max`: one
/// or more decimal digits, after a plus sign or none. Leading zeros count
/// for nothing.
pub open spec fn decimal_value(s: Seq<u8>, max: nat) -> Option<nat> {
    let digits = unsigned_part(s);
    if digits.len() > 0 && all_digits(digits) && digits_value(digits) <= max {
        Some(digits_value(digits))
    } else {
        None
    }
}

/// A run of digits is worth at least as much as any of its beginnings.
pub proof fn lemma_digits_value_grows(s: Seq<u8>, k: int)
    requires
        all_digits(s),
        0 <= k <= s.len(),
    ensures
        digits_value(s.take(k)) <= digits_value(s),
    decreases s.len() - k,
{
    if k < s.len() {
        lemma_digits_value_grows(s, k + 1);
        assert(s.take(k + 1).drop_last() == s.take(k));
        assert(is_digit(s[k]));
    } else {
        assert(s.take(k) == s);
    }
}

/// Reads a numeral for at most `max`.
pub fn parse_decimal(bytes: &[u8], max: u32) -> (r: Option<u32>)
    ensures
        r matches Some(v) ==> decimal_value(bytes@, max as nat) == Some(v as nat),
        r is None ==> decimal_value(bytes@, max as nat) is None,
{
    let n = bytes.len();
    let first: usize = if n > 0 && bytes[0] == PLUS {
        1
    } else {
        0
    };
    let ghost digits = unsigned_part(bytes@);
    assert(digits == bytes@.subrange(first as int, n as int));
    if first == n {
        return None;
    }
    let mut value: u64 = 0;
    let mut i: usize = first;
    assert(digits.take(0) == Seq::<u8>::empty());
    while i < n
        invariant
            n == bytes@.len(),
            first <= i <= n,
            digits == bytes@.subrange(first as int, n as int),
            digits == unsigned_part(bytes@),
            all_digits(digits.take(i - first)),
            value == digits_value(digits.take(i - first)),
            value <= max,
        decreases n - i,
    {
        let b = bytes[i];
        let ghost before = digits.take(i - first);
        let ghost after = digits.take(i - first + 1);
        assert(after.drop_last() == before);
        assert(after.last() == b);
        if b < DIGIT_0 || b > DIGIT_9 {
            assert(!is_digit(digits[i - first]));
            return None;
        }
        assert(all_digits(after)) by {
            assert forall|j: int| 0 <= j < after.len() implies is_digit(#[trigger] after[j]) by {
                if j < before.len() {
                    assert(after[j] == before[j]);
                }
            }
        }
        let next: u64 = value * 10 + (b - DIGIT_0) as u64;
        if next > max as u64 {
            proof {
                assert(digits_value(after) == next);
                if all_digits(digits) {
                    lemma_digits_value_grows(digits, i - first + 1);
                }
            }
            return None;
        }
        value = next;
        i += 1;
    }
    assert(digits.take(n - first) == digits);
    Some(value as u32)
}

/// The address that a dotted quad writes: four numerals for at most 255
/// each, with a dot between them.
pub open spec fn dotted_quad(s: Seq<u8>) -> Option<(u8, u8, u8, u8)> {
    let fields = split_on(s, DOT);
    if fields.len() == 4 && decimal_value(fields[0], 255) is Some && decimal_value(
        fields[1],
        255,
    ) is Some && decimal_value(fields[2], 255) is Some && decimal_value(fields[3], 255) is Some {
        Some(
            (
                decimal_value(fields[0], 255)->0 as u8,
                decimal_value(fields[1], 255)->0 as u8,
                decimal_value(fields[2], 255)->0 as u8,
                decimal_value(fields[3], 255)->0 as u8,
            ),
        )
    } else {
        None
    }
}

/// Reads an IPv4 address written as a dotted quad.
pub fn parse_ipv4(s: &str) -> (r: Option<(u8, u8, u8, u8)>)
    ensures
        r == dotted_quad(encode_utf8(s@)),
{
    let bytes = s.as_bytes();
    let n = bytes.len();
    let ghost all = bytes@;
    assert(all.subrange(0, n as int) == all);
    let d1 = find_byte(bytes, 0, DOT);
    proof {
        lemma_split_on_step(all, DOT, 0, d1 as int);
    }
    if d1 >= n {
        return None;
    }
    let d2 = find_byte(bytes, d1 + 1, DOT);
    proof {
        lemma_split_on_step(all, DOT, d1 + 1, d2 as int);
    }
    if d2 >= n {
        return None;
    }
    let d3 = find_byte(bytes, d2 + 1, DOT);
    proof {
        lemma_split_on_step(all, DOT, d2 + 1, d3 as int);
    }
    if d3 >= n {
        return None;
    }
    let d4 = find_byte(bytes, d3 + 1, DOT);
    proof {
        lemma_split_on_step(all, DOT, d3 + 1, d4 as int);
        if d4 < n {
            lemma_split_on_some(all.subrange(d4 + 1, n as int), DOT);
        }
    }
    if d4 < n {
        return None;
    }
    assert(split_on(all, DOT) == seq![
        all.subrange(0, d1 as int),
        all.subrange(d1 + 1, d2 as int),
        all.subrange(d2 + 1, d3 as int),
        all.subrange(d3 + 1, n as int),
    ]);
    let a = parse_decimal(slice_subrange(bytes, 0, d1), 255);
    let b = parse_decimal(slice_subrange(bytes, d1 + 1, d2), 255);
    let c = parse_decimal(slice_subrange(bytes, d2 + 1, d3), 255);
    let d = parse_decimal(slice_subrange(bytes, d3 + 1, n), 255);
    match (a, b, c, d) {
        (Some(a), Some(b), Some(c), Some(d)) => Some((a as u8, b as u8, c as u8, d as u8)),
        _ => None,
    }
}

/// Reads a port number: a numeral for at most 65535.
pub fn parse_port(s: &str) -> (r: Option<u16>)
    ensures
        r matches Some(p) ==> decimal_value(encode_utf8(s@), 0xFFFF) == Some(p as nat),
        r is None ==> decimal_value(encode_utf8(s@), 0xFFFF) is None,
{
    match parse_decimal(s.as_bytes(), 0xFFFF) {
        Some(v) => Some(v as u16),
        None => None,
    }
}

/// The digits that write `n` in decimal, without leading zeros.
pub open spec fn decimal_digits(n: nat) -> Seq<u8>
    decreases n,
{
    if n < 10 {
        seq![(DIGIT_0 + n) as u8]
    } else {
        decimal_digits(n / 10).push((DIGIT_0 + n % 10) as u8)
    }
}

/// The decimal digits of a number are digits, there is at least one, and
/// they write that number.
pub proof fn lemma_decimal_digits(n: nat)
    ensures
        decimal_digits(n).len() > 0,
        all_digits(decimal_digits(n)),
        digits_value(decimal_digits(n)) == n,
    decreases n,
{
    let digits = decimal_digits(n);
    if n < 10 {
        assert(digits.drop_last() == Seq::<u8>::empty());
        assert(digits_value(digits.drop_last()) == 0);
    } else {
        lemma_decimal_digits(n / 10);
        let front = decimal_digits(n / 10);
        assert(digits.drop_last() == front);
        assert forall|i: int| 0 <= i < digits.len() implies is_digit(#[trigger] digits[i]) by {
            if i < front.len() {
                assert(digits[i] == front[i]);
            }
        }
    }
}

/// The decimal numeral of a number is ASCII, and its bytes are the
/// number's decimal digits.
pub proof fn lemma_decimal_text_bytes(n: nat)
    ensures
        is_ascii_chars(decimal_text(n)),
        encode_utf8(decimal_text(n)) == decimal_digits(n),
    decreases n,
{
    let text = decimal_text(n);
    let last = if n < 10 {
        n
    } else {
        n % 10
    };
    assert(digit_char(last) as u8 == DIGIT_0 + last);
    if n < 10 {
        assert(is_ascii_chars(text));
        lemma_ascii_bytes(text);
        assert(ascii_bytes(text) == decimal_digits(n));
    } else {
        lemma_decimal_text_bytes(n / 10);
        let front = decimal_text(n / 10);
        lemma_ascii_bytes(front);
        assert forall|i: int| 0 <= i < text.len() implies '\0' <= #[trigger] text[i]
            <= '\u{7f}' by {
            if i < front.len() {
                assert(text[i] == front[i]);
            }
        }
        lemma_ascii_bytes(text);
        assert(ascii_bytes(text) == ascii_bytes(front).push(digit_char(last) as u8));
    }
}

/// The numeral of a number within the bound reads as that number.
pub proof fn lemma_decimal_value_of_digits(n: nat, max: nat)
    requires
        n <= max,
    ensures
        decimal_value(decimal_digits(n), max) == Some(n),
        forall|j: int| 0 <= j < decimal_digits(n).len() ==> decimal_digits(n)[j] != DOT,
{
    lemma_decimal_digits(n);
    let digits = decimal_digits(n);
    assert(is_digit(digits[0]));
    assert forall|j: int| 0 <= j < digits.len() implies digits[j] != DOT by {
        assert(is_digit(digits[j]));
    }
}

/// The dotted quad that writes four octets: their decimal numerals with a
/// dot between them.
pub open spec fn quad_text(a: u8, b: u8, c: u8, d: u8) -> Seq<char> {
    decimal_text(a as nat) + seq!['.'] + decimal_text(b as nat) + seq!['.'] + decimal_text(
        c as nat,
    ) + seq!['.'] + decimal_text(d as nat)
}

/// The bytes of a dotted quad: the digits of its octets with a dot between
/// them.
proof fn lemma_quad_bytes(a: u8, b: u8, c: u8, d: u8)
    ensures
        encode_utf8(quad_text(a, b, c, d)) == decimal_digits(a as nat) + seq![DOT]
            + decimal_digits(b as nat) + seq![DOT] + decimal_digits(c as nat) + seq![DOT]
            + decimal_digits(d as nat),
{
    let dot = seq!['.'];
    assert(is_ascii_chars(dot));
    lemma_ascii_bytes(dot);
    assert(ascii_bytes(dot) == seq![DOT]);
    lemma_decimal_text_bytes(a as nat);
    lemma_decimal_text_bytes(b as nat);
    lemma_decimal_text_bytes(c as nat);
    lemma_decimal_text_bytes(d as nat);
    let t1 = decimal_text(a as nat) + dot;
    lemma_ascii_concat(decimal_text(a as nat), dot);
    let t2 = t1 + decimal_text(b as nat);
    lemma_ascii_concat(t1, decimal_text(b as nat));
    let t3 = t2 + dot;
    lemma_ascii_concat(t2, dot);
    let t4 = t3 + decimal_text(c as nat);
    lemma_ascii_concat(t3, decimal_text(c as nat));
    let t5 = t4 + dot;
    lemma_ascii_concat(t4, dot);
    lemma_ascii_concat(t5, decimal_text(d as nat));
}

/// Four fields without a dot, with a dot between them, split into those
/// four fields.
proof fn lemma_split_quad(a: Seq<u8>, b: Seq<u8>, c: Seq<u8>, d: Seq<u8>)
    requires
        forall|j: int| 0 <= j < a.len() ==> a[j] != DOT,
        forall|j: int| 0 <= j < b.len() ==> b[j] != DOT,
        forall|j: int| 0 <= j < c.len() ==> c[j] != DOT,
        forall|j: int| 0 <= j < d.len() ==> d[j] != DOT,
    ensures
        split_on(a + seq![DOT] + b + seq![DOT] + c + seq![DOT] + d, DOT) == seq![a, b, c, d],
{
    let tail2 = c + seq![DOT] + d;
    let tail1 = b + seq![DOT] + tail2;
    let whole = a + seq![DOT] + tail1;
    assert(a + seq![DOT] + b + seq![DOT] + c + seq![DOT] + d =~= whole);
    lemma_split_on_concat(a, tail1, DOT);
    lemma_split_on_concat(b, tail2, DOT);
    lemma_split_on_concat(c, d, DOT);
    lemma_split_on_single(d, DOT);
    assert(seq![a] + (seq![b] + (seq![c] + seq![d])) =~= seq![a, b, c, d]);
}

/// Every dotted quad of four octets reads as those octets.
pub proof fn lemma_quad_reads_back(a: u8, b: u8, c: u8, d: u8)
    ensures
        dotted_quad(encode_utf8(quad_text(a, b, c, d))) == Some((a, b, c, d)),
{
    lemma_quad_bytes(a, b, c, d);
    lemma_decimal_value_of_digits(a as nat, 255);
    lemma_decimal_value_of_digits(b as nat, 255);
    lemma_decimal_value_of_digits(c as nat, 255);
    lemma_decimal_value_of_digits(d as nat, 255);
    lemma_split_quad(
        decimal_digits(a as nat),
        decimal_digits(b as nat),
        decimal_digits(c as nat),
        decimal_digits(d as nat),
    );
}

} // verus!
