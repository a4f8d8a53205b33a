//! IPv4 addresses and socket addresses as plain values.
use vstd::prelude::*;

use crate::text::{chars_of, push_decimal, split};

verus! {

/// An IPv4 address, by its four octets.
#[derive(Debug, Clone, Copy, PartialEq, Eq, Structural, Hash)]
pub struct Ipv4Address {
    pub a: u8,
    pub b: u8,
    pub c: u8,
    pub d: u8,
}

/// The octet that a decimal notation of one to three digits without leading zeros denotes.
pub open spec fn octet_of(s: Seq<char>) -> Option<u8> {
    if 1 <= s.len() <= 3 && crate::text::all_digits(s) && (s.len() == 1 || s[0] != '0')
        && crate::text::digits_value(s) <= 255 {
        Some(crate::text::digits_value(s) as u8)
    } else {
        None
    }
}

/// The address that a dotted notation denotes.
pub open spec fn ipv4_of(s: Seq<char>) -> Option<Ipv4Address> {
    let parts = crate::text::split_spec(s, '.');
    if parts.len() == 4 && octet_of(parts[0]) is Some && octet_of(parts[1]) is Some && octet_of(
        parts[2],
    ) is Some && octet_of(parts[3]) is Some {
        Some(
            Ipv4Address {
                a: octet_of(parts[0])->0,
                b: octet_of(parts[1])->0,
                c: octet_of(parts[2])->0,
                d: octet_of(parts[3])->0,
            },
        )
    } else {
        None
    }
}

fn parse_octet(s: &str) -> (r: Option<u8>)
    ensures
        r == octet_of(s@),
{
    let chars = chars_of(s);
    let n: usize = chars.len();
    if n < 1 || n > 3 {
        return None;
    }
    if n > 1 && chars[0] == '0' {
        return None;
    }
    let mut value: u32 = 0;
    let mut i: usize = 0;
    while i < n
        invariant
            chars@ == s@,
            n == chars@.len(),
            n <= 3,
            i <= n,
            forall|k: int| 0 <= k < i ==> crate::text::is_digit(#[trigger] s@[k]),
            value == crate::text::digits_value(s@.take(i as int)),
            i == 0 ==> value == 0,
            i == 1 ==> value <= 9,
            i == 2 ==> value <= 99,
            i == 3 ==> value <= 999,
        decreases n - i,
    {
        let c = chars[i];
        if !('0' <= c && c <= '9') {
            return None;
        }
        proof {
            assert(s@.take(i + 1).drop_last() =~= s@.take(i as int));
        }
        value = value * 10 + (c as u32 - 48);
        i = i + 1;
    }
    proof {
        assert(s@.take(n as int) =~= s@);
    }
    if value <= 255 {
        Some(value as u8)
    } else {
        None
    }
}

impl Ipv4Address {
    /// The dotted notation.
    pub open spec fn text(self) -> Seq<char> {
        crate::text::decimal(self.a as nat).push('.') + crate::text::decimal(self.b as nat).push(
            '.',
        ) + crate::text::decimal(self.c as nat).push('.') + crate::text::decimal(self.d as nat)
    }

    /// The address as a number, most significant octet first.
    pub open spec fn number(self) -> int {
        self.a * 0x100_0000 + self.b * 0x1_0000 + self.c * 0x100 + self.d
    }

    /// Makes an address from its octets.
    pub fn new(a: u8, b: u8, c: u8, d: u8) -> (r: Self)
        ensures
            r == (Ipv4Address { a, b, c, d }),
    {
        Ipv4Address { a, b, c, d }
    }

    /// The address whose octets a number holds, most significant octet first.
    pub open spec fn of_number(n: u32) -> Self {
        Ipv4Address {
            a: (n as int / 0x100_0000) as u8,
            b: (n as int / 0x1_0000 % 0x100) as u8,
            c: (n as int / 0x100 % 0x100) as u8,
            d: (n as int % 0x100) as u8,
        }
    }

    /// Makes an address from its number.
    pub fn from_number(n: u32) -> (r: Self)
        ensures
            r == Ipv4Address::of_number(n),
            r.number() == n,
    {
        Ipv4Address {
            a: (n / 0x100_0000) as u8,
            b: (n / 0x1_0000 % 0x100) as u8,
            c: (n / 0x100 % 0x100) as u8,
            d: (n % 0x100) as u8,
        }
    }

    /// Reads dotted notation: four decimal octets without leading zeros.
    pub fn parse(s: &str) -> (r: Option<Self>)
        ensures
            r == ipv4_of(s@),
    {
        let parts = split(s, '.');
        proof {
            assert(crate::text::views(parts@).len() == parts@.len());
            assert(forall|i: int|
                0 <= i < parts@.len() ==> #[trigger] crate::text::views(parts@)[i] == parts@[i]@);
        }
        if parts.len() != 4 {
            return None;
        }
        let a = parse_octet(parts[0].as_str());
        let b = parse_octet(parts[1].as_str());
        let c = parse_octet(parts[2].as_str());
        let d = parse_octet(parts[3].as_str());
        match (a, b, c, d) {
            (Some(a), Some(b), Some(c), Some(d)) => Some(Ipv4Address { a, b, c, d }),
            _ => None,
        }
    }

    /// Writes dotted notation.
    pub fn to_text(&self) -> (r: String)
        ensures
            r@ == self.text(),
    {
        let mut out = String::new();
        push_decimal(&mut out, self.a as u64);
        out.push('.');
        push_decimal(&mut out, self.b as u64);
        out.push('.');
        push_decimal(&mut out, self.c as u64);
        out.push('.');
        push_decimal(&mut out, self.d as u64);
        proof {
            assert(out@ =~= self.text());
        }
        out
    }

    /// Distinct addresses have distinct numbers.
    pub proof fn number_identifies(self, other: Self)
        ensures
            (self.number() == other.number()) == (self == other),
    {
        if self.number() == other.number() {
            let r = self.b * 0x1_0000 + self.c * 0x100 + self.d;
            let s = other.b * 0x1_0000 + other.c * 0x100 + other.d;
            assert(0 <= r < 0x100_0000 && 0 <= s < 0x100_0000);
            assert(self.a == other.a);
            assert(0 <= self.c * 0x100 + self.d < 0x1_0000);
            assert(0 <= other.c * 0x100 + other.d < 0x1_0000);
            assert(self.b == other.b);
            assert(self.c == other.c);
        }
    }

    /// An address that was written reads back.
    pub proof fn text_round_trips(self)
        ensures
            ipv4_of(self.text()) == Some(self),
    {
        lemma_octet(self.a);
        lemma_octet(self.b);
        lemma_octet(self.c);
        lemma_octet(self.d);
        let a = crate::text::decimal(self.a as nat);
        let b = crate::text::decimal(self.b as nat);
        let c = crate::text::decimal(self.c as nat);
        let d = crate::text::decimal(self.d as nat);
        let e = Seq::<char>::empty();
        let e0 = Seq::<Seq<char>>::empty();
        assert(crate::text::split_spec(e, '.') =~= seq![e]);
        lemma_split_append(e, a, '.');
        assert(e + a =~= a);
        assert(crate::text::split_spec(a, '.') =~= seq![a]);
        let s1 = a.push('.');
        assert(s1.drop_last() =~= a);
        assert(crate::text::split_spec(s1, '.') =~= seq![a, e]);
        lemma_split_append(s1, b, '.');
        assert(e + b =~= b);
        assert(crate::text::split_spec(s1 + b, '.') =~= seq![a, b]);
        let s2 = (s1 + b).push('.');
        assert(s2.drop_last() =~= s1 + b);
        assert(crate::text::split_spec(s2, '.') =~= seq![a, b, e]);
        lemma_split_append(s2, c, '.');
        assert(e + c =~= c);
        assert(crate::text::split_spec(s2 + c, '.') =~= seq![a, b, c]);
        let s3 = (s2 + c).push('.');
        assert(s3.drop_last() =~= s2 + c);
        assert(crate::text::split_spec(s3, '.') =~= seq![a, b, c, e]);
        lemma_split_append(s3, d, '.');
        assert(e + d =~= d);
        assert(crate::text::split_spec(s3 + d, '.') =~= seq![a, b, c, d]);
        assert(s3 + d =~= self.text());
    }
}

/// Appending text without separators extends the last part.
pub proof fn lemma_split_append(s: Seq<char>, t: Seq<char>, sep: char)
    requires
        !crate::text::contains_char(t, sep),
    ensures
        crate::text::split_spec(s + t, sep) == crate::text::split_spec(s, sep).drop_last().push(
            crate::text::split_spec(s, sep).last() + t,
        ),
    decreases t.len(),
{
    crate::text::lemma_split_nonempty(s, sep);
    let p = crate::text::split_spec(s, sep);
    if t.len() == 0 {
        assert(s + t =~= s);
        assert(p.last() + t =~= p.last());
        assert(p.drop_last().push(p.last()) =~= p);
    } else {
        let u = t.drop_last();
        assert(!crate::text::contains_char(u, sep)) by {
            assert forall|i: int| 0 <= i < u.len() implies u[i] != sep by {
                assert(u[i] == t[i]);
            }
        }
        lemma_split_append(s, u, sep);
        assert((s + t).drop_last() =~= s + u);
        assert((s + t).last() == t.last());
        assert(t.last() != sep);
        let q = crate::text::split_spec(s + u, sep);
        assert(q.drop_last() =~= p.drop_last());
        assert(q.last() == p.last() + u);
        assert((p.last() + u).push(t.last()) =~= p.last() + t);
    }
}

/// A byte's decimal notation has no dot and denotes the byte.
proof fn lemma_octet(n: u8)
    ensures
        octet_of(crate::text::decimal(n as nat)) == Some(n),
        !crate::text::contains_char(crate::text::decimal(n as nat), '.'),
{
    let s = crate::text::decimal(n as nat);
    crate::text::decimal_reads_back(n as nat, 255);
    reveal_with_fuel(crate::text::decimal, 4);
    crate::text::lemma_decimal_shape(n as nat);
    assert forall|i: int| 0 <= i < s.len() implies s[i] != '.' by {
        assert(crate::text::is_digit(s[i]));
    }
}

/// An IP address.
#[derive(Debug, Clone, Copy, PartialEq, Eq, Structural)]
pub enum IpAddress {
    V4(Ipv4Address),
    V6(u128),
}

/// A socket address.
#[derive(Debug, Clone, Copy, PartialEq, Eq, Structural)]
pub enum SocketAddress {
    V4 { ip: Ipv4Address, port: u16 },
    V6 { bits: u128, port: u16, flow_info: u32, scope_id: u32 },
}

impl SocketAddress {
    /// The address reaches only this machine: `127.0.0.0/8` or `::1`.
    pub open spec fn loopback(self) -> bool {
        match self {
            SocketAddress::V4 { ip, port } => ip.a == 127,
            SocketAddress::V6 { bits, port, flow_info, scope_id } => bits == 1,
        }
    }

    /// Tells whether the address reaches only this machine.
    pub fn is_loopback(&self) -> (r: bool)
        ensures
            r == self.loopback(),
    {
        match self {
            SocketAddress::V4 { ip, port } => ip.a == 127,
            SocketAddress::V6 { bits, port, flow_info, scope_id } => *bits == 1,
        }
    }
}

} // verus!
