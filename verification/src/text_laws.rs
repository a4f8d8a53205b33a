//! How texts are cut up and read.
use vstd::prelude::*;

use crate::addr::{Ipv4Address, SocketAddress};
use crate::domain::{ConnectionState, DomainConfidence, DomainSource, FlowDirection};

verus! {

/// The character is blank.
pub open spec fn is_blank(c: char) -> bool {
    let n = c as u32;
    if n < 0x80 {
        n == 9 || n == 10 || n == 11 || n == 12 || n == 13 || n == 32
    } else if n < 0x2000 {
        n == 0x85 || n == 0xa0 || n == 0x1680
    } else {
        n < 0x200b || n == 0x2028 || n == 0x2029 || n == 0x202f || n == 0x205f || n == 0x3000
    }
}

/// The part of a text from one place to another is what is left when the blanks are taken off its
/// ends.
pub open spec fn is_core(s: Seq<char>, from: int, to: int) -> bool {
    &&& 0 <= from <= to <= s.len()
    &&& forall|i: int| (0 <= i < from || to <= i < s.len()) ==> is_blank(#[trigger] s[i])
    &&& from < to ==> !is_blank(s[from]) && !is_blank(s[to - 1])
}

proof fn lemma_start(s: Seq<char>) -> (from: int)
    ensures
        0 <= from <= s.len(),
        crate::text::trim_start_spec(s) == s.skip(from),
        forall|i: int| 0 <= i < from ==> is_blank(#[trigger] s[i]),
        from < s.len() ==> !is_blank(s[from]),
    decreases s.len(),
{
    if s.len() > 0 && crate::text::is_whitespace_spec(s[0]) {
        let rest = s.drop_first();
        let n = lemma_start(rest);
        assert(rest.skip(n) =~= s.skip(n + 1));
        assert forall|i: int| 0 <= i < n + 1 implies is_blank(#[trigger] s[i]) by {
            if i > 0 {
                assert(s[i] == rest[i - 1]);
            }
        }
        n + 1
    } else {
        assert(s.skip(0) =~= s);
        0
    }
}

proof fn lemma_end(s: Seq<char>) -> (to: int)
    ensures
        0 <= to <= s.len(),
        crate::text::trim_end_spec(s) == s.take(to),
        forall|i: int| to <= i < s.len() ==> is_blank(#[trigger] s[i]),
        to > 0 ==> !is_blank(s[to - 1]),
    decreases s.len(),
{
    if s.len() > 0 && crate::text::is_whitespace_spec(s.last()) {
        let rest = s.drop_last();
        let n = lemma_end(rest);
        assert(rest.take(n) =~= s.take(n));
        assert forall|i: int| n <= i < s.len() implies is_blank(#[trigger] s[i]) by {
            if i < s.len() - 1 {
                assert(s[i] == rest[i]);
            }
        }
        n
    } else {
        assert(s.take(s.len() as int) =~= s);
        s.len() as int
    }
}

/// Trimming takes the blanks off both ends of a text, all of them and nothing else.
pub proof fn trimming_takes_off_blanks(s: Seq<char>)
    ensures
        exists|from: int, to: int|
            #[trigger] is_core(s, from, to) && crate::text::trim_spec(s)
                == s.subrange(from, to),
{
    let from = lemma_start(s);
    let rest = s.skip(from);
    let n = lemma_end(rest);
    let to = from + n;
    assert(rest.take(n) =~= s.subrange(from, to));
    assert forall|i: int| (0 <= i < from || to <= i < s.len()) implies is_blank(
        #[trigger] s[i],
    ) by {
        if i >= to {
            assert(s[i] == rest[i - from]);
        }
    }
    if from < to {
        assert(rest[n - 1] == s[to - 1]);
    }
    assert(is_core(s, from, to));
}

proof fn lemma_start_char(s: Seq<char>, c: char) -> (from: int)
    ensures
        0 <= from <= s.len(),
        crate::text::trim_start_char_spec(s, c) == s.skip(from),
        forall|i: int| 0 <= i < from ==> #[trigger] s[i] == c,
        from < s.len() ==> s[from] != c,
    decreases s.len(),
{
    if s.len() > 0 && s[0] == c {
        let rest = s.drop_first();
        let n = lemma_start_char(rest, c);
        assert(rest.skip(n) =~= s.skip(n + 1));
        assert forall|i: int| 0 <= i < n + 1 implies #[trigger] s[i] == c by {
            if i > 0 {
                assert(s[i] == rest[i - 1]);
            }
        }
        n + 1
    } else {
        assert(s.skip(0) =~= s);
        0
    }
}

proof fn lemma_end_char(s: Seq<char>, c: char) -> (to: int)
    ensures
        0 <= to <= s.len(),
        crate::text::trim_end_char_spec(s, c) == s.take(to),
        forall|i: int| to <= i < s.len() ==> #[trigger] s[i] == c,
        to > 0 ==> s[to - 1] != c,
    decreases s.len(),
{
    if s.len() > 0 && s.last() == c {
        let rest = s.drop_last();
        let n = lemma_end_char(rest, c);
        assert(rest.take(n) =~= s.take(n));
        assert forall|i: int| n <= i < s.len() implies #[trigger] s[i] == c by {
            if i < s.len() - 1 {
                assert(s[i] == rest[i]);
            }
        }
        n
    } else {
        assert(s.take(s.len() as int) =~= s);
        s.len() as int
    }
}

/// A character is taken off the beginning or the end of a text as often as it stands there.
pub proof fn characters_are_taken_off_the_ends(s: Seq<char>, c: char)
    ensures
        exists|from: int|
            {
                &&& 0 <= from <= s.len()
                &&& crate::text::trim_start_char_spec(s, c) == #[trigger] s.skip(from)
                &&& forall|i: int| 0 <= i < from ==> #[trigger] s[i] == c
                &&& from < s.len() ==> s[from] != c
            },
        exists|to: int|
            {
                &&& 0 <= to <= s.len()
                &&& crate::text::trim_end_char_spec(s, c) == #[trigger] s.take(to)
                &&& forall|i: int| to <= i < s.len() ==> #[trigger] s[i] == c
                &&& to > 0 ==> s[to - 1] != c
            },
{
    let from = lemma_start_char(s, c);
    let to = lemma_end_char(s, c);
    assert(crate::text::trim_start_char_spec(s, c) == s.skip(from));
    assert(crate::text::trim_end_char_spec(s, c) == s.take(to));
}

/// Lower case changes the letters `A` to `Z` into `a` to `z` and nothing else.
pub proof fn lower_case_changes_capitals(s: Seq<char>, i: int)
    requires
        0 <= i < s.len(),
    ensures
        crate::text::lower_spec(s).len() == s.len(),
        ({
            let before = s[i];
            let after = crate::text::lower_spec(s)[i];
            if 'A' <= before <= 'Z' {
                'a' <= after <= 'z' && after as int - 'a' as int == before as int - 'A' as int
            } else {
                after == before
            }
        }),
{
}

/// Parts with a separator between each two of them.
pub open spec fn joined(parts: Seq<Seq<char>>, sep: char) -> Seq<char>
    decreases parts.len(),
{
    if parts.len() == 0 {
        Seq::empty()
    } else if parts.len() == 1 {
        parts[0]
    } else {
        joined(parts.drop_last(), sep).push(sep) + parts.last()
    }
}

/// A text is cut at every separator: the parts hold none, and with separators between them they
/// make up the text again.
pub proof fn texts_are_cut_at_every_separator(s: Seq<char>, sep: char)
    ensures
        crate::text::split_spec(s, sep).len() >= 1,
        joined(crate::text::split_spec(s, sep), sep) == s,
        forall|k: int, i: int|
            #![trigger crate::text::split_spec(s, sep)[k][i]]
            0 <= k < crate::text::split_spec(s, sep).len() && 0 <= i < crate::text::split_spec(
                s,
                sep,
            )[k].len() ==> crate::text::split_spec(s, sep)[k][i] != sep,
    decreases s.len(),
{
    let all = crate::text::split_spec(s, sep);
    if s.len() == 0 {
        assert(joined(all, sep) =~= s);
    } else {
        let t = s.drop_last();
        let parts = crate::text::split_spec(t, sep);
        texts_are_cut_at_every_separator(t, sep);
        if s.last() == sep {
            assert(all.drop_last() =~= parts);
            assert(joined(all, sep) =~= s);
        } else {
            assert(all.drop_last() =~= parts.drop_last());
            assert(all.last() == parts.last().push(s.last()));
            if all.len() == 1 {
                assert(joined(all, sep) =~= s);
            } else {
                let before = joined(parts.drop_last(), sep).push(sep);
                assert(t == before + parts.last());
                assert(joined(all, sep) == before + parts.last().push(s.last()));
                assert(before + parts.last().push(s.last()) =~= t.push(s.last()));
                assert(t.push(s.last()) =~= s);
            }
        }
        assert forall|k: int, i: int|
            #![trigger all[k][i]]
            0 <= k < all.len() && 0 <= i < all[k].len() implies all[k][i] != sep by {
            if k < parts.len() && i < parts[k].len() {
                assert(parts[k][i] != sep);
            }
        }
    }
}

/// Parts without separators are what their join is cut into.
pub proof fn joined_parts_are_cut_again(parts: Seq<Seq<char>>, sep: char)
    requires
        parts.len() >= 1,
        forall|k: int, i: int|
            #![trigger parts[k][i]]
            0 <= k < parts.len() && 0 <= i < parts[k].len() ==> parts[k][i] != sep,
    ensures
        crate::text::split_spec(joined(parts, sep), sep) == parts,
    decreases parts.len(),
{
    let e = Seq::<char>::empty();
    let last = parts.last();
    assert(!crate::text::contains_char(last, sep)) by {
        assert forall|i: int| 0 <= i < last.len() implies last[i] != sep by {
            assert(parts[parts.len() - 1][i] != sep);
        }
    }
    if parts.len() == 1 {
        crate::addr::lemma_split_append(e, last, sep);
        assert(crate::text::split_spec(e, sep) =~= seq![e]);
        assert(e + last =~= last);
        assert(crate::text::split_spec(last, sep) =~= parts);
    } else {
        let before = parts.drop_last();
        assert forall|k: int, i: int|
            #![trigger before[k][i]]
            0 <= k < before.len() && 0 <= i < before[k].len() implies before[k][i] != sep by {
            assert(parts[k][i] != sep);
        }
        joined_parts_are_cut_again(before, sep);
        let s = joined(before, sep).push(sep);
        assert(s.drop_last() =~= joined(before, sep));
        assert(crate::text::split_spec(s, sep) == before.push(e));
        crate::addr::lemma_split_append(s, last, sep);
        assert(before.push(e).drop_last() =~= before);
        assert(e + last =~= last);
        assert(before.push(last) =~= parts);
    }
}

proof fn lemma_first(s: Seq<char>, sep: char)
    ensures
        ({
            let i = crate::text::first_index(s, sep);
            &&& 0 <= i <= s.len()
            &&& i < s.len() ==> s[i] == sep
            &&& forall|k: int| 0 <= k < i ==> #[trigger] s[k] != sep
        }),
    decreases s.len(),
{
    if s.len() > 0 && s[0] != sep {
        let t = s.drop_first();
        lemma_first(t, sep);
        let i = crate::text::first_index(s, sep);
        assert forall|k: int| 0 <= k < i implies #[trigger] s[k] != sep by {
            if k > 0 {
                assert(s[k] == t[k - 1]);
            }
        }
    }
}

/// A text is parted at its first separator; one without a separator is not parted.
pub proof fn texts_are_parted_at_the_first_separator(s: Seq<char>, sep: char)
    ensures
        match crate::text::split_once_spec(s, sep) {
            Some((a, b)) => s == a.push(sep) + b && !a.contains(sep),
            None => !s.contains(sep),
        },
{
    lemma_first(s, sep);
    let i = crate::text::first_index(s, sep);
    if i < s.len() {
        let a = s.take(i);
        assert(a.push(sep) + s.skip(i + 1) =~= s);
        assert forall|k: int| 0 <= k < a.len() implies a[k] != sep by {
            assert(a[k] == s[k]);
        }
    }
}

proof fn lemma_digits(s: Seq<char>)
    requires
        crate::text::all_digits(s),
    ensures
        crate::text::digits_value(s) == crate::notation_laws::value_of(s, 10),
    decreases s.len(),
{
    if s.len() > 0 {
        let t = s.drop_last();
        assert forall|i: int| 0 <= i < t.len() implies crate::text::is_digit(#[trigger] t[i]) by {
            assert(t[i] == s[i]);
        }
        lemma_digits(t);
        assert(crate::text::is_digit(s[s.len() - 1]));
    }
}

/// The text is made of decimal digits, at least one.
pub open spec fn is_decimal(s: Seq<char>) -> bool {
    s.len() >= 1 && forall|i: int| 0 <= i < s.len() ==> '0' <= #[trigger] s[i] <= '9'
}

/// A number is read from decimal digits, with or without a plus before them, where it is not too
/// large; nothing else is a number.
pub proof fn numbers_are_read_from_decimal(s: Seq<char>, max: nat)
    ensures
        ({
            let digits = if s.len() > 0 && s[0] == '+' {
                s.skip(1)
            } else {
                s
            };
            let value = crate::notation_laws::value_of(digits, 10);
            match crate::text::parse_unsigned(s, max) {
                Some(n) => is_decimal(digits) && n == value && value <= max,
                None => !is_decimal(digits) || value > max,
            }
        }),
{
    let digits = if s.len() > 0 && s[0] == '+' {
        s.skip(1)
    } else {
        s
    };
    if s.len() > 0 && s[0] == '+' {
        assert(s.drop_first() =~= s.skip(1));
    }
    if crate::text::all_digits(digits) {
        lemma_digits(digits);
        assert forall|i: int| 0 <= i < digits.len() implies '0' <= #[trigger] digits[i]
            <= '9' by {
            assert(crate::text::is_digit(digits[i]));
        }
    } else {
        let i = choose|i: int|
            0 <= i < digits.len() && !crate::text::is_digit(#[trigger] digits[i]);
        assert(!('0' <= digits[i] <= '9'));
    }
}

/// A byte is written as two lower-case hexadecimal digits.
pub proof fn bytes_are_written_as_two_digits(b: u8)
    ensures
        crate::text::hex_byte(b).len() == 2,
        0 <= crate::notation_laws::digit_of(crate::text::hex_byte(b)[0]) < 16,
        0 <= crate::notation_laws::digit_of(crate::text::hex_byte(b)[1]) < 16,
        crate::notation_laws::digit_of(crate::text::hex_byte(b)[0]) * 16
            + crate::notation_laws::digit_of(crate::text::hex_byte(b)[1]) == b,
{
}

proof fn lemma_unique_decimal(s: Seq<char>)
    requires
        s.len() >= 1,
        crate::text::all_digits(s),
        s.len() == 1 || s[0] != '0',
    ensures
        crate::text::decimal(crate::text::digits_value(s)) == s,
        s.len() > 1 ==> crate::text::digits_value(s) >= 10,
        s[0] != '0' ==> crate::text::digits_value(s) >= 1,
    decreases s.len(),
{
    let t = s.drop_last();
    let c = s.last();
    assert(crate::text::is_digit(s[s.len() - 1]));
    let d = c as u32 - 48;
    assert(crate::text::digit_char(d as int) == c);
    if s.len() == 1 {
        assert(t =~= Seq::<char>::empty());
        assert(crate::text::digits_value(t) == 0);
        assert(s =~= seq![c]);
    } else {
        assert forall|i: int| 0 <= i < t.len() implies crate::text::is_digit(#[trigger] t[i]) by {
            assert(t[i] == s[i]);
        }
        assert(t[0] == s[0]);
        lemma_unique_decimal(t);
        let v = crate::text::digits_value(t);
        let n = crate::text::digits_value(s);
        assert(n == v * 10 + d);
        assert(v >= 1);
        assert(n / 10 == v && n % 10 == d);
        assert(t.push(c) =~= s);
    }
}

/// An address is read from its four bytes in decimal with points between them, and from nothing
/// else: a byte has no digit more than it takes.
pub proof fn addresses_are_read_from_four_bytes(s: Seq<char>, ip: Ipv4Address)
    ensures
        crate::addr::ipv4_of(s) == Some(ip) <==> s == crate::text::decimal(ip.a as nat).push('.')
            + crate::text::decimal(ip.b as nat).push('.') + crate::text::decimal(
            ip.c as nat,
        ).push('.') + crate::text::decimal(ip.d as nat),
{
    ip.text_round_trips();
    if crate::addr::ipv4_of(s) == Some(ip) {
        let parts = crate::text::split_spec(s, '.');
        texts_are_cut_at_every_separator(s, '.');
        lemma_unique_decimal(parts[0]);
        lemma_unique_decimal(parts[1]);
        lemma_unique_decimal(parts[2]);
        lemma_unique_decimal(parts[3]);
        reveal_with_fuel(joined, 4);
        let three = parts.drop_last();
        let two = three.drop_last();
        let one = two.drop_last();
        assert(one[0] == parts[0]);
        assert(two.last() == parts[1]);
        assert(three.last() == parts[2]);
        assert(joined(one, '.') == parts[0]);
        assert(joined(two, '.') == parts[0].push('.') + parts[1]);
        assert(joined(three, '.') == joined(two, '.').push('.') + parts[2]);
        assert(s == joined(three, '.').push('.') + parts[3]);
        assert(s =~= parts[0].push('.') + parts[1].push('.') + parts[2].push('.') + parts[3]);
    }
}

/// The number of an address has its four bytes, the first one weighing most, and gives the address
/// back.
pub proof fn addresses_are_numbered_byte_by_byte(ip: Ipv4Address, n: u32)
    ensures
        0 <= ip.number() <= u32::MAX,
        ip.number() / 0x100_0000 == ip.a,
        ip.number() / 0x1_0000 % 0x100 == ip.b,
        ip.number() / 0x100 % 0x100 == ip.c,
        ip.number() % 0x100 == ip.d,
        Ipv4Address::of_number(n).number() == n,
{
}

/// Only the IPv4 addresses that begin with 127, and one IPv6 address, stay on this machine.
pub proof fn loopback_addresses_stay_here(ip: Ipv4Address, bits: u128, port: u16, f: u32, s: u32)
    ensures
        (SocketAddress::V4 { ip, port }).loopback() <==> 0x7f00_0000 <= ip.number() <= 0x7fff_ffff,
        (SocketAddress::V6 { bits, port, flow_info: f, scope_id: s }).loopback() <==> bits == 1,
{
}

/// A character of the text is a control character.
pub open spec fn holds_control(text: Seq<char>) -> bool {
    exists|i: int|
        0 <= i < text.len() && ((#[trigger] text[i]) as u32 <= 0x1f || 0x7f <= text[i] as u32
            <= 0x9f)
}

/// A name for a device is kept without the blanks around it, has at most 128 characters and no
/// control character; an empty one is none.
pub proof fn device_names_are_trimmed_and_bounded(value: Option<Seq<char>>)
    ensures
        ({
            let given = match value {
                Some(v) => v,
                None => Seq::empty(),
            };
            let name = crate::text::trim_spec(given);
            match crate::domain::display_name_of(value) {
                None => name.len() > 128 || holds_control(name),
                Some(kept) => name.len() <= 128 && !holds_control(name) && kept == (if name.len()
                    == 0 {
                    None
                } else {
                    Some(name)
                }),
            }
        }),
{
    let given = match value {
        Some(v) => v,
        None => Seq::empty(),
    };
    let name = crate::text::trim_spec(given);
    if crate::text::has_control(name) {
        let i = choose|i: int|
            0 <= i < name.len() && crate::text::is_control_spec(#[trigger] name[i]);
        assert(name[i] as u32 <= 0x1f || 0x7f <= name[i] as u32 <= 0x9f);
    } else {
        assert forall|i: int| 0 <= i < name.len() implies !((#[trigger] name[i]) as u32 <= 0x1f
            || 0x7f <= name[i] as u32 <= 0x9f) by {
            assert(!crate::text::is_control_spec(name[i]));
        }
    }
}

/// What is told of flows by name is stored and shown under these names.
pub proof fn values_have_their_names()
    ensures
        FlowDirection::Upload.text() == "upload"@,
        FlowDirection::Download.text() == "download"@,
        FlowDirection::Bidirectional.text() == "bidirectional"@,
        ConnectionState::New.text() == "new"@,
        ConnectionState::Established.text() == "established"@,
        ConnectionState::Closing.text() == "closing"@,
        ConnectionState::Closed.text() == "closed"@,
        ConnectionState::Unknown.text() == "unknown"@,
        DomainSource::Dns.text() == "dns"@,
        DomainSource::Sni.text() == "sni"@,
        DomainSource::Unknown.text() == "unknown"@,
        DomainConfidence::High.text() == "high"@,
        DomainConfidence::Low.text() == "low"@,
        DomainConfidence::Unknown.text() == "unknown"@,
{
}

/// No other text than its name stands for a value.
pub proof fn names_stand_for_one_value(text: Seq<char>)
    ensures
        FlowDirection::from_text(text) matches Some(v) ==> text == v.text(),
        FlowDirection::from_text(text) is None ==> text != "upload"@ && text != "download"@ && text
            != "bidirectional"@,
        ConnectionState::from_text(text) matches Some(v) ==> text == v.text(),
        ConnectionState::from_text(text) is None ==> text != "new"@ && text != "established"@
            && text != "closing"@ && text != "closed"@ && text != "unknown"@,
        DomainSource::from_text(text) matches Some(v) ==> text == v.text(),
        DomainSource::from_text(text) is None ==> text != "dns"@ && text != "sni"@ && text
            != "unknown"@,
        DomainConfidence::from_text(text) matches Some(v) ==> text == v.text(),
        DomainConfidence::from_text(text) is None ==> text != "high"@ && text != "low"@ && text
            != "unknown"@,
{
}

} // verus!
