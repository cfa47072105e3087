//! Network addresses as plain values.

use vstd::prelude::*;
use vstd::string::StringExecFns;

use crate::text::{
    chars_of, decimal, decimal_text, field_end, field_len, fields, parse_number, parse_number_in,
};

verus! {

/// An IPv4 address, most significant octet first.
#[derive(Debug, Clone, Copy, PartialEq, Eq, Structural)]
pub struct Ipv4Address {
    pub a: u8,
    pub b: u8,
    pub c: u8,
    pub d: u8,
}

impl Ipv4Address {
    /// The address `a.b.c.d`.
    pub fn new(a: u8, b: u8, c: u8, d: u8) -> (addr: Ipv4Address)
        ensures
            addr == (Ipv4Address { a, b, c, d }),
    {
        Ipv4Address { a, b, c, d }
    }
}

/// An IPv4 address together with the length of its network prefix.
#[derive(Debug, Clone, Copy, PartialEq, Eq, Structural)]
pub struct Ipv4Cidr {
    pub address: Ipv4Address,
    pub prefix_len: u8,
}

impl Ipv4Cidr {
    /// The block `address/prefix_len`.
    pub fn new(address: Ipv4Address, prefix_len: u8) -> (cidr: Ipv4Cidr)
        ensures
            cidr == (Ipv4Cidr { address, prefix_len }),
    {
        Ipv4Cidr { address, prefix_len }
    }
}

/// `addr` in dotted decimal.
pub open spec fn dotted(addr: Ipv4Address) -> Seq<char> {
    decimal(addr.a as nat) + seq!['.'] + decimal(addr.b as nat) + seq!['.'] + decimal(
        addr.c as nat,
    ) + seq!['.'] + decimal(addr.d as nat)
}

/// `cidr` as its address in dotted decimal, a slash and the prefix length.
pub open spec fn cidr_text(cidr: Ipv4Cidr) -> Seq<char> {
    dotted(cidr.address) + seq!['/'] + decimal(cidr.prefix_len as nat)
}

/// The address that `text` names in dotted decimal: exactly four fields
/// between dots, each a number up to 255.
pub open spec fn parse_ipv4(text: Seq<char>) -> Option<Ipv4Address> {
    let parts = fields(text, '.');
    if parts.len() == 4 && (forall|k: int| 0 <= k < 4 ==> parse_number(#[trigger] parts[k], 255)
        is Some) {
        Some(
            Ipv4Address {
                a: parse_number(parts[0], 255)->0 as u8,
                b: parse_number(parts[1], 255)->0 as u8,
                c: parse_number(parts[2], 255)->0 as u8,
                d: parse_number(parts[3], 255)->0 as u8,
            },
        )
    } else {
        None
    }
}

/// Writes `addr` in dotted decimal.
pub fn dotted_text(addr: Ipv4Address) -> (text: String)
    ensures
        text@ == dotted(addr),
{
    proof {
        reveal_strlit(".");
        assert("."@ == seq!['.']);
    }
    let mut text = decimal_text(addr.a as u16);
    text.append(".");
    text.append(decimal_text(addr.b as u16).as_str());
    text.append(".");
    text.append(decimal_text(addr.c as u16).as_str());
    text.append(".");
    text.append(decimal_text(addr.d as u16).as_str());
    text
}

/// Writes `cidr` as address, slash and prefix length.
pub fn cidr_to_text(cidr: Ipv4Cidr) -> (text: String)
    ensures
        text@ == cidr_text(cidr),
{
    proof {
        reveal_strlit("/");
        assert("/"@ == seq!['/']);
    }
    let mut text = dotted_text(cidr.address);
    text.append("/");
    text.append(decimal_text(cidr.prefix_len as u16).as_str());
    text
}

proof fn lemma_fields_unfold(text: Seq<char>, from: int, to: int)
    requires
        0 <= from <= to <= text.len(),
        to - from == field_len(text.skip(from), '.'),
    ensures
        to == text.len() ==> fields(text.skip(from), '.') == seq![text.subrange(from, to)],
        to < text.len() ==> fields(text.skip(from), '.') == seq![text.subrange(from, to)]
            + fields(text.skip(to + 1), '.'),
{
    let tail = text.skip(from);
    assert(tail.take(to - from) == text.subrange(from, to));
    if to == text.len() {
        assert(tail == text.subrange(from, to));
    } else {
        assert(tail.skip(to - from + 1) == text.skip(to + 1));
    }
}

/// Reads an address in dotted decimal.
pub fn parse_ipv4_text(text: &str) -> (addr: Option<Ipv4Address>)
    ensures
        addr == parse_ipv4(text@),
{
    let chars = chars_of(text);
    let n = chars.len();
    let mut octets: Vec<u8> = Vec::new();
    let mut from: usize = 0;
    let ghost all = fields(text@, '.');
    let ghost mut seen: Seq<Seq<char>> = Seq::empty();
    assert(text@.skip(0) == text@);
    loop
        invariant_except_break
            chars@ == text@,
            n == chars@.len(),
            from <= n,
            all == fields(text@, '.'),
            octets@.len() <= 3,
            seen.len() == octets@.len(),
            seen + fields(text@.skip(from as int), '.') == all,
            forall|k: int|
                0 <= k < seen.len() ==> parse_number(#[trigger] seen[k], 255) == Some(
                    octets@[k] as nat,
                ),
        ensures
            all == fields(text@, '.'),
            octets@.len() == 4,
            all.len() == 4,
            forall|k: int|
                0 <= k < 4 ==> parse_number(#[trigger] all[k], 255) == Some(octets@[k] as nat),
        decreases n - from,
    {
        let to = field_end(&chars, from, '.');
        let ghost field = text@.subrange(from as int, to as int);
        proof {
            lemma_fields_unfold(text@, from as int, to as int);
            assert(all[seen.len() as int] == field);
        }
        let octet = match parse_number_in(&chars, from, to, 255) {
            Some(value) => value as u8,
            None => {
                return None;
            },
        };
        octets.push(octet);
        proof {
            seen = seen.push(field);
        }
        if to == n {
            proof {
                assert(seen == all);
            }
            if octets.len() == 4 {
                break ;
            }
            return None;
        }
        proof {
            lemma_fields_not_empty(text@.skip(to + 1), '.');
            assert(seen + fields(text@.skip(to + 1), '.') == all);
        }
        if octets.len() == 4 {
            return None;
        }
        from = to + 1;
    }
    Some(Ipv4Address { a: octets[0], b: octets[1], c: octets[2], d: octets[3] })
}

/// A text has at least one field.
pub proof fn lemma_fields_not_empty(text: Seq<char>, sep: char)
    ensures
        fields(text, sep).len() >= 1,
{
}

} // verus!
