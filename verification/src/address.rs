//! IPv4 addresses in dotted-decimal text.

use crate::text::{
    append_decimal, bounded_decimal, decimal, is_digit, join, lemma_decimal_form,
    lemma_digits_canonical, lemma_join_split, lemma_split_at, lemma_split_whole, pieces,
    read_decimal, split, split_bounds, starts_with, to_chars,
};
use vstd::prelude::*;
use vstd::string::StringExecFns;

verus! {

/// An IPv4 address as its four octets.
#[derive(Clone, Copy, Debug, PartialEq, Eq, Structural)]
pub struct Ipv4 {
    pub a: u8,
    pub b: u8,
    pub c: u8,
    pub d: u8,
}

/// The octet that `part` writes: one to three decimal digits, without a
/// leading zero unless the part is `0` itself, and at most 255.
pub open spec fn octet_of(part: Seq<char>) -> Option<u8> {
    if 1 <= part.len() <= 3 && (part.len() == 1 || part[0] != '0') {
        match bounded_decimal(part, 255) {
            Some(n) => Some(n as u8),
            None => None,
        }
    } else {
        None
    }
}

/// The address that `text` writes in dotted decimal: four octets between
/// three dots and nothing else.
pub open spec fn parse_address(text: Seq<char>) -> Option<Ipv4> {
    let parts = split(text, '.');
    if parts.len() == 4 && octet_of(parts[0]) is Some && octet_of(parts[1]) is Some && octet_of(
        parts[2],
    ) is Some && octet_of(parts[3]) is Some {
        Some(
            Ipv4 {
                a: octet_of(parts[0]).unwrap(),
                b: octet_of(parts[1]).unwrap(),
                c: octet_of(parts[2]).unwrap(),
                d: octet_of(parts[3]).unwrap(),
            },
        )
    } else {
        None
    }
}

/// An address in dotted decimal.
pub open spec fn dotted(ip: Ipv4) -> Seq<char> {
    decimal(ip.a as nat) + seq!['.'] + decimal(ip.b as nat) + seq!['.'] + decimal(ip.c as nat)
        + seq!['.'] + decimal(ip.d as nat)
}

/// The loopback address `127.0.0.1`.
pub open spec fn is_loopback(ip: Ipv4) -> bool {
    ip.a == 127 && ip.b == 0 && ip.c == 0 && ip.d == 1
}

/// An address of the link-local block `169.254.0.0/16`.
pub open spec fn is_link_local(ip: Ipv4) -> bool {
    ip.a == 169 && ip.b == 254
}

/// An address of the block `198.18.0.0/16`, which is reserved for benchmarks
/// and which tunnel software hands out as made-up addresses.
pub open spec fn is_benchmark(ip: Ipv4) -> bool {
    ip.a == 198 && ip.b == 18
}

/// Two addresses lie in the same /24 network.
pub open spec fn same_subnet(x: Ipv4, y: Ipv4) -> bool {
    x.a == y.a && x.b == y.b && x.c == y.c
}

/// Reads the octet that the piece `lo..hi` of `v` writes.
fn read_octet(v: &Vec<char>, lo: usize, hi: usize) -> (r: Option<u8>)
    requires
        lo <= hi <= v.len(),
    ensures
        r == octet_of(v@.subrange(lo as int, hi as int)),
{
    let n = hi - lo;
    if n < 1 || n > 3 {
        return None;
    }
    assert(v@.subrange(lo as int, hi as int)[0] == v@[lo as int]);
    if n > 1 && v[lo] == '0' {
        return None;
    }
    match read_decimal(v, lo, hi, 255) {
        Some(value) => Some(value as u8),
        None => None,
    }
}

/// Reads an address in dotted decimal.
pub fn parse_ipv4(text: &str) -> (r: Option<Ipv4>)
    ensures
        r == parse_address(text@),
{
    let v = to_chars(text);
    let parts = split_bounds(&v, 0, v.len(), '.');
    assert(v@.subrange(0, v@.len() as int) =~= v@);
    if parts.len() != 4 {
        return None;
    }
    proof {
        let p = pieces(v@, parts@);
        assert(p[0] == v@.subrange(parts@[0].0 as int, parts@[0].1 as int));
        assert(p[1] == v@.subrange(parts@[1].0 as int, parts@[1].1 as int));
        assert(p[2] == v@.subrange(parts@[2].0 as int, parts@[2].1 as int));
        assert(p[3] == v@.subrange(parts@[3].0 as int, parts@[3].1 as int));
    }
    let a = match read_octet(&v, parts[0].0, parts[0].1) {
        Some(n) => n,
        None => {
            return None;
        },
    };
    let b = match read_octet(&v, parts[1].0, parts[1].1) {
        Some(n) => n,
        None => {
            return None;
        },
    };
    let c = match read_octet(&v, parts[2].0, parts[2].1) {
        Some(n) => n,
        None => {
            return None;
        },
    };
    let d = match read_octet(&v, parts[3].0, parts[3].1) {
        Some(n) => n,
        None => {
            return None;
        },
    };
    Some(Ipv4 { a, b, c, d })
}

impl Ipv4 {
    /// Writes the address in dotted decimal.
    pub fn to_text(&self) -> (text: String)
        ensures
            text@ == dotted(*self),
    {
        proof {
            reveal_strlit(".");
        }
        let mut out = String::new();
        append_decimal(&mut out, self.a as u32);
        out.append(".");
        append_decimal(&mut out, self.b as u32);
        out.append(".");
        append_decimal(&mut out, self.c as u32);
        out.append(".");
        append_decimal(&mut out, self.d as u32);
        assert(out@ =~= dotted(*self));
        out
    }
}

/// Text that splits into four parts is those parts with dots between them.
pub proof fn lemma_four_parts(text: Seq<char>)
    requires
        split(text, '.').len() == 4,
    ensures
        text == split(text, '.')[0] + seq!['.'] + split(text, '.')[1] + seq!['.'] + split(
            text,
            '.',
        )[2] + seq!['.'] + split(text, '.')[3],
{
    let parts = split(text, '.');
    lemma_join_split(text, '.');
    let rest = parts.drop_first();
    let tail = rest.drop_first();
    let last = tail.drop_first();
    assert(join(last, '.') == last[0]);
    assert(join(tail, '.') == tail[0] + seq!['.'] + join(last, '.'));
    assert(join(rest, '.') == rest[0] + seq!['.'] + join(tail, '.'));
    assert(join(parts, '.') == parts[0] + seq!['.'] + join(rest, '.'));
    assert(rest[0] == parts[1] && tail[0] == parts[2] && last[0] == parts[3]);
    assert(text =~= parts[0] + seq!['.'] + parts[1] + seq!['.'] + parts[2] + seq!['.']
        + parts[3]);
}

/// A part that reads as an octet is that octet in decimal.
pub proof fn lemma_octet_canonical(part: Seq<char>)
    requires
        octet_of(part) is Some,
    ensures
        part == decimal(octet_of(part).unwrap() as nat),
{
    lemma_digits_canonical(part);
}

/// Text that reads as an address is that address in dotted decimal: there
/// is one way only to write an address.
pub proof fn law_parse_canonical(text: Seq<char>, ip: Ipv4)
    requires
        parse_address(text) == Some(ip),
    ensures
        text == dotted(ip),
{
    let parts = split(text, '.');
    lemma_four_parts(text);
    lemma_octet_canonical(parts[0]);
    lemma_octet_canonical(parts[1]);
    lemma_octet_canonical(parts[2]);
    lemma_octet_canonical(parts[3]);
}

/// The decimal forms of the octets that name the address blocks which
/// discovery leaves out.
pub proof fn lemma_block_octets()
    ensures
        decimal(127) == "127"@,
        decimal(0) == "0"@,
        decimal(1) == "1"@,
        decimal(169) == "169"@,
        decimal(254) == "254"@,
        decimal(198) == "198"@,
        decimal(18) == "18"@,
{
    reveal_strlit("127");
    reveal_strlit("0");
    reveal_strlit("1");
    reveal_strlit("169");
    reveal_strlit("254");
    reveal_strlit("198");
    reveal_strlit("18");
    reveal_with_fuel(decimal, 3);
    assert(decimal(127) =~= "127"@);
    assert(decimal(0) =~= "0"@);
    assert(decimal(1) =~= "1"@);
    assert(decimal(169) =~= "169"@);
    assert(decimal(254) =~= "254"@);
    assert(decimal(198) =~= "198"@);
    assert(decimal(18) =~= "18"@);
}

/// Text that reads as an address of one of the blocks that discovery leaves
/// out shows it: the loopback address is written `127.0.0.1`, a link-local
/// address begins with `169.254.` and an address of the benchmark block
/// with `198.18.`.
pub proof fn law_blocks_show(text: Seq<char>, ip: Ipv4)
    requires
        parse_address(text) == Some(ip),
    ensures
        is_loopback(ip) ==> text == "127.0.0.1"@,
        is_link_local(ip) ==> starts_with(text, "169.254."@),
        is_benchmark(ip) ==> starts_with(text, "198.18."@),
{
    law_parse_canonical(text, ip);
    lemma_block_octets();
    reveal_strlit("127");
    reveal_strlit("0");
    reveal_strlit("1");
    reveal_strlit("169");
    reveal_strlit("254");
    reveal_strlit("198");
    reveal_strlit("18");
    reveal_strlit("127.0.0.1");
    reveal_strlit("169.254.");
    reveal_strlit("198.18.");
    if is_loopback(ip) {
        assert(text =~= "127.0.0.1"@);
    }
    if is_link_local(ip) {
        assert(text.subrange(0, 8) =~= "169.254."@);
    }
    if is_benchmark(ip) {
        assert(text.subrange(0, 7) =~= "198.18."@);
    }
}

/// An octet in decimal reads as that octet and holds no dot.
pub proof fn lemma_octet_reads(n: u8)
    ensures
        octet_of(decimal(n as nat)) == Some(n),
        forall|j: int| 0 <= j < decimal(n as nat).len() ==> decimal(n as nat)[j] != '.',
{
    lemma_decimal_form(n as nat);
    let s = decimal(n as nat);
    assert forall|j: int| 0 <= j < s.len() implies s[j] != '.' by {
        assert(is_digit(s[j]));
    }
}

/// An address in dotted decimal reads as that address: what the library
/// writes, it reads back.
pub proof fn law_dotted_reads_back(ip: Ipv4)
    ensures
        parse_address(dotted(ip)) == Some(ip),
{
    let a = decimal(ip.a as nat);
    let b = decimal(ip.b as nat);
    let c = decimal(ip.c as nat);
    let d = decimal(ip.d as nat);
    lemma_octet_reads(ip.a);
    lemma_octet_reads(ip.b);
    lemma_octet_reads(ip.c);
    lemma_octet_reads(ip.d);
    let r3 = d;
    let r2 = c + seq!['.'] + r3;
    let r1 = b + seq!['.'] + r2;
    let r0 = a + seq!['.'] + r1;
    lemma_split_whole(r3, '.');
    lemma_split_at(c, r3, '.');
    lemma_split_at(b, r2, '.');
    lemma_split_at(a, r1, '.');
    assert(dotted(ip) =~= r0);
    let parts = split(r0, '.');
    assert(parts =~= seq![a, b, c, d]);
}

} // verus!
