//! Wire encodings of the debug-bridge protocol.
//!
//! Two encodings share one socket. Control messages are text framed by a
//! four-character hexadecimal length. After the switch to file-sync mode the
//! frames are binary: a four-byte ASCII tag, a little-endian `u32`, and for
//! `SEND` and `DATA` a payload of that length.

use vstd::prelude::*;

verus! {

/// The TCP port on which the local protocol server listens on `127.0.0.1`.
pub const CONTROL_PORT: u16 = 5037;

/// Largest payload that one `DATA` frame carries.
pub const MAX_CHUNK: usize = 65536;

/// The status word `OKAY`.
pub open spec fn okay() -> Seq<u8> {
    seq![0x4fu8, 0x4bu8, 0x41u8, 0x59u8]
}

/// The frame tag `SEND`.
pub open spec fn tag_send() -> Seq<u8> {
    seq![0x53u8, 0x45u8, 0x4eu8, 0x44u8]
}

/// The frame tag `DATA`.
pub open spec fn tag_data() -> Seq<u8> {
    seq![0x44u8, 0x41u8, 0x54u8, 0x41u8]
}

/// The frame tag `DONE`.
pub open spec fn tag_done() -> Seq<u8> {
    seq![0x44u8, 0x4fu8, 0x4eu8, 0x45u8]
}

/// The lowercase hexadecimal digit for `d`, as an ASCII byte.
pub open spec fn hex_digit(d: nat) -> u8
    recommends
        d < 16,
{
    if d < 10 {
        (0x30 + d) as u8
    } else {
        (0x57 + d) as u8
    }
}

/// The hexadecimal digits of `n`, most significant first, without leading
/// zeros.
pub open spec fn hex_digits(n: nat) -> Seq<u8>
    decreases n,
{
    if n < 16 {
        seq![hex_digit(n)]
    } else {
        hex_digits(n / 16).push(hex_digit(n % 16))
    }
}

/// The length field of a control message: `n` in lowercase hexadecimal,
/// padded with zeros to four digits. A length of 65536 or more takes the
/// digits it needs.
pub open spec fn length_field(n: nat) -> Seq<u8> {
    if n < 0x10000 {
        seq![
            hex_digit(n / 4096),
            hex_digit(n / 256 % 16),
            hex_digit(n / 16 % 16),
            hex_digit(n % 16),
        ]
    } else {
        hex_digits(n)
    }
}

/// A control message: the payload behind its length field.
pub open spec fn message(payload: Seq<u8>) -> Seq<u8> {
    length_field(payload.len()) + payload
}

/// The four bytes of `n`, least significant first.
pub open spec fn le32(n: u32) -> Seq<u8> {
    seq![
        (n % 256) as u8,
        (n / 0x100 % 256) as u8,
        (n / 0x1_0000 % 256) as u8,
        (n / 0x100_0000) as u8,
    ]
}

/// `n` reduced to the 32 bits that a frame's integer holds.
pub open spec fn low32(n: nat) -> u32 {
    (n % 0x1_0000_0000) as u32
}

/// The `SEND` frame that opens a push: the tag, the length of the remote
/// path reduced to 32 bits, and the path itself.
pub open spec fn send_frame(path: Seq<u8>) -> Seq<u8> {
    tag_send() + le32(low32(path.len())) + path
}

/// The `DATA` frame for one chunk of the file.
pub open spec fn data_frame(chunk: Seq<u8>) -> Seq<u8> {
    tag_data() + le32(low32(chunk.len())) + chunk
}

/// The `DONE` frame that closes a push, with the modification time in
/// seconds reduced to 32 bits.
pub open spec fn done_frame(mtime: u64) -> Seq<u8> {
    tag_done() + le32(low32(mtime as nat))
}

/// The value of a hexadecimal digit of either case; `None` for any other
/// byte.
pub open spec fn hex_value(b: u8) -> Option<nat> {
    if 0x30 <= b <= 0x39 {
        Some((b - 0x30) as nat)
    } else if 0x61 <= b <= 0x66 {
        Some((b - 0x57) as nat)
    } else if 0x41 <= b <= 0x46 {
        Some((b - 0x37) as nat)
    } else {
        None
    }
}

/// The number that a run of hexadecimal digits writes.
pub open spec fn hex_number(digits: Seq<u8>) -> nat
    decreases digits.len(),
{
    if digits.len() == 0 {
        0
    } else {
        hex_number(digits.drop_last()) * 16 + hex_value(digits.last()).unwrap()
    }
}

/// Every byte of `digits` is a hexadecimal digit.
pub open spec fn all_hex(digits: Seq<u8>) -> bool {
    forall|i: int| 0 <= i < digits.len() ==> hex_value(#[trigger] digits[i]) is Some
}

/// The digits of a length field: the field itself, or what follows one
/// leading plus sign.
pub open spec fn field_digits(field: Seq<u8>) -> Seq<u8> {
    if field.len() > 0 && field[0] == 0x2b {
        field.drop_first()
    } else {
        field
    }
}

/// The length that a four-byte field announces. The field holds hexadecimal
/// digits of either case, and one plus sign may stand in front of them. A
/// field of another size, an empty run of digits or any other byte gives
/// `None`.
pub open spec fn parse_length(field: Seq<u8>) -> Option<u16> {
    let digits = field_digits(field);
    if field.len() == 4 && all_hex(digits) {
        Some(hex_number(digits) as u16)
    } else {
        None
    }
}

/// A length below 65536 is read back from its length field.
pub proof fn law_length_field_reads(n: nat)
    requires
        n < 0x10000,
    ensures
        length_field(n).len() == 4,
        parse_length(length_field(n)) == Some(n as u16),
{
    let field = length_field(n);
    assert(field_digits(field) == field);
    assert(all_hex(field));
    reveal_with_fuel(hex_number, 5);
    let three = field.drop_last();
    let two = three.drop_last();
    let one = two.drop_last();
    assert(one.drop_last().len() == 0);
    assert(hex_number(one) == n / 4096);
    assert(hex_number(two) == n / 256);
    assert(hex_number(three) == n / 16);
    assert(hex_number(field) == n);
}

/// Appends `src` to `out`.
pub fn append_bytes(out: &mut Vec<u8>, src: &[u8])
    ensures
        final(out)@ == old(out)@ + src@,
{
    let mut i: usize = 0;
    while i < src.len()
        invariant
            i <= src.len(),
            out@ == old(out)@ + src@.take(i as int),
        decreases src.len() - i,
    {
        out.push(src[i]);
        i += 1;
        assert(src@.take(i as int) =~= src@.take(i - 1).push(src@[i - 1]));
        assert(out@ =~= old(out)@ + src@.take(i as int));
    }
    assert(src@.take(src@.len() as int) =~= src@);
}

/// Appends the little-endian bytes of `n` to `out`.
pub fn append_le32(out: &mut Vec<u8>, n: u32)
    ensures
        final(out)@ == old(out)@ + le32(n),
{
    out.push((n % 256) as u8);
    out.push((n / 0x100 % 256) as u8);
    out.push((n / 0x1_0000 % 256) as u8);
    out.push((n / 0x100_0000) as u8);
    assert(out@ =~= old(out)@ + le32(n));
}

/// Encodes one hexadecimal digit.
fn hex_digit_byte(d: u8) -> (b: u8)
    requires
        d < 16,
    ensures
        b == hex_digit(d as nat),
{
    if d < 10 {
        0x30 + d
    } else {
        0x57 + d
    }
}

/// Appends the hexadecimal digits of `n`, without leading zeros, to `out`.
fn append_hex_digits(out: &mut Vec<u8>, n: usize)
    ensures
        final(out)@ == old(out)@ + hex_digits(n as nat),
    decreases n,
{
    if n >= 16 {
        append_hex_digits(out, n / 16);
    }
    out.push(hex_digit_byte((n % 16) as u8));
    assert(out@ =~= old(out)@ + hex_digits(n as nat));
}

/// Frames a control message: the payload's length as a hexadecimal field,
/// then the payload.
pub fn frame_message(payload: &[u8]) -> (out: Vec<u8>)
    ensures
        out@ == message(payload@),
{
    let n = payload.len();
    let mut out: Vec<u8> = Vec::new();
    if n < 0x10000 {
        out.push(hex_digit_byte((n / 4096) as u8));
        out.push(hex_digit_byte((n / 256 % 16) as u8));
        out.push(hex_digit_byte((n / 16 % 16) as u8));
        out.push(hex_digit_byte((n % 16) as u8));
        assert(out@ =~= length_field(n as nat));
    } else {
        append_hex_digits(&mut out, n);
        assert(out@ =~= length_field(n as nat));
    }
    append_bytes(&mut out, payload);
    out
}

/// Reduces a length to 32 bits.
fn low32_of(n: usize) -> (r: u32)
    ensures
        r == low32(n as nat),
{
    ((n as u64) % 0x1_0000_0000) as u32
}

/// Builds the `SEND` frame for a remote path that already carries its
/// permission suffix.
pub fn encode_send(path: &[u8]) -> (out: Vec<u8>)
    ensures
        out@ == send_frame(path@),
{
    let mut out: Vec<u8> = Vec::new();
    out.push(0x53);
    out.push(0x45);
    out.push(0x4e);
    out.push(0x44);
    assert(out@ =~= tag_send());
    append_le32(&mut out, low32_of(path.len()));
    append_bytes(&mut out, path);
    out
}

/// Builds the `DATA` frame for one chunk.
pub fn encode_data(chunk: &[u8]) -> (out: Vec<u8>)
    requires
        0 < chunk@.len() <= MAX_CHUNK,
    ensures
        out@ == data_frame(chunk@),
{
    let mut out: Vec<u8> = Vec::new();
    out.push(0x44);
    out.push(0x41);
    out.push(0x54);
    out.push(0x41);
    assert(out@ =~= tag_data());
    append_le32(&mut out, low32_of(chunk.len()));
    append_bytes(&mut out, chunk);
    out
}

/// Builds the `DONE` frame for a modification time in seconds since the
/// Unix epoch.
pub fn encode_done(mtime: u64) -> (out: Vec<u8>)
    ensures
        out@ == done_frame(mtime),
{
    let mut out: Vec<u8> = Vec::new();
    out.push(0x44);
    out.push(0x4f);
    out.push(0x4e);
    out.push(0x45);
    assert(out@ =~= tag_done());
    append_le32(&mut out, (mtime % 0x1_0000_0000) as u32);
    out
}

/// Tells whether `word` is the status word `OKAY`.
pub fn is_okay(word: &[u8]) -> (b: bool)
    ensures
        b == (word@ == okay()),
{
    let b = word.len() == 4 && word[0] == 0x4f && word[1] == 0x4b && word[2] == 0x41 && word[3]
        == 0x59;
    assert(b ==> word@ =~= okay());
    b
}

/// Decodes one hexadecimal digit of either case.
fn hex_value_of(b: u8) -> (r: Option<u8>)
    ensures
        match r {
            Some(d) => hex_value(b) == Some(d as nat) && d < 16,
            None => hex_value(b) is None,
        },
{
    if 0x30 <= b && b <= 0x39 {
        Some(b - 0x30)
    } else if 0x61 <= b && b <= 0x66 {
        Some(b - 0x57)
    } else if 0x41 <= b && b <= 0x46 {
        Some(b - 0x37)
    } else {
        None
    }
}

/// Reads the length that a four-byte hexadecimal field announces.
pub fn read_length(field: &[u8]) -> (r: Option<u16>)
    ensures
        r == parse_length(field@),
{
    if field.len() != 4 {
        return None;
    }
    let start: usize = if field[0] == 0x2b {
        1
    } else {
        0
    };
    let ghost digits = field_digits(field@);
    assert(digits =~= field@.skip(start as int));
    let mut value: u16 = 0;
    let mut i: usize = start;
    while i < 4
        invariant
            start <= i <= 4,
            field@.len() == 4,
            digits == field@.skip(start as int),
            digits == field_digits(field@),
            all_hex(digits.take(i - start)),
            value == hex_number(digits.take(i - start)),
            value < pow16((i - start) as nat),
        decreases 4 - i,
    {
        let ghost before = digits.take(i - start);
        let ghost after = digits.take(i - start + 1);
        proof {
            assert(after.drop_last() =~= before);
            assert(after.last() == field@[i as int]);
            reveal_with_fuel(pow16, 5);
        }
        match hex_value_of(field[i]) {
            Some(d) => {
                value = value * 16 + d as u16;
                assert(all_hex(after)) by {
                    assert forall|k: int| 0 <= k < after.len() implies hex_value(
                        #[trigger] after[k],
                    ) is Some by {
                        if k < before.len() {
                            assert(after[k] == before[k]);
                        }
                    }
                }
            },
            None => {
                assert(digits[i - start] == field@[i as int]);
                assert(!all_hex(digits));
                return None;
            },
        }
        i += 1;
    }
    assert(digits.take(4 - start) =~= digits);
    Some(value)
}

/// Sixteen to the power `e`.
pub open spec fn pow16(e: nat) -> nat
    decreases e,
{
    if e == 0 {
        1
    } else {
        16 * pow16((e - 1) as nat)
    }
}

} // verus!
