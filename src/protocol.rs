//! The textual peek/poke command protocol and its length framing.
//!
//! Commands are ASCII byte strings. On the wire every command is preceded by
//! a 4-byte little-endian length header that counts the trailing CRLF.
use vstd::prelude::*;

verus! {

/// Hex digit `k` (0 = least significant) of a 32-bit word.
pub open spec fn nibble_of(v: u32, k: u32) -> u8 {
    ((v >> (4 * k)) & 0xf) as u8
}

/// The little-endian byte representation of a word.
pub open spec fn le_bytes(v: u32) -> Seq<u8> {
    seq![(v & 0xff) as u8, ((v >> 8) & 0xff) as u8, ((v >> 16) & 0xff) as u8, ((v >> 24) & 0xff) as u8]
}

/// The big-endian byte representation of a word.
pub open spec fn be_bytes(v: u32) -> Seq<u8> {
    le_bytes(v).reverse()
}

/// The word whose little-endian representation is `b` (four bytes).
pub open spec fn le_value(b: Seq<u8>) -> u32 {
    (b[0] as u32) | ((b[1] as u32) << 8) | ((b[2] as u32) << 16) | ((b[3] as u32) << 24)
}

/// The word the device expects for a written value: its big-endian bytes read
/// back as little-endian, which reverses the byte order.
pub open spec fn swapped(v: u32) -> u32 {
    le_value(be_bytes(v))
}

/// The lowercase ASCII hex digit of a value below 16.
pub open spec fn hex_digit(n: u8) -> u8 {
    if n < 10 {
        (48 + n) as u8
    } else {
        (87 + n) as u8
    }
}

/// A word as exactly eight lowercase hex digits, most significant first.
pub open spec fn hex8(v: u32) -> Seq<u8> {
    Seq::new(8, |i: int| hex_digit(nibble_of(v, (7 - i) as u32)))
}

/// A byte sequence as two lowercase hex digits per byte, in order.
pub open spec fn hex_of_bytes(b: Seq<u8>) -> Seq<u8>
    decreases b.len(),
{
    if b.len() == 0 {
        Seq::empty()
    } else {
        seq![hex_digit(b[0] >> 4), hex_digit(b[0] & 0xf)] + hex_of_bytes(b.drop_first())
    }
}

/// `0x` followed by eight hex digits.
pub open spec fn hex_token(v: u32) -> Seq<u8> {
    seq![48u8, 120u8] + hex8(v)
}

/// `poke 0xAAAAAAAA 0xVVVVVVVV`, with the value's bytes swapped.
pub open spec fn poke_command(address: u32, value: u32) -> Seq<u8> {
    seq![112u8, 111u8, 107u8, 101u8, 32u8] + hex_token(address) + seq![32u8] + hex_token(
        swapped(value),
    )
}

/// `peek 0xAAAAAAAA 0xLLLLLLLL`.
pub open spec fn peek_command(address: u32, length: u32) -> Seq<u8> {
    seq![112u8, 101u8, 101u8, 107u8, 32u8] + hex_token(address) + seq![32u8] + hex_token(length)
}

/// The header announcing a command: its length plus two, little-endian.
pub open spec fn frame_header(cmd: Seq<u8>) -> Seq<u8> {
    le_bytes((cmd.len() + 2) as u32)
}

/// The command as transmitted: its bytes followed by CR LF.
pub open spec fn frame_payload(cmd: Seq<u8>) -> Seq<u8> {
    cmd + seq![13u8, 10u8]
}

/// Reverses the byte order of a word.
pub fn byte_swap(v: u32) -> (r: u32)
    ensures
        r == swapped(v),
        le_bytes(r) == be_bytes(v),
{
    let r = (v >> 24) | ((v >> 8) & 0xff00) | ((v << 8) & 0xff0000) | (v << 24);
    assert(r == (((v >> 24) & 0xff) as u8 as u32) | ((((v >> 16) & 0xff) as u8 as u32) << 8) | (
    (((v >> 8) & 0xff) as u8 as u32) << 16) | (((v & 0xff) as u8 as u32) << 24)) by (bit_vector)
        requires
            r == (v >> 24) | ((v >> 8) & 0xff00) | ((v << 8) & 0xff0000) | (v << 24),
    ;
    assert(((r & 0xff) as u8 == ((v >> 24) & 0xff) as u8) && (((r >> 8) & 0xff) as u8 == ((v
        >> 16) & 0xff) as u8) && (((r >> 16) & 0xff) as u8 == ((v >> 8) & 0xff) as u8) && (((r
        >> 24) & 0xff) as u8 == (v & 0xff) as u8)) by (bit_vector)
        requires
            r == (v >> 24) | ((v >> 8) & 0xff00) | ((v << 8) & 0xff0000) | (v << 24),
    ;
    assert(le_bytes(r) =~= be_bytes(v));
    r
}

/// Reversing the byte order twice gives the word back.
pub proof fn lemma_swap_twice(v: u32)
    ensures
        swapped(swapped(v)) == v,
{
    let s = swapped(v);
    assert(s == (((v >> 24) & 0xff) as u8 as u32) | ((((v >> 16) & 0xff) as u8 as u32) << 8) | (
    (((v >> 8) & 0xff) as u8 as u32) << 16) | (((v & 0xff) as u8 as u32) << 24));
    assert((((s >> 24) & 0xff) as u8 as u32) | ((((s >> 16) & 0xff) as u8 as u32) << 8) | ((((s
        >> 8) & 0xff) as u8 as u32) << 16) | (((s & 0xff) as u8 as u32) << 24) == v)
        by (bit_vector)
        requires
            s == (((v >> 24) & 0xff) as u8 as u32) | ((((v >> 16) & 0xff) as u8 as u32) << 8) | (
            (((v >> 8) & 0xff) as u8 as u32) << 16) | (((v & 0xff) as u8 as u32) << 24),
    ;
}

/// The eight hex digits of a word, as stated by a byte view.
pub proof fn lemma_hex8_swapped(v: u32)
    ensures
        hex8(swapped(v)) == hex_of_bytes(le_bytes(v)),
{
    let s = swapped(v);
    let b = le_bytes(v);
    assert(s == (((v >> 24) & 0xff) as u8 as u32) | ((((v >> 16) & 0xff) as u8 as u32) << 8) | (
    (((v >> 8) & 0xff) as u8 as u32) << 16) | (((v & 0xff) as u8 as u32) << 24));
    assert(((s >> 28) & 0xf) as u8 == ((v & 0xff) as u8) >> 4 && ((s >> 24) & 0xf) as u8 == ((v
        & 0xff) as u8) & 0xf && ((s >> 20) & 0xf) as u8 == (((v >> 8) & 0xff) as u8) >> 4 && ((s
        >> 16) & 0xf) as u8 == (((v >> 8) & 0xff) as u8) & 0xf && ((s >> 12) & 0xf) as u8 == (((v
        >> 16) & 0xff) as u8) >> 4 && ((s >> 8) & 0xf) as u8 == (((v >> 16) & 0xff) as u8) & 0xf
        && ((s >> 4) & 0xf) as u8 == (((v >> 24) & 0xff) as u8) >> 4 && (s & 0xf) as u8 == (((v
        >> 24) & 0xff) as u8) & 0xf) by (bit_vector)
        requires
            s == (((v >> 24) & 0xff) as u8 as u32) | ((((v >> 16) & 0xff) as u8 as u32) << 8) | (
            (((v >> 8) & 0xff) as u8 as u32) << 16) | (((v & 0xff) as u8 as u32) << 24),
    ;
    assert(b.drop_first().drop_first().drop_first().drop_first() =~= Seq::<u8>::empty());
    assert(nibble_of(s, 7) == ((s >> 28) & 0xf) as u8);
    assert(nibble_of(s, 6) == ((s >> 24) & 0xf) as u8);
    assert(nibble_of(s, 5) == ((s >> 20) & 0xf) as u8);
    assert(nibble_of(s, 4) == ((s >> 16) & 0xf) as u8);
    assert(nibble_of(s, 3) == ((s >> 12) & 0xf) as u8);
    assert(nibble_of(s, 2) == ((s >> 8) & 0xf) as u8);
    assert(nibble_of(s, 1) == ((s >> 4) & 0xf) as u8);
    assert((s >> 0u32) & 0xf == s & 0xf) by (bit_vector);
    assert(nibble_of(s, 0) == (s & 0xf) as u8);
    let b1 = b.drop_first();
    let b2 = b1.drop_first();
    let b3 = b2.drop_first();
    let b4 = b3.drop_first();
    assert(hex_of_bytes(b4) =~= Seq::<u8>::empty());
    assert(hex_of_bytes(b3) =~= seq![hex_digit(b[3] >> 4), hex_digit(b[3] & 0xf)]);
    assert(hex_of_bytes(b2) =~= seq![hex_digit(b[2] >> 4), hex_digit(b[2] & 0xf)] + hex_of_bytes(
        b3,
    ));
    assert(hex_of_bytes(b1) =~= seq![hex_digit(b[1] >> 4), hex_digit(b[1] & 0xf)] + hex_of_bytes(
        b2,
    ));
    assert(hex8(s) =~= hex_of_bytes(b));
}

/// The value field of a poke command is the value's little-endian bytes
/// written out in order as hex, and reversing the byte order twice is the
/// identity, so the device reads back the value itself.
pub proof fn lemma_poke_value(address: u32, value: u32)
    ensures
        poke_command(address, value).len() == 26,
        poke_command(address, value).subrange(18, 26) == hex_of_bytes(le_bytes(value)),
        swapped(swapped(value)) == value,
{
    lemma_hex8_swapped(value);
    lemma_swap_twice(value);
    assert(poke_command(address, value).subrange(18, 26) =~= hex8(swapped(value)));
}

/// Appends the eight hex digits of `v` to `out`.
fn push_hex8(out: &mut Vec<u8>, v: u32)
    ensures
        final(out)@ == old(out)@ + hex8(v),
{
    let mut k: u32 = 8;
    while k > 0
        invariant
            k <= 8,
            out@ == old(out)@ + hex8(v).subrange(0, 8 - k as int),
        decreases k,
    {
        k = k - 1;
        let d: u8 = ((v >> (4 * k)) & 0xf) as u8;
        assert(d < 16) by (bit_vector)
            requires
                d == ((v >> (4 * k)) & 0xf) as u8,
        ;
        let c: u8 = if d < 10 {
            48 + d
        } else {
            87 + d
        };
        out.push(c);
        assert(hex8(v).subrange(0, 8 - k as int) =~= hex8(v).subrange(0, 7 - k as int).push(c));
    }
    assert(hex8(v).subrange(0, 8) =~= hex8(v));
}

/// Appends `0x` and the eight hex digits of `v` to `out`.
fn push_hex_token(out: &mut Vec<u8>, v: u32)
    ensures
        final(out)@ == old(out)@ + hex_token(v),
{
    out.push(48u8);
    out.push(120u8);
    push_hex8(out, v);
    assert(final(out)@ =~= old(out)@ + hex_token(v));
}

/// Reading back the little-endian bytes of a word gives the word.
pub proof fn lemma_le_round_trip(v: u32)
    ensures
        le_value(le_bytes(v)) == v,
{
    assert(((v & 0xff) as u8 as u32) | ((((v >> 8) & 0xff) as u8 as u32) << 8) | ((((v >> 16)
        & 0xff) as u8 as u32) << 16) | ((((v >> 24) & 0xff) as u8 as u32) << 24) == v)
        by (bit_vector);
}

/// The little-endian bytes of a word.
pub fn u32_to_le_bytes(v: u32) -> (r: Vec<u8>)
    ensures
        r@ == le_bytes(v),
{
    let r = vec![(v & 0xff) as u8, ((v >> 8) & 0xff) as u8, ((v >> 16) & 0xff) as u8, ((v >> 24) & 0xff) as u8];
    assert(r@ =~= le_bytes(v));
    r
}

/// The word whose little-endian bytes are the four given bytes.
pub fn u32_from_le_bytes(b: &[u8]) -> (r: u32)
    requires
        b@.len() == 4,
    ensures
        r == le_value(b@),
{
    (b[0] as u32) | ((b[1] as u32) << 8) | ((b[2] as u32) << 16) | ((b[3] as u32) << 24)
}

/// The command that writes `value` at `address`: `poke 0xAAAAAAAA 0xVVVVVVVV`,
/// with the value's byte order reversed.
pub fn poke_command_bytes(address: u32, value: u32) -> (r: Vec<u8>)
    ensures
        r@ == poke_command(address, value),
{
    let mut r: Vec<u8> = vec![112u8, 111u8, 107u8, 101u8, 32u8];
    push_hex_token(&mut r, address);
    r.push(32u8);
    let converted = byte_swap(value);
    push_hex_token(&mut r, converted);
    assert(r@ =~= poke_command(address, value));
    r
}

/// The command that reads `length` bytes at `address`: `peek 0xAAAAAAAA 0xLLLLLLLL`.
pub fn peek_command_bytes(address: u32, length: u32) -> (r: Vec<u8>)
    ensures
        r@ == peek_command(address, length),
{
    let mut r: Vec<u8> = vec![112u8, 101u8, 101u8, 107u8, 32u8];
    push_hex_token(&mut r, address);
    r.push(32u8);
    push_hex_token(&mut r, length);
    assert(r@ =~= peek_command(address, length));
    r
}

/// The length header sent ahead of a command.
pub fn frame_header_bytes(cmd: &Vec<u8>) -> (r: Vec<u8>)
    requires
        cmd@.len() + 2 <= u32::MAX,
    ensures
        r@ == frame_header(cmd@),
        le_value(r@) == cmd@.len() + 2,
{
    let n: u32 = (cmd.len() + 2) as u32;
    proof {
        lemma_le_round_trip(n);
    }
    u32_to_le_bytes(n)
}

/// The command bytes as sent: the command followed by CR LF.
pub fn frame_payload_bytes(cmd: &Vec<u8>) -> (r: Vec<u8>)
    ensures
        r@ == frame_payload(cmd@),
{
    let mut r: Vec<u8> = Vec::new();
    let mut i: usize = 0;
    while i < cmd.len()
        invariant
            i <= cmd@.len(),
            r@ == cmd@.subrange(0, i as int),
        decreases cmd@.len() - i,
    {
        r.push(cmd[i]);
        i = i + 1;
        assert(r@ =~= cmd@.subrange(0, i as int));
    }
    r.push(13u8);
    r.push(10u8);
    assert(r@ =~= frame_payload(cmd@));
    r
}

/// A framed command announces its own length: the header read back as a word
/// is the number of payload bytes, and the payload is the command and CR LF.
pub proof fn lemma_frame_length(cmd: Seq<u8>)
    requires
        cmd.len() + 2 <= u32::MAX,
    ensures
        le_value(frame_header(cmd)) == cmd.len() + 2,
        le_value(frame_header(cmd)) == frame_payload(cmd).len(),
        frame_payload(cmd).subrange(0, cmd.len() as int) == cmd,
        frame_payload(cmd).subrange(cmd.len() as int, cmd.len() + 2int) == seq![13u8, 10u8],
{
    lemma_le_round_trip((cmd.len() + 2) as u32);
    assert(frame_payload(cmd).subrange(0, cmd.len() as int) =~= cmd);
    assert(frame_payload(cmd).subrange(cmd.len() as int, cmd.len() + 2int) =~= seq![13u8, 10u8]);
}

} // verus!
