//! The binary format of stored values: little-endian integers, compact
//! length prefixes and length-prefixed byte strings.
//!
//! Each reader takes the bytes that are left and gives back the value it read
//! together with the bytes that follow it, or `None` where the bytes do not
//! have the shape it expects.

use parity_codec::{Compact, Decode, Encode};
use vstd::prelude::*;
use vstd::slice::{slice_subrange, slice_to_vec};

verus! {

/// The number that `bytes` spell, least significant byte first.
pub open spec fn le_nat(bytes: Seq<u8>) -> nat
    decreases bytes.len(),
{
    if bytes.len() == 0 {
        0
    } else {
        bytes[0] as nat + 256 * le_nat(bytes.skip(1))
    }
}

/// The `width` lowest bytes of `x`, least significant byte first.
pub open spec fn le_bytes(x: nat, width: nat) -> Seq<u8>
    decreases width,
{
    if width == 0 {
        Seq::empty()
    } else {
        seq![(x % 256) as u8] + le_bytes(x / 256, (width - 1) as nat)
    }
}

/// 256 to the power of `n`.
pub open spec fn pow256(n: nat) -> nat
    decreases n,
{
    if n == 0 {
        1
    } else {
        256 * pow256((n - 1) as nat)
    }
}

/// Spelling a number that fits into `width` bytes and reading it back gives
/// the number, and the spelling has `width` bytes.
pub proof fn lemma_le_bytes_round_trip(x: nat, width: nat)
    requires
        x < pow256(width),
    ensures
        le_bytes(x, width).len() == width,
        le_nat(le_bytes(x, width)) == x,
    decreases width,
{
    if width > 0 {
        let rest = le_bytes(x / 256, (width - 1) as nat);
        lemma_le_bytes_round_trip(x / 256, (width - 1) as nat);
        assert(le_bytes(x, width).skip(1) =~= rest);
    }
}

/// Four bytes reach up to the largest `u32`, eight up to the largest `u64`.
pub proof fn lemma_pow256_widths()
    ensures
        pow256(1) == 0x100,
        pow256(2) == 0x1_0000,
        pow256(4) == 0x1_0000_0000,
        pow256(8) == 0x1_0000_0000_0000_0000,
{
    reveal_with_fuel(pow256, 9);
}

/// Reading a `u32`: the first four bytes, least significant first.
pub open spec fn parse_u32(bytes: Seq<u8>) -> Option<(u32, Seq<u8>)> {
    if bytes.len() >= 4 {
        Some((le_nat(bytes.take(4)) as u32, bytes.skip(4)))
    } else {
        None
    }
}

/// Reading a `u64`: the first eight bytes, least significant first.
pub open spec fn parse_u64(bytes: Seq<u8>) -> Option<(u64, Seq<u8>)> {
    if bytes.len() >= 8 {
        Some((le_nat(bytes.take(8)) as u64, bytes.skip(8)))
    } else {
        None
    }
}

/// Reading a compact 32-bit number. The two lowest bits of the first byte
/// choose the width: one byte, two bytes or four bytes that hold the number
/// times four, or a marker byte followed by the four bytes of the number.
pub open spec fn parse_compact_u32(bytes: Seq<u8>) -> Option<(u32, Seq<u8>)> {
    if bytes.len() == 0 {
        None
    } else if bytes[0] % 4 == 0 {
        Some(((bytes[0] / 4) as u32, bytes.skip(1)))
    } else if bytes[0] % 4 == 1 {
        if bytes.len() >= 2 {
            Some(((le_nat(bytes.take(2)) / 4) as u32, bytes.skip(2)))
        } else {
            None
        }
    } else if bytes[0] % 4 == 2 {
        if bytes.len() >= 4 {
            Some(((le_nat(bytes.take(4)) / 4) as u32, bytes.skip(4)))
        } else {
            None
        }
    } else if bytes[0] == 3 && bytes.len() >= 5 {
        Some((le_nat(bytes.subrange(1, 5)) as u32, bytes.skip(5)))
    } else {
        None
    }
}

/// Reading a flag: one byte, 0 for `false` and 1 for `true`.
pub open spec fn parse_bool(bytes: Seq<u8>) -> Option<(bool, Seq<u8>)> {
    if bytes.len() >= 1 && bytes[0] <= 1 {
        Some((bytes[0] == 1, bytes.skip(1)))
    } else {
        None
    }
}

/// Reading exactly `n` bytes.
pub open spec fn parse_fixed(bytes: Seq<u8>, n: nat) -> Option<(Seq<u8>, Seq<u8>)> {
    if bytes.len() >= n {
        Some((bytes.take(n as int), bytes.skip(n as int)))
    } else {
        None
    }
}

/// Reading a byte string: a compact length, then that many bytes.
pub open spec fn parse_byte_string(bytes: Seq<u8>) -> Option<(Seq<u8>, Seq<u8>)> {
    match parse_compact_u32(bytes) {
        Some((len, rest)) => parse_fixed(rest, len as nat),
        None => None,
    }
}

/// `parity_codec`'s `Decode::decode` for `u32` on a byte slice: with fewer
/// than four bytes it gives `None`, else the number that the first four bytes
/// spell in little-endian order.
#[verifier::external_body]
fn scale_u32(input: &[u8]) -> (r: Option<u32>)
    ensures
        r == (if input@.len() >= 4 {
            Some(le_nat(input@.take(4)) as u32)
        } else {
            None
        }),
{
    let mut rest = input;
    <u32 as Decode>::decode(&mut rest)
}

/// `parity_codec`'s `Decode::decode` for `u64` on a byte slice: with fewer
/// than eight bytes it gives `None`, else the number that the first eight
/// bytes spell in little-endian order.
#[verifier::external_body]
fn scale_u64(input: &[u8]) -> (r: Option<u64>)
    ensures
        r == (if input@.len() >= 8 {
            Some(le_nat(input@.take(8)) as u64)
        } else {
            None
        }),
{
    let mut rest = input;
    <u64 as Decode>::decode(&mut rest)
}

/// `parity_codec`'s `Decode::decode` for `Compact<u32>` on a byte slice: the
/// number and the bytes behind it, as `parse_compact_u32` spells out, or
/// `None` where the bytes end early or the marker byte asks for more than
/// 32 bits.
#[verifier::external_body]
pub(crate) fn scale_compact_u32(input: &[u8]) -> (r: Option<(u32, &[u8])>)
    ensures
        match r {
            Some((v, rest)) => parse_compact_u32(input@) == Some((v, rest@)),
            None => parse_compact_u32(input@) is None,
        },
{
    let mut rest = input;
    <Compact<u32> as Decode>::decode(&mut rest).map(|c| (c.0, rest))
}

/// Reads a `u32` and gives the bytes behind it.
pub fn take_u32(input: &[u8]) -> (r: Option<(u32, &[u8])>)
    ensures
        match r {
            Some((v, rest)) => parse_u32(input@) == Some((v, rest@)),
            None => parse_u32(input@) is None,
        },
{
    match scale_u32(input) {
        Some(v) => Some((v, slice_subrange(input, 4, input.len()))),
        None => None,
    }
}

/// Reads a `u64` and gives the bytes behind it.
pub fn take_u64(input: &[u8]) -> (r: Option<(u64, &[u8])>)
    ensures
        match r {
            Some((v, rest)) => parse_u64(input@) == Some((v, rest@)),
            None => parse_u64(input@) is None,
        },
{
    match scale_u64(input) {
        Some(v) => Some((v, slice_subrange(input, 8, input.len()))),
        None => None,
    }
}

/// Reads a flag and gives the bytes behind it.
pub fn take_bool(input: &[u8]) -> (r: Option<(bool, &[u8])>)
    ensures
        match r {
            Some((v, rest)) => parse_bool(input@) == Some((v, rest@)),
            None => parse_bool(input@) is None,
        },
{
    if input.len() >= 1 && input[0] <= 1 {
        Some((input[0] == 1, slice_subrange(input, 1, input.len())))
    } else {
        None
    }
}

/// Reads exactly `n` bytes and gives the bytes behind them.
pub fn take_fixed(input: &[u8], n: usize) -> (r: Option<(Vec<u8>, &[u8])>)
    ensures
        match r {
            Some((v, rest)) => parse_fixed(input@, n as nat) == Some((v@, rest@)),
            None => parse_fixed(input@, n as nat) is None,
        },
{
    if input.len() >= n {
        let head = slice_to_vec(slice_subrange(input, 0, n));
        Some((head, slice_subrange(input, n, input.len())))
    } else {
        None
    }
}

/// Reads a length-prefixed byte string and gives the bytes behind it.
pub fn take_byte_string(input: &[u8]) -> (r: Option<(Vec<u8>, &[u8])>)
    ensures
        match r {
            Some((v, rest)) => parse_byte_string(input@) == Some((v@, rest@)),
            None => parse_byte_string(input@) is None,
        },
{
    match scale_compact_u32(input) {
        Some((len, rest)) => take_fixed(rest, len as usize),
        None => None,
    }
}

/// Reading a list of `u64`: a compact count, then that many numbers of
/// eight bytes each.
pub open spec fn parse_u64_list(bytes: Seq<u8>) -> Option<(Seq<u64>, Seq<u8>)> {
    match parse_compact_u32(bytes) {
        Some((count, rest)) => if rest.len() >= 8 * count {
            Some(
                (
                    Seq::new(count as nat, |i: int| le_nat(rest.subrange(8 * i, 8 * i + 8)) as u64),
                    rest.skip(8 * count),
                ),
            )
        } else {
            None
        },
        None => None,
    }
}

/// Reads a list of `u64` and gives the bytes behind it.
pub fn take_u64_list(input: &[u8]) -> (r: Option<(Vec<u64>, &[u8])>)
    ensures
        match r {
            Some((v, rest)) => parse_u64_list(input@) == Some((v@, rest@)),
            None => parse_u64_list(input@) is None,
        },
{
    let (count, rest) = match scale_compact_u32(input) {
        Some(x) => x,
        None => return None,
    };
    if (rest.len() as u64) < 8 * (count as u64) {
        return None;
    }
    let mut items: Vec<u64> = Vec::new();
    let mut i: u32 = 0;
    while i < count
        invariant
            i <= count,
            rest@.len() >= 8 * count,
            rest@.len() <= usize::MAX,
            items@.len() == i,
            forall|j: int|
                0 <= j < i ==> #[trigger] items@[j] == le_nat(rest@.subrange(8 * j, 8 * j + 8))
                    as u64,
        decreases count - i,
    {
        let from: usize = (8 * (i as u64)) as usize;
        let (item, _) = match take_u64(slice_subrange(rest, from, from + 8)) {
            Some(x) => x,
            None => return None,
        };
        assert(rest@.subrange(from as int, from + 8).take(8) =~= rest@.subrange(8 * i, 8 * i + 8));
        items.push(item);
        i = i + 1;
    }
    assert(items@ =~= Seq::new(
        count as nat,
        |i: int| le_nat(rest@.subrange(8 * i, 8 * i + 8)) as u64,
    ));
    let behind = slice_subrange(rest, (8 * (count as u64)) as usize, rest.len());
    Some((items, behind))
}

/// Reading a list of records of `width` bytes each: a compact count, then
/// the records one after the other.
pub open spec fn parse_chunks(bytes: Seq<u8>, width: nat) -> Option<(Seq<Seq<u8>>, Seq<u8>)> {
    match parse_compact_u32(bytes) {
        Some((count, rest)) => if rest.len() >= count * width {
            Some(
                (
                    Seq::new(count as nat, |i: int| rest.subrange(i * width, (i + 1) * width)),
                    rest.skip(count * width),
                ),
            )
        } else {
            None
        },
        None => None,
    }
}

/// The byte strings that a list of byte vectors holds.
pub open spec fn chunk_views(chunks: Seq<Vec<u8>>) -> Seq<Seq<u8>> {
    Seq::new(chunks.len(), |i: int| chunks[i]@)
}

/// Reads a list of records of `width` bytes each and gives the bytes behind
/// it.
pub fn take_chunks(input: &[u8], width: u32) -> (r: Option<(Vec<Vec<u8>>, &[u8])>)
    ensures
        match r {
            Some((v, rest)) => parse_chunks(input@, width as nat) == Some(
                (chunk_views(v@), rest@),
            ),
            None => parse_chunks(input@, width as nat) is None,
        },
{
    let (count, rest) = match scale_compact_u32(input) {
        Some(x) => x,
        None => return None,
    };
    assert(count as u64 * width as u64 <= u32::MAX * u32::MAX) by (nonlinear_arith)
        requires
            count <= u32::MAX,
            width <= u32::MAX,
    ;
    let total: u64 = count as u64 * width as u64;
    if (rest.len() as u64) < total {
        return None;
    }
    let mut chunks: Vec<Vec<u8>> = Vec::new();
    let mut i: u32 = 0;
    while i < count
        invariant
            i <= count,
            total == count * width,
            rest@.len() >= total,
            rest@.len() <= usize::MAX,
            chunks@.len() == i,
            forall|j: int|
                0 <= j < i ==> (#[trigger] chunks@[j])@ == rest@.subrange(
                    j * width,
                    (j + 1) * width,
                ),
        decreases count - i,
    {
        assert(i * width + width <= count * width && (i + 1) * width == i * width + width)
            by (nonlinear_arith)
            requires
                i < count,
                width >= 0,
        ;
        let from: usize = (i as u64 * width as u64) as usize;
        let chunk = slice_to_vec(slice_subrange(rest, from, from + width as usize));
        chunks.push(chunk);
        i = i + 1;
    }
    assert(chunk_views(chunks@) =~= Seq::new(
        count as nat,
        |i: int| rest@.subrange(i * width, (i + 1) * width),
    ));
    let behind = slice_subrange(rest, total as usize, rest.len());
    Some((chunks, behind))
}

/// Reading a tag: one byte below `variants`.
pub open spec fn parse_tag(bytes: Seq<u8>, variants: u8) -> Option<(u8, Seq<u8>)> {
    if bytes.len() >= 1 && bytes[0] < variants {
        Some((bytes[0], bytes.skip(1)))
    } else {
        None
    }
}

/// Reads a tag below `variants` and gives the bytes behind it.
pub fn take_tag(input: &[u8], variants: u8) -> (r: Option<(u8, &[u8])>)
    ensures
        match r {
            Some((v, rest)) => parse_tag(input@, variants) == Some((v, rest@)),
            None => parse_tag(input@, variants) is None,
        },
{
    if input.len() >= 1 && input[0] < variants {
        Some((input[0], slice_subrange(input, 1, input.len())))
    } else {
        None
    }
}

/// The compact spelling of a 32-bit number: one byte below 64, two bytes
/// below 16384 and four bytes below 2 to the power of 30, each holding the
/// number times four plus the width mark, else a marker byte and the four
/// bytes of the number.
pub open spec fn compact_u32_bytes(x: u32) -> Seq<u8> {
    if x < 64 {
        seq![(x * 4) as u8]
    } else if x < 16384 {
        le_bytes((x * 4 + 1) as nat, 2)
    } else if x < 0x4000_0000 {
        le_bytes((x * 4 + 2) as nat, 4)
    } else {
        seq![3u8] + le_bytes(x as nat, 4)
    }
}

/// The stored form of a byte string: its compact length, then its bytes.
pub open spec fn byte_string_bytes(bytes: Seq<u8>) -> Seq<u8> {
    compact_u32_bytes(bytes.len() as u32) + bytes
}

/// `parity_codec`'s `Encode::encode` for `Compact<u32>`: the compact
/// spelling of the number, as `compact_u32_bytes` spells out.
#[verifier::external_body]
fn scale_compact_u32_bytes(x: u32) -> (r: Vec<u8>)
    ensures
        r@ == compact_u32_bytes(x),
{
    Compact(x).encode()
}

/// Spells a byte string in its stored form.
pub fn encode_byte_string(bytes: &[u8]) -> (r: Vec<u8>)
    requires
        bytes@.len() <= u32::MAX,
    ensures
        r@ == byte_string_bytes(bytes@),
{
    let mut out = scale_compact_u32_bytes(bytes.len() as u32);
    out.extend_from_slice(bytes);
    assert(out@ =~= byte_string_bytes(bytes@));
    out
}

/// Reading the spelling of a number with `width` bytes gives the number
/// back, whatever follows the spelling.
pub proof fn lemma_le_prefix(x: nat, width: nat, rest: Seq<u8>)
    requires
        x < pow256(width),
    ensures
        (le_bytes(x, width) + rest).take(width as int) == le_bytes(x, width),
        (le_bytes(x, width) + rest).skip(width as int) == rest,
        le_nat((le_bytes(x, width) + rest).take(width as int)) == x,
{
    lemma_le_bytes_round_trip(x, width);
    assert((le_bytes(x, width) + rest).take(width as int) =~= le_bytes(x, width));
    assert((le_bytes(x, width) + rest).skip(width as int) =~= rest);
}

/// Reading the compact spelling of a number gives the number back and
/// leaves what follows the spelling.
pub proof fn lemma_compact_round_trip(x: u32, rest: Seq<u8>)
    ensures
        parse_compact_u32(compact_u32_bytes(x) + rest) == Some((x, rest)),
{
    lemma_pow256_widths();
    let bytes = compact_u32_bytes(x) + rest;
    if x < 64 {
        assert(bytes[0] == (x * 4) as u8);
        assert(bytes.skip(1) =~= rest);
    } else if x < 16384 {
        let spelt = (x * 4 + 1) as nat;
        lemma_le_prefix(spelt, 2, rest);
        reveal_with_fuel(le_bytes, 3);
        assert(bytes[0] == (spelt % 256) as u8);
        assert(bytes[0] % 4 == 1) by (nonlinear_arith)
            requires
                bytes[0] == (spelt % 256) as u8,
                spelt == x * 4 + 1,
        ;
    } else if x < 0x4000_0000 {
        let spelt = (x * 4 + 2) as nat;
        lemma_le_prefix(spelt, 4, rest);
        reveal_with_fuel(le_bytes, 5);
        assert(bytes[0] == (spelt % 256) as u8);
        assert(bytes[0] % 4 == 2) by (nonlinear_arith)
            requires
                bytes[0] == (spelt % 256) as u8,
                spelt == x * 4 + 2,
        ;
    } else {
        lemma_le_prefix(x as nat, 4, rest);
        lemma_le_bytes_round_trip(x as nat, 4);
        assert(bytes[0] == 3);
        assert(bytes.subrange(1, 5) =~= le_bytes(x as nat, 4));
        assert(bytes.skip(5) =~= rest);
    }
}

/// Reading the stored form of a byte string gives the byte string back and
/// leaves what follows it.
pub proof fn lemma_byte_string_round_trip(bytes: Seq<u8>, rest: Seq<u8>)
    requires
        bytes.len() <= u32::MAX,
    ensures
        parse_byte_string(byte_string_bytes(bytes) + rest) == Some((bytes, rest)),
{
    lemma_compact_round_trip(bytes.len() as u32, bytes + rest);
    assert(byte_string_bytes(bytes) + rest =~= compact_u32_bytes(bytes.len() as u32) + (bytes
        + rest));
    assert((bytes + rest).take(bytes.len() as int) =~= bytes);
    assert((bytes + rest).skip(bytes.len() as int) =~= rest);
}

/// Spells a `u32` with four bytes, least significant first.
pub fn u32_le_bytes(x: u32) -> (out: Vec<u8>)
    ensures
        out@ == le_bytes(x as nat, 4),
        out@.len() == 4,
        le_nat(out@) == x,
{
    let mut out: Vec<u8> = Vec::new();
    let mut rem: u32 = x;
    let mut i: usize = 0;
    while i < 4
        invariant
            i <= 4,
            out@.len() == i,
            out@ + le_bytes(rem as nat, (4 - i) as nat) == le_bytes(x as nat, 4),
        decreases 4 - i,
    {
        proof {
            let tail = le_bytes((rem / 256) as nat, (4 - i - 1) as nat);
            assert(out@.push((rem % 256) as u8) + tail =~= out@ + (seq![(rem % 256) as u8] + tail));
        }
        out.push((rem % 256) as u8);
        rem = rem / 256;
        i = i + 1;
    }
    proof {
        assert(out@ + Seq::<u8>::empty() =~= out@);
        lemma_pow256_widths();
        lemma_le_bytes_round_trip(x as nat, 4);
    }
    out
}

/// Spells a `u64` with eight bytes, least significant first.
pub fn u64_le_bytes(x: u64) -> (out: Vec<u8>)
    ensures
        out@ == le_bytes(x as nat, 8),
        out@.len() == 8,
        le_nat(out@) == x,
{
    let mut out: Vec<u8> = Vec::new();
    let mut rem: u64 = x;
    let mut i: usize = 0;
    while i < 8
        invariant
            i <= 8,
            out@.len() == i,
            out@ + le_bytes(rem as nat, (8 - i) as nat) == le_bytes(x as nat, 8),
        decreases 8 - i,
    {
        proof {
            let tail = le_bytes((rem / 256) as nat, (8 - i - 1) as nat);
            assert(out@.push((rem % 256) as u8) + tail =~= out@ + (seq![(rem % 256) as u8] + tail));
        }
        out.push((rem % 256) as u8);
        rem = rem / 256;
        i = i + 1;
    }
    proof {
        assert(out@ + Seq::<u8>::empty() =~= out@);
        lemma_pow256_widths();
        lemma_le_bytes_round_trip(x as nat, 8);
    }
    out
}

} // verus!
