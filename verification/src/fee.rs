//! The parameters of a call whose fee is asked for.

use crate::error::ErrorKind;
use rustc_hex::FromHex;
use vstd::prelude::*;
use vstd::string::StringSliceAdditionalSpecFns;
use vstd::utf8::{
    encode_utf8_valid_utf8, is_char_boundary, length_of_first_scalar, pop_first_scalar,
    valid_utf8,
};

verus! {

/// Whether `c` is white space that hexadecimal text may hold between its
/// digits: a blank, a carriage return, a line feed or a tabulator.
pub open spec fn is_hex_space(c: u8) -> bool {
    c == 0x20 || c == 0x0d || c == 0x0a || c == 0x09
}

/// The value of the hexadecimal digit `c`, in either case.
pub open spec fn hex_digit(c: u8) -> Option<u8> {
    if 0x30 <= c <= 0x39 {
        Some((c - 0x30) as u8)
    } else if 0x41 <= c <= 0x46 {
        Some((c - 0x41 + 10) as u8)
    } else if 0x61 <= c <= 0x66 {
        Some((c - 0x61 + 10) as u8)
    } else {
        None
    }
}

/// The bytes that the hexadecimal text `text`, given as its bytes, spells:
/// two digits to a byte, the higher digit first, white space passed over.
/// `None` where the text holds another character or an odd number of digits.
pub open spec fn hex_decoded(text: Seq<u8>) -> Option<Seq<u8>> {
    let digits = text.filter(|c: u8| !is_hex_space(c));
    if digits.len() % 2 == 0 && forall|i: int|
        0 <= i < digits.len() ==> (#[trigger] hex_digit(digits[i])) is Some {
        Some(
            Seq::new(
                digits.len() / 2,
                |i: int|
                    (16 * hex_digit(digits[2 * i]).unwrap() + hex_digit(
                        digits[2 * i + 1],
                    ).unwrap()) as u8,
            ),
        )
    } else {
        None
    }
}

/// `rustc_hex`'s `FromHex::from_hex` on `text`, collected into a vector: the
/// bytes that the text spells, as `hex_decoded` spells out, or `None` where
/// it reports a character that is no digit or an odd number of digits.
#[verifier::external_body]
fn hex_bytes(text: &str) -> (r: Option<Vec<u8>>)
    ensures
        match r {
            Some(bytes) => hex_decoded(text.spec_bytes()) == Some(bytes@),
            None => hex_decoded(text.spec_bytes()) is None,
        },
{
    text.from_hex::<Vec<u8>>().ok()
}

/// Whether `text` starts with the two characters `0x`.
pub open spec fn has_hex_prefix(text: Seq<u8>) -> bool {
    text.len() >= 2 && text[0] == 0x30 && text[1] == 0x78
}

/// Behind two leading characters of one byte each a text can be cut.
pub proof fn lemma_prefix_is_char_boundary(text: Seq<u8>)
    requires
        valid_utf8(text),
        has_hex_prefix(text),
    ensures
        is_char_boundary(text, 2),
{
    let tail = pop_first_scalar(text);
    assert(length_of_first_scalar(text) == 1);
    assert(tail =~= text.subrange(1, text.len() as int));
    assert(valid_utf8(tail));
    assert(length_of_first_scalar(tail) == 1);
    assert(valid_utf8(pop_first_scalar(tail)));
    assert(is_char_boundary(pop_first_scalar(tail), 0));
    assert(is_char_boundary(tail, 1));
}

/// The bytes of a call that is given as hexadecimal text behind `0x`.
///
/// Text without the prefix is `BinanryStartErr`; text whose digits spell no
/// bytes is `HexDecodeErr`.
pub fn call_params_bytes(call_params: &str) -> (r: Result<Vec<u8>, ErrorKind>)
    ensures
        match r {
            Ok(bytes) => has_hex_prefix(call_params.spec_bytes()) && hex_decoded(
                call_params.spec_bytes().skip(2),
            ) == Some(bytes@),
            Err(ErrorKind::BinanryStartErr) => !has_hex_prefix(call_params.spec_bytes()),
            Err(ErrorKind::HexDecodeErr) => has_hex_prefix(call_params.spec_bytes())
                && hex_decoded(call_params.spec_bytes().skip(2)) is None,
            Err(_) => false,
        },
{
    let text = call_params.as_bytes();
    if text.len() < 2 || text[0] != 0x30 || text[1] != 0x78 {
        return Err(ErrorKind::BinanryStartErr);
    }
    proof {
        encode_utf8_valid_utf8(call_params@);
        lemma_prefix_is_char_boundary(call_params.spec_bytes());
    }
    let (_, digits) = call_params.split_at(2);
    assert(digits.spec_bytes() =~= call_params.spec_bytes().skip(2));
    match hex_bytes(digits) {
        Some(bytes) => Ok(bytes),
        None => Err(ErrorKind::HexDecodeErr),
    }
}

} // verus!
