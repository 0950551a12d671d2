//! Text decoding for record and root names.
//!
//! Directory records store their names as big-endian UTF-16 code units and
//! are decoded *lossily*: the format does not guarantee well-formed text in
//! names, so ill-formed sequences become the replacement character instead
//! of an error. The root directory name, by contrast, is stored as UTF-8
//! and must be valid; an invalid sequence there is a structural error.

use vstd::prelude::*;

verus! {

/// The big-endian 16-bit code units held in `bytes`, pairing consecutive
/// bytes most-significant first.
pub open spec fn be_units(bytes: Seq<u8>) -> Seq<u16>
    recommends
        bytes.len() % 2 == 0,
{
    Seq::new((bytes.len() / 2) as nat, |i: int| (256 * (bytes[2 * i] as int) + (bytes[2 * i + 1] as int)) as u16)
}

/// True when `u` lies in the high-surrogate range `0xD800..=0xDBFF`.
pub open spec fn is_high_surrogate(u: u16) -> bool {
    0xd800 <= u <= 0xdbff
}

/// True when `u` lies in the low-surrogate range `0xDC00..=0xDFFF`.
pub open spec fn is_low_surrogate(u: u16) -> bool {
    0xdc00 <= u <= 0xdfff
}

/// The supplementary-plane character encoded by a surrogate pair.
pub open spec fn surrogate_pair_char(hi: u16, lo: u16) -> char
    recommends
        is_high_surrogate(hi),
        is_low_surrogate(lo),
{
    (((0x10000 + 0x400 * ((hi - 0xd800) as int) + ((lo - 0xdc00) as int))) as u32) as char
}

/// Lossy UTF-16 decoding: a high surrogate followed by a low surrogate
/// yields the paired supplementary character; an unpaired surrogate yields
/// the replacement character `U+FFFD`; any other code unit yields the
/// character of its own value. Never fails.
pub open spec fn utf16_lossy(units: Seq<u16>) -> Seq<char>
    decreases units.len(),
{
    if units.len() == 0 {
        Seq::empty()
    } else if is_high_surrogate(units[0]) && units.len() >= 2 && is_low_surrogate(units[1]) {
        seq![surrogate_pair_char(units[0], units[1])] + utf16_lossy(units.skip(2))
    } else if is_high_surrogate(units[0]) || is_low_surrogate(units[0]) {
        seq!['\u{fffd}'] + utf16_lossy(units.skip(1))
    } else {
        seq![(units[0] as u32) as char] + utf16_lossy(units.skip(1))
    }
}

/// Relies on `String::from_utf16_lossy`: decodes the code units, combining
/// each high surrogate directly followed by a low surrogate into one
/// supplementary character and replacing every unpaired surrogate with
/// `U+FFFD`, exactly as [`utf16_lossy`] states.
#[verifier::external_body]
pub(crate) fn utf16_lossy_to_string(units: &Vec<u16>) -> (r: String)
    ensures
        r@ == utf16_lossy(units@),
{
    String::from_utf16_lossy(units.as_slice())
}

/// Relies on `String::from_utf8`: returns `Ok` exactly when the bytes are
/// valid UTF-8, and then yields the characters those bytes encode.
#[verifier::external_body]
pub(crate) fn utf8_to_string(bytes: Vec<u8>) -> (r: Option<String>)
    ensures
        r is Some <==> vstd::utf8::valid_utf8(bytes@),
        r matches Some(s) ==> s@ == vstd::utf8::decode_utf8(bytes@),
{
    match String::from_utf8(bytes) {
        Ok(s) => Some(s),
        Err(_) => None,
    }
}

} // verus!
