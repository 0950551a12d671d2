//! Mathematical model of the container format.
//!
//! Everything here is specification-level: pure functions over byte
//! sequences that say what each region of a well-formed (or ill-formed)
//! buffer means. The executable decoder in [`crate::parser`] is verified
//! against these definitions.

use vstd::prelude::*;
use crate::error::ParseError;
use crate::text::{be_units, utf16_lossy};

verus! {

/// The fixed 8-byte file signature that every buffer must begin with.
pub open spec fn spec_signature() -> Seq<u8> {
    seq![0x00u8, 0x00u8, 0x00u8, 0x01u8, 0x42u8, 0x75u8, 0x64u8, 0x31u8]
}

/// The fixed 12-byte record terminator: an ASCII tag followed by a fixed
/// trailer. Records inside a directory page carry no length field; the
/// decoder finds the start of the next record by scanning forward for this
/// pattern.
pub open spec fn spec_terminator() -> Seq<u8> {
    seq![
        0x76u8, 0x53u8, 0x72u8, 0x6eu8,
        0x6cu8, 0x6fu8, 0x6eu8, 0x67u8,
        0x00u8, 0x00u8, 0x00u8, 0x01u8,
    ]
}

/// True when the buffer begins with the fixed file signature. A buffer
/// shorter than the signature never matches.
pub open spec fn signature_matches(buf: Seq<u8>) -> bool {
    &&& buf.len() >= spec_signature().len()
    &&& buf.subrange(0, spec_signature().len() as int) == spec_signature()
}

/// The 4-byte big-endian unsigned integer stored at `off`: the format's
/// atomic numeric unit. Every numeric field of the format is such a block.
pub open spec fn block_at(buf: Seq<u8>, off: int) -> int
    recommends
        0 <= off,
        off + 4 <= buf.len(),
{
    0x1000000 * (buf[off] as int) + 0x10000 * (buf[off + 1] as int) + 0x100 * (buf[off + 2] as int)
        + (buf[off + 3] as int)
}

/// The physical byte offset packed into an allocation entry: the entry's
/// upper 27 bits, kept as a multiple of 32, plus the fixed one-block header
/// skip. Equals `((entry >> 5) << 5) + 4`.
pub open spec fn spec_entry_offset(entry: int) -> int {
    32 * (entry / 32) + 4
}

/// The byte size packed into an allocation entry: two to the power of the
/// size-class exponent held in the entry's low 5 bits. Equals
/// `1 << (entry & 0x1f)`.
pub open spec fn spec_entry_size(entry: int) -> int {
    vstd::arithmetic::power2::pow2((entry % 32) as nat) as int
}

/// True when the full 12-byte terminator pattern occurs at position `c`.
/// Near the end of the buffer, where fewer than 12 bytes remain, no match
/// is possible.
pub open spec fn is_terminator_at(buf: Seq<u8>, c: int) -> bool {
    &&& 0 <= c
    &&& c + spec_terminator().len() <= buf.len()
    &&& forall|j: int| 0 <= j < spec_terminator().len() ==> buf[c + j] == spec_terminator()[j]
}

/// The position of the first terminator at or after cursor `c`, or `None`
/// when the scan walks off the end of the buffer first (fewer than two
/// blocks remain) without finding one.
pub open spec fn spec_scan(buf: Seq<u8>, c: int) -> Option<int>
    recommends
        0 <= c,
    decreases buf.len() - c,
{
    if c + 8 > buf.len() {
        None
    } else if is_terminator_at(buf, c) {
        Some(c)
    } else {
        spec_scan(buf, c + 1)
    }
}

/// The run of `count` name records belonging to a directory page whose
/// first record starts at base offset `offset`.
///
/// Each record holds its name's length in UTF-16 code units at
/// `offset + 8` and the big-endian code units themselves from
/// `offset + 12`; the name is decoded lossily. The next record's base
/// offset is one block past the position of the first terminator found at
/// or after `offset`. A scan that walks off the end of the buffer ends the
/// run early with the records decoded so far; a length or name that would
/// read beyond the buffer is a structural error.
pub open spec fn spec_records(buf: Seq<u8>, offset: int, count: nat) -> Result<
    Seq<Seq<char>>,
    ParseError,
>
    recommends
        0 <= offset,
    decreases count,
{
    if count == 0 {
        Ok(Seq::empty())
    } else if offset + 12 > buf.len() {
        Err(ParseError::OutOfRange)
    } else {
        let size = block_at(buf, offset + 8);
        if offset + 12 + 2 * size > buf.len() {
            Err(ParseError::OutOfRange)
        } else {
            let name = utf16_lossy(be_units(buf.subrange(offset + 12, offset + 12 + 2 * size)));
            match spec_scan(buf, offset) {
                None => Ok(seq![name]),
                Some(p) => match spec_records(buf, p + 4, (count - 1) as nat) {
                    Ok(rest) => Ok(seq![name] + rest),
                    Err(e) => Err(e),
                },
            }
        }
    }
}

/// The decoded name records of the directory page at `offset`: a mode tag
/// (which must be the leaf value 0; internal pages are unsupported), a
/// record count, and the records themselves.
pub open spec fn spec_page(buf: Seq<u8>, offset: int) -> Result<Seq<Seq<char>>, ParseError>
    recommends
        0 <= offset,
{
    if offset + 4 > buf.len() {
        Err(ParseError::OutOfRange)
    } else if block_at(buf, offset) != 0 {
        Err(ParseError::UnsupportedPageMode)
    } else if offset + 8 > buf.len() {
        Err(ParseError::OutOfRange)
    } else {
        spec_records(buf, offset, block_at(buf, offset + 4) as nat)
    }
}

/// The root/header region: the root offset stored (minus one block) at
/// header offset `0x08`, its redundant copy at `0x10` (the format's only
/// self-consistency check: both must match exactly), then at the root
/// offset the allocation-index entry count followed by the packed entries
/// themselves, one block apart, starting one block past the count.
pub open spec fn spec_locate_root(buf: Seq<u8>) -> Result<(int, Seq<int>), ParseError> {
    if 12 > buf.len() {
        Err(ParseError::OutOfRange)
    } else if 20 > buf.len() {
        Err(ParseError::OutOfRange)
    } else if block_at(buf, 0x08) != block_at(buf, 0x10) {
        Err(ParseError::InconsistentHeader)
    } else {
        let root_offset = block_at(buf, 0x08) + 4;
        if root_offset + 4 > buf.len() {
            Err(ParseError::OutOfRange)
        } else {
            let count = block_at(buf, root_offset);
            if count > 0 && root_offset + 4 * count + 8 > buf.len() {
                Err(ParseError::OutOfRange)
            } else {
                Ok((root_offset, Seq::new(count as nat, |i: int| block_at(buf, root_offset + 8 + 4 * i))))
            }
        }
    }
}

/// The root's metadata region: a content offset computed from the root
/// offset by a modulo-based padding rule, holding the root directory's
/// UTF-8 name (a structural error when invalid) and the root entry's
/// logical index. That index resolves through the allocation index to an
/// index page, which holds a second logical index, which resolves to the
/// directory page that the tree is decoded from. Yields the root name and
/// that directory-page offset. A logical index outside the allocation
/// index is reported as a range error.
pub open spec fn spec_locate_root_directory(
    buf: Seq<u8>,
    root_offset: int,
    entries: Seq<int>,
) -> Result<(Seq<char>, int), ParseError>
    recommends
        4 <= root_offset,
{
    let content = root_offset + (1024int % root_offset) + 8;
    if content + 13 > buf.len() {
        Err(ParseError::OutOfRange)
    } else {
        let root_id = block_at(buf, content + 9);
        let name_bytes = buf.subrange(content + 5, content + 9);
        if !vstd::utf8::valid_utf8(name_bytes) {
            Err(ParseError::InvalidEncoding)
        } else if root_id >= entries.len() {
            Err(ParseError::OutOfRange)
        } else {
            let index_offset = spec_entry_offset(entries[root_id]);
            if index_offset + 4 > buf.len() {
                Err(ParseError::OutOfRange)
            } else {
                let entry_id = block_at(buf, index_offset);
                if entry_id >= entries.len() {
                    Err(ParseError::OutOfRange)
                } else {
                    Ok((vstd::utf8::decode_utf8(name_bytes), spec_entry_offset(entries[entry_id])))
                }
            }
        }
    }
}

/// The whole parse: signature check, root/header region, root metadata and
/// indirection, then the root directory page. Yields the root directory's
/// name and the decoded record names of its page, in file order.
pub open spec fn spec_parse(buf: Seq<u8>) -> Result<(Seq<char>, Seq<Seq<char>>), ParseError> {
    if !signature_matches(buf) {
        Err(ParseError::SignatureMismatch)
    } else {
        match spec_locate_root(buf) {
            Err(e) => Err(e),
            Ok((root_offset, entries)) => match spec_locate_root_directory(
                buf,
                root_offset,
                entries,
            ) {
                Err(e) => Err(e),
                Ok((name, dir_offset)) => match spec_page(buf, dir_offset) {
                    Err(e) => Err(e),
                    Ok(names) => Ok((name, names)),
                },
            },
        }
    }
}

/// A buffer shorter than the 8-byte signature never matches it, and the
/// whole parse rejects such a buffer outright with a signature error,
/// before any further decoding.
pub proof fn lemma_short_buffer_fails_signature(buf: Seq<u8>)
    requires
        buf.len() < 8,
    ensures
        !signature_matches(buf),
        spec_parse(buf) == Err::<(Seq<char>, Seq<Seq<char>>), ParseError>(
            ParseError::SignatureMismatch,
        ),
{
}

/// When the two redundantly stored root-offset header fields decode to
/// different values, locating the root fails with the header-consistency
/// error; the allocation index is never reached.
pub proof fn lemma_inconsistent_header(buf: Seq<u8>)
    requires
        20 <= buf.len(),
        block_at(buf, 0x08) != block_at(buf, 0x10),
    ensures
        spec_locate_root(buf) == Err::<(int, Seq<int>), ParseError>(
            ParseError::InconsistentHeader,
        ),
{
}

/// Resolving an allocation entry is pure arithmetic: both results are
/// functions of the entry alone, and the resolved size is always a power
/// of two between 1 and 2^31 inclusive.
pub proof fn lemma_entry_size_power_of_two(entry: int)
    ensures
        1 <= spec_entry_size(entry),
        spec_entry_size(entry) <= 0x80000000,
        exists|k: nat| k < 32 && spec_entry_size(entry) == vstd::arithmetic::power2::pow2(k),
{
    vstd::arithmetic::power2::lemma2_to64();
    let k = (entry % 32) as nat;
    vstd::arithmetic::power2::lemma_pow2_pos(k);
    if k < 31 {
        vstd::arithmetic::power2::lemma_pow2_strictly_increases(k, 31);
    }
    assert(k < 32 && spec_entry_size(entry) == vstd::arithmetic::power2::pow2(k));
}

/// A page whose mode tag is non-zero fails with the unsupported-mode
/// error, before any record data is consumed.
pub proof fn lemma_nonzero_mode_unsupported(buf: Seq<u8>, offset: int)
    requires
        0 <= offset,
        offset + 4 <= buf.len(),
        block_at(buf, offset) != 0,
    ensures
        spec_page(buf, offset) == Err::<Seq<Seq<char>>, ParseError>(
            ParseError::UnsupportedPageMode,
        ),
{
}

/// When the terminator scan for a record walks past the end of the buffer
/// without a match, the record run ends early and successfully with the
/// records decoded so far — the current record's name — rather than
/// failing, however many records were still expected.
pub proof fn lemma_scan_past_end_keeps_partial(buf: Seq<u8>, offset: int, count: nat)
    requires
        0 <= offset,
        count > 0,
        offset + 12 <= buf.len(),
        offset + 12 + 2 * block_at(buf, offset + 8) <= buf.len(),
        spec_scan(buf, offset) is None,
    ensures
        spec_records(buf, offset, count) == Ok::<Seq<Seq<char>>, ParseError>(
            seq![
                utf16_lossy(
                    be_units(
                        buf.subrange(offset + 12, offset + 12 + 2 * block_at(buf, offset + 8)),
                    ),
                ),
            ],
        ),
{
}

} // verus!
