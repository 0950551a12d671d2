//! The executable decoder, verified against the model in [`crate::format`].

use vstd::prelude::*;
use vstd::arithmetic::power2::{pow2, lemma_pow2_unfold, lemma_pow2_strictly_increases, lemma2_to64};
use vstd::arithmetic::div_mod::lemma_div_is_ordered;
use crate::error::ParseError;
use crate::format::{
    block_at, is_terminator_at, signature_matches, spec_entry_offset, spec_entry_size,
    spec_locate_root, spec_locate_root_directory, spec_page, spec_parse, spec_records, spec_scan,
    spec_signature, spec_terminator,
};
use crate::text::{be_units, utf16_lossy, utf16_lossy_to_string, utf8_to_string};

verus! {

/// A decoded node of the cached folder view: a name and its children in
/// file order. Built once per parse and immutable afterwards. The decoder
/// populates children one level deep: the root's children are the records
/// of the root directory page, themselves always leaves.
pub struct DsStore {
    /// The node's decoded name.
    pub name: String,
    /// The node's children, in decode (= file) order.
    pub children: Vec<DsStore>,
    /// Indentation width per depth level for a renderer to use.
    pub indet_length: usize,
}

/// The names of a run of nodes, in order.
pub open spec fn leaf_names(nodes: Seq<DsStore>) -> Seq<Seq<char>> {
    Seq::new(nodes.len(), |i: int| nodes[i].name@)
}

/// True when every node of the run is a childless leaf with the fixed
/// indentation width.
pub open spec fn all_leaves(nodes: Seq<DsStore>) -> bool {
    forall|i: int|
        0 <= i < nodes.len() ==> (#[trigger] nodes[i]).children@.len() == 0
            && nodes[i].indet_length == 4
}

/// The format's fixed configuration, constructed once and consulted by
/// every decode step, so that the whole binary contract stands in one
/// place.
pub struct DsStoreParser {
    /// The fixed 8-byte signature every buffer must begin with.
    pub file_signature: Vec<u8>,
    /// The fixed 12-byte pattern that delimits consecutive records.
    pub record_terminator: Vec<u8>,
    /// Width in bytes of the format's atomic numeric unit.
    pub block_size: usize,
    /// Header offset of the stored root offset.
    pub root_offset_location: usize,
    /// Header offset of the redundant copy of the root offset.
    pub root_offset_location_check: usize,
    /// Multiplier of the modulo-based padding rule for the root's
    /// metadata region.
    pub index_padding: usize,
}

impl DsStoreParser {
    /// The configuration holds exactly the format's fixed constants.
    pub open spec fn wf(&self) -> bool {
        &&& self.file_signature@ == spec_signature()
        &&& self.record_terminator@ == spec_terminator()
        &&& self.block_size == 4
        &&& self.root_offset_location == 8
        &&& self.root_offset_location_check == 0x10
        &&& self.index_padding == 0x100
    }

    /// Builds the fixed configuration.
    pub fn new() -> (r: Self)
        ensures
            r.wf(),
    {
        let file_signature: Vec<u8> = vec![
            0x00, 0x00, 0x00, 0x01,
            0x42, 0x75, 0x64, 0x31,
        ];
        let record_terminator: Vec<u8> = vec![
            0x76, 0x53, 0x72, 0x6e,
            0x6c, 0x6f, 0x6e, 0x67,
            0x00, 0x00, 0x00, 0x01,
        ];
        proof {
            assert(file_signature@ =~= spec_signature());
            assert(record_terminator@ =~= spec_terminator());
        }
        Self {
            file_signature,
            record_terminator,
            block_size: 0x04,
            root_offset_location: 0x08,
            root_offset_location_check: 0x10,
            index_padding: 0x100,
        }
    }

    /// True exactly when the buffer begins with the fixed file signature;
    /// a buffer shorter than the signature never matches.
    pub fn confirm_signature(&self, buf: &Vec<u8>) -> (r: bool)
        requires
            self.wf(),
        ensures
            r == signature_matches(buf@),
    {
        if buf.len() < self.file_signature.len() {
            return false;
        }
        let mut i: usize = 0;
        while i < self.file_signature.len()
            invariant
                self.wf(),
                buf@.len() >= 8,
                i <= 8,
                forall|j: int| 0 <= j < i ==> buf@[j] == spec_signature()[j],
            decreases 8 - i,
        {
            if buf[i] != self.file_signature[i] {
                assert(buf@.subrange(0, 8)[i as int] != spec_signature()[i as int]);
                return false;
            }
            i += 1;
        }
        assert(buf@.subrange(0, 8) =~= spec_signature());
        true
    }

    /// Reads the 4-byte big-endian block at `offset`, exactly the value
    /// `b0 << 24 | b1 << 16 | b2 << 8 | b3` of the bytes there; fails with
    /// a range error exactly when the read would exceed the buffer,
    /// including when `offset` equals the buffer length.
    pub fn block_to_usize(&self, buf: &Vec<u8>, offset: usize) -> (r: Result<usize, ParseError>)
        requires
            self.wf(),
        ensures
            offset + 4 <= buf@.len() ==> (r matches Ok(v) && v == block_at(buf@, offset as int)),
            offset + 4 > buf@.len() ==> (r matches Err(e) && e == ParseError::OutOfRange),
    {
        if buf.len() < self.block_size || offset > buf.len() - self.block_size {
            return Err(ParseError::OutOfRange);
        }
        let b0 = buf[offset] as usize;
        let b1 = buf[offset + 1] as usize;
        let b2 = buf[offset + 2] as usize;
        let b3 = buf[offset + 3] as usize;
        Ok(0x1000000 * b0 + 0x10000 * b1 + 0x100 * b2 + b3)
    }

    /// Resolves a packed allocation entry to its physical byte offset and
    /// byte size: the entry's upper 27 bits give the offset (a multiple of
    /// 32, plus the one-block header skip) and its low 5 bits give the
    /// size-class exponent. Pure arithmetic: no buffer access, and the
    /// result is determined by the entry alone. Callers must bounds-check
    /// the offset before reading at it.
    pub fn entry_index_to_entry_data(&self, entry_index: usize) -> (r: (usize, usize))
        requires
            self.wf(),
            entry_index <= 0xFFFFFFFF,
        ensures
            r.0 == spec_entry_offset(entry_index as int),
            r.1 == spec_entry_size(entry_index as int),
    {
        proof {
            lemma_div_is_ordered(entry_index as int, 0xFFFFFFFF, 32);
        }
        let offset = (entry_index / 32) * 32 + self.block_size;
        let shift = entry_index % 32;
        let mut size: usize = 1;
        let mut j: usize = 0;
        proof {
            lemma2_to64();
        }
        while j < shift
            invariant
                j <= shift,
                shift < 32,
                size == pow2(j as nat),
            decreases shift - j,
        {
            proof {
                lemma2_to64();
                lemma_pow2_unfold((j + 1) as nat);
                if j + 1 < 31 {
                    lemma_pow2_strictly_increases((j + 1) as nat, 31);
                }
            }
            size = 2 * size;
            j += 1;
        }
        (offset, size)
    }
    /// True exactly when the full 12-byte record terminator occurs at
    /// position `c` of the buffer.
    fn terminator_matches_at(&self, buf: &Vec<u8>, c: usize) -> (r: bool)
        requires
            self.wf(),
            c + 12 <= buf@.len(),
        ensures
            r == is_terminator_at(buf@, c as int),
    {
        let n = buf.len();
        let mut j: usize = 0;
        while j < 12
            invariant
                self.wf(),
                n == buf@.len(),
                c + 12 <= n,
                j <= 12,
                forall|t: int| 0 <= t < j ==> buf@[c + t] == spec_terminator()[t],
            decreases 12 - j,
        {
            if buf[c + j] != self.record_terminator[j] {
                return false;
            }
            j += 1;
        }
        true
    }

    /// The format's de facto record boundary convention: slides a cursor
    /// forward one byte at a time from `from` and returns the position of
    /// the first occurrence of the 12-byte record terminator, or `None`
    /// when fewer than two blocks remain before one is found.
    pub fn find_record_terminator(&self, buf: &Vec<u8>, from: usize) -> (r: Option<usize>)
        requires
            self.wf(),
        ensures
            r matches Some(p) ==> spec_scan(buf@, from as int) == Some(p as int),
            r is None ==> spec_scan(buf@, from as int) is None,
    {
        let mut c = from;
        loop
            invariant
                self.wf(),
                from <= c,
                spec_scan(buf@, from as int) == spec_scan(buf@, c as int),
            decreases buf@.len() - c,
        {
            if buf.len() < 8 || c > buf.len() - 8 {
                return None;
            }
            let found = if buf.len() - c >= 12 {
                self.terminator_matches_at(buf, c)
            } else {
                false
            };
            if found {
                return Some(c);
            }
            assert(spec_scan(buf@, c as int) == spec_scan(buf@, c + 1));
            c += 1;
        }
    }
    /// Decodes the directory page at `offset` into its run of leaf nodes,
    /// exactly as [`spec_page`] states: the same names in the same order
    /// on success (each node a childless leaf), and the same error
    /// otherwise. A page whose mode tag is non-zero is an internal page,
    /// unsupported by this decoder, and fails before any record is read. A
    /// terminator scan that runs past the end of the buffer ends decoding
    /// early with the records decoded so far rather than failing.
    pub fn generate_ds_store_tree(&self, buf: &Vec<u8>, offset: usize) -> (r: Result<
        Vec<DsStore>,
        ParseError,
    >)
        requires
            self.wf(),
        ensures
            page_result_matches(r, spec_page(buf@, offset as int)),
    {
        let n = buf.len();
        let mode = match self.block_to_usize(buf, offset) {
            Ok(v) => v,
            Err(e) => {
                return Err(e);
            },
        };
        if mode != 0 {
            return Err(ParseError::UnsupportedPageMode);
        }
        let record_count = match self.block_to_usize(buf, offset + 4) {
            Ok(v) => v,
            Err(e) => {
                return Err(e);
            },
        };
        let ghost target = spec_records(buf@, offset as int, record_count as nat);
        assert(spec_page(buf@, offset as int) == target);
        let mut result: Vec<DsStore> = Vec::new();
        let mut cur = offset;
        let mut k: usize = 0;
        while k < record_count
            invariant
                self.wf(),
                k <= record_count,
                n == buf@.len(),
                cur + 8 <= n,
                all_leaves(result@),
                spec_page(buf@, offset as int) == target,
                target == prepend_names(
                    leaf_names(result@),
                    spec_records(buf@, cur as int, (record_count - k) as nat),
                ),
            decreases record_count - k,
        {
            let ghost pre = leaf_names(result@);
            let ghost m = (record_count - k) as nat;
            let record_size = match self.block_to_usize(buf, cur + 8) {
                Ok(v) => v,
                Err(e) => {
                    assert(spec_records(buf@, cur as int, m) == Err::<Seq<Seq<char>>, ParseError>(
                        ParseError::OutOfRange,
                    ));
                    return Err(e);
                },
            };
            let remaining = buf.len() - (cur + 12);
            if record_size > remaining / 2 {
                assert(2 * record_size > buf@.len() - (cur + 12));
                assert(spec_records(buf@, cur as int, m) == Err::<Seq<Seq<char>>, ParseError>(
                    ParseError::OutOfRange,
                ));
                return Err(ParseError::OutOfRange);
            }
            assert(2 * record_size <= buf@.len() - (cur + 12));
            let base = cur + 12;
            let mut units: Vec<u16> = Vec::new();
            let mut jj: usize = 0;
            while jj < record_size
                invariant
                    n == buf@.len(),
                    base + 2 * record_size <= n,
                    jj <= record_size,
                    units@.len() == jj,
                    forall|t: int|
                        0 <= t < jj ==> units@[t] == (256 * (buf@[base + 2 * t] as int) + (buf@[
                            base + 2 * t + 1
                        ] as int)) as u16,
                decreases record_size - jj,
            {
                let u = (buf[base + 2 * jj] as u16) * 256 + (buf[base + 2 * jj + 1] as u16);
                units.push(u);
                jj += 1;
            }
            let ghost name_bytes = buf@.subrange(base as int, base + 2 * record_size);
            proof {
                assert(units@ =~= be_units(name_bytes));
            }
            let ghost nm = utf16_lossy(be_units(name_bytes));
            let name = utf16_lossy_to_string(&units);
            let node = DsStore { name, children: Vec::new(), indet_length: 4 };
            proof {
                assert(leaf_names(result@.push(node)) =~~= leaf_names(result@) + seq![nm]);
            }
            result.push(node);
            match self.find_record_terminator(buf, cur) {
                None => {
                    proof {
                        assert(spec_records(buf@, cur as int, m) == Ok::<_, ParseError>(seq![nm]));
                        assert(pre + seq![nm] =~~= leaf_names(result@));
                    }
                    return Ok(result);
                },
                Some(p) => {
                    proof {
                        lemma_spec_scan_found(buf@, cur as int);
                        let rest = spec_records(buf@, p + 4, (m - 1) as nat);
                        match rest {
                            Ok(tail) => {
                                assert(spec_records(buf@, cur as int, m) == Ok::<_, ParseError>(
                                    seq![nm] + tail,
                                ));
                                assert(pre + (seq![nm] + tail) =~~= (pre + seq![nm]) + tail);
                            },
                            Err(_) => {
                                assert(spec_records(buf@, cur as int, m) == rest);
                            },
                        }
                    }
                    cur = p + 4;
                    k += 1;
                },
            }
        }
        proof {
            assert(spec_records(buf@, cur as int, 0) == Ok::<Seq<Seq<char>>, ParseError>(
                Seq::empty(),
            ));
            assert(leaf_names(result@) + Seq::<Seq<char>>::empty() =~~= leaf_names(result@));
        }
        Ok(result)
    }
    /// Reads the root/header region: the root offset stored redundantly at
    /// the two fixed header locations (which must agree exactly, the
    /// format's only self-consistency check), then the allocation index
    /// that follows it, exactly as [`spec_locate_root`] states. On success
    /// the returned offset is the agreed root offset and the returned
    /// entries are the packed allocation entries in index order.
    pub fn locate_root(&self, buf: &Vec<u8>) -> (r: Result<(usize, Vec<usize>), ParseError>)
        requires
            self.wf(),
        ensures
            match spec_locate_root(buf@) {
                Ok(p) => r matches Ok(q) && q.0 == p.0 && as_ints(q.1@) == p.1 && 4 <= q.0
                    && forall|i: int| 0 <= i < q.1@.len() ==> #[trigger] q.1@[i] <= 0xFFFFFFFF,
                Err(e) => r matches Err(e2) && e2 == e,
            },
    {
        let n = buf.len();
        let a = match self.block_to_usize(buf, self.root_offset_location) {
            Ok(v) => v,
            Err(e) => {
                return Err(e);
            },
        };
        let b = match self.block_to_usize(buf, self.root_offset_location_check) {
            Ok(v) => v,
            Err(e) => {
                return Err(e);
            },
        };
        if a != b {
            return Err(ParseError::InconsistentHeader);
        }
        if n < 8 || a > n - 8 {
            return Err(ParseError::OutOfRange);
        }
        let root_offset = a + 4;
        let entry_count = match self.block_to_usize(buf, root_offset) {
            Ok(v) => v,
            Err(e) => {
                assert(false);
                return Err(e);
            },
        };
        let mut entries: Vec<usize> = Vec::new();
        if entry_count == 0 {
            assert(as_ints(entries@) =~= Seq::<int>::new(0, |i: int| 0));
            return Ok((root_offset, entries));
        }
        if n < 12 || root_offset > n - 12 {
            return Err(ParseError::OutOfRange);
        }
        let mut off = root_offset + 8;
        let mut i: usize = 0;
        while i < entry_count
            invariant
                self.wf(),
                n == buf@.len(),
                i <= entry_count,
                entry_count > 0,
                20 <= n,
                block_at(buf@, 0x08) == block_at(buf@, 0x10),
                root_offset == block_at(buf@, 0x08) + 4,
                entry_count == block_at(buf@, root_offset as int),
                root_offset + 12 <= n,
                off == root_offset + 8 + 4 * i,
                off <= n,
                entries@.len() == i,
                forall|t: int|
                    0 <= t < i ==> #[trigger] entries@[t] == block_at(buf@, root_offset + 8 + 4 * t)
                        && entries@[t] <= 0xFFFFFFFF,
            decreases entry_count - i,
        {
            let v = match self.block_to_usize(buf, off) {
                Ok(v) => v,
                Err(_) => {
                    return Err(ParseError::OutOfRange);
                },
            };
            entries.push(v);
            off = off + 4;
            i += 1;
        }
        proof {
            assert(as_ints(entries@) =~= Seq::new(
                entry_count as nat,
                |t: int| block_at(buf@, root_offset + 8 + 4 * t),
            ));
        }
        Ok((root_offset, entries))
    }

    /// Walks the root's metadata region: computes the content offset by
    /// the modulo-based padding rule, reads the root directory's UTF-8
    /// name (a structural error when invalid) and the root entry's logical
    /// index, then follows the two-level indirection through the
    /// allocation index to the root directory page, exactly as
    /// [`spec_locate_root_directory`] states. Yields the root name and
    /// the directory-page offset.
    pub fn locate_root_directory(
        &self,
        buf: &Vec<u8>,
        root_offset: usize,
        entry_indices: &Vec<usize>,
    ) -> (r: Result<(String, usize), ParseError>)
        requires
            self.wf(),
            4 <= root_offset,
            forall|i: int|
                0 <= i < entry_indices@.len() ==> #[trigger] entry_indices@[i] <= 0xFFFFFFFF,
        ensures
            match spec_locate_root_directory(buf@, root_offset as int, as_ints(entry_indices@)) {
                Ok(p) => r matches Ok(q) && q.0@ == p.0 && q.1 == p.1,
                Err(e) => r matches Err(e2) && e2 == e,
            },
    {
        let n = buf.len();
        if root_offset > n {
            return Err(ParseError::OutOfRange);
        }
        let pad = (self.block_size * self.index_padding) % root_offset;
        if pad > n - root_offset {
            return Err(ParseError::OutOfRange);
        }
        let s1 = root_offset + pad;
        if n - s1 < 21 {
            return Err(ParseError::OutOfRange);
        }
        let content = s1 + 8;
        let root_id = match self.block_to_usize(buf, content + 9) {
            Ok(v) => v,
            Err(e) => {
                assert(false);
                return Err(e);
            },
        };
        let mut name_bytes: Vec<u8> = Vec::new();
        name_bytes.push(buf[content + 5]);
        name_bytes.push(buf[content + 6]);
        name_bytes.push(buf[content + 7]);
        name_bytes.push(buf[content + 8]);
        proof {
            assert(name_bytes@ =~= buf@.subrange(content + 5, content + 9));
        }
        let name = match utf8_to_string(name_bytes) {
            Some(s) => s,
            None => {
                return Err(ParseError::InvalidEncoding);
            },
        };
        if root_id >= entry_indices.len() {
            return Err(ParseError::OutOfRange);
        }
        let root_entry = entry_indices[root_id];
        let (index_offset, _index_size) = self.entry_index_to_entry_data(root_entry);
        let entry_id = match self.block_to_usize(buf, index_offset) {
            Ok(v) => v,
            Err(e) => {
                return Err(e);
            },
        };
        if entry_id >= entry_indices.len() {
            return Err(ParseError::OutOfRange);
        }
        let dir_entry = entry_indices[entry_id];
        let (dir_offset, _dir_size) = self.entry_index_to_entry_data(dir_entry);
        Ok((name, dir_offset))
    }

    /// The single entry point of the decoder: validates the signature,
    /// locates the root region and the root directory page, decodes that
    /// page, and wraps its records as the children of a root node carrying
    /// the root directory's name, exactly as [`spec_parse`] states. The
    /// first error encountered ends the parse; there is no partial
    /// success.
    pub fn parse(&self, buf: &Vec<u8>) -> (r: Result<DsStore, ParseError>)
        requires
            self.wf(),
        ensures
            parse_result_matches(r, spec_parse(buf@)),
    {
        if !self.confirm_signature(buf) {
            return Err(ParseError::SignatureMismatch);
        }
        let (root_offset, entry_indices) = match self.locate_root(buf) {
            Ok(p) => p,
            Err(e) => {
                return Err(e);
            },
        };
        let (root_name, dir_offset) = match self.locate_root_directory(
            buf,
            root_offset,
            &entry_indices,
        ) {
            Ok(p) => p,
            Err(e) => {
                return Err(e);
            },
        };
        let children = match self.generate_ds_store_tree(buf, dir_offset) {
            Ok(v) => v,
            Err(e) => {
                return Err(e);
            },
        };
        Ok(DsStore { name: root_name, children, indet_length: 4 })
    }
}

/// The packed allocation entries as mathematical integers.
pub open spec fn as_ints(s: Seq<usize>) -> Seq<int> {
    Seq::new(s.len(), |i: int| s[i] as int)
}

/// How an executable parse relates to the model's outcome: on success the
/// root node carries the model's root name, its children carry exactly
/// the model's record names in order and are all childless leaves, and
/// the indentation width is the fixed one; on failure the error is the
/// model's error.
pub open spec fn parse_result_matches(
    r: Result<DsStore, ParseError>,
    m: Result<(Seq<char>, Seq<Seq<char>>), ParseError>,
) -> bool {
    match m {
        Ok(p) => r matches Ok(root) && root.name@ == p.0 && leaf_names(root.children@) == p.1
            && all_leaves(root.children@) && root.indet_length == 4,
        Err(e) => r matches Err(e2) && e2 == e,
    }
}

/// How an executable page decode relates to the model's outcome: on
/// success the decoded nodes carry exactly the model's names in order and
/// are all leaves; on failure the error is the model's error.
pub open spec fn page_result_matches(
    r: Result<Vec<DsStore>, ParseError>,
    m: Result<Seq<Seq<char>>, ParseError>,
) -> bool {
    match m {
        Ok(names) => r matches Ok(nodes) && leaf_names(nodes@) == names && all_leaves(nodes@),
        Err(e) => r matches Err(e2) && e2 == e,
    }
}

/// Prefixes already-decoded names onto the outcome of decoding the rest
/// of a record run; an error swallows the prefix, as the decoder discards
/// partial results on structural errors.
pub open spec fn prepend_names(
    prefix: Seq<Seq<char>>,
    rest: Result<Seq<Seq<char>>, ParseError>,
) -> Result<Seq<Seq<char>>, ParseError> {
    match rest {
        Ok(names) => Ok(prefix + names),
        Err(e) => Err(e),
    }
}

/// A found scan position is at or after the cursor it was sought from,
/// and the terminator does occur there.
pub proof fn lemma_spec_scan_found(buf: Seq<u8>, c: int)
    requires
        0 <= c,
    ensures
        spec_scan(buf, c) matches Some(p) ==> c <= p && is_terminator_at(buf, p),
    decreases buf.len() - c,
{
    if c + 8 > buf.len() {
    } else if is_terminator_at(buf, c) {
    } else {
        lemma_spec_scan_found(buf, c + 1);
    }
}

} // verus!
