use vstd::arithmetic::power2::pow2;
use vstd::prelude::*;

use crate::bytes::{be_u16, be_u32};
use crate::error::FontError;
use crate::font_directory::TableDirectory;
use crate::glyph_index_lookup;
use crate::model::{GlyphId, PlatformId};
use crate::reader::VecOps;

verus! {

// --- The cmap table header and its subtable records. ---

/// Number of subtable records announced by the `cmap` header at `coff`.
pub open spec fn cmap_num_subtables(d: Seq<u8>, coff: int) -> int {
    be_u16(d, coff + 2)
}

/// Platform id of subtable record `k`.
pub open spec fn cmap_record_platform(d: Seq<u8>, coff: int, k: int) -> int {
    be_u16(d, coff + 4 + 8 * k)
}

/// Platform-specific encoding id of subtable record `k`.
pub open spec fn cmap_record_specific(d: Seq<u8>, coff: int, k: int) -> int {
    be_u16(d, coff + 6 + 8 * k)
}

/// Subtable offset (relative to the `cmap` table) of record `k`.
pub open spec fn cmap_record_offset(d: Seq<u8>, coff: int, k: int) -> int {
    be_u32(d, coff + 8 + 8 * k)
}

/// Index of the first record with the Unicode platform id, from `k` on;
/// the record count when none is.
pub open spec fn find_unicode_record_from(d: Seq<u8>, coff: int, k: int) -> int
    decreases cmap_num_subtables(d, coff) - k,
{
    if k < 0 || k >= cmap_num_subtables(d, coff) {
        cmap_num_subtables(d, coff)
    } else if cmap_record_platform(d, coff, k) == 0 {
        k
    } else {
        find_unicode_record_from(d, coff, k + 1)
    }
}

pub open spec fn find_unicode_record(d: Seq<u8>, coff: int) -> int {
    find_unicode_record_from(d, coff, 0)
}

pub proof fn lemma_find_unicode_record_from(d: Seq<u8>, coff: int, k: int)
    requires
        0 <= k <= cmap_num_subtables(d, coff),
    ensures
        k <= find_unicode_record_from(d, coff, k) <= cmap_num_subtables(d, coff),
        find_unicode_record_from(d, coff, k) < cmap_num_subtables(d, coff)
            ==> cmap_record_platform(d, coff, find_unicode_record_from(d, coff, k)) == 0,
        forall|j: int|
            k <= j < find_unicode_record_from(d, coff, k) ==> cmap_record_platform(d, coff, j)
                != 0,
        find_unicode_record_from(d, coff, k) == cmap_num_subtables(d, coff) ==> forall|j: int|
            k <= j < cmap_num_subtables(d, coff) ==> cmap_record_platform(d, coff, j) != 0,
    decreases cmap_num_subtables(d, coff) - k,
{
    if k < cmap_num_subtables(d, coff) && cmap_record_platform(d, coff, k) != 0 {
        lemma_find_unicode_record_from(d, coff, k + 1);
    }
}

// --- The format-4 subtable layout at offset `s`. ---

pub open spec fn f4_format(d: Seq<u8>, s: int) -> int {
    be_u16(d, s)
}

pub open spec fn f4_seg_count_x2(d: Seq<u8>, s: int) -> int {
    be_u16(d, s + 6)
}

pub open spec fn f4_seg_count(d: Seq<u8>, s: int) -> int {
    f4_seg_count_x2(d, s) / 2
}

pub open spec fn f4_search_range(d: Seq<u8>, s: int) -> int {
    be_u16(d, s + 8)
}

pub open spec fn f4_entry_selector(d: Seq<u8>, s: int) -> int {
    be_u16(d, s + 10)
}

pub open spec fn f4_range_shift(d: Seq<u8>, s: int) -> int {
    be_u16(d, s + 12)
}

pub open spec fn f4_end(d: Seq<u8>, s: int, i: int) -> int {
    be_u16(d, s + 14 + 2 * i)
}

pub open spec fn f4_pad(d: Seq<u8>, s: int) -> int {
    be_u16(d, s + 14 + 2 * f4_seg_count(d, s))
}

pub open spec fn f4_start(d: Seq<u8>, s: int, i: int) -> int {
    be_u16(d, s + 16 + 2 * f4_seg_count(d, s) + 2 * i)
}

pub open spec fn f4_delta(d: Seq<u8>, s: int, i: int) -> int {
    be_u16(d, s + 16 + 4 * f4_seg_count(d, s) + 2 * i)
}

/// Byte position of the `idRangeOffset[i]` slot itself; the indirect
/// glyph address is computed from this position, as the format defines.
pub open spec fn f4_range_slot(d: Seq<u8>, s: int, i: int) -> int {
    s + 16 + 6 * f4_seg_count(d, s) + 2 * i
}

pub open spec fn f4_range_off(d: Seq<u8>, s: int, i: int) -> int {
    be_u16(d, f4_range_slot(d, s, i))
}

/// The indirect glyph address of `c` in segment `i`: the offset in
/// `idRangeOffset[i]`, counted from that slot's own position, plus two
/// bytes per code past the segment start.
pub open spec fn f4_indirect_addr(d: Seq<u8>, s: int, i: int, c: int) -> int {
    f4_range_slot(d, s, i) + f4_range_off(d, s, i) + 2 * (c - f4_start(d, s, i))
}

/// A well-formed format-4 subtable at `s`: format 4, an even and
/// positive segment count whose four arrays lie inside the data, zero
/// padding, a final sentinel segment, segments with ordered bounds that
/// are pairwise disjoint and sorted, search fields consistent with the
/// segment count, and indirect glyph addresses that stay inside the
/// data for every covered character code.
pub open spec fn cmap4_wf(d: Seq<u8>, s: int) -> bool {
    let scx2 = f4_seg_count_x2(d, s);
    let sc = f4_seg_count(d, s);
    let es = f4_entry_selector(d, s);
    &&& 0 <= s
    &&& f4_format(d, s) == 4
    &&& scx2 % 2 == 0
    &&& sc >= 1
    &&& s + 16 + 8 * sc <= d.len()
    &&& f4_pad(d, s) == 0
    &&& f4_end(d, s, sc - 1) == 0xFFFF
    &&& f4_start(d, s, sc - 1) == 0xFFFF
    &&& forall|i: int| 0 <= i < sc ==> #[trigger] f4_start(d, s, i) <= f4_end(d, s, i)
    &&& forall|i: int| 0 <= i < sc - 1 ==> #[trigger] f4_end(d, s, i) < f4_start(d, s, i + 1)
    &&& es <= 14
    &&& f4_search_range(d, s) == 2 * pow2(es as nat)
    &&& pow2(es as nat) <= sc < 2 * pow2(es as nat)
    &&& forall|i: int, c: int|
        0 <= i < sc && f4_start(d, s, i) <= c <= f4_end(d, s, i) && f4_range_off(d, s, i) != 0
            ==> #[trigger] f4_indirect_addr(d, s, i, c) + 2 <= d.len()
}

/// Index of the first segment whose `endCode` is at least `c`, from `i`
/// on; the segment count when none is.
pub open spec fn first_end_ge_from(d: Seq<u8>, s: int, c: int, i: int) -> int
    decreases f4_seg_count(d, s) - i,
{
    if i < 0 || i >= f4_seg_count(d, s) {
        f4_seg_count(d, s)
    } else if f4_end(d, s, i) >= c {
        i
    } else {
        first_end_ge_from(d, s, c, i + 1)
    }
}

pub open spec fn first_end_ge(d: Seq<u8>, s: int, c: int) -> int {
    first_end_ge_from(d, s, c, 0)
}

pub proof fn lemma_first_end_ge_from(d: Seq<u8>, s: int, c: int, i: int)
    requires
        0 <= i <= f4_seg_count(d, s),
    ensures
        i <= first_end_ge_from(d, s, c, i) <= f4_seg_count(d, s),
        first_end_ge_from(d, s, c, i) < f4_seg_count(d, s) ==> f4_end(
            d,
            s,
            first_end_ge_from(d, s, c, i),
        ) >= c,
        forall|j: int| i <= j < first_end_ge_from(d, s, c, i) ==> f4_end(d, s, j) < c,
        first_end_ge_from(d, s, c, i) == f4_seg_count(d, s) ==> forall|j: int|
            i <= j < f4_seg_count(d, s) ==> f4_end(d, s, j) < c,
    decreases f4_seg_count(d, s) - i,
{
    if i < f4_seg_count(d, s) && f4_end(d, s, i) < c {
        lemma_first_end_ge_from(d, s, c, i + 1);
    }
}

/// Glyph id that the located segment `i` assigns to `c`: the delta rule
/// modulo 2^16 when `idRangeOffset` is zero, otherwise the 16-bit value
/// at the indirect address computed from the `idRangeOffset[i]` slot.
pub open spec fn segment_glyph(d: Seq<u8>, s: int, c: int, i: int) -> int {
    if f4_range_off(d, s, i) == 0 {
        (f4_delta(d, s, i) + c) % 0x10000
    } else {
        be_u16(d, f4_indirect_addr(d, s, i, c))
    }
}

/// The glyph id a format-4 subtable at `s` assigns to character code
/// `c`: the value of the first segment whose range reaches `c` and
/// contains it, and the missing glyph (0) when no segment covers `c`.
pub open spec fn glyph_of(d: Seq<u8>, s: int, c: int) -> int {
    let sc = f4_seg_count(d, s);
    let i = first_end_ge(d, s, c);
    if i < sc && f4_start(d, s, i) <= c {
        segment_glyph(d, s, c, i)
    } else {
        0
    }
}

// --- Order facts that follow from well-formedness. ---

/// In a well-formed subtable the `endCode` array strictly increases and
/// every earlier `endCode` lies below every later `startCode`.
pub proof fn lemma_seg_order(d: Seq<u8>, s: int, i: int, j: int)
    requires
        cmap4_wf(d, s),
        0 <= i < j < f4_seg_count(d, s),
    ensures
        f4_end(d, s, i) < f4_start(d, s, j),
        f4_end(d, s, i) < f4_end(d, s, j),
        f4_start(d, s, i) < f4_start(d, s, j),
    decreases j - i,
{
    if j == i + 1 {
    } else {
        lemma_seg_order(d, s, i, j - 1);
        lemma_seg_order(d, s, j - 1, j);
    }
}

/// A segment that contains `c` is exactly the first segment whose
/// `endCode` reaches `c`: covering segments are unique.
pub proof fn lemma_covering_is_first(d: Seq<u8>, s: int, c: int, i: int)
    requires
        cmap4_wf(d, s),
        0 <= i < f4_seg_count(d, s),
        f4_start(d, s, i) <= c <= f4_end(d, s, i),
    ensures
        first_end_ge(d, s, c) == i,
{
    lemma_first_end_ge_from(d, s, c, 0);
    let f = first_end_ge(d, s, c);
    assert(f <= i);
    if f < i {
        lemma_seg_order(d, s, f, i);
        assert(f4_end(d, s, f) < f4_start(d, s, i));
        assert(f4_end(d, s, f) >= c);
        assert(false);
    }
}

// --- The selected subtable and its operations. ---

/// One enumerated segment of the format-4 subtable.
#[derive(Debug, Clone, Copy, PartialEq, Eq)]
pub struct Segment {
    pub index: usize,
    pub start_code: u16,
    pub end_code: u16,
    pub id_delta: u16,
    pub id_range_offset: u16,
}

impl Segment {
    pub fn new(index: usize, start_code: u16, end_code: u16, id_delta: u16, id_range_offset: u16)
        -> (r: Segment)
        ensures
            r == (Segment { index, start_code, end_code, id_delta, id_range_offset }),
    {
        Segment { index, start_code, end_code, id_delta, id_range_offset }
    }
}

/// Whether `seg` holds exactly segment `i` of the subtable at `s`.
pub open spec fn segment_matches(seg: Segment, d: Seq<u8>, s: int, i: int) -> bool {
    &&& seg.index == i
    &&& seg.start_code == f4_start(d, s, i)
    &&& seg.end_code == f4_end(d, s, i)
    &&& seg.id_delta == f4_delta(d, s, i)
    &&& seg.id_range_offset == f4_range_off(d, s, i)
}

/// The selected cmap subtable: the Unicode-platform record, with its
/// absolute byte offset in the font.
#[derive(Debug, Clone, Copy, PartialEq, Eq)]
pub struct CMapSubtable {
    pub platform_id: PlatformId,
    pub platform_specific_id: u16,
    pub offset: u32,
}

impl CMapSubtable {
    /// Reads the `cmap` header and its subtable records, rejects unknown
    /// platform ids, and selects the first record with the Unicode
    /// platform, recording its absolute offset.
    pub fn find_cmap_subtable(reader: &mut VecOps, cmap_table: &TableDirectory) -> (r: Result<
        CMapSubtable,
        FontError,
    >)
        requires
            old(reader).wf(),
        ensures
            final(reader).wf(),
            final(reader).bytes() == old(reader).bytes(),
            ({
                let d = old(reader).bytes();
                let coff = cmap_table.offset as int;
                let n = cmap_num_subtables(d, coff);
                let k = find_unicode_record(d, coff);
                &&& r is Ok <==> coff + 4 + 8 * n <= d.len() && (forall|j: int|
                    0 <= j < n ==> cmap_record_platform(d, coff, j) <= 3) && k < n && coff
                    + cmap_record_offset(d, coff, k) <= u32::MAX
                &&& r is Ok ==> r->Ok_0.platform_id == PlatformId::Unicode
                    && r->Ok_0.platform_specific_id == cmap_record_specific(d, coff, k)
                    && r->Ok_0.offset == coff + cmap_record_offset(d, coff, k)
                &&& r is Err ==> (r->Err_0 == FontError::InvalidFont <==> coff + 4 + 8 * n
                    <= d.len() && !(forall|j: int|
                    0 <= j < n ==> cmap_record_platform(d, coff, j) <= 3))
                &&& r is Err ==> (r->Err_0 == FontError::NoUnicodeCmap <==> coff + 4 + 8 * n
                    <= d.len() && (forall|j: int|
                    0 <= j < n ==> cmap_record_platform(d, coff, j) <= 3) && k == n)
            }),
    {
        let ghost d = old(reader).bytes();
        let coff = cmap_table.offset;
        let ghost n_spec = cmap_num_subtables(d, coff as int);
        reader.seek_from_start(coff)?;
        let _version = reader.read_u16()?;
        let number_subtables = reader.read_u16()?;
        let need: u64 = coff as u64 + 4 + 8 * (number_subtables as u64);
        if need > reader.len() as u64 {
            return Err(FontError::OutOfBounds);
        }
        let mut found: bool = false;
        let mut found_specific: u16 = 0;
        let mut found_offset: u32 = 0;
        let mut k: usize = 0;
        while k < number_subtables as usize
            invariant
                reader.wf(),
                reader.bytes() == old(reader).bytes(),
                coff == cmap_table.offset,
                number_subtables == n_spec,
                n_spec == cmap_num_subtables(d, coff as int),
                d == old(reader).bytes(),
                coff + 4 + 8 * n_spec <= d.len(),
                k <= number_subtables,
                reader.pos() == coff + 4 + 8 * k,
                forall|j: int| 0 <= j < k ==> cmap_record_platform(d, coff as int, j) <= 3,
                !found ==> forall|j: int| 0 <= j < k ==> cmap_record_platform(d, coff as int, j)
                    != 0,
                found ==> ({
                    let k0 = find_unicode_record(d, coff as int);
                    &&& k0 < k
                    &&& found_specific == cmap_record_specific(d, coff as int, k0)
                    &&& found_offset == cmap_record_offset(d, coff as int, k0)
                }),
            decreases number_subtables - k,
        {
            proof {
                assert(cmap_record_platform(d, coff as int, k as int) == be_u16(
                    d,
                    coff + 4 + 8 * (k as int),
                ));
                assert(cmap_record_specific(d, coff as int, k as int) == be_u16(
                    d,
                    coff + 6 + 8 * (k as int),
                ));
                assert(cmap_record_offset(d, coff as int, k as int) == be_u32(
                    d,
                    coff + 8 + 8 * (k as int),
                ));
            }
            let platform_id = reader.read_platform_id()?;
            let platform_specific_id = reader.read_u16()?;
            let rec_offset = reader.read_u32()?;
            if !found && platform_id.is_unicode() {
                proof {
                    assert(cmap_record_platform(d, coff as int, k as int) == 0);
                    lemma_find_unicode_record_from(d, coff as int, 0);
                    assert(find_unicode_record(d, coff as int) == k as int);
                }
                found = true;
                found_specific = platform_specific_id;
                found_offset = rec_offset;
            }
            k = k + 1;
        }
        if !found {
            proof {
                lemma_find_unicode_record_from(d, coff as int, 0);
            }
            return Err(FontError::NoUnicodeCmap);
        }
        let absolute: u64 = coff as u64 + found_offset as u64;
        if absolute > 0xffffffff {
            return Err(FontError::OutOfBounds);
        }
        Ok(CMapSubtable {
            platform_id: PlatformId::Unicode,
            platform_specific_id: found_specific,
            offset: absolute as u32,
        })
    }

    /// Enumerates all segments: reads the four parallel arrays of the
    /// format-4 subtable and zips them by index.
    pub fn segments(&self, reader: &mut VecOps) -> (r: Result<Vec<Segment>, FontError>)
        requires
            old(reader).wf(),
        ensures
            final(reader).wf(),
            final(reader).bytes() == old(reader).bytes(),
            ({
                let d = old(reader).bytes();
                let s = self.offset as int;
                let sc = f4_seg_count(d, s);
                &&& r is Ok <==> s + 2 <= d.len() && f4_format(d, s) == 4 && s + 16 + 8 * sc
                    <= d.len() && f4_pad(d, s) == 0
                &&& r is Ok ==> r->Ok_0@.len() == sc && (forall|i: int|
                    0 <= i < sc ==> segment_matches(#[trigger] r->Ok_0@[i], d, s, i))
                &&& r is Err ==> (r->Err_0 == (FontError::UnsupportedCmapFormat {
                    format: f4_format(d, s) as u16,
                }) <==> s + 2 <= d.len() && f4_format(d, s) != 4)
                &&& r is Err ==> (r->Err_0 == FontError::InvalidFont <==> s + 2 <= d.len()
                    && f4_format(d, s) == 4 && s + 16 + 8 * sc <= d.len() && f4_pad(d, s) != 0)
                &&& r is Err ==> (r->Err_0 == FontError::OutOfBounds <==> s + 2 > d.len() || (
                f4_format(d, s) == 4 && s + 16 + 8 * sc > d.len()))
            }),
    {
        let ghost d = old(reader).bytes();
        let s = self.offset;
        reader.seek_from_start(s)?;
        let subtable_format = reader.read_u16()?;
        if subtable_format != 4 {
            return Err(FontError::UnsupportedCmapFormat { format: subtable_format });
        }
        let _length = reader.read_u16()?;
        let _version = reader.read_u16()?;
        let seg_count_x2 = reader.read_u16()?;
        let _search_range = reader.read_u16()?;
        let _entry_selector = reader.read_u16()?;
        let _range_shift = reader.read_u16()?;
        let seg_count = seg_count_x2 / 2;
        let need: u64 = s as u64 + 16 + 8 * (seg_count as u64);
        if need > reader.len() as u64 {
            return Err(FontError::OutOfBounds);
        }
        proof {
            reader.lemma_wf_bounds();
        }
        let end_codes = read_u16_array(reader, s + 14, seg_count, Ghost(d))?;
        let reserved_pad = reader.read_offset(0)?;
        if reserved_pad != 0 {
            return Err(FontError::InvalidFont);
        }
        let start_codes = read_u16_array(reader, s + 16 + 2 * seg_count as u32, seg_count, Ghost(d))?;
        let id_deltas = read_u16_array(
            reader,
            s + 16 + 4 * seg_count as u32,
            seg_count,
            Ghost(d),
        )?;
        let id_range_offsets = read_u16_array(
            reader,
            s + 16 + 6 * seg_count as u32,
            seg_count,
            Ghost(d),
        )?;
        let mut segments: Vec<Segment> = Vec::new();
        let mut i: usize = 0;
        while i < seg_count as usize
            invariant
                seg_count == f4_seg_count(d, s as int),
                end_codes@.len() == seg_count,
                start_codes@.len() == seg_count,
                id_deltas@.len() == seg_count,
                id_range_offsets@.len() == seg_count,
                forall|j: int| 0 <= j < seg_count ==> end_codes@[j] == f4_end(d, s as int, j),
                forall|j: int| 0 <= j < seg_count ==> start_codes@[j] == f4_start(d, s as int, j),
                forall|j: int| 0 <= j < seg_count ==> id_deltas@[j] == f4_delta(d, s as int, j),
                forall|j: int|
                    0 <= j < seg_count ==> id_range_offsets@[j] == f4_range_off(d, s as int, j),
                i <= seg_count,
                segments@.len() == i,
                forall|j: int|
                    0 <= j < i ==> segment_matches(#[trigger] segments@[j], d, s as int, j),
            decreases seg_count - i,
        {
            segments.push(Segment {
                index: i,
                start_code: start_codes[i],
                end_code: end_codes[i],
                id_delta: id_deltas[i],
                id_range_offset: id_range_offsets[i],
            });
            i = i + 1;
        }
        Ok(segments)
    }

    /// Resolves a character code to a glyph id through the in-place
    /// binary search over the segment arrays. On a well-formed subtable
    /// the result is exactly `glyph_of`; a malformed search yields the
    /// missing glyph or an error, never a panic.
    pub fn find_glyph_id(&self, reader: &mut VecOps, char_code: u16) -> (r: Result<
        GlyphId,
        FontError,
    >)
        requires
            old(reader).wf(),
        ensures
            final(reader).wf(),
            final(reader).bytes() == old(reader).bytes(),
            ({
                let d = old(reader).bytes();
                let s = self.offset as int;
                &&& cmap4_wf(d, s) ==> r is Ok && r->Ok_0@ == glyph_of(d, s, char_code as int)
                &&& r is Err ==> r->Err_0 == FontError::OutOfBounds || r->Err_0 == (
                FontError::UnsupportedCmapFormat { format: f4_format(d, s) as u16 })
                &&& r is Err && r->Err_0 == (FontError::UnsupportedCmapFormat {
                    format: f4_format(d, s) as u16,
                }) ==> s + 2 <= d.len() && f4_format(d, s) != 4
            }),
    {
        let ghost d = old(reader).bytes();
        let s = self.offset;
        reader.seek_from_start(s)?;
        let subtable_format = reader.read_u16()?;
        if subtable_format != 4 {
            return Err(FontError::UnsupportedCmapFormat { format: subtable_format });
        }
        let _length = reader.read_u16()?;
        let _version = reader.read_u16()?;
        let seg_count_x2 = reader.read_u16()?;
        let search_range = reader.read_u16()?;
        let entry_selector = reader.read_u16()?;
        let _range_shift = reader.read_u16()?;
        glyph_index_lookup::seek_glyph_id(
            reader,
            seg_count_x2,
            char_code,
            search_range,
            entry_selector,
            Ghost(s as int),
        )
    }
}

/// Reads `count` big-endian 16-bit values starting at absolute
/// position `start`.
fn read_u16_array(reader: &mut VecOps, start: u32, count: u16, Ghost(d): Ghost<Seq<u8>>) -> (r:
    Result<Vec<u16>, FontError>)
    requires
        old(reader).wf(),
        old(reader).bytes() == d,
        start + 2 * count <= d.len(),
    ensures
        final(reader).wf(),
        final(reader).bytes() == d,
        r is Ok,
        r->Ok_0@.len() == count,
        forall|j: int| 0 <= j < count ==> r->Ok_0@[j] == be_u16(d, start + 2 * j),
        final(reader).pos() == start + 2 * count,
{
    reader.seek_from_start(start)?;
    let mut out: Vec<u16> = Vec::new();
    let mut i: usize = 0;
    while i < count as usize
        invariant
            reader.wf(),
            reader.bytes() == d,
            start + 2 * count <= d.len(),
            i <= count,
            reader.pos() == start + 2 * i,
            out@.len() == i,
            forall|j: int| 0 <= j < i ==> out@[j] == be_u16(d, start + 2 * j),
        decreases count - i,
    {
        let v = reader.read_u16()?;
        out.push(v);
        i = i + 1;
    }
    Ok(out)
}

// --- The character codes a subtable claims to cover. ---

/// The inclusive code range of one segment, in order.
pub open spec fn segment_codes(start: int, end: int) -> Seq<u16> {
    if start <= end {
        Seq::new((end - start + 1) as nat, |j: int| (start + j) as u16)
    } else {
        Seq::empty()
    }
}

/// The codes of segments `i` onward, each segment contributing its
/// range, in segment order.
pub open spec fn codes_from(d: Seq<u8>, s: int, i: int) -> Seq<u16>
    decreases f4_seg_count(d, s) - i,
{
    if i < 0 || i >= f4_seg_count(d, s) {
        Seq::empty()
    } else {
        segment_codes(f4_start(d, s, i), f4_end(d, s, i)) + codes_from(d, s, i + 1)
    }
}

// --- Properties of resolution on well-formed subtables. ---

/// All glyph ids a subtable can produce lie below `num_glyphs`.
pub open spec fn cmap4_bounded(d: Seq<u8>, s: int, num_glyphs: int) -> bool {
    forall|i: int, c: int|
        0 <= i < f4_seg_count(d, s) && f4_start(d, s, i) <= c <= f4_end(d, s, i)
            ==> #[trigger] segment_glyph(d, s, c, i) < num_glyphs
}

/// Every character code inside some segment resolves through exactly
/// that segment, and in a bounded subtable the glyph id lies below the
/// glyph count.
pub proof fn lemma_covered_code_resolves(d: Seq<u8>, s: int, c: int, i: int, num_glyphs: int)
    requires
        cmap4_wf(d, s),
        cmap4_bounded(d, s, num_glyphs),
        0 <= i < f4_seg_count(d, s),
        f4_start(d, s, i) <= c <= f4_end(d, s, i),
    ensures
        glyph_of(d, s, c) == segment_glyph(d, s, c, i),
        0 <= glyph_of(d, s, c) < num_glyphs,
{
    lemma_covering_is_first(d, s, c, i);
    if f4_range_off(d, s, i) == 0 {
        assert(0 <= (f4_delta(d, s, i) + c) % 0x10000);
    }
}

/// Round trip through a delta segment (`idRangeOffset` 0): each code
/// in the segment resolves to `idDelta + code` modulo 2^16, and, as
/// long as that sum does not wrap inside the segment, the glyph ids
/// are strictly increasing in the code.
pub proof fn lemma_delta_segment_round_trip(d: Seq<u8>, s: int, i: int, c1: int, c2: int)
    requires
        cmap4_wf(d, s),
        0 <= i < f4_seg_count(d, s),
        f4_range_off(d, s, i) == 0,
        f4_start(d, s, i) <= c1 < c2 <= f4_end(d, s, i),
        (f4_delta(d, s, i) + f4_start(d, s, i)) % 0x10000 + (f4_end(d, s, i) - f4_start(d, s, i))
            < 0x10000,
    ensures
        glyph_of(d, s, c1) == (f4_delta(d, s, i) + c1) % 0x10000,
        glyph_of(d, s, c2) == (f4_delta(d, s, i) + c2) % 0x10000,
        glyph_of(d, s, c1) < glyph_of(d, s, c2),
{
    lemma_covering_is_first(d, s, c1, i);
    lemma_covering_is_first(d, s, c2, i);
    let a = f4_delta(d, s, i) + f4_start(d, s, i);
    let start = f4_start(d, s, i);
    lemma_mod_shift(a, c1 - start);
    lemma_mod_shift(a, c2 - start);
    assert(f4_delta(d, s, i) + c1 == a + (c1 - start));
    assert(f4_delta(d, s, i) + c2 == a + (c2 - start));
}

/// Adding `k` below the wrap point shifts a residue without wrapping.
proof fn lemma_mod_shift(a: int, k: int)
    requires
        0 <= a,
        0 <= k,
        a % 0x10000 + k < 0x10000,
    ensures
        (a + k) % 0x10000 == a % 0x10000 + k,
{
    vstd::arithmetic::div_mod::lemma_add_mod_noop(a, k, 0x10000);
    vstd::arithmetic::div_mod::lemma_small_mod(k as nat, 0x10000nat);
    vstd::arithmetic::div_mod::lemma_small_mod((a % 0x10000 + k) as nat, 0x10000nat);
}

/// Every character code that no segment covers resolves to the missing
/// glyph, id 0.
pub proof fn lemma_uncovered_code_resolves_to_zero(d: Seq<u8>, s: int, c: int)
    requires
        cmap4_wf(d, s),
        0 <= c <= 0xFFFF,
        forall|i: int|
            0 <= i < f4_seg_count(d, s) ==> !(#[trigger] f4_start(d, s, i) <= c <= f4_end(d, s, i)),
    ensures
        glyph_of(d, s, c) == 0,
{
    lemma_first_end_ge_from(d, s, c, 0);
    let f = first_end_ge(d, s, c);
    let sc = f4_seg_count(d, s);
    if f < sc && f4_start(d, s, f) <= c {
        assert(f4_end(d, s, f) >= c);
        assert(!(f4_start(d, s, f) <= c <= f4_end(d, s, f)));
        assert(false);
    }
}

} // verus!
