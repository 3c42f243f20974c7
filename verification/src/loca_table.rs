use vstd::prelude::*;

use crate::bytes::{be_u16, be_u32};
use crate::error::FontError;
use crate::head_table::HeadTable;
use crate::maxp_table::MaximumProfileTable;
use crate::reader::VecOps;

verus! {

/// Raw `loca` entry `g`: a 16-bit value scaled by two under format 0,
/// a raw 32-bit byte offset under format 1.
pub open spec fn loca_entry(d: Seq<u8>, off: int, fmt: int, g: int) -> int {
    if fmt == 0 {
        2 * be_u16(d, off + 2 * g)
    } else {
        be_u32(d, off + 4 * g)
    }
}

/// Byte width of one `loca` entry under format `fmt`.
pub open spec fn loca_entry_width(fmt: int) -> int {
    if fmt == 0 {
        2
    } else {
        4
    }
}

/// A glyph's byte offset into `glyf`, with empty-glyph detection:
/// a glyph is empty exactly when the next `loca` entry equals its own.
#[derive(Debug, Clone, Copy, PartialEq, Eq)]
pub struct GlyphOffset {
    is_empty: bool,
    offset: u32,
}

impl GlyphOffset {
    pub closed spec fn spec_offset(&self) -> u32 {
        self.offset
    }

    pub closed spec fn spec_is_empty(&self) -> bool {
        self.is_empty
    }

    pub fn from(offset: u32, next_offset: u32) -> (r: GlyphOffset)
        ensures
            r.spec_offset() == offset,
            r.spec_is_empty() <==> next_offset == offset,
    {
        let is_empty = next_offset == offset;
        GlyphOffset { is_empty, offset }
    }

    pub fn offset(&self) -> (r: u32)
        ensures
            r == self.spec_offset(),
    {
        self.offset
    }

    pub fn is_empty(&self) -> (r: bool)
        ensures
            r == self.spec_is_empty(),
    {
        self.is_empty
    }
}

/// Whether `lk` is the dense glyph-id-to-offset mapping that the `loca`
/// table at `off` encodes for `n` glyphs.
pub open spec fn loca_lookup_matches(
    lk: Seq<GlyphOffset>,
    d: Seq<u8>,
    off: int,
    fmt: int,
    n: int,
) -> bool {
    &&& lk.len() == n
    &&& forall|g: int|
        0 <= g < n ==> (#[trigger] lk[g]).spec_offset() == loca_entry(d, off, fmt, g)
    &&& forall|g: int|
        0 <= g < n ==> ((#[trigger] lk[g]).spec_is_empty() <==> loca_entry(d, off, fmt, g + 1)
            == loca_entry(d, off, fmt, g))
}

/// The dense mapping from glyph id to `glyf` byte offset.
#[derive(Debug, Clone, PartialEq, Eq)]
pub struct GlyphIdOffsetLookup(pub Vec<GlyphOffset>);

impl GlyphIdOffsetLookup {
    /// Reads the `numGlyphs + 1` entries of `loca` and pairs neighbours
    /// into per-glyph extents. Any `indexToLocFormat` other than 0 or 1
    /// is `InvalidFont`.
    pub fn mk_glyph_id_to_offset(
        reader: &mut VecOps,
        loca_table_offset: u32,
        head_table: &HeadTable,
        maximum_profile_table: &MaximumProfileTable,
    ) -> (r: Result<GlyphIdOffsetLookup, FontError>)
        requires
            old(reader).wf(),
        ensures
            final(reader).wf(),
            final(reader).bytes() == old(reader).bytes(),
            ({
                let d = old(reader).bytes();
                let fmt = head_table.index_to_loc_format as int;
                let n = maximum_profile_table.num_glyphs as int;
                let off = loca_table_offset as int;
                &&& r is Ok <==> (fmt == 0 || fmt == 1) && off + loca_entry_width(fmt) * (n + 1)
                    <= d.len()
                &&& r is Ok ==> loca_lookup_matches(r->Ok_0.0@, d, off, fmt, n)
                &&& r is Err ==> (r->Err_0 == FontError::InvalidFont <==> !(fmt == 0 || fmt == 1))
                &&& r is Err ==> (r->Err_0 == FontError::OutOfBounds <==> (fmt == 0 || fmt == 1))
            }),
    {
        let ghost d = old(reader).bytes();
        let fmt = head_table.index_to_loc_format;
        if fmt != 0 && fmt != 1 {
            return Err(FontError::InvalidFont);
        }
        let n = maximum_profile_table.num_glyphs;
        let off = loca_table_offset;
        let need: u64 = if fmt == 0 {
            off as u64 + 2 * (n as u64 + 1)
        } else {
            off as u64 + 4 * (n as u64 + 1)
        };
        if need > reader.len() as u64 {
            return Err(FontError::OutOfBounds);
        }
        reader.seek_from_start(loca_table_offset)?;
        let mut raw: Vec<u32> = Vec::new();
        let mut i: usize = 0;
        while i < n as usize + 1
            invariant
                reader.wf(),
                reader.bytes() == old(reader).bytes(),
                fmt == head_table.index_to_loc_format,
                fmt == 0 || fmt == 1,
                n == maximum_profile_table.num_glyphs,
                off == loca_table_offset,
                off + loca_entry_width(fmt as int) * (n + 1) <= old(reader).bytes().len(),
                i <= n + 1,
                reader.pos() == off + loca_entry_width(fmt as int) * i,
                raw@.len() == i,
                forall|j: int|
                    0 <= j < i ==> raw@[j] == loca_entry(
                        old(reader).bytes(),
                        off as int,
                        fmt as int,
                        j,
                    ),
            decreases n + 1 - i,
        {
            if fmt == 0 {
                let v = reader.read_u16()?;
                raw.push((v as u32) * 2);
            } else {
                let v = reader.read_u32()?;
                raw.push(v);
            }
            i = i + 1;
        }
        let mut entries: Vec<GlyphOffset> = Vec::new();
        let mut g: usize = 0;
        while g < n as usize
            invariant
                n == maximum_profile_table.num_glyphs,
                loca_table_offset + loca_entry_width(head_table.index_to_loc_format as int) * (n
                    + 1) <= old(reader).bytes().len(),
                head_table.index_to_loc_format == 0 || head_table.index_to_loc_format == 1,
                raw@.len() == n + 1,
                forall|j: int|
                    0 <= j < n + 1 ==> raw@[j] == loca_entry(
                        old(reader).bytes(),
                        loca_table_offset as int,
                        head_table.index_to_loc_format as int,
                        j,
                    ),
                g <= n,
                entries@.len() == g,
                forall|j: int|
                    0 <= j < g ==> (#[trigger] entries@[j]).spec_offset() == raw@[j]
                        && ((entries@[j]).spec_is_empty() <==> raw@[j + 1] == raw@[j]),
            decreases n - g,
        {
            let cur = raw[g];
            let next = raw[g + 1];
            entries.push(GlyphOffset::from(cur, next));
            g = g + 1;
        }
        Ok(GlyphIdOffsetLookup(entries))
    }
}

/// In a font whose raw `loca` entries never decrease, each decoded
/// extent satisfies `offsets[g] <= offsets[g + 1]`, and the difference
/// is zero exactly when the glyph was marked empty.
pub proof fn lemma_loca_extents(
    lk: Seq<GlyphOffset>,
    d: Seq<u8>,
    off: int,
    fmt: int,
    n: int,
    g: int,
)
    requires
        loca_lookup_matches(lk, d, off, fmt, n),
        forall|j: int|
            0 <= j < n ==> #[trigger] loca_entry(d, off, fmt, j) <= loca_entry(d, off, fmt, j + 1),
        0 <= g < n,
    ensures
        lk[g].spec_offset() <= loca_entry(d, off, fmt, g + 1),
        lk[g].spec_is_empty() <==> loca_entry(d, off, fmt, g + 1) - lk[g].spec_offset() == 0,
{
    assert(loca_entry(d, off, fmt, g) <= loca_entry(d, off, fmt, g + 1));
}

} // verus!
