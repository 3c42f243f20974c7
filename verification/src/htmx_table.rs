use vstd::prelude::*;

use crate::bytes::{be_i16, be_u16};
use crate::error::FontError;
use crate::hhea_table::HheaTable;
use crate::maxp_table::MaximumProfileTable;
use crate::reader::VecOps;

verus! {

/// Advance width of glyph `g` in an `hmtx` table with `nlong` long
/// metrics: explicit for the long run, the last explicit advance for
/// the tail, and 0 for the degenerate table with no long metrics.
pub open spec fn hmtx_advance(d: Seq<u8>, off: int, nlong: int, g: int) -> int {
    if g < nlong {
        be_u16(d, off + 4 * g)
    } else if nlong > 0 {
        be_u16(d, off + 4 * (nlong - 1))
    } else {
        0
    }
}

/// Left side bearing of glyph `g`: paired with the advance in the long
/// run, a lone 16-bit value in the tail.
pub open spec fn hmtx_lsb(d: Seq<u8>, off: int, nlong: int, g: int) -> int {
    if g < nlong {
        be_i16(d, off + 4 * g + 2)
    } else {
        be_i16(d, off + 4 * nlong + 2 * (g - nlong))
    }
}

/// One horizontal metric: advance width and left side bearing.
#[derive(Debug, Clone, Copy, PartialEq, Eq)]
pub struct LongHorMetric {
    pub advance_width: u16,
    pub left_side_bearing: i16,
}

/// Whether `lk` is the dense glyph-id-to-metric mapping that the `hmtx`
/// table at `off` encodes for `n` glyphs and `nlong` long metrics.
pub open spec fn hmtx_lookup_matches(
    lk: Seq<LongHorMetric>,
    d: Seq<u8>,
    off: int,
    nlong: int,
    n: int,
) -> bool {
    &&& lk.len() == n
    &&& forall|g: int|
        0 <= g < n ==> (#[trigger] lk[g]).advance_width == hmtx_advance(d, off, nlong, g)
    &&& forall|g: int|
        0 <= g < n ==> (#[trigger] lk[g]).left_side_bearing == hmtx_lsb(d, off, nlong, g)
}

/// The dense mapping from glyph id to horizontal metric.
#[derive(Debug, Clone, PartialEq, Eq)]
pub struct LongHorMetricLookup(pub Vec<LongHorMetric>);

impl LongHorMetricLookup {
    /// Reads `numOfLongHorMetrics` advance/bearing pairs, then the bare
    /// bearings of the tail, which reuse the last explicit advance.
    /// More long metrics than glyphs is `InvalidFont`.
    pub fn from_file(
        file_ops: &mut VecOps,
        offset: u32,
        hhea_table: HheaTable,
        maxp_table: &MaximumProfileTable,
    ) -> (r: Result<LongHorMetricLookup, FontError>)
        requires
            old(file_ops).wf(),
        ensures
            final(file_ops).wf(),
            final(file_ops).bytes() == old(file_ops).bytes(),
            ({
                let d = old(file_ops).bytes();
                let nlong = hhea_table.num_of_long_hor_metrics as int;
                let n = maxp_table.num_glyphs as int;
                let off = offset as int;
                &&& r is Ok <==> nlong <= n && off + 4 * nlong + 2 * (n - nlong) <= d.len()
                &&& r is Ok ==> hmtx_lookup_matches(r->Ok_0.0@, d, off, nlong, n)
                &&& r is Err ==> (r->Err_0 == FontError::InvalidFont <==> nlong > n)
                &&& r is Err ==> (r->Err_0 == FontError::OutOfBounds <==> nlong <= n)
            }),
    {
        let nlong = hhea_table.num_of_long_hor_metrics;
        let n = maxp_table.num_glyphs;
        if nlong > n {
            return Err(FontError::InvalidFont);
        }
        let need: u64 = offset as u64 + 4 * (nlong as u64) + 2 * ((n - nlong) as u64);
        if need > file_ops.len() as u64 {
            return Err(FontError::OutOfBounds);
        }
        file_ops.seek_from_start(offset)?;
        let mut metrics: Vec<LongHorMetric> = Vec::new();
        let mut last_advance_width: u16 = 0;
        let mut i: usize = 0;
        while i < nlong as usize
            invariant
                file_ops.wf(),
                file_ops.bytes() == old(file_ops).bytes(),
                nlong <= n,
                n == maxp_table.num_glyphs,
                offset + 4 * nlong + 2 * (n - nlong) <= old(file_ops).bytes().len(),
                i <= nlong,
                file_ops.pos() == offset + 4 * i,
                metrics@.len() == i,
                forall|g: int|
                    0 <= g < i ==> (#[trigger] metrics@[g]).advance_width == hmtx_advance(
                        old(file_ops).bytes(),
                        offset as int,
                        hhea_table.num_of_long_hor_metrics as int,
                        g,
                    ) && metrics@[g].left_side_bearing == hmtx_lsb(
                        old(file_ops).bytes(),
                        offset as int,
                        hhea_table.num_of_long_hor_metrics as int,
                        g,
                    ),
                nlong == hhea_table.num_of_long_hor_metrics,
                i > 0 ==> last_advance_width == be_u16(
                    old(file_ops).bytes(),
                    offset + 4 * (i - 1),
                ),
                i == 0 ==> last_advance_width == 0,
            decreases nlong - i,
        {
            let advance_width = file_ops.read_u16()?;
            let left_side_bearing = file_ops.read_i16()?;
            metrics.push(LongHorMetric { advance_width, left_side_bearing });
            last_advance_width = advance_width;
            i = i + 1;
        }
        let tail: usize = n as usize - nlong as usize;
        let mut j: usize = 0;
        while j < tail
            invariant
                file_ops.wf(),
                file_ops.bytes() == old(file_ops).bytes(),
                nlong <= n,
                offset + 4 * nlong + 2 * (n - nlong) <= old(file_ops).bytes().len(),
                j <= tail,
                tail == n - nlong,
                nlong == hhea_table.num_of_long_hor_metrics,
                n == maxp_table.num_glyphs,
                file_ops.pos() == offset + 4 * nlong + 2 * j,
                metrics@.len() == nlong + j,
                forall|g: int|
                    0 <= g < nlong + j ==> (#[trigger] metrics@[g]).advance_width == hmtx_advance(
                        old(file_ops).bytes(),
                        offset as int,
                        hhea_table.num_of_long_hor_metrics as int,
                        g,
                    ) && metrics@[g].left_side_bearing == hmtx_lsb(
                        old(file_ops).bytes(),
                        offset as int,
                        hhea_table.num_of_long_hor_metrics as int,
                        g,
                    ),
                nlong > 0 ==> last_advance_width == be_u16(
                    old(file_ops).bytes(),
                    offset + 4 * (nlong - 1),
                ),
                nlong == 0 ==> last_advance_width == 0,
            decreases tail - j,
        {
            let left_side_bearing = file_ops.read_i16()?;
            metrics.push(
                LongHorMetric { advance_width: last_advance_width, left_side_bearing },
            );
            j = j + 1;
        }
        Ok(LongHorMetricLookup(metrics))
    }
}

/// Every glyph id at or past `numOfLongHorMetrics` carries the same
/// advance width as glyph id `numOfLongHorMetrics - 1`.
pub proof fn lemma_hmtx_tail_advance(
    lk: Seq<LongHorMetric>,
    d: Seq<u8>,
    off: int,
    nlong: int,
    n: int,
    g: int,
)
    requires
        hmtx_lookup_matches(lk, d, off, nlong, n),
        1 <= nlong <= g < n,
    ensures
        lk[g].advance_width == lk[nlong - 1].advance_width,
{
}

} // verus!
