use vstd::prelude::*;

use crate::bytes::{be_i16, be_u16};
use crate::error::FontError;
use crate::model::{FWord, Fixed, UFWord};
use crate::reader::VecOps;

verus! {

/// The count of long horizontal metrics announced by `hhea` at `off`.
pub open spec fn hhea_num_of_long_hor_metrics(d: Seq<u8>, off: int) -> int {
    be_u16(d, off + 34)
}

/// The horizontal header table; downstream decoders only need
/// `num_of_long_hor_metrics`.
#[derive(Debug, Clone, Copy, PartialEq, Eq)]
pub struct HheaTable {
    pub version: Fixed,
    pub ascent: FWord,
    pub descent: FWord,
    pub line_gap: FWord,
    pub advance_width_max: UFWord,
    pub min_left_side_bearing: FWord,
    pub min_right_side_bearing: FWord,
    pub x_max_extent: FWord,
    pub caret_slope_rise: i16,
    pub caret_slope_run: i16,
    pub caret_offset: FWord,
    pub metric_data_format: i16,
    pub num_of_long_hor_metrics: u16,
}

/// Whether `h` holds exactly the 36-byte `hhea` record at `off` in `d`.
pub open spec fn hhea_matches(h: HheaTable, d: Seq<u8>, off: int) -> bool {
    &&& h.version.major == be_u16(d, off)
    &&& h.version.minor == be_u16(d, off + 2)
    &&& h.ascent.0 == be_i16(d, off + 4)
    &&& h.descent.0 == be_i16(d, off + 6)
    &&& h.line_gap.0 == be_i16(d, off + 8)
    &&& h.advance_width_max.0 == be_u16(d, off + 10)
    &&& h.min_left_side_bearing.0 == be_i16(d, off + 12)
    &&& h.min_right_side_bearing.0 == be_i16(d, off + 14)
    &&& h.x_max_extent.0 == be_i16(d, off + 16)
    &&& h.caret_slope_rise == be_i16(d, off + 18)
    &&& h.caret_slope_run == be_i16(d, off + 20)
    &&& h.caret_offset.0 == be_i16(d, off + 22)
    &&& h.metric_data_format == be_i16(d, off + 32)
    &&& h.num_of_long_hor_metrics == hhea_num_of_long_hor_metrics(d, off)
}

impl HheaTable {
    pub fn from_file(reader: &mut VecOps, offset: u32) -> (r: Result<HheaTable, FontError>)
        requires
            old(reader).wf(),
        ensures
            final(reader).wf(),
            final(reader).bytes() == old(reader).bytes(),
            r is Ok <==> offset + 36 <= old(reader).bytes().len(),
            r is Ok ==> hhea_matches(r->Ok_0, old(reader).bytes(), offset as int),
            r is Err ==> r->Err_0 == FontError::OutOfBounds,
    {
        reader.seek_from_start(offset)?;
        let version_major = reader.read_u16()?;
        let version_minor = reader.read_u16()?;
        let ascent = reader.read_i16()?;
        let descent = reader.read_i16()?;
        let line_gap = reader.read_i16()?;
        let advance_width_max = reader.read_u16()?;
        let min_left_side_bearing = reader.read_i16()?;
        let min_right_side_bearing = reader.read_i16()?;
        let x_max_extent = reader.read_i16()?;
        let caret_slope_rise = reader.read_i16()?;
        let caret_slope_run = reader.read_i16()?;
        let caret_offset = reader.read_i16()?;
        let _reserved0 = reader.read_i16()?;
        let _reserved1 = reader.read_i16()?;
        let _reserved2 = reader.read_i16()?;
        let _reserved3 = reader.read_i16()?;
        let metric_data_format = reader.read_i16()?;
        let num_of_long_hor_metrics = reader.read_u16()?;
        Ok(HheaTable {
            version: Fixed { major: version_major, minor: version_minor },
            ascent: FWord(ascent),
            descent: FWord(descent),
            line_gap: FWord(line_gap),
            advance_width_max: UFWord(advance_width_max),
            min_left_side_bearing: FWord(min_left_side_bearing),
            min_right_side_bearing: FWord(min_right_side_bearing),
            x_max_extent: FWord(x_max_extent),
            caret_slope_rise,
            caret_slope_run,
            caret_offset: FWord(caret_offset),
            metric_data_format,
            num_of_long_hor_metrics,
        })
    }
}

} // verus!
