use vstd::prelude::*;

use crate::bytes::{be_i16, be_i64, be_u16, be_u32};
use crate::error::FontError;
use crate::model::{FWord, Fixed};
use crate::reader::VecOps;

verus! {

/// The magic number every `head` table must carry.
pub open spec fn head_magic() -> int {
    0x5F0F3CF5
}

/// The `indexToLocFormat` field: 0 for short loca offsets, 1 for long.
pub open spec fn head_index_to_loc_format(d: Seq<u8>, off: int) -> int {
    be_i16(d, off + 50)
}

/// The font-wide header table.
#[derive(Debug, Clone, Copy, PartialEq, Eq)]
pub struct HeadTable {
    pub version: Fixed,
    pub font_revision: Fixed,
    pub flags: u16,
    pub units_per_em: u16,
    pub created: i64,
    pub modified: i64,
    pub x_min: FWord,
    pub y_min: FWord,
    pub x_max: FWord,
    pub y_max: FWord,
    pub mac_style: u16,
    pub lowest_rec_ppem: u16,
    pub font_direction_hint: i16,
    pub index_to_loc_format: i16,
    pub glyph_data_format: i16,
}

/// Whether `h` holds exactly the 54-byte `head` record at `off` in `d`.
pub open spec fn head_matches(h: HeadTable, d: Seq<u8>, off: int) -> bool {
    &&& h.version.major == be_u16(d, off)
    &&& h.version.minor == be_u16(d, off + 2)
    &&& h.font_revision.major == be_u16(d, off + 4)
    &&& h.font_revision.minor == be_u16(d, off + 6)
    &&& h.flags == be_u16(d, off + 16)
    &&& h.units_per_em == be_u16(d, off + 18)
    &&& h.created == be_i64(d, off + 20)
    &&& h.modified == be_i64(d, off + 28)
    &&& h.x_min.0 == be_i16(d, off + 36)
    &&& h.y_min.0 == be_i16(d, off + 38)
    &&& h.x_max.0 == be_i16(d, off + 40)
    &&& h.y_max.0 == be_i16(d, off + 42)
    &&& h.mac_style == be_u16(d, off + 44)
    &&& h.lowest_rec_ppem == be_u16(d, off + 46)
    &&& h.font_direction_hint == be_i16(d, off + 48)
    &&& h.index_to_loc_format == head_index_to_loc_format(d, off)
    &&& h.glyph_data_format == be_i16(d, off + 52)
}

impl HeadTable {
    /// Decodes the `head` table at `offset`, checking the magic number.
    pub fn from_file(reader: &mut VecOps, offset: u32) -> (r: Result<HeadTable, FontError>)
        requires
            old(reader).wf(),
        ensures
            final(reader).wf(),
            final(reader).bytes() == old(reader).bytes(),
            r is Ok ==> offset + 54 <= old(reader).bytes().len()
                && be_u32(old(reader).bytes(), offset + 12) == head_magic()
                && head_matches(r->Ok_0, old(reader).bytes(), offset as int),
            r is Err && r->Err_0 == FontError::OutOfBounds <==> offset + 54 > old(
                reader,
            ).bytes().len(),
            r is Err && r->Err_0 == FontError::InvalidFont <==> offset + 54 <= old(
                reader,
            ).bytes().len() && be_u32(old(reader).bytes(), offset + 12) != head_magic(),
            r is Err ==> r->Err_0 == FontError::OutOfBounds || r->Err_0 == FontError::InvalidFont,
    {
        reader.seek_from_start(offset)?;
        let version_major = reader.read_u16()?;
        let version_minor = reader.read_u16()?;
        let revision_major = reader.read_u16()?;
        let revision_minor = reader.read_u16()?;
        let _checksum = reader.read_u32()?;
        let magic_number = reader.read_u32()?;
        let flags = reader.read_u16()?;
        let units_per_em = reader.read_u16()?;
        let created = reader.read_long_date_time()?;
        let modified = reader.read_long_date_time()?;
        let x_min = reader.read_i16()?;
        let y_min = reader.read_i16()?;
        let x_max = reader.read_i16()?;
        let y_max = reader.read_i16()?;
        let mac_style = reader.read_u16()?;
        let lowest_rec_ppem = reader.read_u16()?;
        let font_direction_hint = reader.read_i16()?;
        let index_to_loc_format = reader.read_i16()?;
        let glyph_data_format = reader.read_i16()?;
        if magic_number != 0x5F0F3CF5 {
            return Err(FontError::InvalidFont);
        }
        Ok(HeadTable {
            version: Fixed { major: version_major, minor: version_minor },
            font_revision: Fixed { major: revision_major, minor: revision_minor },
            flags,
            units_per_em,
            created,
            modified,
            x_min: FWord(x_min),
            y_min: FWord(y_min),
            x_max: FWord(x_max),
            y_max: FWord(y_max),
            mac_style,
            lowest_rec_ppem,
            font_direction_hint,
            index_to_loc_format,
            glyph_data_format,
        })
    }
}

} // verus!
