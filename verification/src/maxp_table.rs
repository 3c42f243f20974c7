use vstd::prelude::*;

use crate::bytes::be_u16;
use crate::error::FontError;
use crate::model::Fixed;
use crate::reader::VecOps;

verus! {

/// The glyph count announced by the `maxp` table at `off`.
pub open spec fn maxp_num_glyphs(d: Seq<u8>, off: int) -> int {
    be_u16(d, off + 4)
}

/// The maximum profile table; downstream decoders only need `num_glyphs`.
#[derive(Debug, Clone, Copy, PartialEq, Eq)]
pub struct MaximumProfileTable {
    pub version: Fixed,
    pub num_glyphs: u16,
    pub max_points: u16,
    pub max_contours: u16,
    pub max_component_points: u16,
    pub max_component_contours: u16,
    pub max_zones: u16,
    pub max_twilight_points: u16,
    pub max_storage: u16,
    pub max_function_defs: u16,
    pub max_instruction_defs: u16,
    pub max_stack_elements: u16,
    pub max_size_of_instructions: u16,
    pub max_component_elements: u16,
    pub max_component_depth: u16,
}

/// Whether `m` holds exactly the 32-byte `maxp` record at `off` in `d`.
pub open spec fn maxp_matches(m: MaximumProfileTable, d: Seq<u8>, off: int) -> bool {
    &&& m.version.major == be_u16(d, off)
    &&& m.version.minor == be_u16(d, off + 2)
    &&& m.num_glyphs == maxp_num_glyphs(d, off)
    &&& m.max_points == be_u16(d, off + 6)
    &&& m.max_contours == be_u16(d, off + 8)
    &&& m.max_component_points == be_u16(d, off + 10)
    &&& m.max_component_contours == be_u16(d, off + 12)
    &&& m.max_zones == be_u16(d, off + 14)
    &&& m.max_twilight_points == be_u16(d, off + 16)
    &&& m.max_storage == be_u16(d, off + 18)
    &&& m.max_function_defs == be_u16(d, off + 20)
    &&& m.max_instruction_defs == be_u16(d, off + 22)
    &&& m.max_stack_elements == be_u16(d, off + 24)
    &&& m.max_size_of_instructions == be_u16(d, off + 26)
    &&& m.max_component_elements == be_u16(d, off + 28)
    &&& m.max_component_depth == be_u16(d, off + 30)
}

impl MaximumProfileTable {
    pub fn from_file(reader: &mut VecOps, offset: u32) -> (r: Result<
        MaximumProfileTable,
        FontError,
    >)
        requires
            old(reader).wf(),
        ensures
            final(reader).wf(),
            final(reader).bytes() == old(reader).bytes(),
            r is Ok <==> offset + 32 <= old(reader).bytes().len(),
            r is Ok ==> maxp_matches(r->Ok_0, old(reader).bytes(), offset as int),
            r is Err ==> r->Err_0 == FontError::OutOfBounds,
    {
        reader.seek_from_start(offset)?;
        let version_major = reader.read_u16()?;
        let version_minor = reader.read_u16()?;
        let num_glyphs = reader.read_u16()?;
        let max_points = reader.read_u16()?;
        let max_contours = reader.read_u16()?;
        let max_component_points = reader.read_u16()?;
        let max_component_contours = reader.read_u16()?;
        let max_zones = reader.read_u16()?;
        let max_twilight_points = reader.read_u16()?;
        let max_storage = reader.read_u16()?;
        let max_function_defs = reader.read_u16()?;
        let max_instruction_defs = reader.read_u16()?;
        let max_stack_elements = reader.read_u16()?;
        let max_size_of_instructions = reader.read_u16()?;
        let max_component_elements = reader.read_u16()?;
        let max_component_depth = reader.read_u16()?;
        Ok(MaximumProfileTable {
            version: Fixed { major: version_major, minor: version_minor },
            num_glyphs,
            max_points,
            max_contours,
            max_component_points,
            max_component_contours,
            max_zones,
            max_twilight_points,
            max_storage,
            max_function_defs,
            max_instruction_defs,
            max_stack_elements,
            max_size_of_instructions,
            max_component_elements,
            max_component_depth,
        })
    }
}

} // verus!
