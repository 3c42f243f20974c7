use vstd::prelude::*;

use crate::bytes::{as_i8, be_i16, be_u16, be_u32};
use crate::cmap_table::{cmap4_wf, f4_end, f4_seg_count, f4_start, glyph_of, segment_matches,
    CMapSubtable, Segment};
use crate::contours_reader::{contours_partition, read_contours, simple_ends, simple_ok,
    simple_points};
use crate::error::FontError;
use crate::font_directory::{directory_matches, find_entry, FontDirectory, TableDirectory};
use crate::head_table::{head_matches, HeadTable};
use crate::hhea_table::{hhea_matches, HheaTable};
use crate::htmx_table::{hmtx_lookup_matches, LongHorMetric, LongHorMetricLookup};
use crate::loca_table::{loca_lookup_matches, GlyphIdOffsetLookup, GlyphOffset};
use crate::maxp_table::{maxp_matches, maxp_num_glyphs, MaximumProfileTable};
use crate::model::{ArgumentTypes, ComponentData, Glyph, GlyphId};
use crate::reader::VecOps;

verus! {

// --- Composite-glyph component flags. ---

/// Whether all bits of `mask` are set in `f`.
pub open spec fn cflag_set(f: u16, mask: u16) -> bool {
    f & mask == mask
}

/// The 16-bit flag word that opens each composite-glyph component.
#[derive(Debug, Clone, Copy, PartialEq, Eq)]
pub struct ComponentFlag(pub u16);

impl ComponentFlag {
    pub fn is_set(&self, bit: u8) -> (r: bool)
        requires
            bit < 16,
        ensures
            r == cflag_set(self.0, 1u16 << bit),
    {
        let shift = 1u16 << bit;
        self.0 & shift == shift
    }

    pub fn arg1_and_arg2_are_words(&self) -> (r: bool)
        ensures
            r == cflag_set(self.0, 0x0001),
    {
        self.0 & 0x0001 == 0x0001
    }

    pub fn args_are_xy_values(&self) -> (r: bool)
        ensures
            r == cflag_set(self.0, 0x0002),
    {
        self.0 & 0x0002 == 0x0002
    }

    pub fn round_xy_to_grid(&self) -> (r: bool)
        ensures
            r == cflag_set(self.0, 0x0004),
    {
        self.0 & 0x0004 == 0x0004
    }

    pub fn we_have_a_scale(&self) -> (r: bool)
        ensures
            r == cflag_set(self.0, 0x0008),
    {
        self.0 & 0x0008 == 0x0008
    }

    pub fn obsolete(&self) -> (r: bool)
        ensures
            r == cflag_set(self.0, 0x0010),
    {
        self.0 & 0x0010 == 0x0010
    }

    pub fn more_components(&self) -> (r: bool)
        ensures
            r == cflag_set(self.0, 0x0020),
    {
        self.0 & 0x0020 == 0x0020
    }

    pub fn we_have_an_x_and_y_scale(&self) -> (r: bool)
        ensures
            r == cflag_set(self.0, 0x0040),
    {
        self.0 & 0x0040 == 0x0040
    }

    pub fn we_have_a_two_by_two(&self) -> (r: bool)
        ensures
            r == cflag_set(self.0, 0x0080),
    {
        self.0 & 0x0080 == 0x0080
    }

    pub fn we_have_instructions(&self) -> (r: bool)
        ensures
            r == cflag_set(self.0, 0x0100),
    {
        self.0 & 0x0100 == 0x0100
    }

    pub fn use_my_metrics(&self) -> (r: bool)
        ensures
            r == cflag_set(self.0, 0x0200),
    {
        self.0 & 0x0200 == 0x0200
    }

    pub fn overlap_compound(&self) -> (r: bool)
        ensures
            r == cflag_set(self.0, 0x0400),
    {
        self.0 & 0x0400 == 0x0400
    }

    pub fn scaled_component_offset(&self) -> (r: bool)
        ensures
            r == cflag_set(self.0, 0x0800),
    {
        self.0 & 0x0800 == 0x0800
    }

    pub fn unscaled_component_offset(&self) -> (r: bool)
        ensures
            r == cflag_set(self.0, 0x1000),
    {
        self.0 & 0x1000 == 0x1000
    }
}

// --- The denotation of one composite component at `pos`. ---

/// Byte width of the two positioning arguments.
pub open spec fn comp_args_width(f: u16) -> int {
    if cflag_set(f, 0x0001) {
        4
    } else {
        2
    }
}

/// Byte width of the transform that follows the arguments.
pub open spec fn comp_transform_width(f: u16) -> int {
    if cflag_set(f, 0x0008) {
        2
    } else if cflag_set(f, 0x0040) {
        4
    } else if cflag_set(f, 0x0080) {
        8
    } else {
        0
    }
}

/// The positioning argument of the component whose flag word is `f`
/// and whose arguments start at `apos`.
pub open spec fn comp_args(d: Seq<u8>, apos: int, f: u16) -> ArgumentTypes {
    if cflag_set(f, 0x0001) {
        if cflag_set(f, 0x0002) {
            ArgumentTypes::XYValue16(be_i16(d, apos) as i16, be_i16(d, apos + 2) as i16)
        } else {
            ArgumentTypes::Point16(be_u16(d, apos) as u16, be_u16(d, apos + 2) as u16)
        }
    } else {
        if cflag_set(f, 0x0002) {
            ArgumentTypes::XYValue8(as_i8(d[apos] as int) as i8, as_i8(d[apos + 1] as int) as i8)
        } else {
            ArgumentTypes::Point8(d[apos], d[apos + 1])
        }
    }
}

/// The 2x2 transform `[a b; c d]` of the component: a single scale, an
/// axis pair, a full matrix, or the identity.
pub open spec fn comp_transform(d: Seq<u8>, tpos: int, f: u16) -> (int, int, int, int) {
    if cflag_set(f, 0x0008) {
        (be_i16(d, tpos), 0, 0, be_i16(d, tpos))
    } else if cflag_set(f, 0x0040) {
        (be_i16(d, tpos), 0, 0, be_i16(d, tpos + 2))
    } else if cflag_set(f, 0x0080) {
        (be_i16(d, tpos), be_i16(d, tpos + 2), be_i16(d, tpos + 4), be_i16(d, tpos + 6))
    } else {
        (1, 0, 0, 1)
    }
}

/// Decodes the component at `pos`: the flag word, the referenced glyph
/// index, the variable-width arguments and the optional transform.
/// Returns the component, the end position, and whether it lay inside
/// the data.
pub open spec fn component_at(d: Seq<u8>, pos: int) -> (ComponentData, int, bool) {
    let f = be_u16(d, pos) as u16;
    let apos = pos + 4;
    let tpos = apos + comp_args_width(f);
    let end = tpos + comp_transform_width(f);
    let t = comp_transform(d, tpos, f);
    let c = ComponentData {
        glyph_index: be_u16(d, pos + 2) as u16,
        a: t.0 as i16,
        b: t.1 as i16,
        c: t.2 as i16,
        d: t.3 as i16,
        argument_types: comp_args(d, apos, f),
    };
    (c, end, 0 <= pos && end <= d.len())
}

/// Whether the component at `pos` announces a follower.
pub open spec fn comp_more(d: Seq<u8>, pos: int) -> bool {
    cflag_set(be_u16(d, pos) as u16, 0x0020)
}

/// Decodes the whole component chain from `pos`: components in
/// encounter order, while the `more_components` bit stays set.
pub open spec fn components_at(d: Seq<u8>, pos: int) -> (Seq<ComponentData>, int, bool)
    decreases d.len() - pos,
{
    let c = component_at(d, pos);
    if !c.2 {
        (Seq::empty(), pos, false)
    } else if !comp_more(d, pos) {
        (seq![c.0], c.1, true)
    } else {
        let rest = components_at(d, c.1);
        (seq![c.0] + rest.0, rest.1, rest.2)
    }
}

/// Reads one component, returning it and its `more_components` bit.
fn read_component(file_ops: &mut VecOps) -> (r: Result<(ComponentData, bool), FontError>)
    requires
        old(file_ops).wf(),
    ensures
        final(file_ops).wf(),
        final(file_ops).bytes() == old(file_ops).bytes(),
        ({
            let c = component_at(old(file_ops).bytes(), old(file_ops).pos());
            &&& r is Ok <==> c.2
            &&& r is Ok ==> r->Ok_0.0 == c.0 && r->Ok_0.1 == comp_more(
                old(file_ops).bytes(),
                old(file_ops).pos(),
            ) && final(file_ops).pos() == c.1
            &&& r is Err ==> r->Err_0 == FontError::OutOfBounds
        }),
{
    proof {
        file_ops.lemma_wf_bounds();
    }
    let flag_word = file_ops.read_u16()?;
    let component_flag = ComponentFlag(flag_word);
    let glyph_index = file_ops.read_u16()?;
    let argument_types = if component_flag.arg1_and_arg2_are_words() {
        if component_flag.args_are_xy_values() {
            let arg1 = file_ops.read_i16()?;
            let arg2 = file_ops.read_i16()?;
            ArgumentTypes::XYValue16(arg1, arg2)
        } else {
            let arg1 = file_ops.read_u16()?;
            let arg2 = file_ops.read_u16()?;
            ArgumentTypes::Point16(arg1, arg2)
        }
    } else {
        if component_flag.args_are_xy_values() {
            let arg1 = file_ops.read_i8()?;
            let arg2 = file_ops.read_i8()?;
            ArgumentTypes::XYValue8(arg1, arg2)
        } else {
            let arg1 = file_ops.read_u8()?;
            let arg2 = file_ops.read_u8()?;
            ArgumentTypes::Point8(arg1, arg2)
        }
    };
    let (a, b, c, dd) = if component_flag.we_have_a_scale() {
        let scale = file_ops.read_i16()?;
        (scale, 0i16, 0i16, scale)
    } else if component_flag.we_have_an_x_and_y_scale() {
        let x_scale = file_ops.read_i16()?;
        let y_scale = file_ops.read_i16()?;
        (x_scale, 0i16, 0i16, y_scale)
    } else if component_flag.we_have_a_two_by_two() {
        let x_scale = file_ops.read_i16()?;
        let scale_01 = file_ops.read_i16()?;
        let scale_10 = file_ops.read_i16()?;
        let y_scale = file_ops.read_i16()?;
        (x_scale, scale_01, scale_10, y_scale)
    } else {
        (1i16, 0i16, 0i16, 1i16)
    };
    let cd = ComponentData { glyph_index, a, b, c, d: dd, argument_types };
    Ok((cd, component_flag.more_components()))
}

/// Reads the component chain of a composite glyph.
fn read_components(file_ops: &mut VecOps) -> (r: Result<Vec<ComponentData>, FontError>)
    requires
        old(file_ops).wf(),
    ensures
        final(file_ops).wf(),
        final(file_ops).bytes() == old(file_ops).bytes(),
        ({
            let full = components_at(old(file_ops).bytes(), old(file_ops).pos());
            &&& r is Ok <==> full.2
            &&& r is Ok ==> r->Ok_0@ == full.0 && final(file_ops).pos() == full.1
            &&& r is Err ==> r->Err_0 == FontError::OutOfBounds
        }),
{
    let ghost d = old(file_ops).bytes();
    let ghost pos0 = old(file_ops).pos();
    let ghost full = components_at(d, pos0);
    let mut components: Vec<ComponentData> = Vec::new();
    let mut has_more: bool = true;
    proof {
        assert(full.0 =~= Seq::<ComponentData>::empty() + full.0);
    }
    while has_more
        invariant
            file_ops.wf(),
            file_ops.bytes() == d,
            d == old(file_ops).bytes(),
            pos0 == old(file_ops).pos(),
            full == components_at(d, pos0),
            has_more ==> ({
                let tail = components_at(d, file_ops.pos());
                &&& full.0 == components@ + tail.0
                &&& full.1 == tail.1
                &&& full.2 == tail.2
            }),
            !has_more ==> full.2 && full.0 == components@ && full.1 == file_ops.pos(),
        decreases d.len() - file_ops.pos() + (if has_more {
            1int
        } else {
            0int
        }),
    {
        let ghost cur = file_ops.pos();
        proof {
            file_ops.lemma_wf_bounds();
        }
        let (cd, more) = read_component(file_ops)?;
        components.push(cd);
        has_more = more;
        proof {
            let c = component_at(d, cur);
            if more {
                let tail = components_at(d, cur);
                let newtail = components_at(d, c.1);
                assert(tail.0 =~= seq![c.0] + newtail.0);
                assert(full.0 =~= components@ + newtail.0);
            } else {
                let tail = components_at(d, cur);
                assert(tail.0 =~= seq![c.0]);
                assert(full.0 =~= components@);
            }
        }
    }
    Ok(components)
}

// --- The assembled font reader. ---

/// Whether the glyph entry at `gpos` decodes fully: a readable header,
/// then a decodable simple or composite body, by the sign of
/// `numberOfContours`.
pub open spec fn glyph_ok(d: Seq<u8>, gpos: int) -> bool {
    &&& 0 <= gpos
    &&& gpos + 10 <= d.len()
    &&& ({
        let nc = be_i16(d, gpos);
        if nc >= 0 {
            simple_ok(d, gpos + 10, nc)
        } else {
            components_at(d, gpos + 10).2
        }
    })
}

/// Whether `g` is exactly the glyph decoded from the entry at `gpos`,
/// bound to glyph id `id` and the metrics `aw` and `lsb`.
pub open spec fn glyph_matches(d: Seq<u8>, gpos: int, id: u16, aw: u16, lsb: i16, g: Glyph) -> bool {
    let nc = be_i16(d, gpos);
    if nc >= 0 {
        &&& g matches Glyph::Simple {
            glyph_id,
            x_min,
            y_min,
            x_max,
            y_max,
            advance_width,
            left_side_bearing,
            contours,
        }
        &&& glyph_id@ == id
        &&& x_min.0 == be_i16(d, gpos + 2)
        &&& y_min.0 == be_i16(d, gpos + 4)
        &&& x_max.0 == be_i16(d, gpos + 6)
        &&& y_max.0 == be_i16(d, gpos + 8)
        &&& advance_width == aw
        &&& left_side_bearing == lsb
        &&& contours@.len() == nc
        &&& contours_partition(
            contours@,
            simple_points(d, gpos + 10, nc),
            simple_ends(d, gpos + 10, nc),
        )
    } else {
        &&& g matches Glyph::Composite {
            glyph_id,
            x_min,
            y_min,
            x_max,
            y_max,
            advance_width,
            left_side_bearing,
            components,
        }
        &&& glyph_id@ == id
        &&& x_min.0 == be_i16(d, gpos + 2)
        &&& y_min.0 == be_i16(d, gpos + 4)
        &&& x_max.0 == be_i16(d, gpos + 6)
        &&& y_max.0 == be_i16(d, gpos + 8)
        &&& advance_width == aw
        &&& left_side_bearing == lsb
        &&& components@ == components_at(d, gpos + 10).0
    }
}

/// The contract of decoding glyph `id`: ids outside the glyph count
/// fail with `UnknownGlyph`; an empty extent yields `Glyph::Empty` with
/// the glyph's metrics; anything else decodes the `glyf` entry at the
/// glyph's `loca` offset exactly when it lies inside the data.
pub open spec fn glyph_request_spec(gr: GlyphReader, id: u16, r: Result<Glyph, FontError>) -> bool {
    let d = gr.font();
    let n = gr.num_glyphs();
    &&& (id >= n <==> r is Err && r->Err_0 == (FontError::UnknownGlyph { id }))
    &&& id < n ==> ({
        let entry = gr.loca_seq()[id as int];
        let aw = gr.hmtx_seq()[id as int].advance_width;
        let lsb = gr.hmtx_seq()[id as int].left_side_bearing;
        let gpos = gr.glyf_offset() + entry.spec_offset();
        &&& entry.spec_is_empty() ==> r is Ok && (r->Ok_0 matches Glyph::Empty {
            glyph_id,
            advance_width,
            left_side_bearing,
        } && glyph_id@ == id && advance_width == aw && left_side_bearing == lsb)
        &&& !entry.spec_is_empty() ==> {
            &&& (r is Ok <==> glyph_ok(d, gpos))
            &&& r is Ok ==> glyph_matches(d, gpos, id, aw, lsb, r->Ok_0)
            &&& r is Err ==> r->Err_0 == FontError::OutOfBounds || r->Err_0
                == FontError::InvalidFont
        }
    })
}

/// Whether the whole construction of a reader succeeds on `d`: the
/// directory parses, the seven required tables exist, `head` carries
/// the magic number, the fixed tables fit, the metric and location
/// tables fit the glyph count, and a Unicode cmap subtable exists.
pub open spec fn font_parses(d: Seq<u8>) -> bool {
    &&& 12 + 16 * crate::font_directory::dir_num_tables(d) <= d.len()
    &&& crate::font_directory::has_table(d, crate::font_directory::tag_head())
    &&& crate::font_directory::has_table(d, crate::font_directory::tag_maxp())
    &&& crate::font_directory::has_table(d, crate::font_directory::tag_hhea())
    &&& crate::font_directory::has_table(d, crate::font_directory::tag_hmtx())
    &&& crate::font_directory::has_table(d, crate::font_directory::tag_loca())
    &&& crate::font_directory::has_table(d, crate::font_directory::tag_glyf())
    &&& crate::font_directory::has_table(d, crate::font_directory::tag_cmap())
    &&& ({
        let hoff = crate::font_directory::table_offset(d, crate::font_directory::tag_head());
        hoff + 54 <= d.len() && be_u32(d, hoff + 12) == crate::head_table::head_magic()
    })
    &&& crate::font_directory::table_offset(d, crate::font_directory::tag_maxp()) + 32 <= d.len()
    &&& crate::font_directory::table_offset(d, crate::font_directory::tag_hhea()) + 36 <= d.len()
    &&& ({
        let n = maxp_num_glyphs(
            d,
            crate::font_directory::table_offset(d, crate::font_directory::tag_maxp()),
        );
        let nlong = crate::hhea_table::hhea_num_of_long_hor_metrics(
            d,
            crate::font_directory::table_offset(d, crate::font_directory::tag_hhea()),
        );
        let hmoff = crate::font_directory::table_offset(d, crate::font_directory::tag_hmtx());
        nlong <= n && hmoff + 4 * nlong + 2 * (n - nlong) <= d.len()
    })
    &&& ({
        let n = maxp_num_glyphs(
            d,
            crate::font_directory::table_offset(d, crate::font_directory::tag_maxp()),
        );
        let fmt = crate::head_table::head_index_to_loc_format(
            d,
            crate::font_directory::table_offset(d, crate::font_directory::tag_head()),
        );
        let loff = crate::font_directory::table_offset(d, crate::font_directory::tag_loca());
        (fmt == 0 || fmt == 1) && loff + crate::loca_table::loca_entry_width(fmt) * (n + 1)
            <= d.len()
    })
    &&& ({
        let coff = crate::font_directory::table_offset(d, crate::font_directory::tag_cmap());
        let ns = crate::cmap_table::cmap_num_subtables(d, coff);
        let k = crate::cmap_table::find_unicode_record(d, coff);
        &&& coff + 4 + 8 * ns <= d.len()
        &&& (forall|j: int|
            0 <= j < ns ==> crate::cmap_table::cmap_record_platform(d, coff, j) <= 3)
        &&& k < ns
        &&& coff + crate::cmap_table::cmap_record_offset(d, coff, k) <= u32::MAX
    })
}

/// Whether the reader's decoded tables are exactly those the bytes `d`
/// encode, with the table offsets the directory names.
pub open spec fn reader_matches(g: GlyphReader, d: Seq<u8>) -> bool {
    &&& g.font() == d
    &&& directory_matches(g.directory(), d)
    &&& head_matches(
        g.head(),
        d,
        crate::font_directory::table_offset(d, crate::font_directory::tag_head()),
    )
    &&& g.num_glyphs() == maxp_num_glyphs(
        d,
        crate::font_directory::table_offset(d, crate::font_directory::tag_maxp()),
    )
    &&& loca_lookup_matches(
        g.loca_seq(),
        d,
        crate::font_directory::table_offset(d, crate::font_directory::tag_loca()),
        g.head().index_to_loc_format as int,
        g.num_glyphs(),
    )
    &&& hmtx_lookup_matches(
        g.hmtx_seq(),
        d,
        crate::font_directory::table_offset(d, crate::font_directory::tag_hmtx()),
        crate::hhea_table::hhea_num_of_long_hor_metrics(
            d,
            crate::font_directory::table_offset(d, crate::font_directory::tag_hhea()),
        ),
        g.num_glyphs(),
    )
    &&& g.glyf_offset() == crate::font_directory::table_offset(
        d,
        crate::font_directory::tag_glyf(),
    )
    &&& ({
        let coff = crate::font_directory::table_offset(d, crate::font_directory::tag_cmap());
        g.cmap_offset() == coff + crate::cmap_table::cmap_record_offset(
            d,
            coff,
            crate::cmap_table::find_unicode_record(d, coff),
        )
    })
}

/// Whether two reader states decode the same font: everything but the
/// cursor position agrees.
pub open spec fn preserved(a: GlyphReader, b: GlyphReader) -> bool {
    &&& a.font() == b.font()
    &&& a.glyf_offset() == b.glyf_offset()
    &&& a.cmap_offset() == b.cmap_offset()
    &&& a.num_glyphs() == b.num_glyphs()
    &&& a.head() == b.head()
    &&& a.directory() == b.directory()
    &&& a.loca_seq() == b.loca_seq()
    &&& a.hmtx_seq() == b.hmtx_seq()
}

/// Looks up the seven tables glyph extraction requires, in the parsed
/// directory.
fn required_tables(fd: &FontDirectory, Ghost(d): Ghost<Seq<u8>>) -> (r: Result<
    (
        TableDirectory,
        TableDirectory,
        TableDirectory,
        TableDirectory,
        TableDirectory,
        TableDirectory,
        TableDirectory,
    ),
    FontError,
>)
    requires
        directory_matches(*fd, d),
    ensures
        r is Ok <==> crate::font_directory::has_table(d, crate::font_directory::tag_head())
            && crate::font_directory::has_table(d, crate::font_directory::tag_maxp())
            && crate::font_directory::has_table(d, crate::font_directory::tag_hhea())
            && crate::font_directory::has_table(d, crate::font_directory::tag_hmtx())
            && crate::font_directory::has_table(d, crate::font_directory::tag_loca())
            && crate::font_directory::has_table(d, crate::font_directory::tag_glyf())
            && crate::font_directory::has_table(d, crate::font_directory::tag_cmap()),
        r is Ok ==> ({
            &&& r->Ok_0.0.offset == crate::font_directory::table_offset(
                d,
                crate::font_directory::tag_head(),
            )
            &&& r->Ok_0.1.offset == crate::font_directory::table_offset(
                d,
                crate::font_directory::tag_maxp(),
            )
            &&& r->Ok_0.2.offset == crate::font_directory::table_offset(
                d,
                crate::font_directory::tag_hhea(),
            )
            &&& r->Ok_0.3.offset == crate::font_directory::table_offset(
                d,
                crate::font_directory::tag_hmtx(),
            )
            &&& r->Ok_0.4.offset == crate::font_directory::table_offset(
                d,
                crate::font_directory::tag_loca(),
            )
            &&& r->Ok_0.5.offset == crate::font_directory::table_offset(
                d,
                crate::font_directory::tag_glyf(),
            )
            &&& r->Ok_0.6.offset == crate::font_directory::table_offset(
                d,
                crate::font_directory::tag_cmap(),
            )
        }),
        r is Err ==> r->Err_0 matches FontError::MissingTable { .. },
{
    let head_tag: [u8; 4] = [104, 101, 97, 100];
    let maxp_tag: [u8; 4] = [109, 97, 120, 112];
    let hhea_tag: [u8; 4] = [104, 104, 101, 97];
    let hmtx_tag: [u8; 4] = [104, 109, 116, 120];
    let loca_tag: [u8; 4] = [108, 111, 99, 97];
    let glyf_tag: [u8; 4] = [103, 108, 121, 102];
    let cmap_tag: [u8; 4] = [99, 109, 97, 112];
    proof {
        lemma_all_tag_lookups(*fd, d);
        crate::font_directory::lemma_find_entry_from(
            fd.table_dictionary@,
            crate::font_directory::tag_head(),
            0,
        );
        crate::font_directory::lemma_find_entry_from(
            fd.table_dictionary@,
            crate::font_directory::tag_maxp(),
            0,
        );
        crate::font_directory::lemma_find_entry_from(
            fd.table_dictionary@,
            crate::font_directory::tag_hhea(),
            0,
        );
        crate::font_directory::lemma_find_entry_from(
            fd.table_dictionary@,
            crate::font_directory::tag_hmtx(),
            0,
        );
        crate::font_directory::lemma_find_entry_from(
            fd.table_dictionary@,
            crate::font_directory::tag_loca(),
            0,
        );
        crate::font_directory::lemma_find_entry_from(
            fd.table_dictionary@,
            crate::font_directory::tag_glyf(),
            0,
        );
        crate::font_directory::lemma_find_entry_from(
            fd.table_dictionary@,
            crate::font_directory::tag_cmap(),
            0,
        );
        assert(head_tag@ =~= crate::font_directory::tag_head());
        assert(maxp_tag@ =~= crate::font_directory::tag_maxp());
        assert(hhea_tag@ =~= crate::font_directory::tag_hhea());
        assert(hmtx_tag@ =~= crate::font_directory::tag_hmtx());
        assert(loca_tag@ =~= crate::font_directory::tag_loca());
        assert(glyf_tag@ =~= crate::font_directory::tag_glyf());
        assert(cmap_tag@ =~= crate::font_directory::tag_cmap());
    }
    let head_entry = fd.table_directory(&head_tag)?;
    let maxp_entry = fd.table_directory(&maxp_tag)?;
    let hhea_entry = fd.table_directory(&hhea_tag)?;
    let htmx_entry = fd.table_directory(&hmtx_tag)?;
    let loca_entry = fd.table_directory(&loca_tag)?;
    let glyf_entry = fd.table_directory(&glyf_tag)?;
    let cmap_entry = fd.table_directory(&cmap_tag)?;
    Ok((head_entry, maxp_entry, hhea_entry, htmx_entry, loca_entry, glyf_entry, cmap_entry))
}

/// Decodes the three fixed-layout tables.
fn parse_fixed_tables(reader: &mut VecOps, head_off: u32, maxp_off: u32, hhea_off: u32) -> (r:
    Result<(HeadTable, MaximumProfileTable, HheaTable), FontError>)
    requires
        old(reader).wf(),
    ensures
        final(reader).wf(),
        final(reader).bytes() == old(reader).bytes(),
        ({
            let d = old(reader).bytes();
            &&& r is Ok <==> head_off + 54 <= d.len() && be_u32(d, head_off + 12)
                == crate::head_table::head_magic() && maxp_off + 32 <= d.len() && hhea_off + 36
                <= d.len()
            &&& r is Ok ==> head_matches(r->Ok_0.0, d, head_off as int) && maxp_matches(
                r->Ok_0.1,
                d,
                maxp_off as int,
            ) && hhea_matches(r->Ok_0.2, d, hhea_off as int)
            &&& r is Err ==> r->Err_0 == FontError::OutOfBounds || r->Err_0
                == FontError::InvalidFont
        }),
{
    let head_table = HeadTable::from_file(reader, head_off)?;
    let maximum_profile_table = MaximumProfileTable::from_file(reader, maxp_off)?;
    let hhea_table = HheaTable::from_file(reader, hhea_off)?;
    Ok((head_table, maximum_profile_table, hhea_table))
}

/// Materialises the metric and location lookups.
fn parse_lookups(
    reader: &mut VecOps,
    hmtx_off: u32,
    loca_off: u32,
    head_table: &HeadTable,
    hhea_table: HheaTable,
    maxp_table: &MaximumProfileTable,
) -> (r: Result<(LongHorMetricLookup, GlyphIdOffsetLookup), FontError>)
    requires
        old(reader).wf(),
    ensures
        final(reader).wf(),
        final(reader).bytes() == old(reader).bytes(),
        ({
            let d = old(reader).bytes();
            let n = maxp_table.num_glyphs as int;
            let nlong = hhea_table.num_of_long_hor_metrics as int;
            let fmt = head_table.index_to_loc_format as int;
            &&& r is Ok <==> nlong <= n && hmtx_off + 4 * nlong + 2 * (n - nlong) <= d.len() && (
            fmt == 0 || fmt == 1) && loca_off + crate::loca_table::loca_entry_width(fmt) * (n + 1)
                <= d.len()
            &&& r is Ok ==> hmtx_lookup_matches(r->Ok_0.0.0@, d, hmtx_off as int, nlong, n)
                && loca_lookup_matches(r->Ok_0.1.0@, d, loca_off as int, fmt, n)
            &&& r is Err ==> r->Err_0 == FontError::OutOfBounds || r->Err_0
                == FontError::InvalidFont
        }),
{
    let long_hor_metric_lookup = LongHorMetricLookup::from_file(
        reader,
        hmtx_off,
        hhea_table,
        maxp_table,
    )?;
    let glyph_id_offset_lookup = GlyphIdOffsetLookup::mk_glyph_id_to_offset(
        reader,
        loca_off,
        head_table,
        maxp_table,
    )?;
    Ok((long_hor_metric_lookup, glyph_id_offset_lookup))
}

/// The parser object: the cursor over the font bytes and every lookup
/// structure materialised at construction.
pub struct GlyphReader {
    reader: VecOps,
    glyf_table_offset: u32,
    glyph_id_offset_lookup: GlyphIdOffsetLookup,
    cmap_subtable: CMapSubtable,
    long_hor_metric_lookup: LongHorMetricLookup,
    font_directory: FontDirectory,
    head_table: HeadTable,
    num_glyphs: u16,
}

impl GlyphReader {
    /// The font bytes the reader decodes.
    pub closed spec fn font(&self) -> Seq<u8> {
        self.reader.bytes()
    }

    pub closed spec fn glyf_offset(&self) -> int {
        self.glyf_table_offset as int
    }

    pub closed spec fn cmap_offset(&self) -> int {
        self.cmap_subtable.offset as int
    }

    pub closed spec fn num_glyphs(&self) -> int {
        self.num_glyphs as int
    }

    pub closed spec fn head(&self) -> HeadTable {
        self.head_table
    }

    pub closed spec fn directory(&self) -> FontDirectory {
        self.font_directory
    }

    pub closed spec fn loca_seq(&self) -> Seq<GlyphOffset> {
        self.glyph_id_offset_lookup.0@
    }

    pub closed spec fn hmtx_seq(&self) -> Seq<LongHorMetric> {
        self.long_hor_metric_lookup.0@
    }

    /// The reader's decoded tables agree with its bytes.
    pub closed spec fn wf(&self) -> bool {
        &&& self.reader.wf()
        &&& reader_matches(*self, self.reader.bytes())
    }

    /// Parses every lookup structure from an in-memory font. Succeeds
    /// exactly on fonts whose directory, fixed tables, metric and
    /// location tables and Unicode cmap record all parse.
    #[verifier::rlimit(100)]
    pub fn from_vec(v: Vec<u8>) -> (r: Result<GlyphReader, FontError>)
        requires
            v@.len() <= u32::MAX,
        ensures
            r is Ok <==> font_parses(v@),
            r is Ok ==> r->Ok_0.wf() && r->Ok_0.font() == v@ && reader_matches(r->Ok_0, v@),
    {
        let ghost d = v@;
        let mut reader = VecOps::from_vec(v);
        let font_directory = FontDirectory::from_file(&mut reader)?;
        let (head_entry, maxp_entry, hhea_entry, htmx_entry, loca_table, glyf_table, cmap_table) =
            required_tables(&font_directory, Ghost(d))?;
        let (head_table, maximum_profile_table, hhea_table) = parse_fixed_tables(
            &mut reader,
            head_entry.offset,
            maxp_entry.offset,
            hhea_entry.offset,
        )?;
        let (long_hor_metric_lookup, glyph_id_offset_lookup) = parse_lookups(
            &mut reader,
            htmx_entry.offset,
            loca_table.offset,
            &head_table,
            hhea_table,
            &maximum_profile_table,
        )?;
        let cmap_subtable = CMapSubtable::find_cmap_subtable(&mut reader, &cmap_table)?;
        Ok(GlyphReader {
            reader,
            glyf_table_offset: glyf_table.offset,
            glyph_id_offset_lookup,
            cmap_subtable,
            long_hor_metric_lookup,
            font_directory,
            head_table,
            num_glyphs: maximum_profile_table.num_glyphs,
        })
    }

    /// The font-wide bounding box from `head`.
    pub fn bounding_box(&self) -> (r: (i16, i16, i16, i16))
        ensures
            r == (self.head().x_min.0, self.head().y_min.0, self.head().x_max.0, self.head().y_max.0),
    {
        (
            self.head_table.x_min.0,
            self.head_table.y_min.0,
            self.head_table.x_max.0,
            self.head_table.y_max.0,
        )
    }

    /// Enumerates the cmap segments of the selected subtable.
    pub fn cmap_table_segments(&mut self) -> (r: Result<Vec<Segment>, FontError>)
        requires
            old(self).wf(),
        ensures
            final(self).wf(),
            preserved(*old(self), *final(self)),
            ({
                let d = old(self).font();
                let s = old(self).cmap_offset();
                let sc = f4_seg_count(d, s);
                &&& r is Ok <==> s + 2 <= d.len() && crate::cmap_table::f4_format(d, s) == 4 && s
                    + 16 + 8 * sc <= d.len() && crate::cmap_table::f4_pad(d, s) == 0
                &&& r is Ok ==> r->Ok_0@.len() == sc && (forall|i: int|
                    0 <= i < sc ==> segment_matches(#[trigger] r->Ok_0@[i], d, s, i))
            }),
    {
        let subtable = self.cmap_subtable;
        subtable.segments(&mut self.reader)
    }

    /// Resolves a character code to a glyph id. On a well-formed
    /// format-4 subtable the result is exactly `glyph_of`.
    pub fn char_code_to_glyph_id(&mut self, char_code: u16) -> (r: Result<GlyphId, FontError>)
        requires
            old(self).wf(),
        ensures
            final(self).wf(),
            preserved(*old(self), *final(self)),
            cmap4_wf(old(self).font(), old(self).cmap_offset()) ==> r is Ok && r->Ok_0@
                == glyph_of(old(self).font(), old(self).cmap_offset(), char_code as int),
            r is Err ==> r->Err_0 == FontError::OutOfBounds || r->Err_0 == (
            FontError::UnsupportedCmapFormat {
                format: crate::cmap_table::f4_format(
                    old(self).font(),
                    old(self).cmap_offset(),
                ) as u16,
            }),
    {
        let subtable = self.cmap_subtable;
        subtable.find_glyph_id(&mut self.reader, char_code)
    }

    /// Decodes the glyph for a glyph id, binding geometry to metrics.
    pub fn glyph_for_glyph_id(&mut self, glyph_id: GlyphId) -> (r: Result<Glyph, FontError>)
        requires
            old(self).wf(),
        ensures
            final(self).wf(),
            preserved(*old(self), *final(self)),
            glyph_request_spec(*old(self), glyph_id@, r),
    {
        let id = glyph_id.id();
        if id >= self.num_glyphs {
            return Err(FontError::UnknownGlyph { id });
        }
        let glyph_offset = self.glyph_id_offset_lookup.0[id as usize];
        let metric = self.long_hor_metric_lookup.0[id as usize];
        let advance_width = metric.advance_width;
        let left_side_bearing = metric.left_side_bearing;
        if glyph_offset.is_empty() {
            return Ok(Glyph::Empty { glyph_id, advance_width, left_side_bearing });
        }
        proof {
            self.reader.lemma_wf_bounds();
        }
        let gpos: u64 = self.glyf_table_offset as u64 + glyph_offset.offset() as u64;
        if gpos > 0xffffffff {
            return Err(FontError::OutOfBounds);
        }
        self.reader.seek_from_start(gpos as u32)?;
        let number_of_contours = self.reader.read_i16()?;
        let x_min = self.reader.read_i16()?;
        let y_min = self.reader.read_i16()?;
        let x_max = self.reader.read_i16()?;
        let y_max = self.reader.read_i16()?;
        if number_of_contours >= 0 {
            let decoded = read_contours(&mut self.reader, number_of_contours)?;
            Ok(Glyph::Simple {
                glyph_id,
                x_min: crate::model::FWord(x_min),
                y_min: crate::model::FWord(y_min),
                x_max: crate::model::FWord(x_max),
                y_max: crate::model::FWord(y_max),
                advance_width,
                left_side_bearing,
                contours: decoded.contours,
            })
        } else {
            let components = read_components(&mut self.reader)?;
            Ok(Glyph::Composite {
                glyph_id,
                x_min: crate::model::FWord(x_min),
                y_min: crate::model::FWord(y_min),
                x_max: crate::model::FWord(x_max),
                y_max: crate::model::FWord(y_max),
                advance_width,
                left_side_bearing,
                components,
            })
        }
    }

    /// Every character code the font claims to cover: the inclusive
    /// range of each cmap segment, in segment order.
    pub fn all_char_codes(&mut self) -> (r: Result<Vec<u16>, FontError>)
        requires
            old(self).wf(),
        ensures
            final(self).wf(),
            preserved(*old(self), *final(self)),
            ({
                let d = old(self).font();
                let s = old(self).cmap_offset();
                let sc = f4_seg_count(d, s);
                &&& r is Ok <==> s + 2 <= d.len() && crate::cmap_table::f4_format(d, s) == 4 && s
                    + 16 + 8 * sc <= d.len() && crate::cmap_table::f4_pad(d, s) == 0
                &&& r is Ok ==> r->Ok_0@ == crate::cmap_table::codes_from(d, s, 0)
            }),
    {
        let ghost d = self.font();
        let ghost s = self.cmap_offset();
        let segments = self.cmap_table_segments()?;
        let ghost sc = f4_seg_count(d, s);
        let mut out: Vec<u16> = Vec::new();
        let mut si: usize = 0;
        proof {
            assert(crate::cmap_table::codes_from(d, s, 0) =~= out@ + crate::cmap_table::codes_from(
                d,
                s,
                0,
            ));
        }
        while si < segments.len()
            invariant
                segments@.len() == sc,
                sc == f4_seg_count(d, s),
                forall|i: int|
                    0 <= i < sc ==> segment_matches(#[trigger] segments@[i], d, s, i),
                si <= sc,
                crate::cmap_table::codes_from(d, s, 0) =~= out@ + crate::cmap_table::codes_from(
                    d,
                    s,
                    si as int,
                ),
            decreases segments@.len() - si,
        {
            let segment = segments[si];
            let start = segment.start_code;
            let end = segment.end_code;
            let ghost out_before = out@;
            let mut c: u32 = start as u32;
            while c <= end as u32
                invariant
                    start <= c,
                    c <= end + 1 || c == start,
                    out@ =~= out_before + Seq::new(
                        (c - start) as nat,
                        |j: int| (start + j) as u16,
                    ),
                decreases end + 1 - c,
            {
                out.push(c as u16);
                proof {
                    assert(out@ =~= out_before + Seq::new(
                        (c + 1 - start) as nat,
                        |j: int| (start + j) as u16,
                    ));
                }
                c = c + 1;
            }
            proof {
                assert(out@ =~= out_before + crate::cmap_table::segment_codes(
                    start as int,
                    end as int,
                ));
                assert(crate::cmap_table::codes_from(d, s, si as int) =~= crate::cmap_table::segment_codes(
                    f4_start(d, s, si as int),
                    f4_end(d, s, si as int),
                ) + crate::cmap_table::codes_from(d, s, si as int + 1));
                assert(crate::cmap_table::codes_from(d, s, 0) =~= out@ + crate::cmap_table::codes_from(
                    d,
                    s,
                    si as int + 1,
                ));
            }
            si = si + 1;
        }
        proof {
            assert(crate::cmap_table::codes_from(d, s, sc) =~= Seq::<u16>::empty());
            assert(out@ =~= crate::cmap_table::codes_from(d, s, 0));
        }
        Ok(out)
    }

    /// The surfaced strings of the `name` table, for callers to
    /// display. `MissingTable` when the font carries no `name` table.
    pub fn display_font_info(&mut self) -> (r: Result<
        Vec<crate::name_table::NameEntry>,
        FontError,
    >)
        requires
            old(self).wf(),
        ensures
            final(self).wf(),
            preserved(*old(self), *final(self)),
            ({
                let d = old(self).font();
                let noff = crate::font_directory::table_offset(
                    d,
                    crate::font_directory::tag_name(),
                );
                &&& r is Ok ==> crate::font_directory::has_table(
                    d,
                    crate::font_directory::tag_name(),
                ) && ({
                    let sel = crate::name_table::selected_from(d, noff, 0);
                    r->Ok_0@.len() == sel.len() && (forall|i: int|
                        0 <= i < sel.len() ==> crate::name_table::entry_matches_record(
                            #[trigger] r->Ok_0@[i],
                            d,
                            noff,
                            sel[i],
                        ))
                })
                &&& crate::font_directory::has_table(d, crate::font_directory::tag_name())
                    && crate::name_table::name_parses(d, noff) ==> r is Ok
            }),
    {
        let ghost d = self.font();
        let name_tag: [u8; 4] = [110, 97, 109, 101];
        proof {
            lemma_all_tag_lookups(self.font_directory, d);
            crate::font_directory::lemma_find_entry_from(
                self.font_directory.table_dictionary@,
                crate::font_directory::tag_name(),
                0,
            );
            assert(name_tag@ =~= crate::font_directory::tag_name());
        }
        let name_entry = self.font_directory.table_directory(&name_tag)?;
        crate::name_table::read_name(&mut self.reader, &name_entry)
    }

    /// Decodes the glyph for a character code: resolution through the
    /// cmap, then glyph decoding.
    pub fn read_glyph(&mut self, char_code: u16) -> (r: Result<Glyph, FontError>)
        requires
            old(self).wf(),
        ensures
            final(self).wf(),
            preserved(*old(self), *final(self)),
            cmap4_wf(old(self).font(), old(self).cmap_offset()) ==> glyph_request_spec(
                *old(self),
                glyph_of(old(self).font(), old(self).cmap_offset(), char_code as int) as u16,
                r,
            ),
    {
        let glyph_id = self.char_code_to_glyph_id(char_code)?;
        self.glyph_for_glyph_id(glyph_id)
    }
}

/// Looking each required tag up among the parsed entries equals the
/// byte-level lookup.
proof fn lemma_all_tag_lookups(fd: FontDirectory, d: Seq<u8>)
    requires
        directory_matches(fd, d),
    ensures
        find_entry(fd.table_dictionary@, crate::font_directory::tag_head())
            == crate::font_directory::find_table(d, crate::font_directory::tag_head()),
        find_entry(fd.table_dictionary@, crate::font_directory::tag_maxp())
            == crate::font_directory::find_table(d, crate::font_directory::tag_maxp()),
        find_entry(fd.table_dictionary@, crate::font_directory::tag_hhea())
            == crate::font_directory::find_table(d, crate::font_directory::tag_hhea()),
        find_entry(fd.table_dictionary@, crate::font_directory::tag_hmtx())
            == crate::font_directory::find_table(d, crate::font_directory::tag_hmtx()),
        find_entry(fd.table_dictionary@, crate::font_directory::tag_loca())
            == crate::font_directory::find_table(d, crate::font_directory::tag_loca()),
        find_entry(fd.table_dictionary@, crate::font_directory::tag_glyf())
            == crate::font_directory::find_table(d, crate::font_directory::tag_glyf()),
        find_entry(fd.table_dictionary@, crate::font_directory::tag_cmap())
            == crate::font_directory::find_table(d, crate::font_directory::tag_cmap()),
        find_entry(fd.table_dictionary@, crate::font_directory::tag_name())
            == crate::font_directory::find_table(d, crate::font_directory::tag_name()),
{
    crate::font_directory::lemma_find_entry_is_find_table(fd, d, crate::font_directory::tag_head(), 0);
    crate::font_directory::lemma_find_entry_is_find_table(fd, d, crate::font_directory::tag_maxp(), 0);
    crate::font_directory::lemma_find_entry_is_find_table(fd, d, crate::font_directory::tag_hhea(), 0);
    crate::font_directory::lemma_find_entry_is_find_table(fd, d, crate::font_directory::tag_hmtx(), 0);
    crate::font_directory::lemma_find_entry_is_find_table(fd, d, crate::font_directory::tag_loca(), 0);
    crate::font_directory::lemma_find_entry_is_find_table(fd, d, crate::font_directory::tag_glyf(), 0);
    crate::font_directory::lemma_find_entry_is_find_table(fd, d, crate::font_directory::tag_cmap(), 0);
    crate::font_directory::lemma_find_entry_is_find_table(fd, d, crate::font_directory::tag_name(), 0);
}

} // verus!
