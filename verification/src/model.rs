use vstd::prelude::*;

verus! {

/// The platform of a cmap subtable record.
#[derive(Debug, Clone, Copy, PartialEq, Eq)]
pub enum PlatformId {
    Unicode,
    Macintosh,
    Reserved,
    Microsoft,
}

impl PlatformId {
    /// The numeric platform id this variant decodes.
    pub open spec fn code(self) -> int {
        match self {
            PlatformId::Unicode => 0,
            PlatformId::Macintosh => 1,
            PlatformId::Reserved => 2,
            PlatformId::Microsoft => 3,
        }
    }

    pub fn is_unicode(&self) -> (r: bool)
        ensures
            r <==> self.code() == 0,
    {
        match self {
            PlatformId::Unicode => true,
            _ => false,
        }
    }

    pub fn is_macintosh(&self) -> (r: bool)
        ensures
            r <==> self.code() == 1,
    {
        match self {
            PlatformId::Macintosh => true,
            _ => false,
        }
    }

    pub fn is_microsoft(&self) -> (r: bool)
        ensures
            r <==> self.code() == 3,
    {
        match self {
            PlatformId::Microsoft => true,
            _ => false,
        }
    }
}

/// A signed 16-bit quantity in font design units.
#[derive(Debug, Clone, Copy, PartialEq, Eq)]
pub struct FWord(pub i16);

/// An unsigned 16-bit quantity in font design units.
#[derive(Debug, Clone, Copy, PartialEq, Eq)]
pub struct UFWord(pub u16);

/// A 32-bit fixed-point value, kept as its two unsigned 16-bit halves.
#[derive(Debug, Clone, Copy, PartialEq, Eq)]
pub struct Fixed {
    pub major: u16,
    pub minor: u16,
}

/// An index into the font's glyph table; 0 is the missing-character glyph.
#[derive(Debug, Clone, Copy, PartialEq, Eq, Hash, PartialOrd, Ord)]
pub struct GlyphId(u16);

impl GlyphId {
    /// The numeric id.
    pub closed spec fn view(&self) -> u16 {
        self.0
    }

    pub fn new(id: u16) -> (r: GlyphId)
        ensures
            r@ == id,
    {
        GlyphId(id)
    }

    pub fn id(&self) -> (r: u16)
        ensures
            r == self@,
    {
        self.0
    }

    /// The glyph shown for character codes the font does not cover.
    pub fn missing_character_glyph() -> (r: GlyphId)
        ensures
            r@ == 0,
    {
        GlyphId(0)
    }
}

/// Whether a contour vertex lies on the outline or controls a curve.
#[derive(Debug, Clone, Copy, PartialEq, Eq)]
pub enum PointType {
    OnCurve,
    Control,
}

impl PointType {
    pub fn from(on_curve: bool) -> (r: PointType)
        ensures
            r == (if on_curve {
                PointType::OnCurve
            } else {
                PointType::Control
            }),
    {
        if on_curve {
            PointType::OnCurve
        } else {
            PointType::Control
        }
    }
}

/// A contour vertex in design units, relative to the glyph origin.
#[derive(Debug, Clone, Copy, PartialEq, Eq)]
pub struct Point {
    pub x: i16,
    pub y: i16,
    pub tpe: PointType,
}

impl Point {
    pub fn new(x: i16, y: i16, tpe: PointType) -> (r: Point)
        ensures
            r == (Point { x, y, tpe }),
    {
        Point { x, y, tpe }
    }
}

/// An ordered run of points; a glyph's contours partition its points.
#[derive(Debug, Clone, PartialEq, Eq)]
pub struct Contour {
    pub points: Vec<Point>,
}

impl View for Contour {
    type V = Seq<Point>;

    open spec fn view(&self) -> Seq<Point> {
        self.points@
    }
}

/// The decoded outline of a simple glyph.
#[derive(Debug, Clone, PartialEq, Eq)]
pub struct Contours {
    pub contours: Vec<Contour>,
}

/// The positioning argument of a composite-glyph component, in the four
/// encodings the format allows.
#[derive(Debug, Clone, Copy, PartialEq, Eq)]
pub enum ArgumentTypes {
    XYValue16(i16, i16),
    Point16(u16, u16),
    XYValue8(i8, i8),
    Point8(u8, u8),
}

/// One component of a composite glyph: the referenced glyph, the 2x2
/// transform `[a b; c d]`, and the positioning argument.
#[derive(Debug, Clone, Copy, PartialEq, Eq)]
pub struct ComponentData {
    pub glyph_index: u16,
    pub a: i16,
    pub b: i16,
    pub c: i16,
    pub d: i16,
    pub argument_types: ArgumentTypes,
}

/// A decoded glyph, bound to its horizontal metrics.
#[derive(Debug, Clone, PartialEq, Eq)]
pub enum Glyph {
    Empty {
        glyph_id: GlyphId,
        advance_width: u16,
        left_side_bearing: i16,
    },
    Simple {
        glyph_id: GlyphId,
        x_min: FWord,
        y_min: FWord,
        x_max: FWord,
        y_max: FWord,
        advance_width: u16,
        left_side_bearing: i16,
        contours: Vec<Contour>,
    },
    Composite {
        glyph_id: GlyphId,
        x_min: FWord,
        y_min: FWord,
        x_max: FWord,
        y_max: FWord,
        advance_width: u16,
        left_side_bearing: i16,
        components: Vec<ComponentData>,
    },
}

/// The points of every contour, in contour order: the sequence that
/// coordinate decoding produced before partitioning.
pub open spec fn flatten_contours(cs: Seq<Contour>) -> Seq<Point>
    decreases cs.len(),
{
    if cs.len() == 0 {
        Seq::empty()
    } else {
        cs[0]@ + flatten_contours(cs.drop_first())
    }
}

} // verus!
