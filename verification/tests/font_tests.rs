use ttf_reader::cmap_table::Segment;
use ttf_reader::error::FontError;
use ttf_reader::glyph_reader::GlyphReader;
use ttf_reader::model::{ArgumentTypes, Glyph, GlyphId, Point, PointType};
use ttf_reader::reader::VecOps;

// --- A small builder for synthetic sfnt fonts. ---

fn push_u16(v: &mut Vec<u8>, x: u16) {
    v.extend_from_slice(&x.to_be_bytes());
}

fn push_i16(v: &mut Vec<u8>, x: i16) {
    v.extend_from_slice(&x.to_be_bytes());
}

fn push_u32(v: &mut Vec<u8>, x: u32) {
    v.extend_from_slice(&x.to_be_bytes());
}

fn push_i64(v: &mut Vec<u8>, x: i64) {
    v.extend_from_slice(&x.to_be_bytes());
}

fn build_font(tables: &[([u8; 4], Vec<u8>)]) -> Vec<u8> {
    let n = tables.len() as u16;
    let mut font = Vec::new();
    push_u32(&mut font, 0x00010000);
    push_u16(&mut font, n);
    push_u16(&mut font, 0);
    push_u16(&mut font, 0);
    push_u16(&mut font, 0);
    let mut offset = 12 + 16 * tables.len() as u32;
    for (tag, data) in tables {
        font.extend_from_slice(tag);
        push_u32(&mut font, 0);
        push_u32(&mut font, offset);
        push_u32(&mut font, data.len() as u32);
        offset += data.len() as u32;
    }
    for (_, data) in tables {
        font.extend_from_slice(data);
    }
    font
}

fn head_table(index_to_loc_format: i16, bbox: (i16, i16, i16, i16)) -> Vec<u8> {
    let mut t = Vec::new();
    push_u16(&mut t, 1);
    push_u16(&mut t, 0);
    push_u16(&mut t, 1);
    push_u16(&mut t, 0);
    push_u32(&mut t, 0);
    push_u32(&mut t, 0x5F0F3CF5);
    push_u16(&mut t, 0);
    push_u16(&mut t, 1000);
    push_i64(&mut t, 0);
    push_i64(&mut t, 0);
    push_i16(&mut t, bbox.0);
    push_i16(&mut t, bbox.1);
    push_i16(&mut t, bbox.2);
    push_i16(&mut t, bbox.3);
    push_u16(&mut t, 0);
    push_u16(&mut t, 9);
    push_i16(&mut t, 0);
    push_i16(&mut t, index_to_loc_format);
    push_i16(&mut t, 0);
    assert_eq!(t.len(), 54);
    t
}

fn maxp_table(num_glyphs: u16) -> Vec<u8> {
    let mut t = Vec::new();
    push_u16(&mut t, 1);
    push_u16(&mut t, 0);
    push_u16(&mut t, num_glyphs);
    for _ in 0..13 {
        push_u16(&mut t, 0);
    }
    assert_eq!(t.len(), 32);
    t
}

fn hhea_table(num_of_long_hor_metrics: u16) -> Vec<u8> {
    let mut t = Vec::new();
    push_u16(&mut t, 1);
    push_u16(&mut t, 0);
    for _ in 0..15 {
        push_i16(&mut t, 0);
    }
    push_u16(&mut t, num_of_long_hor_metrics);
    assert_eq!(t.len(), 36);
    t
}

fn hmtx_table(long: &[(u16, i16)], tail_lsbs: &[i16]) -> Vec<u8> {
    let mut t = Vec::new();
    for (aw, lsb) in long {
        push_u16(&mut t, *aw);
        push_i16(&mut t, *lsb);
    }
    for lsb in tail_lsbs {
        push_i16(&mut t, *lsb);
    }
    t
}

fn loca_table_long(offsets: &[u32]) -> Vec<u8> {
    let mut t = Vec::new();
    for o in offsets {
        push_u32(&mut t, *o);
    }
    t
}

fn search_fields(seg_count: u16) -> (u16, u16, u16) {
    let mut entry_selector: u16 = 0;
    while (2u16 << entry_selector) <= seg_count {
        entry_selector += 1;
    }
    let search_range: u16 = 2 * (1u16 << entry_selector);
    (search_range, entry_selector, 2 * seg_count - search_range)
}

/// Segments as (start, end, delta, range_offset), sentinel included.
fn cmap_table4(segs: &[(u16, u16, u16, u16)], glyph_id_array: &[u16]) -> Vec<u8> {
    let mut t = Vec::new();
    push_u16(&mut t, 0);
    push_u16(&mut t, 1);
    push_u16(&mut t, 0);
    push_u16(&mut t, 3);
    push_u32(&mut t, 12);
    let sc = segs.len() as u16;
    let (sr, es, rs) = search_fields(sc);
    let length = 16 + 8 * sc + 2 * glyph_id_array.len() as u16;
    push_u16(&mut t, 4);
    push_u16(&mut t, length);
    push_u16(&mut t, 0);
    push_u16(&mut t, 2 * sc);
    push_u16(&mut t, sr);
    push_u16(&mut t, es);
    push_u16(&mut t, rs);
    for s in segs {
        push_u16(&mut t, s.1);
    }
    push_u16(&mut t, 0);
    for s in segs {
        push_u16(&mut t, s.0);
    }
    for s in segs {
        push_u16(&mut t, s.2);
    }
    for s in segs {
        push_u16(&mut t, s.3);
    }
    for g in glyph_id_array {
        push_u16(&mut t, *g);
    }
    t
}

/// Encodes a simple glyph; flags are run-length encoded, coordinates
/// written as full signed 16-bit deltas.
fn simple_glyph(bbox: (i16, i16, i16, i16), contours: &[Vec<(i16, i16, bool)>]) -> Vec<u8> {
    let mut t = Vec::new();
    push_i16(&mut t, contours.len() as i16);
    push_i16(&mut t, bbox.0);
    push_i16(&mut t, bbox.1);
    push_i16(&mut t, bbox.2);
    push_i16(&mut t, bbox.3);
    let mut end = 0u16;
    let mut first = true;
    for c in contours {
        end = if first { c.len() as u16 - 1 } else { end + c.len() as u16 };
        first = false;
        push_u16(&mut t, end);
    }
    push_u16(&mut t, 0); // no instructions
    let points: Vec<(i16, i16, bool)> = contours.iter().flatten().cloned().collect();
    let flags: Vec<u8> = points.iter().map(|p| if p.2 { 1u8 } else { 0u8 }).collect();
    let mut i = 0;
    while i < flags.len() {
        let mut run = 1;
        while i + run < flags.len() && flags[i + run] == flags[i] && run < 255 {
            run += 1;
        }
        if run > 1 {
            t.push(flags[i] | 0x08);
            t.push((run - 1) as u8);
        } else {
            t.push(flags[i]);
        }
        i += run;
    }
    let mut prev = 0i16;
    for p in &points {
        push_i16(&mut t, p.0.wrapping_sub(prev));
        prev = p.0;
    }
    prev = 0;
    for p in &points {
        push_i16(&mut t, p.1.wrapping_sub(prev));
        prev = p.1;
    }
    t
}

/// A whole font around one `glyf` payload placed at `glyph_id`, with
/// every earlier glyph empty.
fn font_with_glyph(
    num_glyphs: u16,
    glyph_id: u16,
    glyph_data: Vec<u8>,
    segs: &[(u16, u16, u16, u16)],
) -> Vec<u8> {
    let mut offsets = vec![0u32; num_glyphs as usize + 1];
    for g in (glyph_id + 1)..=num_glyphs {
        offsets[g as usize] = glyph_data.len() as u32;
    }
    let mut glyf = vec![0u8; 0];
    glyf.extend_from_slice(&glyph_data);
    let long: Vec<(u16, i16)> = (0..num_glyphs).map(|g| (1000 + g, g as i16)).collect();
    build_font(&[
        (*b"head", head_table(1, (0, 0, 2000, 2000))),
        (*b"maxp", maxp_table(num_glyphs)),
        (*b"hhea", hhea_table(num_glyphs)),
        (*b"hmtx", hmtx_table(&long, &[])),
        (*b"loca", loca_table_long(&offsets)),
        (*b"glyf", glyf),
        (*b"cmap", cmap_table4(segs, &[])),
    ])
}

fn on(x: i16, y: i16) -> Point {
    Point { x, y, tpe: PointType::OnCurve }
}

fn ctl(x: i16, y: i16) -> Point {
    Point { x, y, tpe: PointType::Control }
}

// --- Scenario: the notdef outline decodes with both contours. ---

#[test]
fn notdef_simple_glyph() {
    let contours = vec![
        vec![(877, 0, true), (147, 0, true), (147, 1552, true), (877, 1552, true)],
        vec![(727, 1402, true), (297, 1402, true), (297, 150, true), (727, 150, true)],
    ];
    let data = simple_glyph((147, 0, 877, 1552), &contours);
    let font = font_with_glyph(1, 0, data, &[(0xFFFF, 0xFFFF, 1, 0)]);
    let mut reader = GlyphReader::from_vec(font).unwrap();
    let glyph = reader.glyph_for_glyph_id(GlyphId::new(0)).unwrap();
    match glyph {
        Glyph::Simple { glyph_id, x_min, y_min, x_max, y_max, contours, .. } => {
            assert_eq!(glyph_id.id(), 0);
            assert_eq!(x_min.0, 147);
            assert_eq!(y_min.0, 0);
            assert_eq!(x_max.0, 877);
            assert_eq!(y_max.0, 1552);
            assert_eq!(contours.len(), 2);
            assert_eq!(
                contours[0].points,
                vec![on(877, 0), on(147, 0), on(147, 1552), on(877, 1552)]
            );
            assert_eq!(
                contours[1].points,
                vec![on(727, 1402), on(297, 1402), on(297, 150), on(727, 150)]
            );
        }
        _ => panic!("Unexpected glyph type"),
    }
}

// --- Scenario: an exclamation mark with mixed point kinds. ---

#[test]
fn exclamation_mark_glyph() {
    let contours = vec![
        vec![(529, 442, true), (483, 1552, true), (731, 1552, true), (684, 442, true)],
        vec![
            (615, -47, true),
            (556, -47, false),
            (471, 38, false),
            (471, 97, true),
            (471, 156, false),
            (556, 240, false),
            (615, 240, true),
            (673, 240, false),
            (758, 157, false),
            (758, 97, true),
            (758, 37, false),
            (672, -47, false),
        ],
    ];
    let data = simple_glyph((471, -47, 758, 1552), &contours);
    // '!' is 0x21; idDelta 65507 sends it to glyph 4 modulo 2^16.
    let font = font_with_glyph(5, 4, data, &[(0x21, 0x21, 65507, 0), (0xFFFF, 0xFFFF, 1, 0)]);
    let mut reader = GlyphReader::from_vec(font).unwrap();
    let gid = reader.char_code_to_glyph_id(b'!' as u16).unwrap();
    assert_eq!(gid.id(), 4);
    let glyph = reader.read_glyph(b'!' as u16).unwrap();
    match glyph {
        Glyph::Simple { glyph_id, x_min, y_min, x_max, y_max, contours, .. } => {
            assert_eq!(glyph_id.id(), 4);
            assert_eq!(x_min.0, 471);
            assert_eq!(x_max.0, 758);
            assert_eq!(y_min.0, -47);
            assert_eq!(y_max.0, 1552);
            assert_eq!(contours.len(), 2);
            assert_eq!(
                contours[0].points,
                vec![on(529, 442), on(483, 1552), on(731, 1552), on(684, 442)]
            );
            assert_eq!(
                contours[1].points,
                vec![
                    on(615, -47),
                    ctl(556, -47),
                    ctl(471, 38),
                    on(471, 97),
                    ctl(471, 156),
                    ctl(556, 240),
                    on(615, 240),
                    ctl(673, 240),
                    ctl(758, 157),
                    on(758, 97),
                    ctl(758, 37),
                    ctl(672, -47)
                ]
            );
        }
        _ => panic!("Unexpected glyph type"),
    }
}

// --- Scenario: an accented letter decodes as a composite. ---

#[test]
fn accented_a_composite_glyph() {
    let mut data = Vec::new();
    push_i16(&mut data, -1);
    push_i16(&mut data, 102);
    push_i16(&mut data, -31);
    push_i16(&mut data, 1118);
    push_i16(&mut data, 1552);
    // Component 1: xy args as bytes, more components follow.
    push_u16(&mut data, 0x0022);
    push_u16(&mut data, 68);
    data.push(0);
    data.push(0);
    // Component 2: xy args as words, last component.
    push_u16(&mut data, 0x0003);
    push_u16(&mut data, 141);
    push_i16(&mut data, 159);
    push_i16(&mut data, 0);
    // U+00E1 maps to glyph 105 through idDelta 65416.
    let font = font_with_glyph(106, 105, data, &[(0xE1, 0xE1, 65416, 0), (0xFFFF, 0xFFFF, 1, 0)]);
    let mut reader = GlyphReader::from_vec(font).unwrap();
    let glyph = reader.read_glyph(0xE1).unwrap();
    match glyph {
        Glyph::Composite { glyph_id, components, .. } => {
            assert_eq!(glyph_id.id(), 105);
            assert_eq!(components.len(), 2);
            let c1 = &components[0];
            let c2 = &components[1];
            assert_eq!(c1.glyph_index, 68);
            assert_eq!(c1.a, 1);
            assert_eq!(c1.b, 0);
            assert_eq!(c1.c, 0);
            assert_eq!(c1.d, 1);
            assert_eq!(c1.argument_types, ArgumentTypes::XYValue8(0, 0));
            assert_eq!(c2.glyph_index, 141);
            assert_eq!(c2.a, 1);
            assert_eq!(c2.b, 0);
            assert_eq!(c2.c, 0);
            assert_eq!(c2.d, 1);
            assert_eq!(c2.argument_types, ArgumentTypes::XYValue16(159, 0));
        }
        _ => panic!("Unexpected glyph type"),
    }
}

// --- Scenario: the medium-shade block with twelve contours. ---

#[test]
fn medium_shade_glyph() {
    let quads: Vec<Vec<(i16, i16, bool)>> = vec![
        vec![(773, 1261, true), (520, 1262, true), (521, 1553, true), (772, 1555, true)],
        vec![(252, 1262, true), (1, 1262, true), (1, 1555, true), (254, 1553, true)],
        vec![(515, 969, true), (264, 969, true), (264, 1262, true), (516, 1261, true)],
        vec![(1024, 968, true), (771, 969, true), (772, 1261, true), (1022, 1262, true)],
        vec![(773, 676, true), (520, 677, true), (521, 968, true), (772, 969, true)],
        vec![(252, 677, true), (1, 677, true), (1, 969, true), (254, 968, true)],
        vec![(515, 385, true), (264, 385, true), (264, 677, true), (516, 676, true)],
        vec![(1024, 384, true), (771, 385, true), (772, 676, true), (1022, 677, true)],
        vec![(773, 91, true), (520, 92, true), (521, 384, true), (772, 385, true)],
        vec![(252, 92, true), (1, 92, true), (1, 385, true), (254, 384, true)],
        vec![(515, -200, true), (264, -200, true), (264, 92, true), (516, 91, true)],
        vec![(1024, -202, true), (771, -200, true), (772, 91, true), (1022, 92, true)],
    ];
    let data = simple_glyph((1, -202, 1024, 1555), &quads);
    // U+2592 maps to glyph 1676 through idDelta 57594.
    let font = font_with_glyph(1677, 1676, data, &[(0x2592, 0x2592, 57594, 0), (0xFFFF, 0xFFFF, 1, 0)]);
    let mut reader = GlyphReader::from_vec(font).unwrap();
    let glyph = reader.read_glyph(0x2592).unwrap();
    match glyph {
        Glyph::Simple { glyph_id, x_min, y_min, x_max, y_max, contours, .. } => {
            assert_eq!(glyph_id.id(), 1676);
            assert_eq!(x_min.0, 1);
            assert_eq!(x_max.0, 1024);
            assert_eq!(y_min.0, -202);
            assert_eq!(y_max.0, 1555);
            assert_eq!(contours.len(), 12);
            for (ci, quad) in quads.iter().enumerate() {
                let expected: Vec<Point> = quad.iter().map(|p| on(p.0, p.1)).collect();
                assert_eq!(contours[ci].points, expected);
            }
        }
        _ => panic!("Unexpected glyph type"),
    }
}

// --- The points of all contours, concatenated, recover the list. ---

#[test]
fn contours_concatenate_to_point_list() {
    let contours = vec![
        vec![(10, 0, true), (20, 5, false), (30, 10, true)],
        vec![(-5, -5, true), (-10, -10, true)],
    ];
    let data = simple_glyph((-10, -10, 30, 10), &contours);
    let font = font_with_glyph(1, 0, data, &[(0xFFFF, 0xFFFF, 1, 0)]);
    let mut reader = GlyphReader::from_vec(font).unwrap();
    let glyph = reader.glyph_for_glyph_id(GlyphId::new(0)).unwrap();
    match glyph {
        Glyph::Simple { contours, .. } => {
            let flat: Vec<Point> = contours.iter().flat_map(|c| c.points.clone()).collect();
            assert_eq!(
                flat,
                vec![on(10, 0), ctl(20, 5), on(30, 10), on(-5, -5), on(-10, -10)]
            );
        }
        _ => panic!("Unexpected glyph type"),
    }
}

// --- A cmap modelled on a handwriting font's segments. ---

fn zeyada_like_segments() -> Vec<(u16, u16, u16, u16)> {
    let mut segs: Vec<(u16, u16, u16, u16)> = vec![
        (32, 126, 65507, 0),
        (160, 270, 65474, 0),
        (274, 290, 65471, 0),
    ];
    for i in 0..27u16 {
        let code = 1000 + 10 * i;
        segs.push((code, code, (98 + i).wrapping_sub(code), 0));
    }
    segs.push((0xFFFF, 0xFFFF, 1, 0));
    segs
}

#[test]
fn segment_enumeration() {
    let font = font_with_glyph(1677, 0, simple_glyph((0, 0, 1, 1), &[vec![(0, 0, true)]]),
        &zeyada_like_segments());
    let mut reader = GlyphReader::from_vec(font).unwrap();
    let segments = reader.cmap_table_segments().unwrap();
    assert_eq!(segments.len(), 31);
    assert_eq!(segments[0], Segment::new(0, 32, 126, 65507, 0));
    assert_eq!(segments[1], Segment::new(1, 160, 270, 65474, 0));
    assert_eq!(segments[2], Segment::new(2, 274, 290, 65471, 0));
    assert_eq!(segments[30], Segment::new(30, 65535, 65535, 1, 0));
}

#[test]
fn ascii_codes_map_in_order() {
    let font = font_with_glyph(1677, 0, simple_glyph((0, 0, 1, 1), &[vec![(0, 0, true)]]),
        &zeyada_like_segments());
    let mut reader = GlyphReader::from_vec(font).unwrap();
    // The 95 ASCII codes 32..=126 resolve to glyph ids 3..=97 in order:
    // idDelta 65507 is -29 modulo 2^16.
    let mut last = 0u16;
    for c in 32u16..=126 {
        let gid = reader.char_code_to_glyph_id(c).unwrap();
        assert_eq!(gid.id(), c - 29);
        if c > 32 {
            assert!(gid.id() > last);
        }
        last = gid.id();
    }
}

#[test]
fn uncovered_codes_resolve_to_missing_glyph() {
    let font = font_with_glyph(1677, 0, simple_glyph((0, 0, 1, 1), &[vec![(0, 0, true)]]),
        &zeyada_like_segments());
    let mut reader = GlyphReader::from_vec(font).unwrap();
    for c in [0u16, 1, 31, 127, 159, 271, 273, 291, 999, 1001, 20000, 0xFFFE] {
        assert_eq!(reader.char_code_to_glyph_id(c).unwrap().id(), 0, "code {}", c);
    }
}

#[test]
fn covered_codes_stay_below_glyph_count() {
    let font = font_with_glyph(1677, 0, simple_glyph((0, 0, 1, 1), &[vec![(0, 0, true)]]),
        &zeyada_like_segments());
    let mut reader = GlyphReader::from_vec(font).unwrap();
    let segments = reader.cmap_table_segments().unwrap();
    for s in &segments[..3] {
        for c in s.start_code..=s.end_code {
            let gid = reader.char_code_to_glyph_id(c).unwrap();
            assert!(gid.id() < 1677, "code {} gave {}", c, gid.id());
        }
    }
}

#[test]
fn all_char_codes_lists_segment_ranges() {
    let segs = vec![(32, 34, 65507, 0), (40, 41, 65500, 0), (0xFFFF, 0xFFFF, 1, 0)];
    let font = font_with_glyph(1, 0, simple_glyph((0, 0, 1, 1), &[vec![(0, 0, true)]]), &segs);
    let mut reader = GlyphReader::from_vec(font).unwrap();
    let codes = reader.all_char_codes().unwrap();
    assert_eq!(codes, vec![32, 33, 34, 40, 41, 0xFFFF]);
}

#[test]
fn id_range_offset_indirection() {
    // Segment 0 covers 40..=42 through the glyph id array: its
    // idRangeOffset points 4 bytes past its own slot, where the array
    // [7, 8, 9] begins.
    let segs = vec![(40, 42, 0, 4), (0xFFFF, 0xFFFF, 1, 0)];
    let font = font_with_glyph_and_array(10, segs);
    let mut reader = GlyphReader::from_vec(font).unwrap();
    assert_eq!(reader.char_code_to_glyph_id(40).unwrap().id(), 7);
    assert_eq!(reader.char_code_to_glyph_id(41).unwrap().id(), 8);
    assert_eq!(reader.char_code_to_glyph_id(42).unwrap().id(), 9);
    assert_eq!(reader.char_code_to_glyph_id(43).unwrap().id(), 0);
}

fn font_with_glyph_and_array(num_glyphs: u16, segs: Vec<(u16, u16, u16, u16)>) -> Vec<u8> {
    let offsets = vec![0u32; num_glyphs as usize + 1];
    let long: Vec<(u16, i16)> = (0..num_glyphs).map(|g| (1000 + g, g as i16)).collect();
    build_font(&[
        (*b"head", head_table(1, (0, 0, 2000, 2000))),
        (*b"maxp", maxp_table(num_glyphs)),
        (*b"hhea", hhea_table(num_glyphs)),
        (*b"hmtx", hmtx_table(&long, &[])),
        (*b"loca", loca_table_long(&offsets)),
        (*b"glyf", Vec::new()),
        (*b"cmap", cmap_table4(&segs, &[7, 8, 9])),
    ])
}

// --- Metrics: the hmtx tail reuses the last explicit advance. ---

#[test]
fn hmtx_tail_reuses_last_advance() {
    let offsets = vec![0u32; 5];
    let font = build_font(&[
        (*b"head", head_table(1, (0, 0, 100, 100))),
        (*b"maxp", maxp_table(4)),
        (*b"hhea", hhea_table(2)),
        (*b"hmtx", hmtx_table(&[(500, 10), (600, 20)], &[30, 40])),
        (*b"loca", loca_table_long(&offsets)),
        (*b"glyf", Vec::new()),
        (*b"cmap", cmap_table4(&[(0xFFFF, 0xFFFF, 1, 0)], &[])),
    ]);
    let mut reader = GlyphReader::from_vec(font).unwrap();
    let expect = [(500u16, 10i16), (600, 20), (600, 30), (600, 40)];
    for (g, (aw, lsb)) in expect.iter().enumerate() {
        match reader.glyph_for_glyph_id(GlyphId::new(g as u16)).unwrap() {
            Glyph::Empty { advance_width, left_side_bearing, glyph_id } => {
                assert_eq!(glyph_id.id(), g as u16);
                assert_eq!(advance_width, *aw);
                assert_eq!(left_side_bearing, *lsb);
            }
            _ => panic!("Unexpected glyph type"),
        }
    }
}

// --- Loca: equal neighbouring entries mark an empty glyph. ---

#[test]
fn equal_loca_entries_mean_empty_glyph() {
    let data = simple_glyph((0, 0, 5, 5), &[vec![(0, 0, true), (5, 5, true)]]);
    let font = font_with_glyph(3, 2, data, &[(0xFFFF, 0xFFFF, 1, 0)]);
    let mut reader = GlyphReader::from_vec(font).unwrap();
    assert!(matches!(
        reader.glyph_for_glyph_id(GlyphId::new(0)).unwrap(),
        Glyph::Empty { .. }
    ));
    assert!(matches!(
        reader.glyph_for_glyph_id(GlyphId::new(1)).unwrap(),
        Glyph::Empty { .. }
    ));
    assert!(matches!(
        reader.glyph_for_glyph_id(GlyphId::new(2)).unwrap(),
        Glyph::Simple { .. }
    ));
}

// --- The font-wide bounding box comes from head. ---

#[test]
fn bounding_box_from_head() {
    let font = font_with_glyph(1, 0, simple_glyph((0, 0, 1, 1), &[vec![(0, 0, true)]]),
        &[(0xFFFF, 0xFFFF, 1, 0)]);
    let reader = GlyphReader::from_vec(font).unwrap();
    assert_eq!(reader.bounding_box(), (0, 0, 2000, 2000));
}

// --- Error cases. ---

#[test]
fn missing_table_is_reported() {
    let font = build_font(&[
        (*b"head", head_table(1, (0, 0, 100, 100))),
        (*b"maxp", maxp_table(1)),
        (*b"hhea", hhea_table(1)),
        (*b"hmtx", hmtx_table(&[(1, 1)], &[])),
        (*b"loca", loca_table_long(&[0, 0])),
        (*b"glyf", Vec::new()),
    ]);
    match GlyphReader::from_vec(font) {
        Err(FontError::MissingTable { tag }) => assert_eq!(&tag, b"cmap"),
        other => panic!("expected MissingTable, got {:?}", other.map(|_| ())),
    }
}

#[test]
fn bad_head_magic_is_invalid() {
    let mut head = head_table(1, (0, 0, 100, 100));
    head[12] = 0;
    let font = build_font(&[
        (*b"head", head),
        (*b"maxp", maxp_table(1)),
        (*b"hhea", hhea_table(1)),
        (*b"hmtx", hmtx_table(&[(1, 1)], &[])),
        (*b"loca", loca_table_long(&[0, 0])),
        (*b"glyf", Vec::new()),
        (*b"cmap", cmap_table4(&[(0xFFFF, 0xFFFF, 1, 0)], &[])),
    ]);
    assert!(matches!(GlyphReader::from_vec(font), Err(FontError::InvalidFont)));
}

#[test]
fn bad_index_to_loc_format_is_invalid() {
    let font = build_font(&[
        (*b"head", head_table(2, (0, 0, 100, 100))),
        (*b"maxp", maxp_table(1)),
        (*b"hhea", hhea_table(1)),
        (*b"hmtx", hmtx_table(&[(1, 1)], &[])),
        (*b"loca", loca_table_long(&[0, 0])),
        (*b"glyf", Vec::new()),
        (*b"cmap", cmap_table4(&[(0xFFFF, 0xFFFF, 1, 0)], &[])),
    ]);
    assert!(matches!(GlyphReader::from_vec(font), Err(FontError::InvalidFont)));
}

#[test]
fn truncated_font_is_out_of_bounds() {
    let font = font_with_glyph(1, 0, simple_glyph((0, 0, 1, 1), &[vec![(0, 0, true)]]),
        &[(0xFFFF, 0xFFFF, 1, 0)]);
    let truncated = font[..40].to_vec();
    assert!(matches!(GlyphReader::from_vec(truncated), Err(FontError::OutOfBounds)));
}

#[test]
fn unknown_glyph_id_is_reported() {
    let font = font_with_glyph(1, 0, simple_glyph((0, 0, 1, 1), &[vec![(0, 0, true)]]),
        &[(0xFFFF, 0xFFFF, 1, 0)]);
    let mut reader = GlyphReader::from_vec(font).unwrap();
    match reader.glyph_for_glyph_id(GlyphId::new(9)) {
        Err(FontError::UnknownGlyph { id }) => assert_eq!(id, 9),
        other => panic!("expected UnknownGlyph, got {:?}", other.map(|_| ())),
    }
}

#[test]
fn unsupported_cmap_format_is_reported() {
    let mut cmap = Vec::new();
    push_u16(&mut cmap, 0);
    push_u16(&mut cmap, 1);
    push_u16(&mut cmap, 0);
    push_u16(&mut cmap, 3);
    push_u32(&mut cmap, 12);
    push_u16(&mut cmap, 6); // format 6 subtable
    push_u16(&mut cmap, 0);
    push_u16(&mut cmap, 0);
    let font = build_font(&[
        (*b"head", head_table(1, (0, 0, 100, 100))),
        (*b"maxp", maxp_table(1)),
        (*b"hhea", hhea_table(1)),
        (*b"hmtx", hmtx_table(&[(1, 1)], &[])),
        (*b"loca", loca_table_long(&[0, 0])),
        (*b"glyf", Vec::new()),
        (*b"cmap", cmap),
    ]);
    let mut reader = GlyphReader::from_vec(font).unwrap();
    assert!(matches!(
        reader.char_code_to_glyph_id(65),
        Err(FontError::UnsupportedCmapFormat { format: 6 })
    ));
}

#[test]
fn no_unicode_cmap_is_reported() {
    let mut cmap = Vec::new();
    push_u16(&mut cmap, 0);
    push_u16(&mut cmap, 1);
    push_u16(&mut cmap, 1); // Macintosh platform only
    push_u16(&mut cmap, 0);
    push_u32(&mut cmap, 12);
    let font = build_font(&[
        (*b"head", head_table(1, (0, 0, 100, 100))),
        (*b"maxp", maxp_table(1)),
        (*b"hhea", hhea_table(1)),
        (*b"hmtx", hmtx_table(&[(1, 1)], &[])),
        (*b"loca", loca_table_long(&[0, 0])),
        (*b"glyf", Vec::new()),
        (*b"cmap", cmap),
    ]);
    assert!(matches!(GlyphReader::from_vec(font), Err(FontError::NoUnicodeCmap)));
}

// --- The name table surfaces the configured strings. ---

#[test]
fn name_table_strings() {
    let mut name = Vec::new();
    push_u16(&mut name, 0); // format
    push_u16(&mut name, 2); // count
    push_u16(&mut name, 6 + 2 * 12); // stringOffset
    // Record 0: Macintosh, language 0, Font Family, "Mono" at offset 0.
    for v in [1u16, 0, 0, 1, 4, 0] {
        push_u16(&mut name, v);
    }
    // Record 1: Microsoft, language 0x409, Font Family, UTF-16 "Mo".
    for v in [3u16, 1, 1033, 1, 4, 4] {
        push_u16(&mut name, v);
    }
    name.extend_from_slice(b"Mono");
    name.extend_from_slice(&[0, b'M', 0, b'o']);
    let font = build_font(&[
        (*b"head", head_table(1, (0, 0, 100, 100))),
        (*b"maxp", maxp_table(1)),
        (*b"hhea", hhea_table(1)),
        (*b"hmtx", hmtx_table(&[(1, 1)], &[])),
        (*b"loca", loca_table_long(&[0, 0])),
        (*b"glyf", Vec::new()),
        (*b"cmap", cmap_table4(&[(0xFFFF, 0xFFFF, 1, 0)], &[])),
        (*b"name", name),
    ]);
    let mut reader = GlyphReader::from_vec(font).unwrap();
    let entries = reader.display_font_info().unwrap();
    assert_eq!(entries.len(), 2);
    assert_eq!(entries[0].platform_id, 1);
    assert_eq!(entries[0].name_id, 1);
    assert_eq!(entries[0].value, b"Mono".to_vec());
    assert_eq!(entries[1].platform_id, 3);
    assert_eq!(entries[1].language_id, 1033);
    assert_eq!(entries[1].value, vec![0, b'M', 0, b'o']);
    assert_eq!(ttf_reader::name_table::NameId(1).info(), "Font Family");
}

// --- Fields decoded from the fixed tables. ---

#[test]
fn short_loca_format_scales_by_two() {
    // Format 0: 16-bit loca entries, scaled by two.
    let data = simple_glyph((0, 0, 5, 5), &[vec![(0, 0, true), (5, 5, true)]]);
    let mut loca = Vec::new();
    push_u16(&mut loca, 0);
    push_u16(&mut loca, (data.len() / 2) as u16);
    let font = build_font(&[
        (*b"head", head_table(0, (0, 0, 100, 100))),
        (*b"maxp", maxp_table(1)),
        (*b"hhea", hhea_table(1)),
        (*b"hmtx", hmtx_table(&[(1, 1)], &[])),
        (*b"loca", loca),
        (*b"glyf", data),
        (*b"cmap", cmap_table4(&[(0xFFFF, 0xFFFF, 1, 0)], &[])),
    ]);
    let mut reader = GlyphReader::from_vec(font).unwrap();
    assert!(matches!(
        reader.glyph_for_glyph_id(GlyphId::new(0)).unwrap(),
        Glyph::Simple { .. }
    ));
}

// --- Composite components: every argument and transform encoding. ---

#[test]
fn composite_transform_encodings() {
    let mut data = Vec::new();
    push_i16(&mut data, -1);
    push_i16(&mut data, 0);
    push_i16(&mut data, 0);
    push_i16(&mut data, 100);
    push_i16(&mut data, 100);
    // Single scale, point-number arguments as bytes.
    push_u16(&mut data, 0x0028);
    push_u16(&mut data, 5);
    data.push(11);
    data.push(12);
    push_i16(&mut data, 3);
    // Separate x and y scales, point-number arguments as words.
    push_u16(&mut data, 0x0061);
    push_u16(&mut data, 6);
    push_u16(&mut data, 700);
    push_u16(&mut data, 800);
    push_i16(&mut data, 4);
    push_i16(&mut data, 5);
    // Full 2x2 matrix, xy arguments as words, last component.
    push_u16(&mut data, 0x0083);
    push_u16(&mut data, 7);
    push_i16(&mut data, -6);
    push_i16(&mut data, 9);
    push_i16(&mut data, 1);
    push_i16(&mut data, 2);
    push_i16(&mut data, 3);
    push_i16(&mut data, 4);
    let font = font_with_glyph(1, 0, data, &[(0xFFFF, 0xFFFF, 1, 0)]);
    let mut reader = GlyphReader::from_vec(font).unwrap();
    match reader.glyph_for_glyph_id(GlyphId::new(0)).unwrap() {
        Glyph::Composite { components, .. } => {
            assert_eq!(components.len(), 3);
            let c1 = &components[0];
            assert_eq!(c1.glyph_index, 5);
            assert_eq!(c1.argument_types, ArgumentTypes::Point8(11, 12));
            assert_eq!((c1.a, c1.b, c1.c, c1.d), (3, 0, 0, 3));
            let c2 = &components[1];
            assert_eq!(c2.glyph_index, 6);
            assert_eq!(c2.argument_types, ArgumentTypes::Point16(700, 800));
            assert_eq!((c2.a, c2.b, c2.c, c2.d), (4, 0, 0, 5));
            let c3 = &components[2];
            assert_eq!(c3.glyph_index, 7);
            assert_eq!(c3.argument_types, ArgumentTypes::XYValue16(-6, 9));
            assert_eq!((c3.a, c3.b, c3.c, c3.d), (1, 2, 3, 4));
        }
        _ => panic!("Unexpected glyph type"),
    }
}

// --- More long metrics than glyphs is a structural fault. ---

#[test]
fn too_many_long_metrics_is_invalid() {
    let font = build_font(&[
        (*b"head", head_table(1, (0, 0, 100, 100))),
        (*b"maxp", maxp_table(1)),
        (*b"hhea", hhea_table(3)),
        (*b"hmtx", hmtx_table(&[(1, 1), (2, 2), (3, 3)], &[])),
        (*b"loca", loca_table_long(&[0, 0])),
        (*b"glyf", Vec::new()),
        (*b"cmap", cmap_table4(&[(0xFFFF, 0xFFFF, 1, 0)], &[])),
    ]);
    assert!(matches!(GlyphReader::from_vec(font), Err(FontError::InvalidFont)));
}

// --- Decreasing contour ends are rejected, not misread. ---

#[test]
fn decreasing_contour_ends_are_invalid() {
    let mut data = Vec::new();
    push_i16(&mut data, 2);
    push_i16(&mut data, 0);
    push_i16(&mut data, 0);
    push_i16(&mut data, 10);
    push_i16(&mut data, 10);
    push_u16(&mut data, 3);
    push_u16(&mut data, 1); // ends decrease: 3 then 1
    push_u16(&mut data, 0);
    let font = font_with_glyph(1, 0, data, &[(0xFFFF, 0xFFFF, 1, 0)]);
    let mut reader = GlyphReader::from_vec(font).unwrap();
    assert!(matches!(
        reader.glyph_for_glyph_id(GlyphId::new(0)),
        Err(FontError::InvalidFont)
    ));
}

// --- A glyph body that runs past the table end. ---

#[test]
fn truncated_glyph_body_is_out_of_bounds() {
    let mut data = Vec::new();
    push_i16(&mut data, 1);
    push_i16(&mut data, 0);
    push_i16(&mut data, 0);
    push_i16(&mut data, 10);
    push_i16(&mut data, 10);
    push_u16(&mut data, 7); // eight points promised, none encoded
    push_u16(&mut data, 0);
    let font = font_with_glyph(1, 0, data, &[(0xFFFF, 0xFFFF, 1, 0)]);
    let mut reader = GlyphReader::from_vec(font).unwrap();
    assert!(matches!(
        reader.glyph_for_glyph_id(GlyphId::new(0)),
        Err(FontError::OutOfBounds)
    ));
}

// --- Short coordinate encodings decode sign and repetition. ---

#[test]
fn short_coordinate_flags_decode() {
    // Three points with hand-written flags:
    //   point 0: x short positive 7, y short negative 3
    //   point 1: x repeats, y short positive 5
    //   point 2: x short negative 2, y repeats
    let mut data = Vec::new();
    push_i16(&mut data, 1);
    push_i16(&mut data, -10);
    push_i16(&mut data, -10);
    push_i16(&mut data, 10);
    push_i16(&mut data, 10);
    push_u16(&mut data, 2);
    push_u16(&mut data, 0);
    data.push(0x17); // on_curve, x short positive, y short negative
    data.push(0x35); // on_curve, x repeats, y short positive
    data.push(0x23); // on_curve, x short negative, y repeats
    data.push(7); // x deltas: +7, (repeat), -2
    data.push(2);
    data.push(3); // y deltas: -3, +5, (repeat)
    data.push(5);
    let font = font_with_glyph(1, 0, data, &[(0xFFFF, 0xFFFF, 1, 0)]);
    let mut reader = GlyphReader::from_vec(font).unwrap();
    match reader.glyph_for_glyph_id(GlyphId::new(0)).unwrap() {
        Glyph::Simple { contours, .. } => {
            assert_eq!(contours.len(), 1);
            assert_eq!(
                contours[0].points,
                vec![on(7, -3), on(7, 2), on(5, 2)]
            );
        }
        _ => panic!("Unexpected glyph type"),
    }
}

// --- The byte cursor decodes primitives and reports overruns. ---

#[test]
fn cursor_primitive_reads() {
    let data = vec![
        0x12, 0x34, // u16
        0xFF, 0xFE, // i16 -2
        0x00, 0x01, 0x00, 0x00, // u32
        b'g', b'l', b'y', b'f', // tag
        0x80, // i8 -128
    ];
    let mut ops = VecOps::from_vec(data);
    assert_eq!(ops.read_u16().unwrap(), 0x1234);
    assert_eq!(ops.read_i16().unwrap(), -2);
    assert_eq!(ops.read_u32().unwrap(), 0x00010000);
    assert_eq!(&ops.read_table_name().unwrap(), b"glyf");
    assert_eq!(ops.read_i8().unwrap(), -128);
    assert!(matches!(ops.read_u8(), Err(FontError::OutOfBounds)));
    ops.seek_from_start(0).unwrap();
    assert_eq!(ops.read_offset(4).unwrap(), 0x0001);
    assert_eq!(ops.read_address(), 4);
    ops.seek_from_current(-4).unwrap();
    assert_eq!(ops.read_u8().unwrap(), 0x12);
    assert!(matches!(ops.seek_from_start(99), Err(FontError::OutOfBounds)));
    assert!(matches!(ops.seek_from_current(-50), Err(FontError::OutOfBounds)));
}

#[test]
fn cursor_long_date_time_and_strings() {
    let mut data = vec![0xFF, 0xFF, 0xFF, 0xFF, 0xFF, 0xFF, 0xFF, 0xFE];
    data.extend_from_slice(b"abc");
    data.extend_from_slice(&[0x00, 0x41, 0x00, 0x42]);
    let mut ops = VecOps::from_vec(data);
    assert_eq!(ops.read_long_date_time().unwrap(), -2);
    assert_eq!(ops.read_string(3).unwrap(), b"abc".to_vec());
    assert_eq!(ops.read_utf_16be(4).unwrap(), vec![0x41, 0x42]);
}
