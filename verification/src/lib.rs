//! A verified reader for TrueType (sfnt) font files.
//!
//! The library decodes the binary table directory of a font, resolves
//! Unicode character codes to glyph ids through the format-4 `cmap`
//! subtable, and materialises glyph geometry (simple outlines or
//! composite components) together with horizontal metrics.

pub mod bytes;
pub mod cmap_table;
pub mod contours_reader;
pub mod error;
pub mod font_directory;
pub mod glyph_index_lookup;
pub mod glyph_reader;
pub mod head_table;
pub mod hhea_table;
pub mod htmx_table;
pub mod loca_table;
pub mod maxp_table;
pub mod model;
pub mod name_table;
pub mod reader;
