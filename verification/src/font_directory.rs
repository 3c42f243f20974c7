use vstd::prelude::*;

use crate::bytes::{be_u16, be_u32};
use crate::error::FontError;
use crate::reader::VecOps;

verus! {

/// Number of tables announced by the offset subtable.
pub open spec fn dir_num_tables(d: Seq<u8>) -> int {
    be_u16(d, 4)
}

/// Tag bytes of directory entry `j`.
pub open spec fn dir_entry_tag(d: Seq<u8>, j: int) -> Seq<u8> {
    d.subrange(12 + 16 * j, 12 + 16 * j + 4)
}

/// Checksum of directory entry `j`.
pub open spec fn dir_entry_checksum(d: Seq<u8>, j: int) -> int {
    be_u32(d, 12 + 16 * j + 4)
}

/// Byte offset (from the start of the font) of the table of entry `j`.
pub open spec fn dir_entry_offset(d: Seq<u8>, j: int) -> int {
    be_u32(d, 12 + 16 * j + 8)
}

/// Byte length of the table of entry `j`.
pub open spec fn dir_entry_length(d: Seq<u8>, j: int) -> int {
    be_u32(d, 12 + 16 * j + 12)
}

/// The sfnt offset subtable: the 12 bytes at the start of the file.
#[derive(Debug, Clone, Copy, PartialEq, Eq)]
pub struct OffsetSubtable {
    pub scaler_type: u32,
    pub num_tables: u16,
    pub search_range: u16,
    pub entry_selector: u16,
    pub range_shift: u16,
}

/// Whether `os` holds exactly the offset subtable encoded at the start of `d`.
pub open spec fn offset_subtable_matches(os: OffsetSubtable, d: Seq<u8>) -> bool {
    &&& os.scaler_type == be_u32(d, 0)
    &&& os.num_tables == be_u16(d, 4)
    &&& os.search_range == be_u16(d, 6)
    &&& os.entry_selector == be_u16(d, 8)
    &&& os.range_shift == be_u16(d, 10)
}

impl OffsetSubtable {
    pub fn from_file(reader: &mut VecOps) -> (r: Result<OffsetSubtable, FontError>)
        requires
            old(reader).wf(),
            old(reader).pos() == 0,
        ensures
            final(reader).wf(),
            final(reader).bytes() == old(reader).bytes(),
            r is Ok ==> 12 <= old(reader).bytes().len()
                && offset_subtable_matches(r->Ok_0, old(reader).bytes())
                && final(reader).pos() == 12,
            r is Err ==> r->Err_0 == FontError::OutOfBounds
                && old(reader).bytes().len() < 12,
    {
        let scaler_type = reader.read_u32()?;
        let num_tables = reader.read_u16()?;
        let search_range = reader.read_u16()?;
        let entry_selector = reader.read_u16()?;
        let range_shift = reader.read_u16()?;
        Ok(OffsetSubtable { scaler_type, num_tables, search_range, entry_selector, range_shift })
    }
}

/// One 16-byte table directory entry.
#[derive(Debug, Clone, Copy, PartialEq, Eq)]
pub struct TableDirectory {
    pub tag: [u8; 4],
    pub checksum: u32,
    pub offset: u32,
    pub length: u32,
}

/// Whether `e` holds exactly directory entry `j` of `d`.
pub open spec fn entry_matches(e: TableDirectory, d: Seq<u8>, j: int) -> bool {
    &&& e.tag@ == dir_entry_tag(d, j)
    &&& e.checksum == dir_entry_checksum(d, j)
    &&& e.offset == dir_entry_offset(d, j)
    &&& e.length == dir_entry_length(d, j)
}

impl TableDirectory {
    pub fn from_file(reader: &mut VecOps) -> (r: Result<TableDirectory, FontError>)
        requires
            old(reader).wf(),
        ensures
            final(reader).wf(),
            final(reader).bytes() == old(reader).bytes(),
            r is Ok ==> old(reader).pos() + 16 <= old(reader).bytes().len()
                && r->Ok_0.tag@ == old(reader).bytes().subrange(
                    old(reader).pos(),
                    old(reader).pos() + 4,
                )
                && r->Ok_0.checksum == be_u32(old(reader).bytes(), old(reader).pos() + 4)
                && r->Ok_0.offset == be_u32(old(reader).bytes(), old(reader).pos() + 8)
                && r->Ok_0.length == be_u32(old(reader).bytes(), old(reader).pos() + 12)
                && final(reader).pos() == old(reader).pos() + 16,
            r is Err ==> r->Err_0 == FontError::OutOfBounds
                && old(reader).pos() + 16 > old(reader).bytes().len(),
    {
        let tag = reader.read_table_name()?;
        let checksum = reader.read_u32()?;
        let offset = reader.read_u32()?;
        let length = reader.read_u32()?;
        Ok(TableDirectory { tag, checksum, offset, length })
    }
}

/// The parsed sfnt directory: the offset subtable and every entry.
#[derive(Debug, Clone, PartialEq, Eq)]
pub struct FontDirectory {
    pub offset_subtable: OffsetSubtable,
    pub table_dictionary: Vec<TableDirectory>,
}

/// Whether `fd` holds exactly the directory encoded at the start of `d`.
pub open spec fn directory_matches(fd: FontDirectory, d: Seq<u8>) -> bool {
    &&& 12 + 16 * dir_num_tables(d) <= d.len()
    &&& offset_subtable_matches(fd.offset_subtable, d)
    &&& fd.table_dictionary@.len() == dir_num_tables(d)
    &&& forall|j: int|
        0 <= j < dir_num_tables(d) ==> entry_matches(#[trigger] fd.table_dictionary@[j], d, j)
}

/// Index of the first entry of `entries`, from `j` on, whose tag is `tag`;
/// `entries.len()` when none is.
pub open spec fn find_entry_from(entries: Seq<TableDirectory>, tag: Seq<u8>, j: int) -> int
    decreases entries.len() - j,
{
    if j < 0 || j >= entries.len() {
        entries.len() as int
    } else if entries[j].tag@ == tag {
        j
    } else {
        find_entry_from(entries, tag, j + 1)
    }
}

pub open spec fn find_entry(entries: Seq<TableDirectory>, tag: Seq<u8>) -> int {
    find_entry_from(entries, tag, 0)
}

/// The first match is a match, no earlier entry matches, and the result
/// only escapes the range when no entry matches at all.
pub proof fn lemma_find_entry_from(entries: Seq<TableDirectory>, tag: Seq<u8>, j: int)
    requires
        0 <= j <= entries.len(),
    ensures
        j <= find_entry_from(entries, tag, j) <= entries.len(),
        find_entry_from(entries, tag, j) < entries.len() ==> entries[find_entry_from(
            entries,
            tag,
            j,
        )].tag@ == tag,
        forall|k: int| j <= k < find_entry_from(entries, tag, j) ==> entries[k].tag@ != tag,
        find_entry_from(entries, tag, j) == entries.len() ==> forall|k: int|
            j <= k < entries.len() ==> entries[k].tag@ != tag,
    decreases entries.len() - j,
{
    if j < entries.len() && entries[j].tag@ != tag {
        lemma_find_entry_from(entries, tag, j + 1);
    }
}

impl FontDirectory {
    /// Parses the offset subtable and every table directory entry; the
    /// cursor must sit at the start of the font.
    pub fn from_file(reader: &mut VecOps) -> (r: Result<FontDirectory, FontError>)
        requires
            old(reader).wf(),
            old(reader).pos() == 0,
        ensures
            final(reader).wf(),
            final(reader).bytes() == old(reader).bytes(),
            r is Ok ==> directory_matches(r->Ok_0, old(reader).bytes()),
            r is Err ==> r->Err_0 == FontError::OutOfBounds
                && 12 + 16 * dir_num_tables(old(reader).bytes()) > old(reader).bytes().len(),
    {
        let offset_subtable = OffsetSubtable::from_file(reader)?;
        let n = offset_subtable.num_tables;
        let mut table_dictionary: Vec<TableDirectory> = Vec::new();
        let mut i: usize = 0;
        while i < n as usize
            invariant
                reader.wf(),
                reader.bytes() == old(reader).bytes(),
                i <= n,
                n == dir_num_tables(old(reader).bytes()),
                reader.pos() == 12 + 16 * i,
                12 + 16 * i <= old(reader).bytes().len(),
                table_dictionary@.len() == i,
                forall|j: int|
                    0 <= j < i ==> entry_matches(
                        #[trigger] table_dictionary@[j],
                        old(reader).bytes(),
                        j,
                    ),
            decreases n - i,
        {
            let entry = TableDirectory::from_file(reader)?;
            table_dictionary.push(entry);
            i = i + 1;
        }
        Ok(FontDirectory { offset_subtable, table_dictionary })
    }

    /// Looks a table up by its 4-byte tag: the first entry with that tag,
    /// or `MissingTable` when the font has none.
    pub fn table_directory(&self, tag: &[u8; 4]) -> (r: Result<TableDirectory, FontError>)
        ensures
            ({
                let k = find_entry(self.table_dictionary@, tag@);
                &&& r is Ok ==> k < self.table_dictionary@.len() && r->Ok_0
                    == self.table_dictionary@[k]
                &&& r is Err ==> k == self.table_dictionary@.len() && r->Err_0 == (
                FontError::MissingTable { tag: *tag })
            }),
    {
        let n = self.table_dictionary.len();
        let mut i: usize = 0;
        while i < n
            invariant
                n == self.table_dictionary@.len(),
                0 <= i <= n,
                forall|k: int| 0 <= k < i ==> self.table_dictionary@[k].tag@ != tag@,
            decreases n - i,
        {
            let e = &self.table_dictionary[i];
            if tag_eq(&e.tag, tag) {
                proof {
                    lemma_find_entry_from(self.table_dictionary@, tag@, 0);
                }
                return Ok(self.table_dictionary[i]);
            }
            i = i + 1;
        }
        proof {
            lemma_find_entry_from(self.table_dictionary@, tag@, 0);
        }
        Err(FontError::MissingTable { tag: *tag })
    }
}

// --- Table lookup stated over the raw bytes. ---

/// Index of the first directory entry of `d`, from `j` on, whose tag
/// bytes are `tag`; the table count when none is.
pub open spec fn find_table_from(d: Seq<u8>, tag: Seq<u8>, j: int) -> int
    decreases dir_num_tables(d) - j,
{
    if j < 0 || j >= dir_num_tables(d) {
        dir_num_tables(d)
    } else if dir_entry_tag(d, j) == tag {
        j
    } else {
        find_table_from(d, tag, j + 1)
    }
}

pub open spec fn find_table(d: Seq<u8>, tag: Seq<u8>) -> int {
    find_table_from(d, tag, 0)
}

/// Whether the font carries a table with this tag.
pub open spec fn has_table(d: Seq<u8>, tag: Seq<u8>) -> bool {
    find_table(d, tag) < dir_num_tables(d)
}

/// Byte offset of the first table with this tag.
pub open spec fn table_offset(d: Seq<u8>, tag: Seq<u8>) -> int {
    dir_entry_offset(d, find_table(d, tag))
}

/// On a parsed directory, looking a tag up among the entries and
/// looking it up in the raw bytes find the same index.
pub proof fn lemma_find_entry_is_find_table(fd: FontDirectory, d: Seq<u8>, tag: Seq<u8>, j: int)
    requires
        directory_matches(fd, d),
        0 <= j <= dir_num_tables(d),
    ensures
        find_entry_from(fd.table_dictionary@, tag, j) == find_table_from(d, tag, j),
    decreases dir_num_tables(d) - j,
{
    if j < dir_num_tables(d) {
        assert(fd.table_dictionary@[j].tag@ == dir_entry_tag(d, j));
        lemma_find_entry_is_find_table(fd, d, tag, j + 1);
    }
}

/// The 4-byte ASCII tags of the tables the glyph reader uses.
pub open spec fn tag_head() -> Seq<u8> {
    seq![104u8, 101u8, 97u8, 100u8]
}

pub open spec fn tag_maxp() -> Seq<u8> {
    seq![109u8, 97u8, 120u8, 112u8]
}

pub open spec fn tag_hhea() -> Seq<u8> {
    seq![104u8, 104u8, 101u8, 97u8]
}

pub open spec fn tag_hmtx() -> Seq<u8> {
    seq![104u8, 109u8, 116u8, 120u8]
}

pub open spec fn tag_loca() -> Seq<u8> {
    seq![108u8, 111u8, 99u8, 97u8]
}

pub open spec fn tag_glyf() -> Seq<u8> {
    seq![103u8, 108u8, 121u8, 102u8]
}

pub open spec fn tag_cmap() -> Seq<u8> {
    seq![99u8, 109u8, 97u8, 112u8]
}

pub open spec fn tag_name() -> Seq<u8> {
    seq![110u8, 97u8, 109u8, 101u8]
}

/// Byte-wise equality of two 4-byte tags.
pub fn tag_eq(a: &[u8; 4], b: &[u8; 4]) -> (r: bool)
    ensures
        r <==> a@ == b@,
{
    let r = a[0] == b[0] && a[1] == b[1] && a[2] == b[2] && a[3] == b[3];
    proof {
        if r {
            assert(a@ =~= b@);
        }
    }
    r
}

} // verus!
