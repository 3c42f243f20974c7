use vstd::prelude::*;

use crate::bytes::be_u16;
use crate::error::FontError;
use crate::font_directory::TableDirectory;
use crate::reader::VecOps;

verus! {

// --- The name table layout at `noff`. ---

pub open spec fn name_format(d: Seq<u8>, noff: int) -> int {
    be_u16(d, noff)
}

pub open spec fn name_count(d: Seq<u8>, noff: int) -> int {
    be_u16(d, noff + 2)
}

pub open spec fn name_string_offset(d: Seq<u8>, noff: int) -> int {
    be_u16(d, noff + 4)
}

pub open spec fn nr_platform(d: Seq<u8>, noff: int, k: int) -> int {
    be_u16(d, noff + 6 + 12 * k)
}

pub open spec fn nr_specific(d: Seq<u8>, noff: int, k: int) -> int {
    be_u16(d, noff + 8 + 12 * k)
}

pub open spec fn nr_language(d: Seq<u8>, noff: int, k: int) -> int {
    be_u16(d, noff + 10 + 12 * k)
}

pub open spec fn nr_name_id(d: Seq<u8>, noff: int, k: int) -> int {
    be_u16(d, noff + 12 + 12 * k)
}

pub open spec fn nr_length(d: Seq<u8>, noff: int, k: int) -> int {
    be_u16(d, noff + 14 + 12 * k)
}

pub open spec fn nr_offset(d: Seq<u8>, noff: int, k: int) -> int {
    be_u16(d, noff + 16 + 12 * k)
}

/// The records whose strings are surfaced: the configured
/// platform/language pairs (Macintosh language 0, Microsoft language
/// 0x409).
pub open spec fn nr_selected(d: Seq<u8>, noff: int, k: int) -> bool {
    (nr_platform(d, noff, k) == 1 && nr_language(d, noff, k) == 0) || (nr_platform(d, noff, k) == 3
        && nr_language(d, noff, k) == 1033)
}

/// First byte of record `k`'s string value.
pub open spec fn nr_value_start(d: Seq<u8>, noff: int, k: int) -> int {
    noff + name_string_offset(d, noff) + nr_offset(d, noff, k)
}

/// Indices of the selected records from `k` on, in record order.
pub open spec fn selected_from(d: Seq<u8>, noff: int, k: int) -> Seq<int>
    decreases name_count(d, noff) - k,
{
    if k < 0 || k >= name_count(d, noff) {
        Seq::empty()
    } else if nr_selected(d, noff, k) {
        seq![k] + selected_from(d, noff, k + 1)
    } else {
        selected_from(d, noff, k + 1)
    }
}

/// One surfaced name-table string, with the record fields that locate
/// it. The value holds the raw bytes; Macintosh entries are one byte
/// per character, Microsoft entries UTF-16 big-endian.
#[derive(Debug, Clone, PartialEq, Eq)]
pub struct NameEntry {
    pub platform_id: u16,
    pub platform_specific_id: u16,
    pub language_id: u16,
    pub name_id: u16,
    pub value: Vec<u8>,
}

/// Whether `e` surfaces record `k` exactly.
pub open spec fn entry_matches_record(e: NameEntry, d: Seq<u8>, noff: int, k: int) -> bool {
    &&& e.platform_id == nr_platform(d, noff, k)
    &&& e.platform_specific_id == nr_specific(d, noff, k)
    &&& e.language_id == nr_language(d, noff, k)
    &&& e.name_id == nr_name_id(d, noff, k)
    &&& e.value@ == d.subrange(
        nr_value_start(d, noff, k),
        nr_value_start(d, noff, k) + nr_length(d, noff, k),
    )
}

/// Whether the whole name table decodes: header and records inside the
/// data, format 0, known platform ids, and every selected string
/// inside the data.
pub open spec fn name_parses(d: Seq<u8>, noff: int) -> bool {
    &&& noff + 6 + 12 * name_count(d, noff) <= d.len()
    &&& name_format(d, noff) == 0
    &&& forall|k: int| 0 <= k < name_count(d, noff) ==> #[trigger] nr_platform(d, noff, k) <= 3
    &&& forall|k: int|
        0 <= k < name_count(d, noff) && #[trigger] nr_selected(d, noff, k) ==> 0 <= nr_value_start(
            d,
            noff,
            k,
        ) + nr_length(d, noff, k) <= d.len() && nr_value_start(d, noff, k) <= u32::MAX
}

/// A numeric name id, with the human-readable meaning of the ids the
/// format defines.
#[derive(Debug, Clone, Copy, PartialEq, Eq)]
pub struct NameId(pub u16);

impl NameId {
    pub fn info(&self) -> &'static str {
        match self.0 {
            0 => "Copyright",
            1 => "Font Family",
            2 => "Font Subfamily",
            3 => "Unique subfamily identification",
            4 => "Full name of the font",
            5 => "Version of the name table",
            6 => "PostScript name",
            7 => "Trademark notice",
            8 => "Manufacturer name",
            9 => "Designer",
            10 => "Description",
            11 => "URL of the font vendor",
            12 => "URL of the font designer",
            13 => "License description",
            14 => "License information",
            _ => "other",
        }
    }
}

/// Decodes the `name` table: reads the record list and surfaces the
/// string bytes of every record with a configured platform/language
/// pair, in record order.
#[verifier::rlimit(100)]
pub fn read_name(reader: &mut VecOps, name_table: &TableDirectory) -> (r: Result<
    Vec<NameEntry>,
    FontError,
>)
    requires
        old(reader).wf(),
    ensures
        final(reader).wf(),
        final(reader).bytes() == old(reader).bytes(),
        ({
            let d = old(reader).bytes();
            let noff = name_table.offset as int;
            &&& name_parses(d, noff) ==> r is Ok
            &&& r is Ok ==> ({
                let sel = selected_from(d, noff, 0);
                r->Ok_0@.len() == sel.len() && (forall|i: int|
                    0 <= i < sel.len() ==> entry_matches_record(#[trigger] r->Ok_0@[i], d, noff, sel[i]))
            })
            &&& r is Err ==> r->Err_0 == FontError::OutOfBounds || r->Err_0
                == FontError::InvalidFont
        }),
{
    let ghost d = old(reader).bytes();
    let noff = name_table.offset;
    reader.seek_from_start(noff)?;
    let format = reader.read_u16()?;
    let count = reader.read_u16()?;
    let string_offset = reader.read_u16()?;
    if format != 0 {
        return Err(FontError::InvalidFont);
    }
    let need: u64 = noff as u64 + 6 + 12 * (count as u64);
    if need > reader.len() as u64 {
        return Err(FontError::OutOfBounds);
    }
    proof {
        reader.lemma_wf_bounds();
        assert(selected_from(d, noff as int, 0) =~= Seq::<int>::empty() + selected_from(
            d,
            noff as int,
            0,
        ));
    }
    let mut out: Vec<NameEntry> = Vec::new();
    let ghost mut prod: Seq<int> = Seq::empty();
    let mut k: usize = 0;
    while k < count as usize
        invariant
            reader.wf(),
            reader.bytes() == d,
            d == old(reader).bytes(),
            noff == name_table.offset,
            count == name_count(d, noff as int),
            string_offset == name_string_offset(d, noff as int),
            noff + 6 + 12 * count <= d.len(),
            k <= count,
            reader.pos() == noff + 6 + 12 * k,
            out@.len() == prod.len(),
            forall|i: int|
                0 <= i < prod.len() ==> entry_matches_record(
                    #[trigger] out@[i],
                    d,
                    noff as int,
                    prod[i],
                ),
            selected_from(d, noff as int, 0) =~= prod + selected_from(d, noff as int, k as int),
        decreases count - k,
    {
        let ghost k0 = k as int;
        proof {
            assert(nr_platform(d, noff as int, k0) == be_u16(d, noff + 6 + 12 * k0));
            assert(nr_language(d, noff as int, k0) == be_u16(d, noff + 10 + 12 * k0));
        }
        let platform_id = reader.read_platform_id()?;
        let platform_specific_id = reader.read_u16()?;
        let language_id = reader.read_u16()?;
        let name_id = reader.read_u16()?;
        let length = reader.read_u16()?;
        let str_off = reader.read_u16()?;
        let selected = (platform_id.is_macintosh() && language_id == 0) || (
        platform_id.is_microsoft() && language_id == 1033);
        if selected {
            let vstart: u64 = noff as u64 + string_offset as u64 + str_off as u64;
            proof {
                reader.lemma_wf_bounds();
            }
            if vstart + length as u64 > reader.len() as u64 {
                return Err(FontError::OutOfBounds);
            }
            reader.seek_from_start(vstart as u32)?;
            let value = reader.read_string(length)?;
            let entry = NameEntry {
                platform_id: if platform_id.is_macintosh() {
                    1
                } else {
                    3
                },
                platform_specific_id,
                language_id,
                name_id,
                value,
            };
            out.push(entry);
            proof {
                prod = prod.push(k0);
                assert(nr_selected(d, noff as int, k0));
                assert(selected_from(d, noff as int, k0) =~= seq![k0] + selected_from(
                    d,
                    noff as int,
                    k0 + 1,
                ));
                assert(selected_from(d, noff as int, 0) =~= prod + selected_from(
                    d,
                    noff as int,
                    k0 + 1,
                ));
                assert(entry_matches_record(out@[prod.len() - 1], d, noff as int, k0));
            }
            let back: u64 = noff as u64 + 6 + 12 * (k as u64 + 1);
            reader.seek_from_start(back as u32)?;
        } else {
            proof {
                assert(!nr_selected(d, noff as int, k0));
                assert(selected_from(d, noff as int, k0) =~= selected_from(d, noff as int, k0 + 1));
            }
        }
        k = k + 1;
    }
    Ok(out)
}

} // verus!
