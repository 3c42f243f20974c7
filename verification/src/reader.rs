use vstd::prelude::*;

use crate::bytes::{as_i64, be_u16, be_u32, be_u64};
use crate::error::FontError;
use crate::model::PlatformId;

verus! {

/// A byte cursor over an in-memory font: random access reads of
/// big-endian primitives, plus absolute and relative seeks.
///
/// All reads advance the position by exactly the width read; seeks
/// succeed exactly when the target lies within the byte sequence.
/// Anything else fails with `FontError::OutOfBounds`.
pub struct VecOps {
    data: Vec<u8>,
    offset: usize,
}

impl VecOps {
    /// The bytes the cursor ranges over.
    pub closed spec fn bytes(&self) -> Seq<u8> {
        self.data@
    }

    /// The current cursor position.
    pub closed spec fn pos(&self) -> int {
        self.offset as int
    }

    /// The position is inside the data and the data is addressable by
    /// the 32-bit offsets that the sfnt format uses.
    pub closed spec fn wf(&self) -> bool {
        self.offset <= self.data@.len() <= u32::MAX
    }

    /// Sfnt tables are located by 32-bit offsets, so the input may not
    /// exceed what a `u32` can address.
    pub fn from_vec(data: Vec<u8>) -> (r: VecOps)
        requires
            data@.len() <= u32::MAX,
        ensures
            r.wf(),
            r.bytes() == data@,
            r.pos() == 0,
    {
        VecOps { data, offset: 0 }
    }

    pub fn seek_from_start(&mut self, seek_from: u32) -> (r: Result<(), FontError>)
        requires
            old(self).wf(),
        ensures
            final(self).wf(),
            final(self).bytes() == old(self).bytes(),
            r is Ok ==> seek_from <= old(self).bytes().len() && final(self).pos() == seek_from,
            r is Err ==> r->Err_0 == FontError::OutOfBounds && seek_from > old(self).bytes().len()
                && *final(self) == *old(self),
    {
        if seek_from as usize <= self.data.len() {
            self.offset = seek_from as usize;
            Ok(())
        } else {
            Err(FontError::OutOfBounds)
        }
    }

    pub fn seek_from_current(&mut self, seek_from: i32) -> (r: Result<(), FontError>)
        requires
            old(self).wf(),
        ensures
            final(self).wf(),
            final(self).bytes() == old(self).bytes(),
            r is Ok ==> 0 <= old(self).pos() + seek_from <= old(self).bytes().len()
                && final(self).pos() == old(self).pos() + seek_from,
            r is Err ==> r->Err_0 == FontError::OutOfBounds && *final(self) == *old(self)
                && !(0 <= old(self).pos() + seek_from <= old(self).bytes().len()),
    {
        let target: i64 = self.offset as i64 + seek_from as i64;
        if 0 <= target && target as u64 <= self.data.len() as u64 {
            self.offset = target as usize;
            Ok(())
        } else {
            Err(FontError::OutOfBounds)
        }
    }

    /// The position always lies inside the data, which 32-bit offsets
    /// can address.
    pub proof fn lemma_wf_bounds(&self)
        requires
            self.wf(),
        ensures
            0 <= self.pos() <= self.bytes().len() <= u32::MAX,
    {
    }

    /// Decodes a 16-bit platform id; values above 3 are `InvalidFont`.
    pub fn read_platform_id(&mut self) -> (r: Result<PlatformId, FontError>)
        requires
            old(self).wf(),
        ensures
            final(self).wf(),
            final(self).bytes() == old(self).bytes(),
            r is Ok <==> old(self).pos() + 2 <= old(self).bytes().len() && be_u16(
                old(self).bytes(),
                old(self).pos(),
            ) <= 3,
            r is Ok ==> r->Ok_0.code() == be_u16(old(self).bytes(), old(self).pos())
                && final(self).pos() == old(self).pos() + 2,
            r is Err ==> (r->Err_0 == FontError::OutOfBounds <==> old(self).pos() + 2 > old(
                self,
            ).bytes().len()),
            r is Err ==> (r->Err_0 == FontError::InvalidFont <==> old(self).pos() + 2 <= old(
                self,
            ).bytes().len() && be_u16(old(self).bytes(), old(self).pos()) > 3),
    {
        let platform_id = self.read_u16()?;
        match platform_id {
            0 => Ok(PlatformId::Unicode),
            1 => Ok(PlatformId::Macintosh),
            2 => Ok(PlatformId::Reserved),
            3 => Ok(PlatformId::Microsoft),
            _ => Err(FontError::InvalidFont),
        }
    }

    /// The number of bytes the cursor ranges over.
    pub fn len(&self) -> (r: usize)
        ensures
            r == self.bytes().len(),
    {
        self.data.len()
    }

    /// The current position, as the absolute byte address in the input.
    pub fn read_address(&self) -> (r: u64)
        requires
            self.wf(),
        ensures
            r == self.pos(),
    {
        self.offset as u64
    }

    pub fn read_u8(&mut self) -> (r: Result<u8, FontError>)
        requires
            old(self).wf(),
        ensures
            final(self).wf(),
            final(self).bytes() == old(self).bytes(),
            r is Ok ==> old(self).pos() + 1 <= old(self).bytes().len()
                && r->Ok_0 == old(self).bytes()[old(self).pos()]
                && final(self).pos() == old(self).pos() + 1,
            r is Err ==> r->Err_0 == FontError::OutOfBounds
                && old(self).pos() + 1 > old(self).bytes().len() && *final(self) == *old(self),
    {
        if self.data.len() - self.offset < 1 {
            return Err(FontError::OutOfBounds);
        }
        let b = self.data[self.offset];
        self.offset = self.offset + 1;
        Ok(b)
    }

    pub fn read_u16(&mut self) -> (r: Result<u16, FontError>)
        requires
            old(self).wf(),
        ensures
            final(self).wf(),
            final(self).bytes() == old(self).bytes(),
            r is Ok ==> old(self).pos() + 2 <= old(self).bytes().len()
                && r->Ok_0 == be_u16(old(self).bytes(), old(self).pos())
                && final(self).pos() == old(self).pos() + 2,
            r is Err ==> r->Err_0 == FontError::OutOfBounds
                && old(self).pos() + 2 > old(self).bytes().len() && *final(self) == *old(self),
    {
        if self.data.len() - self.offset < 2 {
            return Err(FontError::OutOfBounds);
        }
        let b0 = self.data[self.offset];
        let b1 = self.data[self.offset + 1];
        self.offset = self.offset + 2;
        Ok((b0 as u16) * 256 + (b1 as u16))
    }

    pub fn read_u32(&mut self) -> (r: Result<u32, FontError>)
        requires
            old(self).wf(),
        ensures
            final(self).wf(),
            final(self).bytes() == old(self).bytes(),
            r is Ok ==> old(self).pos() + 4 <= old(self).bytes().len()
                && r->Ok_0 == be_u32(old(self).bytes(), old(self).pos())
                && final(self).pos() == old(self).pos() + 4,
            r is Err ==> r->Err_0 == FontError::OutOfBounds
                && old(self).pos() + 4 > old(self).bytes().len() && *final(self) == *old(self),
    {
        if self.data.len() - self.offset < 4 {
            return Err(FontError::OutOfBounds);
        }
        let b0 = self.data[self.offset];
        let b1 = self.data[self.offset + 1];
        let b2 = self.data[self.offset + 2];
        let b3 = self.data[self.offset + 3];
        self.offset = self.offset + 4;
        Ok((b0 as u32) * 0x1000000 + (b1 as u32) * 0x10000 + (b2 as u32) * 256 + (b3 as u32))
    }

    pub fn read_i8(&mut self) -> (r: Result<i8, FontError>)
        requires
            old(self).wf(),
        ensures
            final(self).wf(),
            final(self).bytes() == old(self).bytes(),
            r is Ok ==> old(self).pos() + 1 <= old(self).bytes().len()
                && r->Ok_0 == crate::bytes::as_i8(old(self).bytes()[old(self).pos()] as int)
                && final(self).pos() == old(self).pos() + 1,
            r is Err ==> r->Err_0 == FontError::OutOfBounds
                && old(self).pos() + 1 > old(self).bytes().len() && *final(self) == *old(self),
    {
        let v = self.read_u8()?;
        if v < 0x80 {
            Ok(v as i8)
        } else {
            Ok(-((0xff - v) as i8) - 1)
        }
    }

    pub fn read_i16(&mut self) -> (r: Result<i16, FontError>)
        requires
            old(self).wf(),
        ensures
            final(self).wf(),
            final(self).bytes() == old(self).bytes(),
            r is Ok ==> old(self).pos() + 2 <= old(self).bytes().len()
                && r->Ok_0 == crate::bytes::be_i16(old(self).bytes(), old(self).pos())
                && final(self).pos() == old(self).pos() + 2,
            r is Err ==> r->Err_0 == FontError::OutOfBounds
                && old(self).pos() + 2 > old(self).bytes().len() && *final(self) == *old(self),
    {
        let v = self.read_u16()?;
        if v < 0x8000 {
            Ok(v as i16)
        } else {
            Ok(-((0xffff - v) as i16) - 1)
        }
    }

    /// The `longDateTime` fields of `head`: a big-endian signed 64-bit value.
    pub fn read_long_date_time(&mut self) -> (r: Result<i64, FontError>)
        requires
            old(self).wf(),
        ensures
            final(self).wf(),
            final(self).bytes() == old(self).bytes(),
            r is Ok ==> old(self).pos() + 8 <= old(self).bytes().len()
                && r->Ok_0 == crate::bytes::be_i64(old(self).bytes(), old(self).pos())
                && final(self).pos() == old(self).pos() + 8,
            r is Err ==> r->Err_0 == FontError::OutOfBounds
                && old(self).pos() + 8 > old(self).bytes().len() && *final(self) == *old(self),
    {
        if self.data.len() - self.offset < 8 {
            return Err(FontError::OutOfBounds);
        }
        let hi = self.read_u32()?;
        let lo = self.read_u32()?;
        let v: u64 = (hi as u64) * 0x100000000 + (lo as u64);
        proof {
            assert(v == be_u64(self.bytes(), self.pos() - 8));
        }
        if v < 0x8000000000000000 {
            Ok(v as i64)
        } else {
            Ok(-((0xffffffffffffffff - v) as i64) - 1)
        }
    }

    /// A 4-byte ASCII table tag, returned as its raw bytes.
    pub fn read_table_name(&mut self) -> (r: Result<[u8; 4], FontError>)
        requires
            old(self).wf(),
        ensures
            final(self).wf(),
            final(self).bytes() == old(self).bytes(),
            r is Ok ==> old(self).pos() + 4 <= old(self).bytes().len()
                && r->Ok_0@ =~= old(self).bytes().subrange(old(self).pos(), old(self).pos() + 4)
                && final(self).pos() == old(self).pos() + 4,
            r is Err ==> r->Err_0 == FontError::OutOfBounds
                && old(self).pos() + 4 > old(self).bytes().len() && *final(self) == *old(self),
    {
        if self.data.len() - self.offset < 4 {
            return Err(FontError::OutOfBounds);
        }
        let t: [u8; 4] = [
            self.data[self.offset],
            self.data[self.offset + 1],
            self.data[self.offset + 2],
            self.data[self.offset + 3],
        ];
        self.offset = self.offset + 4;
        Ok(t)
    }

    /// Reads the `u16` that sits `offset` bytes away, leaving the cursor
    /// on that slot: the in-place probe used by the cmap search.
    pub fn read_offset(&mut self, offset: i32) -> (r: Result<u16, FontError>)
        requires
            old(self).wf(),
        ensures
            final(self).wf(),
            final(self).bytes() == old(self).bytes(),
            r is Ok ==> 0 <= old(self).pos() + offset
                && old(self).pos() + offset + 2 <= old(self).bytes().len()
                && r->Ok_0 == be_u16(old(self).bytes(), old(self).pos() + offset)
                && final(self).pos() == old(self).pos() + offset,
            r is Err ==> r->Err_0 == FontError::OutOfBounds && !(0 <= old(self).pos() + offset
                && old(self).pos() + offset + 2 <= old(self).bytes().len()),
    {
        self.seek_from_current(offset)?;
        let v = self.read_u16()?;
        self.seek_from_current(-2)?;
        Ok(v)
    }

    /// Probes an `endCode` slot `search_range` bytes away.
    pub fn read_end_code(&mut self, search_range: i32) -> (r: Result<u16, FontError>)
        requires
            old(self).wf(),
        ensures
            final(self).wf(),
            final(self).bytes() == old(self).bytes(),
            r is Ok ==> 0 <= old(self).pos() + search_range
                && old(self).pos() + search_range + 2 <= old(self).bytes().len()
                && r->Ok_0 == be_u16(old(self).bytes(), old(self).pos() + search_range)
                && final(self).pos() == old(self).pos() + search_range,
            r is Err ==> r->Err_0 == FontError::OutOfBounds && !(0 <= old(self).pos()
                + search_range && old(self).pos() + search_range + 2 <= old(self).bytes().len()),
    {
        self.read_offset(search_range)
    }

    /// From an `endCode` slot, probes the matching `startCode` slot:
    /// two bytes of reserved padding, then one array length onward.
    pub fn read_start_code(&mut self, seg_count_x2: u16) -> (r: Result<u16, FontError>)
        requires
            old(self).wf(),
        ensures
            final(self).wf(),
            final(self).bytes() == old(self).bytes(),
            r is Ok ==> old(self).pos() + seg_count_x2 + 4 <= old(self).bytes().len()
                && r->Ok_0 == be_u16(old(self).bytes(), old(self).pos() + 2 + seg_count_x2)
                && final(self).pos() == old(self).pos() + 2 + seg_count_x2,
            r is Err ==> r->Err_0 == FontError::OutOfBounds && old(self).pos() + seg_count_x2 + 4
                > old(self).bytes().len(),
    {
        self.seek_from_current(2)?;
        self.read_offset(seg_count_x2 as i32)
    }

    /// From a `startCode` slot, probes the matching `idDelta` slot.
    pub fn read_id_delta(&mut self, seg_count_x2: u16) -> (r: Result<u16, FontError>)
        requires
            old(self).wf(),
        ensures
            final(self).wf(),
            final(self).bytes() == old(self).bytes(),
            r is Ok ==> old(self).pos() + seg_count_x2 + 2 <= old(self).bytes().len()
                && r->Ok_0 == be_u16(old(self).bytes(), old(self).pos() + seg_count_x2)
                && final(self).pos() == old(self).pos() + seg_count_x2,
            r is Err ==> r->Err_0 == FontError::OutOfBounds && old(self).pos() + seg_count_x2 + 2
                > old(self).bytes().len(),
    {
        self.read_offset(seg_count_x2 as i32)
    }

    /// From an `idDelta` slot, probes the matching `idRangeOffset` slot.
    pub fn read_id_range_offset(&mut self, seg_count_x2: u16) -> (r: Result<u16, FontError>)
        requires
            old(self).wf(),
        ensures
            final(self).wf(),
            final(self).bytes() == old(self).bytes(),
            r is Ok ==> old(self).pos() + seg_count_x2 + 2 <= old(self).bytes().len()
                && r->Ok_0 == be_u16(old(self).bytes(), old(self).pos() + seg_count_x2)
                && final(self).pos() == old(self).pos() + seg_count_x2,
            r is Err ==> r->Err_0 == FontError::OutOfBounds && old(self).pos() + seg_count_x2 + 2
                > old(self).bytes().len(),
    {
        self.read_offset(seg_count_x2 as i32)
    }

    /// A run of `length` raw bytes, as used by the `name` table.
    pub fn read_string(&mut self, length: u16) -> (r: Result<Vec<u8>, FontError>)
        requires
            old(self).wf(),
        ensures
            final(self).wf(),
            final(self).bytes() == old(self).bytes(),
            r is Ok ==> old(self).pos() + length <= old(self).bytes().len()
                && r->Ok_0@ =~= old(self).bytes().subrange(
                    old(self).pos(),
                    old(self).pos() + length,
                )
                && final(self).pos() == old(self).pos() + length,
            r is Err ==> r->Err_0 == FontError::OutOfBounds
                && old(self).pos() + length > old(self).bytes().len(),
    {
        if self.data.len() - self.offset < length as usize {
            return Err(FontError::OutOfBounds);
        }
        let mut out: Vec<u8> = Vec::new();
        let mut i: usize = 0;
        while i < length as usize
            invariant
                self.wf(),
                i <= length,
                self.pos() + length <= self.bytes().len(),
                out@ =~= self.bytes().subrange(self.pos(), self.pos() + i),
            decreases length as int - i,
        {
            out.push(self.data[self.offset + i]);
            i = i + 1;
        }
        self.offset = self.offset + length as usize;
        Ok(out)
    }

    /// A run of `length` bytes read as big-endian 16-bit units, as used
    /// by the UTF-16 strings of the `name` table. A trailing odd byte
    /// is not consumed.
    pub fn read_utf_16be(&mut self, length: u16) -> (r: Result<Vec<u16>, FontError>)
        requires
            old(self).wf(),
        ensures
            final(self).wf(),
            final(self).bytes() == old(self).bytes(),
            r is Ok ==> old(self).pos() + 2 * (length / 2) <= old(self).bytes().len()
                && r->Ok_0@.len() == length / 2
                && (forall|j: int|
                    0 <= j < length / 2 ==> r->Ok_0@[j] == be_u16(
                        old(self).bytes(),
                        old(self).pos() + 2 * j,
                    ))
                && final(self).pos() == old(self).pos() + 2 * (length / 2),
            r is Err ==> r->Err_0 == FontError::OutOfBounds
                && old(self).pos() + 2 * (length / 2) > old(self).bytes().len(),
    {
        let units: usize = (length / 2) as usize;
        if (self.data.len() - self.offset) / 2 < units {
            return Err(FontError::OutOfBounds);
        }
        let mut out: Vec<u16> = Vec::new();
        let mut i: usize = 0;
        let ghost start = self.pos();
        while i < units
            invariant
                self.wf(),
                i <= units,
                self.pos() == start + 2 * i,
                start + 2 * units <= self.bytes().len(),
                self.bytes() == old(self).bytes(),
                out@.len() == i,
                forall|j: int| 0 <= j < i ==> out@[j] == be_u16(self.bytes(), start + 2 * j),
            decreases units - i,
        {
            let v = self.read_u16()?;
            out.push(v);
            i = i + 1;
        }
        Ok(out)
    }
}

} // verus!
