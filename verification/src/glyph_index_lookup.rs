use vstd::arithmetic::power2::{lemma2_to64, lemma_pow2_pos, lemma_pow2_unfold, pow2};
use vstd::prelude::*;

use crate::cmap_table::{cmap4_wf, f4_delta, f4_end, f4_entry_selector, f4_indirect_addr,
    f4_range_off, f4_range_slot, f4_search_range, f4_seg_count, f4_seg_count_x2, f4_start,
    first_end_ge, glyph_of, lemma_covering_is_first, lemma_first_end_ge_from, lemma_seg_order,
    segment_glyph};
use crate::error::FontError;
use crate::model::GlyphId;
use crate::reader::VecOps;

verus! {

/// The search runs against a well-formed subtable at `s` and was handed
/// the field values that the subtable actually holds.
pub open spec fn search_wf(d: Seq<u8>, s: int, scx2: u16) -> bool {
    cmap4_wf(d, s) && scx2 == f4_seg_count_x2(d, s)
}

/// Whether resolution of `c` ends inside a covering segment (rather
/// than falling back to the missing glyph).
pub open spec fn resolves_covered(d: Seq<u8>, s: int, c: int) -> bool {
    let i = first_end_ge(d, s, c);
    i < f4_seg_count(d, s) && f4_start(d, s, i) <= c
}

/// The segment arrays lie inside the data, so probing segment `p` stays
/// in bounds.
proof fn lemma_probe_in_bounds(d: Seq<u8>, s: int, p: int)
    requires
        cmap4_wf(d, s),
        0 <= p < f4_seg_count(d, s),
    ensures
        0 <= s + 14 + 2 * p,
        s + 14 + 2 * p + 2 * f4_seg_count(d, s) + 4 <= d.len(),
        s + 16 + 6 * f4_seg_count(d, s) + 2 * p + 2 <= d.len(),
{
}

/// A segment index whose `endCode` reaches `c` bounds `first_end_ge`
/// from above.
proof fn lemma_first_le(d: Seq<u8>, s: int, c: int, p: int)
    requires
        cmap4_wf(d, s),
        0 <= p < f4_seg_count(d, s),
        f4_end(d, s, p) >= c,
    ensures
        first_end_ge(d, s, c) <= p,
{
    lemma_first_end_ge_from(d, s, c, 0);
    if first_end_ge(d, s, c) > p {
        assert(f4_end(d, s, p) < c);
    }
}

/// Below a segment whose `endCode` misses `c`, resolution must look
/// higher.
proof fn lemma_first_gt(d: Seq<u8>, s: int, c: int, p: int)
    requires
        cmap4_wf(d, s),
        0 <= p < f4_seg_count(d, s),
        f4_end(d, s, p) < c,
    ensures
        first_end_ge(d, s, c) > p,
{
    lemma_first_end_ge_from(d, s, c, 0);
    let f = first_end_ge(d, s, c);
    if f <= p {
        if f < p {
            lemma_seg_order(d, s, f, p);
        }
        assert(f4_end(d, s, f) >= c);
        assert(false);
    }
}

/// Under well-formedness the sentinel guarantees a landing segment for
/// every 16-bit character code.
proof fn lemma_first_exists(d: Seq<u8>, s: int, c: int)
    requires
        cmap4_wf(d, s),
        c <= 0xFFFF,
    ensures
        0 <= first_end_ge(d, s, c) <= f4_seg_count(d, s) - 1,
        f4_end(d, s, first_end_ge(d, s, c)) >= c,
{
    lemma_first_end_ge_from(d, s, c, 0);
    let sc = f4_seg_count(d, s);
    if first_end_ge(d, s, c) == sc {
        assert(f4_end(d, s, sc - 1) < c);
    }
}

/// Resolves `char_code` against the format-4 subtable whose `endCode`
/// array begins at the cursor: the initial probe implied by
/// `searchRange`, then either the forward linear scan or the halving
/// binary search.
#[verifier::rlimit(100)]
pub fn seek_glyph_id(
    file_ops: &mut VecOps,
    seg_count_x2: u16,
    char_code: u16,
    search_range: u16,
    entry_selector: u16,
    Ghost(s): Ghost<int>,
) -> (r: Result<GlyphId, FontError>)
    requires
        old(file_ops).wf(),
        old(file_ops).pos() == s + 14,
    ensures
        final(file_ops).wf(),
        final(file_ops).bytes() == old(file_ops).bytes(),
        ({
            let d = old(file_ops).bytes();
            search_wf(d, s, seg_count_x2) && search_range == f4_search_range(d, s)
                && entry_selector == f4_entry_selector(d, s) ==> r is Ok && r->Ok_0@ == glyph_of(
                d,
                s,
                char_code as int,
            )
        }),
        r is Err ==> r->Err_0 == FontError::OutOfBounds,
{
    let ghost d = old(file_ops).bytes();
    let ghost wf = search_wf(d, s, seg_count_x2) && search_range == f4_search_range(d, s)
        && entry_selector == f4_entry_selector(d, s);
    let ghost p0: int = search_range as int / 2 - 1;
    proof {
        if wf {
            let es = f4_entry_selector(d, s) as nat;
            lemma_pow2_pos(es);
            assert(search_range == 2 * pow2(es));
            assert(p0 == pow2(es) - 1);
            assert(pow2(es) <= f4_seg_count(d, s));
            lemma_probe_in_bounds(d, s, p0);
        }
    }
    let end0 = file_ops.read_end_code(search_range as i32 - 2)?;
    if char_code > end0 {
        proof {
            if wf {
                assert forall|j: int| 0 <= j < p0 + 1 implies f4_end(d, s, j) < char_code by {
                    if j < p0 {
                        lemma_seg_order(d, s, j, p0);
                    }
                }
            }
        }
        sequential_search(file_ops, seg_count_x2, char_code, Ghost(s), Ghost(p0))
    } else {
        binary_search(
            file_ops,
            seg_count_x2,
            char_code,
            end0,
            search_range,
            entry_selector,
            Ghost(s),
            Ghost(p0),
        )
    }
}

/// The forward scan past the last binary-search landmark: advance one
/// segment at a time until an `endCode` reaches the character code,
/// then check the segment's `startCode`.
#[verifier::rlimit(100)]
fn sequential_search(
    file_ops: &mut VecOps,
    seg_count_x2: u16,
    char_code: u16,
    Ghost(s): Ghost<int>,
    Ghost(p): Ghost<int>,
) -> (r: Result<GlyphId, FontError>)
    requires
        old(file_ops).wf(),
    ensures
        final(file_ops).wf(),
        final(file_ops).bytes() == old(file_ops).bytes(),
        ({
            let d = old(file_ops).bytes();
            search_wf(d, s, seg_count_x2) && 0 <= p < f4_seg_count(d, s) && old(file_ops).pos()
                == s + 14 + 2 * p && (forall|j: int|
                0 <= j < p ==> f4_end(d, s, j) < char_code) ==> r is Ok && r->Ok_0@ == glyph_of(
                d,
                s,
                char_code as int,
            )
        }),
        r is Err ==> r->Err_0 == FontError::OutOfBounds,
{
    let ghost d = old(file_ops).bytes();
    let ghost wf = search_wf(d, s, seg_count_x2) && 0 <= p < f4_seg_count(d, s) && old(
        file_ops,
    ).pos() == s + 14 + 2 * p && (forall|j: int|
        0 <= j < p ==> f4_end(d, s, j) < char_code);
    let ghost mut q: int = p;
    loop
        invariant
            file_ops.wf(),
            file_ops.bytes() == d,
            d == old(file_ops).bytes(),
            wf == (search_wf(d, s, seg_count_x2) && 0 <= p < f4_seg_count(d, s) && old(
                file_ops,
            ).pos() == s + 14 + 2 * p && (forall|j: int|
                0 <= j < p ==> f4_end(d, s, j) < char_code)),
            wf ==> 0 <= q < f4_seg_count(d, s) && file_ops.pos() == s + 14 + 2 * q && (forall|
                j: int,
            |
                0 <= j < q ==> f4_end(d, s, j) < char_code),
        decreases d.len() - file_ops.pos(),
    {
        let next_end_code = file_ops.read_u16()?;
        if next_end_code >= char_code {
            file_ops.seek_from_current(-2)?;
            let start_code = file_ops.read_start_code(seg_count_x2)?;
            proof {
                if wf {
                    lemma_first_end_ge_from(d, s, char_code as int, 0);
                    lemma_first_le(d, s, char_code as int, q);
                    assert(first_end_ge(d, s, char_code as int) == q);
                    assert(start_code == f4_start(d, s, q));
                }
            }
            if start_code <= char_code {
                let id_delta = file_ops.read_id_delta(seg_count_x2)?;
                let id_range_offset = file_ops.read_id_range_offset(seg_count_x2)?;
                return compute_glyph_id(
                    file_ops,
                    char_code,
                    start_code,
                    id_delta,
                    id_range_offset,
                    Ghost(s),
                    Ghost(q),
                );
            } else {
                return Ok(GlyphId::new(0));
            }
        }
        if next_end_code == 0xFFFF {
            // The sentinel outcome: unreachable once `next_end_code`
            // fell below a 16-bit character code, but kept as the
            // stated stopping rule of the scan.
            return Ok(GlyphId::new(0));
        }
        proof {
            q = q + 1;
            if wf {
                lemma_first_gt(d, s, char_code as int, q - 1);
                lemma_first_exists(d, s, char_code as int);
            }
        }
    }
}

/// The halving search over the `endCode` array: probe, compare against
/// the segment bounds, then move by the halved `searchRange` until the
/// `entrySelector` budget is spent.
#[verifier::rlimit(100)]
fn binary_search(
    file_ops: &mut VecOps,
    seg_count_x2: u16,
    char_code: u16,
    end_code: u16,
    search_range: u16,
    entry_selector: u16,
    Ghost(s): Ghost<int>,
    Ghost(p0): Ghost<int>,
) -> (r: Result<GlyphId, FontError>)
    requires
        old(file_ops).wf(),
    ensures
        final(file_ops).wf(),
        final(file_ops).bytes() == old(file_ops).bytes(),
        ({
            let d = old(file_ops).bytes();
            search_wf(d, s, seg_count_x2) && search_range == f4_search_range(d, s)
                && entry_selector == f4_entry_selector(d, s) && p0 == pow2(entry_selector as nat)
                - 1 && 0 <= p0 < f4_seg_count(d, s) && old(file_ops).pos() == s + 14 + 2 * p0
                && end_code == f4_end(d, s, p0) && char_code <= end_code ==> r is Ok && r->Ok_0@
                == glyph_of(d, s, char_code as int)
        }),
        r is Err ==> r->Err_0 == FontError::OutOfBounds,
{
    let ghost d = old(file_ops).bytes();
    let ghost wf = search_wf(d, s, seg_count_x2) && search_range == f4_search_range(d, s)
        && entry_selector == f4_entry_selector(d, s) && p0 == pow2(entry_selector as nat) - 1 && 0
        <= p0 < f4_seg_count(d, s) && old(file_ops).pos() == s + 14 + 2 * p0 && end_code == f4_end(
        d,
        s,
        p0,
    ) && char_code <= end_code;
    let ghost ee: int = f4_entry_selector(d, s);
    let ghost istar: int = first_end_ge(d, s, char_code as int);
    let c = char_code;
    let mut end = end_code;
    let mut sr = search_range;
    let mut es = entry_selector;
    let ghost mut p: int = p0;
    proof {
        if wf {
            lemma_first_exists(d, s, c as int);
            lemma_first_le(d, s, c as int, p0);
        }
    }
    loop
        invariant
            file_ops.wf(),
            file_ops.bytes() == d,
            d == old(file_ops).bytes(),
            wf == (search_wf(d, s, seg_count_x2) && search_range == f4_search_range(d, s)
                && entry_selector == f4_entry_selector(d, s) && p0 == pow2(entry_selector as nat)
                - 1 && 0 <= p0 < f4_seg_count(d, s) && old(file_ops).pos() == s + 14 + 2 * p0
                && end_code == f4_end(d, s, p0) && char_code <= end_code),
            ee == f4_entry_selector(d, s),
            istar == first_end_ge(d, s, c as int),
            c == char_code,
            wf ==> ({
                &&& 0 <= p < f4_seg_count(d, s)
                &&& file_ops.pos() == s + 14 + 2 * p
                &&& end == f4_end(d, s, p)
                &&& sr == 2 * pow2(es as nat)
                &&& es <= ee
                &&& p >= pow2(es as nat) - 1
                &&& (p + pow2(es as nat) <= pow2(ee as nat) || (p == pow2(ee as nat) - 1 && es
                    == ee && c <= f4_end(d, s, p)))
                &&& p <= istar + pow2(es as nat) - 1
                &&& 0 <= istar < f4_seg_count(d, s)
                &&& f4_end(d, s, istar) >= c
                &&& (resolves_covered(d, s, c as int) ==> istar <= p + pow2(es as nat) - 1)
            }),
        decreases es,
    {
        let start_code = file_ops.read_start_code(seg_count_x2)?;
        proof {
            if wf {
                assert(start_code == f4_start(d, s, p));
            }
        }
        if start_code <= c && c <= end {
            let id_delta = file_ops.read_id_delta(seg_count_x2)?;
            let id_range_offset = file_ops.read_id_range_offset(seg_count_x2)?;
            proof {
                if wf {
                    lemma_covering_is_first(d, s, c as int, p);
                }
            }
            return compute_glyph_id(
                file_ops,
                c,
                start_code,
                id_delta,
                id_range_offset,
                Ghost(s),
                Ghost(p),
            );
        }
        if es == 0 {
            proof {
                if wf {
                    lemma2_to64();
                    assert(p <= istar && istar <= p + pow2(0) - 1 ==> istar == p);
                    if resolves_covered(d, s, c as int) {
                        assert(istar == p);
                        assert(f4_start(d, s, p) <= c);
                        assert(c <= f4_end(d, s, p));
                        assert(false);
                    }
                }
            }
            return Ok(GlyphId::new(0));
        }
        sr = sr / 2;
        es = es - 1;
        proof {
            if wf {
                lemma_pow2_unfold((es + 1) as nat);
                assert(sr == 2 * pow2(es as nat));
                lemma_pow2_pos(es as nat);
            }
        }
        file_ops.seek_from_current(-2 - seg_count_x2 as i32)?;
        if c < end {
            proof {
                if wf {
                    lemma_first_le(d, s, c as int, p);
                    // A covered landing at p would have been a hit.
                    if resolves_covered(d, s, c as int) && istar == p {
                        assert(f4_start(d, s, p) <= c);
                        assert(false);
                    }
                    p = p - pow2(es as nat);
                    lemma_probe_in_bounds(d, s, p);
                } else {
                    p = p - sr as int / 2;
                }
            }
            end = file_ops.read_end_code(-(sr as i32))?;
        } else {
            proof {
                if wf {
                    assert(f4_start(d, s, p) <= f4_end(d, s, p));
                    assert(c > f4_end(d, s, p));
                    lemma_first_gt(d, s, c as int, p);
                    p = p + pow2(es as nat);
                    lemma_probe_in_bounds(d, s, p);
                } else {
                    p = p + sr as int / 2;
                }
            }
            end = file_ops.read_end_code(sr as i32)?;
        }
    }
}

/// Computes the glyph id of the located segment, from the
/// `idRangeOffset[i]` slot the cursor sits on: the delta rule when the
/// range offset is zero, otherwise the indirect read whose address is
/// taken from the slot position itself. All additive arithmetic is
/// modulo 2^16.
fn compute_glyph_id(
    file_ops: &mut VecOps,
    char_code: u16,
    start_code: u16,
    id_delta: u16,
    id_range_offset: u16,
    Ghost(s): Ghost<int>,
    Ghost(i): Ghost<int>,
) -> (r: Result<GlyphId, FontError>)
    requires
        old(file_ops).wf(),
        start_code <= char_code,
    ensures
        final(file_ops).wf(),
        final(file_ops).bytes() == old(file_ops).bytes(),
        ({
            let d = old(file_ops).bytes();
            cmap4_wf(d, s) && 0 <= i < f4_seg_count(d, s) && old(file_ops).pos() == f4_range_slot(
                d,
                s,
                i,
            ) && start_code == f4_start(d, s, i) && id_delta == f4_delta(d, s, i)
                && id_range_offset == f4_range_off(d, s, i) && char_code <= f4_end(d, s, i)
                ==> r is Ok && r->Ok_0@ == segment_glyph(d, s, char_code as int, i)
        }),
        r is Err ==> r->Err_0 == FontError::OutOfBounds,
{
    let ghost d = old(file_ops).bytes();
    let ghost hyp = cmap4_wf(d, s) && 0 <= i < f4_seg_count(d, s) && old(file_ops).pos()
        == f4_range_slot(d, s, i) && start_code == f4_start(d, s, i) && id_delta == f4_delta(
        d,
        s,
        i,
    ) && id_range_offset == f4_range_off(d, s, i) && char_code <= f4_end(d, s, i);
    if id_range_offset > 0 {
        proof {
            file_ops.lemma_wf_bounds();
            if hyp {
                assert(f4_indirect_addr(d, s, i, char_code as int) + 2 <= d.len());
            }
        }
        let address = file_ops.read_address();
        let glyph_index_address: u64 = id_range_offset as u64 + 2 * ((char_code - start_code)
            as u64) + address;
        proof {
            if hyp {
                assert(glyph_index_address == f4_indirect_addr(d, s, i, char_code as int));
            }
        }
        if glyph_index_address > 0xffffffff {
            return Err(FontError::OutOfBounds);
        }
        file_ops.seek_from_start(glyph_index_address as u32)?;
        let glyph = file_ops.read_u16()?;
        Ok(GlyphId::new(glyph))
    } else {
        let widened: u32 = id_delta as u32 + char_code as u32;
        let glyph: u16 = (widened % 0x10000) as u16;
        Ok(GlyphId::new(glyph))
    }
}

} // verus!
