use vstd::prelude::*;

use crate::bytes::{be_i16, be_u16, wrap_i16};
use crate::error::FontError;
use crate::model::{Contour, Contours, Point, PointType};
use crate::reader::VecOps;

verus! {

// --- The six defined bits of a simple-glyph flag byte. ---

pub open spec fn flag_on_curve(f: u8) -> bool {
    f & 0x01 == 0x01
}

pub open spec fn flag_x_short(f: u8) -> bool {
    f & 0x02 == 0x02
}

pub open spec fn flag_y_short(f: u8) -> bool {
    f & 0x04 == 0x04
}

pub open spec fn flag_repeat(f: u8) -> bool {
    f & 0x08 == 0x08
}

pub open spec fn flag_x_same(f: u8) -> bool {
    f & 0x10 == 0x10
}

pub open spec fn flag_y_same(f: u8) -> bool {
    f & 0x20 == 0x20
}

// --- The run-length-encoded flag stream. ---

/// Decodes `n` flags from `pos`: each byte is emitted once, or, when
/// its repeat bit is set, the following byte counts how many extra
/// times it is emitted. Decoding stops once `n` flags exist; a run that
/// would overshoot is truncated. Returns the flags, the end position,
/// and whether the stream stayed inside the data.
pub open spec fn decode_flags(d: Seq<u8>, pos: int, n: nat) -> (Seq<u8>, int, bool)
    decreases n,
{
    if n == 0 {
        (Seq::empty(), pos, true)
    } else if pos < 0 || pos + 1 > d.len() {
        (Seq::empty(), pos, false)
    } else {
        let f = d[pos];
        if flag_repeat(f) {
            if pos + 2 > d.len() {
                (Seq::empty(), pos, false)
            } else {
                let k = d[pos + 1] as int;
                let cnt = if k + 1 <= n {
                    (k + 1) as nat
                } else {
                    n
                };
                let rest = decode_flags(d, pos + 2, (n - cnt) as nat);
                (Seq::new(cnt, |j: int| f) + rest.0, rest.1, rest.2)
            }
        } else {
            let rest = decode_flags(d, pos + 1, (n - 1) as nat);
            (seq![f] + rest.0, rest.1, rest.2)
        }
    }
}

/// A flag stream that stays inside the data holds exactly `n` flags.
pub proof fn lemma_decode_flags_len(d: Seq<u8>, pos: int, n: nat)
    ensures
        decode_flags(d, pos, n).2 ==> decode_flags(d, pos, n).0.len() == n,
    decreases n,
{
    if n > 0 && 0 <= pos && pos + 1 <= d.len() {
        let f = d[pos];
        if flag_repeat(f) {
            if pos + 2 <= d.len() {
                let k = d[pos + 1] as int;
                let cnt = if k + 1 <= n {
                    (k + 1) as nat
                } else {
                    n
                };
                lemma_decode_flags_len(d, pos + 2, (n - cnt) as nat);
            }
        } else {
            lemma_decode_flags_len(d, pos + 1, (n - 1) as nat);
        }
    }
}

// --- The delta-compressed coordinate streams. ---

/// The integer values of a vector of coordinates.
pub open spec fn ints_of(v: Seq<i16>) -> Seq<int> {
    Seq::new(v.len(), |j: int| v[j] as int)
}

/// Decodes one delta-compressed coordinate per flag, as selected by the
/// short and same bits for this axis: a one-byte positive or negative
/// delta, a repeat of the previous value, or a two-byte signed delta.
/// Absolute values are the running sum of deltas from 0, wrapped to the
/// 16-bit signed range.
pub open spec fn coords_decode(
    d: Seq<u8>,
    pos: int,
    flags: Seq<u8>,
    short_mask: u8,
    same_mask: u8,
    prev: int,
) -> (Seq<int>, int, bool)
    decreases flags.len(),
{
    if flags.len() == 0 {
        (Seq::empty(), pos, true)
    } else {
        let f = flags[0];
        if f & short_mask == short_mask {
            if pos < 0 || pos + 1 > d.len() {
                (Seq::empty(), pos, false)
            } else {
                let delta = if f & same_mask == same_mask {
                    d[pos] as int
                } else {
                    -(d[pos] as int)
                };
                let cur = wrap_i16(prev + delta);
                let rest = coords_decode(d, pos + 1, flags.drop_first(), short_mask, same_mask, cur);
                (seq![cur] + rest.0, rest.1, rest.2)
            }
        } else if f & same_mask == same_mask {
            let rest = coords_decode(d, pos, flags.drop_first(), short_mask, same_mask, prev);
            (seq![prev] + rest.0, rest.1, rest.2)
        } else {
            if pos < 0 || pos + 2 > d.len() {
                (Seq::empty(), pos, false)
            } else {
                let cur = wrap_i16(prev + be_i16(d, pos));
                let rest = coords_decode(d, pos + 2, flags.drop_first(), short_mask, same_mask, cur);
                (seq![cur] + rest.0, rest.1, rest.2)
            }
        }
    }
}

/// A coordinate stream that stays inside the data yields one absolute
/// value per flag.
pub proof fn lemma_coords_len(
    d: Seq<u8>,
    pos: int,
    flags: Seq<u8>,
    short_mask: u8,
    same_mask: u8,
    prev: int,
)
    ensures
        coords_decode(d, pos, flags, short_mask, same_mask, prev).2 ==> coords_decode(
            d,
            pos,
            flags,
            short_mask,
            same_mask,
            prev,
        ).0.len() == flags.len(),
    decreases flags.len(),
{
    if flags.len() > 0 {
        let f = flags[0];
        if f & short_mask == short_mask {
            if 0 <= pos && pos + 1 <= d.len() {
                let delta = if f & same_mask == same_mask {
                    d[pos] as int
                } else {
                    -(d[pos] as int)
                };
                lemma_coords_len(
                    d,
                    pos + 1,
                    flags.drop_first(),
                    short_mask,
                    same_mask,
                    wrap_i16(prev + delta),
                );
            }
        } else if f & same_mask == same_mask {
            lemma_coords_len(d, pos, flags.drop_first(), short_mask, same_mask, prev);
        } else {
            if 0 <= pos && pos + 2 <= d.len() {
                lemma_coords_len(
                    d,
                    pos + 2,
                    flags.drop_first(),
                    short_mask,
                    same_mask,
                    wrap_i16(prev + be_i16(d, pos)),
                );
            }
        }
    }
}

// --- Points and their partition into contours. ---

/// Zips the two coordinate streams with the flag stream into points.
pub open spec fn make_points(xs: Seq<int>, ys: Seq<int>, flags: Seq<u8>) -> Seq<Point> {
    Seq::new(
        flags.len(),
        |i: int|
            Point {
                x: xs[i] as i16,
                y: ys[i] as i16,
                tpe: if flag_on_curve(flags[i]) {
                    PointType::OnCurve
                } else {
                    PointType::Control
                },
            },
    )
}

/// First point index of contour `i`: 0 for the first contour, one past
/// the previous contour's last point otherwise.
pub open spec fn contour_start(ends: Seq<int>, i: int) -> int {
    if i == 0 {
        0
    } else {
        ends[i - 1] + 1
    }
}

/// The `endPtsOfContours` array never decreases and its last entry is
/// the index of the last point.
pub open spec fn ends_wf(ends: Seq<int>, n_points: int) -> bool {
    &&& forall|i: int| 0 <= i < ends.len() ==> 0 <= #[trigger] ends[i] < n_points
    &&& forall|i: int| 1 <= i < ends.len() ==> #[trigger] ends[i - 1] <= ends[i]
    &&& ends.len() >= 1 ==> ends[ends.len() - 1] + 1 == n_points
    &&& ends.len() == 0 ==> n_points == 0
}

/// Whether `cs` partitions `points` along `ends`: contour `i` holds the
/// points from its start through `ends[i]`, inclusive.
pub open spec fn contours_partition(cs: Seq<Contour>, points: Seq<Point>, ends: Seq<int>) -> bool {
    &&& cs.len() == ends.len()
    &&& forall|i: int|
        0 <= i < cs.len() ==> (#[trigger] cs[i])@ == points.subrange(
            contour_start(ends, i),
            ends[i] + 1,
        )
}

proof fn lemma_contours_concat_from(cs: Seq<Contour>, points: Seq<Point>, ends: Seq<int>, k: int)
    requires
        0 <= k <= ends.len(),
        ends_wf(ends, points.len() as int),
        contours_partition(cs, points, ends),
    ensures
        crate::model::flatten_contours(cs.skip(k)) =~= points.subrange(
            contour_start(ends.push(points.len() as int - 1), k),
            points.len() as int,
        ),
    decreases ends.len() - k,
{
    let from = contour_start(ends.push(points.len() as int - 1), k);
    if k == ends.len() {
        assert(from == points.len());
        assert(cs.skip(k) =~= Seq::<Contour>::empty());
    } else {
        lemma_contours_concat_from(cs, points, ends, k + 1);
        assert(cs.skip(k).drop_first() =~= cs.skip(k + 1));
        assert(cs.skip(k)[0] == cs[k]);
        assert(cs[k]@ == points.subrange(contour_start(ends, k), ends[k] + 1));
        assert(from == contour_start(ends, k));
        assert(contour_start(ends.push(points.len() as int - 1), k + 1) == ends[k] + 1);
        assert(points.subrange(from, ends[k] + 1) + points.subrange(
            ends[k] + 1,
            points.len() as int,
        ) =~= points.subrange(from, points.len() as int));
    }
}

/// Concatenating the points of all contours, in order, recovers the
/// decoded point list exactly.
pub proof fn lemma_contours_concat(cs: Seq<Contour>, points: Seq<Point>, ends: Seq<int>)
    requires
        ends_wf(ends, points.len() as int),
        contours_partition(cs, points, ends),
    ensures
        crate::model::flatten_contours(cs) =~= points,
{
    lemma_contours_concat_from(cs, points, ends, 0);
    assert(cs.skip(0) =~= cs);
    assert(points.subrange(0, points.len() as int) =~= points);
}

// --- The denotation of a simple glyph body at `pos0`. ---

/// The `endPtsOfContours` array: one point index per contour.
pub open spec fn simple_ends(d: Seq<u8>, pos0: int, nc: int) -> Seq<int> {
    Seq::new(nc as nat, |i: int| be_u16(d, pos0 + 2 * i))
}

/// Whether the contour end indices never decrease.
pub open spec fn simple_monotone(d: Seq<u8>, pos0: int, nc: int) -> bool {
    forall|i: int|
        1 <= i < nc ==> simple_ends(d, pos0, nc)[i - 1] <= #[trigger] simple_ends(d, pos0, nc)[i]
}

/// Total point count: one past the last contour's end index.
pub open spec fn simple_npoints(d: Seq<u8>, pos0: int, nc: int) -> nat {
    if nc == 0 {
        0
    } else {
        (simple_ends(d, pos0, nc)[nc - 1] + 1) as nat
    }
}

/// Byte position of the flag stream: past the end indices, the
/// instruction length, and the skipped instructions.
pub open spec fn simple_flags_pos(d: Seq<u8>, pos0: int, nc: int) -> int {
    pos0 + 2 * nc + 2 + be_u16(d, pos0 + 2 * nc)
}

pub open spec fn simple_flags(d: Seq<u8>, pos0: int, nc: int) -> (Seq<u8>, int, bool) {
    decode_flags(d, simple_flags_pos(d, pos0, nc), simple_npoints(d, pos0, nc))
}

pub open spec fn simple_xs(d: Seq<u8>, pos0: int, nc: int) -> (Seq<int>, int, bool) {
    let fl = simple_flags(d, pos0, nc);
    coords_decode(d, fl.1, fl.0, 0x02, 0x10, 0)
}

pub open spec fn simple_ys(d: Seq<u8>, pos0: int, nc: int) -> (Seq<int>, int, bool) {
    let fl = simple_flags(d, pos0, nc);
    let xs = simple_xs(d, pos0, nc);
    coords_decode(d, xs.1, fl.0, 0x04, 0x20, 0)
}

/// Whether the whole simple-glyph body decodes inside the data with
/// non-decreasing contour ends.
pub open spec fn simple_ok(d: Seq<u8>, pos0: int, nc: int) -> bool {
    &&& pos0 + 2 * nc + 2 <= d.len()
    &&& simple_monotone(d, pos0, nc)
    &&& simple_flags_pos(d, pos0, nc) <= d.len()
    &&& simple_flags(d, pos0, nc).2
    &&& simple_xs(d, pos0, nc).2
    &&& simple_ys(d, pos0, nc).2
}

/// The decoded point list of the glyph.
pub open spec fn simple_points(d: Seq<u8>, pos0: int, nc: int) -> Seq<Point> {
    make_points(simple_xs(d, pos0, nc).0, simple_ys(d, pos0, nc).0, simple_flags(d, pos0, nc).0)
}

/// The cursor position after the whole body.
pub open spec fn simple_end_pos(d: Seq<u8>, pos0: int, nc: int) -> int {
    simple_ys(d, pos0, nc).1
}

/// Non-decreasing contour ends compare transitively.
proof fn lemma_ends_chain(d: Seq<u8>, pos0: int, nc: int, i: int, j: int)
    requires
        simple_monotone(d, pos0, nc),
        0 <= i <= j < nc,
    ensures
        simple_ends(d, pos0, nc)[i] <= simple_ends(d, pos0, nc)[j],
    decreases j - i,
{
    if i < j {
        lemma_ends_chain(d, pos0, nc, i, j - 1);
    }
}

// --- The executable decoder. ---

/// Reads the run-length-encoded flag stream: `n` flags, one byte each,
/// with repeat counts expanded (and truncated at the point budget).
fn mk_contour_flags(file_ops: &mut VecOps, n: usize, Ghost(d): Ghost<Seq<u8>>) -> (r: Result<
    Vec<u8>,
    FontError,
>)
    requires
        old(file_ops).wf(),
        old(file_ops).bytes() == d,
        n <= 0x10000,
    ensures
        final(file_ops).wf(),
        final(file_ops).bytes() == d,
        ({
            let full = decode_flags(d, old(file_ops).pos(), n as nat);
            &&& r is Ok <==> full.2
            &&& r is Ok ==> r->Ok_0@ == full.0 && final(file_ops).pos() == full.1
            &&& r is Err ==> r->Err_0 == FontError::OutOfBounds
        }),
{
    let ghost pos0 = old(file_ops).pos();
    let ghost full = decode_flags(d, pos0, n as nat);
    let mut flags: Vec<u8> = Vec::new();
    while flags.len() < n
        invariant
            file_ops.wf(),
            file_ops.bytes() == d,
            d == old(file_ops).bytes(),
            pos0 == old(file_ops).pos(),
            full == decode_flags(d, pos0, n as nat),
            flags@.len() <= n,
            ({
                let rem = (n - flags@.len()) as nat;
                let tail = decode_flags(d, file_ops.pos(), rem);
                &&& full.0 == flags@ + tail.0
                &&& full.1 == tail.1
                &&& full.2 == tail.2
            }),
        decreases n - flags.len(),
    {
        let ghost rem = (n - flags@.len()) as nat;
        let ghost cur = file_ops.pos();
        proof {
            file_ops.lemma_wf_bounds();
        }
        let control_points = match file_ops.read_u8() {
            Ok(v) => v,
            Err(_) => {
                proof {
                    assert(!decode_flags(d, cur, rem).2);
                }
                return Err(FontError::OutOfBounds);
            },
        };
        if control_points & 0x08 == 0x08 {
            let repeat_times = match file_ops.read_u8() {
                Ok(v) => v,
                Err(_) => {
                    proof {
                        assert(!decode_flags(d, cur, rem).2);
                    }
                    return Err(FontError::OutOfBounds);
                },
            };
            let remaining = n - flags.len();
            let cnt: usize = if (repeat_times as usize) + 1 <= remaining {
                repeat_times as usize + 1
            } else {
                remaining
            };
            let ghost flags_before = flags@;
            let mut j: usize = 0;
            while j < cnt
                invariant
                    j <= cnt,
                    flags@ == flags_before + Seq::new(j as nat, |x: int| control_points),
                decreases cnt - j,
            {
                flags.push(control_points);
                proof {
                    assert(flags@ =~= flags_before + Seq::new((j + 1) as nat, |x: int|
                        control_points));
                }
                j = j + 1;
            }
            proof {
                let tail = decode_flags(d, cur, rem);
                let newtail = decode_flags(d, cur + 2, (rem - cnt) as nat);
                assert(tail.0 =~= Seq::new(cnt as nat, |x: int| control_points) + newtail.0);
                assert(full.0 =~= flags@ + newtail.0);
            }
        } else {
            let ghost flags_before = flags@;
            flags.push(control_points);
            proof {
                let tail = decode_flags(d, cur, rem);
                let newtail = decode_flags(d, cur + 1, (rem - 1) as nat);
                assert(tail.0 =~= seq![control_points] + newtail.0);
                assert(full.0 =~= flags@ + newtail.0);
            }
        }
    }
    proof {
        assert(full.0 =~= flags@);
    }
    Ok(flags)
}

/// Reads one axis of delta-compressed coordinates, one value per flag,
/// accumulating the running sum (wrapping on 16-bit overflow).
fn read_coordinates(
    file_ops: &mut VecOps,
    flags: &Vec<u8>,
    short_mask: u8,
    same_mask: u8,
    Ghost(d): Ghost<Seq<u8>>,
) -> (r: Result<Vec<i16>, FontError>)
    requires
        old(file_ops).wf(),
        old(file_ops).bytes() == d,
    ensures
        final(file_ops).wf(),
        final(file_ops).bytes() == d,
        ({
            let full = coords_decode(d, old(file_ops).pos(), flags@, short_mask, same_mask, 0);
            &&& r is Ok <==> full.2
            &&& r is Ok ==> ints_of(r->Ok_0@) == full.0 && final(file_ops).pos() == full.1
            &&& r is Err ==> r->Err_0 == FontError::OutOfBounds
        }),
{
    let ghost pos0 = old(file_ops).pos();
    let ghost full = coords_decode(d, pos0, flags@, short_mask, same_mask, 0);
    let mut coordinates: Vec<i16> = Vec::new();
    let mut last_elem: i16 = 0;
    let mut i: usize = 0;
    proof {
        assert(flags@.skip(0) =~= flags@);
        assert(ints_of(coordinates@) =~= Seq::<int>::empty());
        assert(full.0 =~= ints_of(coordinates@) + full.0);
    }
    while i < flags.len()
        invariant
            file_ops.wf(),
            file_ops.bytes() == d,
            d == old(file_ops).bytes(),
            pos0 == old(file_ops).pos(),
            full == coords_decode(d, pos0, flags@, short_mask, same_mask, 0),
            i <= flags@.len(),
            coordinates@.len() == i,
            ({
                let tail = coords_decode(
                    d,
                    file_ops.pos(),
                    flags@.skip(i as int),
                    short_mask,
                    same_mask,
                    last_elem as int,
                );
                &&& full.0 == ints_of(coordinates@) + tail.0
                &&& full.1 == tail.1
                &&& full.2 == tail.2
            }),
        decreases flags.len() - i,
    {
        let ghost cur = file_ops.pos();
        let ghost rest_flags = flags@.skip(i as int);
        proof {
            file_ops.lemma_wf_bounds();
            assert(rest_flags[0] == flags@[i as int]);
            assert(rest_flags.drop_first() =~= flags@.skip(i as int + 1));
        }
        let contour_flag = flags[i];
        let coordinate: i16;
        if contour_flag & short_mask == short_mask {
            let b = match file_ops.read_u8() {
                Ok(v) => v,
                Err(_) => {
                    return Err(FontError::OutOfBounds);
                },
            };
            let delta: i16 = if contour_flag & same_mask == same_mask {
                b as i16
            } else {
                -(b as i16)
            };
            coordinate = last_elem.wrapping_add(delta);
            proof {
                assert(coordinate == wrap_i16(last_elem + delta));
            }
        } else if contour_flag & same_mask == same_mask {
            coordinate = last_elem;
        } else {
            let w = match file_ops.read_i16() {
                Ok(v) => v,
                Err(_) => {
                    return Err(FontError::OutOfBounds);
                },
            };
            coordinate = last_elem.wrapping_add(w);
            proof {
                assert(coordinate == wrap_i16(last_elem + w));
            }
        }
        let ghost coords_before = coordinates@;
        let ghost prev_before = last_elem;
        coordinates.push(coordinate);
        last_elem = coordinate;
        i = i + 1;
        proof {
            let tail = coords_decode(d, cur, rest_flags, short_mask, same_mask, prev_before as int);
            let newtail = coords_decode(
                d,
                file_ops.pos(),
                flags@.skip(i as int),
                short_mask,
                same_mask,
                coordinate as int,
            );
            assert(tail.0 =~= seq![coordinate as int] + newtail.0);
            assert(ints_of(coordinates@) =~= ints_of(coords_before) + seq![coordinate as int]);
            assert(full.0 =~= ints_of(coordinates@) + newtail.0);
        }
    }
    proof {
        assert(flags@.skip(flags@.len() as int) =~= Seq::<u8>::empty());
        assert(full.0 =~= ints_of(coordinates@));
    }
    Ok(coordinates)
}

/// The integer values of the contour end indices.
pub open spec fn ends_ints(v: Seq<u16>) -> Seq<int> {
    Seq::new(v.len(), |j: int| v[j] as int)
}

/// Whether the end indices never decrease.
fn ends_monotone(end_pts: &Vec<u16>) -> (r: bool)
    ensures
        r <==> (forall|j: int|
            1 <= j < end_pts@.len() ==> end_pts@[j - 1] <= #[trigger] end_pts@[j]),
{
    let mut k: usize = 1;
    while k < end_pts.len()
        invariant
            1 <= k,
            k <= end_pts@.len() || end_pts@.len() < 1,
            forall|j: int| 1 <= j < k ==> end_pts@[j - 1] <= #[trigger] end_pts@[j],
        decreases end_pts@.len() - k,
    {
        if end_pts[k - 1] > end_pts[k] {
            return false;
        }
        k = k + 1;
    }
    true
}

/// Zips the coordinate streams with the flag stream into points.
fn build_points(flags: &Vec<u8>, xs: &Vec<i16>, ys: &Vec<i16>) -> (r: Vec<Point>)
    requires
        flags@.len() == xs@.len(),
        flags@.len() == ys@.len(),
    ensures
        r@ == make_points(ints_of(xs@), ints_of(ys@), flags@),
{
    let ghost target = make_points(ints_of(xs@), ints_of(ys@), flags@);
    let mut points: Vec<Point> = Vec::new();
    let mut pi: usize = 0;
    while pi < flags.len()
        invariant
            target == make_points(ints_of(xs@), ints_of(ys@), flags@),
            flags@.len() == xs@.len(),
            flags@.len() == ys@.len(),
            pi <= flags@.len(),
            points@.len() == pi,
            forall|j: int| 0 <= j < pi ==> points@[j] == target[j],
        decreases flags@.len() - pi,
    {
        let on_curve = flags[pi] & 0x01 == 0x01;
        points.push(Point::new(xs[pi], ys[pi], PointType::from(on_curve)));
        proof {
            assert(ints_of(xs@)[pi as int] == xs@[pi as int]);
            assert(ints_of(ys@)[pi as int] == ys@[pi as int]);
            assert(points@[pi as int] == target[pi as int]);
        }
        pi = pi + 1;
    }
    proof {
        assert(points@ =~= target);
    }
    points
}

/// Partitions the point list along the end indices: contour 0 holds
/// the first `e0 + 1` points, contour `i` the next `ei - e(i-1)`.
fn split_contours(points: &Vec<Point>, end_pts: &Vec<u16>) -> (r: Vec<Contour>)
    requires
        forall|j: int| 1 <= j < end_pts@.len() ==> end_pts@[j - 1] <= #[trigger] end_pts@[j],
        end_pts@.len() >= 1 ==> end_pts@[end_pts@.len() - 1] + 1 == points@.len(),
    ensures
        r@.len() == end_pts@.len(),
        contours_partition(r@, points@, ends_ints(end_pts@)),
{
    let ghost ends = ends_ints(end_pts@);
    let nc = end_pts.len();
    let mut contours: Vec<Contour> = Vec::new();
    let mut ci: usize = 0;
    while ci < nc
        invariant
            ends == ends_ints(end_pts@),
            nc == end_pts@.len(),
            forall|j: int| 1 <= j < nc ==> end_pts@[j - 1] <= #[trigger] end_pts@[j],
            nc >= 1 ==> end_pts@[nc - 1] + 1 == points@.len(),
            ci <= nc,
            contours@.len() == ci,
            forall|j: int|
                0 <= j < ci ==> (#[trigger] contours@[j])@ == points@.subrange(
                    contour_start(ends, j),
                    ends[j] + 1,
                ),
        decreases nc - ci,
    {
        proof {
            lemma_u16_ends_chain(end_pts@, ci as int, nc as int - 1);
        }
        let start: usize = if ci == 0 {
            0
        } else {
            end_pts[ci - 1] as usize + 1
        };
        let stop: usize = end_pts[ci] as usize + 1;
        let mut contour_points: Vec<Point> = Vec::new();
        let mut pj: usize = start;
        while pj < stop
            invariant
                start <= pj <= stop <= points@.len(),
                contour_points@ =~= points@.subrange(start as int, pj as int),
            decreases stop - pj,
        {
            contour_points.push(points[pj]);
            pj = pj + 1;
        }
        contours.push(Contour { points: contour_points });
        ci = ci + 1;
    }
    contours
}

/// Non-decreasing end indices compare transitively.
proof fn lemma_u16_ends_chain(v: Seq<u16>, i: int, j: int)
    requires
        forall|k: int| 1 <= k < v.len() ==> v[k - 1] <= #[trigger] v[k],
        0 <= i <= j < v.len(),
    ensures
        v[i] <= v[j],
    decreases j - i,
{
    if i < j {
        lemma_u16_ends_chain(v, i, j - 1);
    }
}

/// Decodes the body of a non-empty simple glyph, with the cursor just
/// past the 10-byte glyph header: the contour end indices, the skipped
/// instruction run, the flag stream, the two coordinate streams, and
/// the partition of the points into contours (contour 0 holds the
/// first `e0 + 1` points, contour `i` the next `ei - e(i-1)`).
/// Decreasing contour ends are `InvalidFont`.
#[verifier::rlimit(100)]
pub fn read_contours(file_ops: &mut VecOps, number_of_contours: i16) -> (r: Result<
    Contours,
    FontError,
>)
    requires
        old(file_ops).wf(),
        number_of_contours >= 0,
    ensures
        final(file_ops).wf(),
        final(file_ops).bytes() == old(file_ops).bytes(),
        ({
            let d = old(file_ops).bytes();
            let pos0 = old(file_ops).pos();
            let nc = number_of_contours as int;
            &&& r is Ok <==> simple_ok(d, pos0, nc)
            &&& r is Ok ==> r->Ok_0.contours@.len() == nc && contours_partition(
                r->Ok_0.contours@,
                simple_points(d, pos0, nc),
                simple_ends(d, pos0, nc),
            ) && ends_wf(simple_ends(d, pos0, nc), simple_points(d, pos0, nc).len() as int)
                && final(file_ops).pos() == simple_end_pos(d, pos0, nc)
            &&& r is Err ==> (r->Err_0 == FontError::InvalidFont <==> pos0 + 2 * nc <= d.len()
                && !simple_monotone(d, pos0, nc))
            &&& r is Err ==> r->Err_0 == FontError::InvalidFont || r->Err_0
                == FontError::OutOfBounds
        }),
{
    let ghost d = old(file_ops).bytes();
    let ghost pos0 = old(file_ops).pos();
    let ghost ends = simple_ends(d, pos0, number_of_contours as int);
    proof {
        file_ops.lemma_wf_bounds();
    }
    let nc = number_of_contours as usize;
    let mut end_pts_of_contours: Vec<u16> = Vec::new();
    let mut i: usize = 0;
    while i < nc
        invariant
            file_ops.wf(),
            file_ops.bytes() == d,
            d == old(file_ops).bytes(),
            pos0 == old(file_ops).pos(),
            nc == number_of_contours as int,
            ends == simple_ends(d, pos0, nc as int),
            i <= nc,
            file_ops.pos() == pos0 + 2 * i,
            end_pts_of_contours@.len() == i,
            forall|j: int| 0 <= j < i ==> end_pts_of_contours@[j] == ends[j],
        decreases nc - i,
    {
        let v = file_ops.read_u16()?;
        end_pts_of_contours.push(v);
        i = i + 1;
    }
    proof {
        file_ops.lemma_wf_bounds();
    }
    if !ends_monotone(&end_pts_of_contours) {
        proof {
            let j0 = choose|j: int|
                1 <= j < end_pts_of_contours@.len() && !(end_pts_of_contours@[j - 1] <= #[trigger]
                end_pts_of_contours@[j]);
            assert(simple_ends(d, pos0, nc as int)[j0] == end_pts_of_contours@[j0]);
            assert(simple_ends(d, pos0, nc as int)[j0 - 1] == end_pts_of_contours@[j0 - 1]);
            assert(!simple_monotone(d, pos0, nc as int));
        }
        return Err(FontError::InvalidFont);
    }
    proof {
        assert(simple_monotone(d, pos0, nc as int));
    }
    let instruction_length = file_ops.read_u16()?;
    file_ops.seek_from_current(instruction_length as i32)?;
    let number_of_points: usize = if nc == 0 {
        0
    } else {
        end_pts_of_contours[nc - 1] as usize + 1
    };
    let flags = mk_contour_flags(file_ops, number_of_points, Ghost(d))?;
    proof {
        lemma_decode_flags_len(d, simple_flags_pos(d, pos0, nc as int), number_of_points as nat);
    }
    let x_coordinates = read_coordinates(file_ops, &flags, 0x02, 0x10, Ghost(d))?;
    let y_coordinates = read_coordinates(file_ops, &flags, 0x04, 0x20, Ghost(d))?;
    proof {
        lemma_coords_len(
            d,
            simple_flags(d, pos0, nc as int).1,
            simple_flags(d, pos0, nc as int).0,
            0x02,
            0x10,
            0,
        );
        lemma_coords_len(
            d,
            simple_xs(d, pos0, nc as int).1,
            simple_flags(d, pos0, nc as int).0,
            0x04,
            0x20,
            0,
        );
    }
    let ghost spoints = simple_points(d, pos0, nc as int);
    let points = build_points(&flags, &x_coordinates, &y_coordinates);
    proof {
        assert(points@ =~= spoints);
    }
    let contours = split_contours(&points, &end_pts_of_contours);
    proof {
        assert(ends_ints(end_pts_of_contours@) =~= ends);
        assert(contours_partition(contours@, spoints, ends));
        assert forall|i2: int| 0 <= i2 < nc implies 0 <= #[trigger] ends[i2]
            < spoints.len() by {
            lemma_ends_chain(d, pos0, nc as int, i2, nc as int - 1);
        }
        assert(ends_wf(ends, spoints.len() as int));
    }
    Ok(Contours { contours })
}

} // verus!
