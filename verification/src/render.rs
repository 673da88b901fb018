//! The rasterizer: queries the scene for every drawable frame entity,
//! derives the four border segments of each frame's bounding rectangle, and
//! paints the pixel buffer.
//!
//! A pixel is painted in the border color when it lies within the closed
//! bounding envelope of some matched frame's segment endpoints — the test is
//! containment in an axis-aligned bounding box, not membership on a thin
//! line, so it shades each frame's full bounding rectangle. That coarse test
//! is the intended observable behavior, kept deliberately; it is not an
//! idealized one-pixel-outline rasterizer. Endpoint arithmetic is carried
//! out in 64-bit integers, so it is exact for every 32-bit position and
//! size; rectangles reaching outside the buffer are clipped implicitly by
//! the pixel loop bounds and are never an error.

use vstd::prelude::*;
use vstd::arithmetic::mul::lemma_mul_inequality;
use vstd::multiset::Multiset;
use vstd::seq_lib::group_to_multiset_ensures;

use crate::scene::{query_frames, world_frames};
use crate::util::{Pos, Size};

verus! {

/// A pair of endpoints in buffer coordinate space: a border segment, or the
/// closed bounding envelope spanned by a frame's segment endpoints.
#[derive(Debug, Copy, Clone, PartialEq, Eq, Structural)]
pub struct Seg {
    pub x0: i64,
    pub y0: i64,
    pub x1: i64,
    pub y1: i64,
}

/// The smaller of two integers.
pub open spec fn ilo(a: int, b: int) -> int {
    if a <= b {
        a
    } else {
        b
    }
}

/// The larger of two integers.
pub open spec fn ihi(a: int, b: int) -> int {
    if a <= b {
        b
    } else {
        a
    }
}

/// The top edge of a frame's bounding rectangle, from its top-left corner
/// to its top-right corner.
pub open spec fn seg_top(p: Pos, s: Size) -> Seg {
    (Seg { x0: p.0 as i64, y0: p.1 as i64, x1: (p.0 + s.0) as i64, y1: p.1 as i64 })
}

/// The left edge, from the top-left corner to the bottom-left corner.
pub open spec fn seg_left(p: Pos, s: Size) -> Seg {
    (Seg { x0: p.0 as i64, y0: p.1 as i64, x1: p.0 as i64, y1: (p.1 + s.1) as i64 })
}

/// The right edge, from the top-right corner to the bottom-right corner.
pub open spec fn seg_right(p: Pos, s: Size) -> Seg {
    (Seg { x0: (p.0 + s.0) as i64, y0: p.1 as i64, x1: (p.0 + s.0) as i64, y1: (p.1 + s.1) as i64 })
}

/// The bottom edge, from the bottom-left corner to the bottom-right corner.
pub open spec fn seg_bottom(p: Pos, s: Size) -> Seg {
    (Seg { x0: p.0 as i64, y0: (p.1 + s.1) as i64, x1: (p.0 + s.0) as i64, y1: (p.1 + s.1) as i64 })
}

/// Containment of a point in the closed axis-aligned bounding box spanned by
/// a pair of endpoints.
pub open spec fn seg_box(g: Seg, x: int, y: int) -> bool {
    ilo(g.x0 as int, g.x1 as int) <= x <= ihi(g.x0 as int, g.x1 as int)
        && ilo(g.y0 as int, g.y1 as int) <= y <= ihi(g.y0 as int, g.y1 as int)
}

/// The closed bounding envelope of the endpoints of a frame's four border
/// segments: its corners are the extreme segment endpoints.
pub open spec fn frame_env(p: Pos, s: Size) -> Seg {
    (Seg {
        x0: ilo(p.0 as int, p.0 + s.0) as i64,
        y0: ilo(p.1 as int, p.1 + s.1) as i64,
        x1: ihi(p.0 as int, p.0 + s.0) as i64,
        y1: ihi(p.1 as int, p.1 + s.1) as i64,
    })
}

/// A pixel lies in a frame's painted region when it lies in the bounding
/// envelope of the frame's border segments.
pub open spec fn frame_box(p: Pos, s: Size, x: int, y: int) -> bool {
    seg_box(frame_env(p, s), x, y)
}

/// Every point of any of the four border segments' own bounding boxes lies
/// within the frame's envelope: the envelope encloses all four edges.
pub proof fn lemma_segments_within_envelope(p: Pos, s: Size, x: int, y: int)
    ensures
        seg_box(seg_top(p, s), x, y) ==> frame_box(p, s, x, y),
        seg_box(seg_left(p, s), x, y) ==> frame_box(p, s, x, y),
        seg_box(seg_right(p, s), x, y) ==> frame_box(p, s, x, y),
        seg_box(seg_bottom(p, s), x, y) ==> frame_box(p, s, x, y),
{
}

/// A pixel is covered in a scene when some frame entity's painted region
/// holds it.
pub open spec fn covered(frames: Multiset<(u64, Pos, Size)>, x: int, y: int) -> bool {
    exists|f: (u64, Pos, Size)| frames.contains(f) && frame_box(f.1, f.2, x, y)
}

/// The fixed border color, as the four RGBA bytes of one pixel.
pub open spec fn border_color() -> Seq<u8> {
    seq![0xe3u8, 0x7bu8, 0x8fu8, 0xffu8]
}

/// The fixed background color, as the four RGBA bytes of one pixel.
pub open spec fn background_color() -> Seq<u8> {
    seq![0x15u8, 0x1eu8, 0x24u8, 0xffu8]
}

/// The four bytes a pixel receives: border color when it is covered,
/// background color otherwise; the alpha byte is opaque either way.
pub open spec fn pixel_bytes(hit: bool) -> Seq<u8> {
    if hit {
        border_color()
    } else {
        background_color()
    }
}

/// The four bytes of the pixel at (x, y) in a row-major RGBA buffer.
pub open spec fn pixel_at(buf: Seq<u8>, width: int, x: int, y: int) -> Seq<u8> {
    buf.subrange(4 * (y * width + x), 4 * (y * width + x) + 4)
}

/// Some envelope in the working list holds the point.
pub open spec fn any_box(list: Seq<Seg>, x: int, y: int) -> bool {
    exists|j: int| 0 <= j < list.len() && seg_box(list[j], x, y)
}

/// Some frame of the sequence paints the point.
pub open spec fn frames_any(fs: Seq<(u64, Pos, Size)>, x: int, y: int) -> bool {
    exists|j: int| 0 <= j < fs.len() && frame_box(fs[j].1, fs[j].2, x, y)
}

/// Law: an empty scene covers no pixel, so rendering it fills the whole
/// buffer with the background color.
pub proof fn lemma_empty_scene_uncovered(x: int, y: int)
    ensures
        !covered(Multiset::<(u64, Pos, Size)>::empty(), x, y),
{
}

/// Law: with exactly one frame of non-negative size in the scene, a pixel
/// is covered exactly when it lies in the frame's closed bounding rectangle:
/// position <= pixel <= position + size, on both axes.
pub proof fn lemma_single_frame_coverage(f: (u64, Pos, Size), x: int, y: int)
    requires
        f.2.0 >= 0,
        f.2.1 >= 0,
    ensures
        covered(Multiset::<(u64, Pos, Size)>::empty().insert(f), x, y) <==> (f.1.0 <= x <= f.1.0
            + f.2.0 && f.1.1 <= y <= f.1.1 + f.2.1),
{
    let m = Multiset::<(u64, Pos, Size)>::empty().insert(f);
    if covered(m, x, y) {
        let g = choose|g: (u64, Pos, Size)| m.contains(g) && frame_box(g.1, g.2, x, y);
        assert(g == f);
    }
    if f.1.0 <= x <= f.1.0 + f.2.0 && f.1.1 <= y <= f.1.1 + f.2.1 {
        assert(m.contains(f));
        assert(frame_box(f.1, f.2, x, y));
    }
}

/// Law: the rasterizer reads nothing of a scene but its frame entities. Two
/// scenes holding the same frames cover the same pixels, whatever
/// oscillators or parent links — dangling or not — they hold besides.
pub proof fn lemma_cover_reads_frames_only(w1: hecs::World, w2: hecs::World, x: int, y: int)
    requires
        world_frames(w1) == world_frames(w2),
    ensures
        covered(world_frames(w1), x, y) == covered(world_frames(w2), x, y),
{
}

/// The working list covers a point exactly when some frame of the sequence
/// it was built from paints it: entry j is frame j's envelope.
proof fn lemma_any_box_is_frames_any(list: Seq<Seg>, fs: Seq<(u64, Pos, Size)>, x: int, y: int)
    requires
        list.len() == fs.len(),
        forall|j: int| 0 <= j < fs.len() ==> list[j] == frame_env(fs[j].1, fs[j].2),
    ensures
        any_box(list, x, y) == frames_any(fs, x, y),
{
    if any_box(list, x, y) {
        let j = choose|j: int| 0 <= j < list.len() && seg_box(list[j], x, y);
        assert(frame_box(fs[j].1, fs[j].2, x, y));
        assert(frames_any(fs, x, y));
    }
    if frames_any(fs, x, y) {
        let j = choose|j: int| 0 <= j < fs.len() && frame_box(fs[j].1, fs[j].2, x, y);
        assert(seg_box(list[j], x, y));
        assert(any_box(list, x, y));
    }
}

/// A frame sequence paints a point exactly when its multiset of frames
/// covers it: coverage does not depend on query order.
proof fn lemma_frames_any_is_covered(fs: Seq<(u64, Pos, Size)>, x: int, y: int)
    ensures
        frames_any(fs, x, y) == covered(fs.to_multiset(), x, y),
{
    broadcast use group_to_multiset_ensures;

    if frames_any(fs, x, y) {
        let j = choose|j: int| 0 <= j < fs.len() && frame_box(fs[j].1, fs[j].2, x, y);
        assert(fs.contains(fs[j]));
        assert(fs.to_multiset().contains(fs[j]));
        assert(covered(fs.to_multiset(), x, y));
    }
    if covered(fs.to_multiset(), x, y) {
        let f = choose|f: (u64, Pos, Size)| fs.to_multiset().contains(f) && frame_box(f.1, f.2, x, y);
        assert(fs.contains(f));
        let j = choose|j: int| 0 <= j < fs.len() && fs[j] == f;
        assert(frames_any(fs, x, y));
    }
}

/// Pixels laid out row-major: an earlier pixel's cell index is smaller.
proof fn lemma_pixel_index_lt(width: int, x: int, y: int, xi: int, yi: int)
    requires
        0 <= xi < width,
        0 <= x,
        0 <= yi,
        yi < y || (yi == y && xi < x),
    ensures
        yi * width + xi < y * width + x,
{
    if yi < y {
        lemma_mul_inequality(yi + 1, y, width);
        assert((yi + 1) * width == yi * width + width) by (nonlinear_arith);
    }
}

/// Build one frame's envelope: the bounding box of the endpoints of its four
/// border segments, normalized so that (x0, y0) is the low corner.
fn frame_envelope(p: Pos, s: Size) -> (g: Seg)
    ensures
        g == frame_env(p, s),
{
    let xa: i64 = p.0 as i64;
    let xb: i64 = p.0 as i64 + s.0 as i64;
    let ya: i64 = p.1 as i64;
    let yb: i64 = p.1 as i64 + s.1 as i64;
    let x0: i64 = if xa <= xb { xa } else { xb };
    let x1: i64 = if xa <= xb { xb } else { xa };
    let y0: i64 = if ya <= yb { ya } else { yb };
    let y1: i64 = if ya <= yb { yb } else { ya };
    Seg { x0, y0, x1, y1 }
}

/// Collect the working list: one envelope entry for each matched frame, in
/// query order, the segments no longer tied back to their owning entity.
fn collect_envelopes(fs: &Vec<(u64, Pos, Size)>) -> (list: Vec<Seg>)
    ensures
        list@.len() == fs@.len(),
        forall|j: int| 0 <= j < fs@.len() ==> list@[j] == frame_env(fs@[j].1, fs@[j].2),
{
    let mut list: Vec<Seg> = Vec::new();
    let mut i: usize = 0;
    while i < fs.len()
        invariant
            i <= fs@.len(),
            list@.len() == i,
            forall|j: int| 0 <= j < i ==> list@[j] == frame_env(fs@[j].1, fs@[j].2),
        decreases fs@.len() - i,
    {
        let (_id, p, s) = fs[i];
        list.push(frame_envelope(p, s));
        i = i + 1;
    }
    list
}

/// Test one pixel against every entry of the working list.
fn hits_any(list: &Vec<Seg>, x: i64, y: i64) -> (r: bool)
    ensures
        r == any_box(list@, x as int, y as int),
{
    let mut j: usize = 0;
    while j < list.len()
        invariant
            j <= list@.len(),
            forall|k: int| 0 <= k < j ==> !seg_box(list@[k], x as int, y as int),
        decreases list@.len() - j,
    {
        let g = list[j];
        let lox: i64 = if g.x0 <= g.x1 { g.x0 } else { g.x1 };
        let hix: i64 = if g.x0 <= g.x1 { g.x1 } else { g.x0 };
        let loy: i64 = if g.y0 <= g.y1 { g.y0 } else { g.y1 };
        let hiy: i64 = if g.y0 <= g.y1 { g.y1 } else { g.y0 };
        if lox <= x && x <= hix && loy <= y && y <= hiy {
            assert(seg_box(list@[j as int], x as int, y as int));
            return true;
        }
        j = j + 1;
    }
    false
}

/// Render the current scene into the buffer: every entity holding all of
/// Frame, Pos and Size is queried, its border segments' bounding envelope is
/// computed, and every pixel of the width × height buffer is written — the
/// border color where some envelope holds it, the background color
/// elsewhere — as four RGBA bytes per pixel in row-major order. The buffer
/// is mutated in place and nothing else is touched: rendering is idempotent
/// for an unchanged scene.
pub fn render(world: &hecs::World, frame: &mut Vec<u8>, width: usize, height: usize)
    requires
        old(frame).len() == width * height * 4,
    ensures
        final(frame).len() == old(frame).len(),
        forall|x: int, y: int|
            0 <= x < width && 0 <= y < height ==> pixel_at(final(frame)@, width as int, x, y)
                == pixel_bytes(covered(world_frames(*world), x, y)),
{
    let fs = query_frames(world);
    let list = collect_envelopes(&fs);
    let ghost expected = world_frames(*world);
    let mut y: usize = 0;
    while y < height
        invariant
            y <= height,
            frame@.len() == width * height * 4,
            fs@.to_multiset() == expected,
            list@.len() == fs@.len(),
            forall|j: int| 0 <= j < fs@.len() ==> list@[j] == frame_env(fs@[j].1, fs@[j].2),
            forall|xi: int, yi: int|
                0 <= xi < width && 0 <= yi < y ==> pixel_at(frame@, width as int, xi, yi)
                    == pixel_bytes(covered(expected, xi, yi)),
        decreases height - y,
    {
        let mut x: usize = 0;
        while x < width
            invariant
                y < height,
                x <= width,
                frame@.len() == width * height * 4,
                fs@.to_multiset() == expected,
                list@.len() == fs@.len(),
                forall|j: int| 0 <= j < fs@.len() ==> list@[j] == frame_env(fs@[j].1, fs@[j].2),
                forall|xi: int, yi: int|
                    0 <= xi < width && 0 <= yi < y ==> pixel_at(frame@, width as int, xi, yi)
                        == pixel_bytes(covered(expected, xi, yi)),
                forall|xi: int|
                    0 <= xi < x ==> pixel_at(frame@, width as int, xi, y as int) == pixel_bytes(
                        covered(expected, xi, y as int),
                    ),
            decreases width - x,
        {
            let buf_len: usize = frame.len();
            proof {
                let w = width as int;
                let h = height as int;
                let cx = x as int;
                let cy = y as int;
                assert(0 <= cy * w + cx && (cy * w + cx) * 4 + 4 <= w * h * 4 && w * 4 <= w * h * 4
                    && h * 4 <= w * h * 4) by (nonlinear_arith)
                    requires
                        0 <= cx < w,
                        0 <= cy < h,
                ;
                assert(buf_len == w * h * 4);
            }
            let hit = hits_any(&list, x as i64, y as i64);
            proof {
                lemma_any_box_is_frames_any(list@, fs@, x as int, y as int);
                lemma_frames_any_is_covered(fs@, x as int, y as int);
            }
            let ghost prev = frame@;
            let base: usize = (y * width + x) * 4;
            if hit {
                frame.set(base, 0xe3);
                frame.set(base + 1, 0x7b);
                frame.set(base + 2, 0x8f);
                frame.set(base + 3, 0xff);
            } else {
                frame.set(base, 0x15);
                frame.set(base + 1, 0x1e);
                frame.set(base + 2, 0x24);
                frame.set(base + 3, 0xff);
            }
            proof {
                assert(pixel_at(frame@, width as int, x as int, y as int) =~= pixel_bytes(
                    covered(expected, x as int, y as int),
                ));
                assert forall|xi: int, yi: int|
                    0 <= xi < width && 0 <= yi < y as int implies pixel_at(
                    frame@,
                    width as int,
                    xi,
                    yi,
                ) == pixel_bytes(covered(expected, xi, yi)) by {
                    lemma_pixel_index_lt(width as int, x as int, y as int, xi, yi);
                    assert(pixel_at(prev, width as int, xi, yi) == pixel_bytes(
                        covered(expected, xi, yi),
                    ));
                    assert(pixel_at(frame@, width as int, xi, yi) =~= pixel_at(
                        prev,
                        width as int,
                        xi,
                        yi,
                    ));
                }
                assert forall|xi: int| 0 <= xi < x as int implies pixel_at(
                    frame@,
                    width as int,
                    xi,
                    y as int,
                ) == pixel_bytes(covered(expected, xi, y as int)) by {
                    lemma_pixel_index_lt(width as int, x as int, y as int, xi, y as int);
                    assert(pixel_at(prev, width as int, xi, y as int) == pixel_bytes(
                        covered(expected, xi, y as int),
                    ));
                    assert(pixel_at(frame@, width as int, xi, y as int) =~= pixel_at(
                        prev,
                        width as int,
                        xi,
                        y as int,
                    ));
                }
            }
            x = x + 1;
        }
        y = y + 1;
    }
}

} // verus!
