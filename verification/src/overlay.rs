//! Pixel writes into the RGBA buffer of the pause-menu overlay.

use vstd::prelude::*;

verus! {

/// Byte offset of pixel (`x`, `y`) in a row-major RGBA buffer `tex_w` pixels wide.
pub open spec fn pixel_offset(tex_w: u32, x: u32, y: u32) -> int {
    (y * tex_w + x) * 4
}

/// Writes colour (`r`, `g`, `b`, `a`) at pixel (`x`, `y`) when the whole
/// pixel lies inside `rgba`; otherwise leaves `rgba` unchanged.
pub fn set_pixel(rgba: &mut [u8], tex_w: u32, x: u32, y: u32, r: u8, g: u8, b: u8, a: u8)
    requires
        pixel_offset(tex_w, x, y) <= u32::MAX,
    ensures
        final(rgba)@.len() == old(rgba)@.len(),
        pixel_offset(tex_w, x, y) + 3 < old(rgba)@.len() ==> final(rgba)@ == old(rgba)@.update(
            pixel_offset(tex_w, x, y),
            r,
        ).update(pixel_offset(tex_w, x, y) + 1, g).update(pixel_offset(tex_w, x, y) + 2, b).update(
            pixel_offset(tex_w, x, y) + 3,
            a,
        ),
        pixel_offset(tex_w, x, y) + 3 >= old(rgba)@.len() ==> final(rgba)@ == old(rgba)@,
{
    proof {
        assert(0 <= y * tex_w) by (nonlinear_arith);
        assert(y * tex_w <= u32::MAX) by (nonlinear_arith)
            requires
                (y * tex_w + x) * 4 <= u32::MAX,
                x >= 0,
        ;
    }
    let idx = ((y * tex_w + x) * 4) as usize;
    if idx < rgba.len() && rgba.len() - idx > 3 {
        rgba[idx] = r;
        rgba[idx + 1] = g;
        rgba[idx + 2] = b;
        rgba[idx + 3] = a;
    }
}

/// Channel `i` (red, green, blue, alpha) of a colour.
pub open spec fn channel(c: (u8, u8, u8, u8), i: int) -> u8 {
    if i == 0 {
        c.0
    } else if i == 1 {
        c.1
    } else if i == 2 {
        c.2
    } else {
        c.3
    }
}

/// The buffer `old` with the pixels whose index satisfies `pixels` (and that
/// lie whole inside it) painted `c`.
pub open spec fn paint(old: Seq<u8>, pixels: spec_fn(int) -> bool, c: (u8, u8, u8, u8)) -> Seq<u8> {
    Seq::new(
        old.len(),
        |k: int|
            if pixels(k / 4) && (k / 4) * 4 + 3 < old.len() {
                channel(c, k % 4)
            } else {
                old[k]
            },
    )
}

proof fn lemma_paint_one(
    before: Seq<u8>,
    after: Seq<u8>,
    old: Seq<u8>,
    set0: spec_fn(int) -> bool,
    set1: spec_fn(int) -> bool,
    p: int,
    c: (u8, u8, u8, u8),
)
    requires
        p >= 0,
        before == paint(old, set0, c),
        set1(p),
        forall|q: int| q != p ==> (#[trigger] set1(q) <==> set0(q)),
        p * 4 + 3 < before.len() ==> after == before.update(p * 4, c.0).update(p * 4 + 1, c.1).update(
            p * 4 + 2,
            c.2,
        ).update(p * 4 + 3, c.3),
        p * 4 + 3 >= before.len() ==> after == before,
    ensures
        after == paint(old, set1, c),
{
    assert forall|k: int| 0 <= k < after.len() implies #[trigger] after[k] == paint(old, set1, c)[k] by {
        if k / 4 == p {
            assert(p * 4 <= k < p * 4 + 4);
        } else {
            assert(set1(k / 4) == set0(k / 4));
            if p * 4 + 3 < before.len() {
                assert(k != p * 4 && k != p * 4 + 1 && k != p * 4 + 2 && k != p * 4 + 3);
            }
        }
    }
    assert(after =~= paint(old, set1, c));
}

/// Paints pixels `x0..=x1` of row `y` (those whole inside `rgba`), as
/// `set_pixel` one after the other.
pub fn fill_span(rgba: &mut [u8], tex_w: u32, y: u32, x0: u32, x1: u32, r: u8, g: u8, b: u8, a: u8)
    requires
        x0 <= x1 ==> pixel_offset(tex_w, x1, y) <= u32::MAX,
    ensures
        final(rgba)@ == paint(
            old(rgba)@,
            |p: int| y * tex_w + x0 <= p <= y * tex_w + x1,
            (r, g, b, a),
        ),
{
    let ghost old_bytes = rgba@;
    let ghost c = (r, g, b, a);
    if x0 > x1 {
        assert(rgba@ =~= paint(old_bytes, |p: int| y * tex_w + x0 <= p <= y * tex_w + x1, c));
        return;
    }
    assert(rgba@ =~= paint(old_bytes, |p: int| y * tex_w + x0 <= p < y * tex_w + x0, c));
    let mut x = x0;
    while x <= x1
        invariant
            x0 <= x <= x1 + 1,
            pixel_offset(tex_w, x1, y) <= u32::MAX,
            rgba@ == paint(old_bytes, |p: int| y * tex_w + x0 <= p < y * tex_w + x, c),
            c == (r, g, b, a),
        decreases x1 + 1 - x,
    {
        let ghost before = rgba@;
        proof {
            assert(y * tex_w >= 0) by (nonlinear_arith);
        }
        set_pixel(rgba, tex_w, x, y, r, g, b, a);
        proof {
            lemma_paint_one(
                before,
                rgba@,
                old_bytes,
                |p: int| y * tex_w + x0 <= p < y * tex_w + x,
                |p: int| y * tex_w + x0 <= p < y * tex_w + x + 1,
                y * tex_w + x,
                c,
            );
        }
        x = x + 1;
    }
    assert(rgba@ =~= paint(old_bytes, |p: int| y * tex_w + x0 <= p <= y * tex_w + x1, c));
}

/// The pixels of column `x` in rows `y0..y_end` of a buffer `tex_w` pixels
/// wide.
pub open spec fn column_pixels(tex_w: u32, x: u32, y0: int, y_end: int) -> spec_fn(int) -> bool {
    |p: int| exists|t: int| y0 <= t < y_end && p == #[trigger] (t * tex_w) + x
}

/// Paints pixels `y0..=y1` of column `x` (those whole inside `rgba`), as
/// `set_pixel` one after the other.
pub fn fill_column(rgba: &mut [u8], tex_w: u32, x: u32, y0: u32, y1: u32, r: u8, g: u8, b: u8, a: u8)
    requires
        y0 <= y1 ==> pixel_offset(tex_w, x, y1) <= u32::MAX,
    ensures
        final(rgba)@ == paint(old(rgba)@, column_pixels(tex_w, x, y0 as int, y1 + 1), (r, g, b, a)),
{
    let ghost old_bytes = rgba@;
    let ghost c = (r, g, b, a);
    if y0 > y1 {
        assert(rgba@ =~= paint(old_bytes, column_pixels(tex_w, x, y0 as int, y1 + 1), c));
        return;
    }
    assert(rgba@ =~= paint(old_bytes, column_pixels(tex_w, x, y0 as int, y0 as int), c));
    let mut y = y0;
    loop
        invariant_except_break
            rgba@ == paint(old_bytes, column_pixels(tex_w, x, y0 as int, y as int), c),
        invariant
            y0 <= y <= y1,
            pixel_offset(tex_w, x, y1) <= u32::MAX,
            c == (r, g, b, a),
        ensures
            rgba@ == paint(old_bytes, column_pixels(tex_w, x, y0 as int, y1 + 1), c),
        decreases y1 - y,
    {
        let ghost before = rgba@;
        proof {
            assert(y * tex_w <= y1 * tex_w) by (nonlinear_arith)
                requires
                    y <= y1,
            ;
            assert(y * tex_w >= 0) by (nonlinear_arith);
        }
        set_pixel(rgba, tex_w, x, y, r, g, b, a);
        proof {
            let s0 = column_pixels(tex_w, x, y0 as int, y as int);
            let s1 = column_pixels(tex_w, x, y0 as int, y + 1);
            let p = y * tex_w + x;
            assert(s1(p)) by {
                assert(p == (y as int * tex_w) + x);
            }
            assert forall|q: int| q != p implies (#[trigger] s1(q) <==> s0(q)) by {
                if s1(q) {
                    let t = choose|t: int| y0 <= t < y + 1 && q == #[trigger] (t * tex_w) + x;
                    assert(t != y);
                }
            }
            lemma_paint_one(before, rgba@, old_bytes, s0, s1, p, c);
        }
        if y == y1 {
            break;
        }
        y = y + 1;
    }
}

} // verus!
