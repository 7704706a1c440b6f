//! The coordinate grid drawn over grabbed frames, as a plan: the list of pixels
//! to blend, each with its colour, in drawing order. Alpha blending does not
//! commute, so the order is part of the plan.
use vstd::prelude::*;
use vstd::string::StrSliceExecFns;
use crate::text::{chars_of, push_chars};

verus! {

broadcast use vstd::string::group_string_axioms;

/// A colour with straight (not premultiplied) alpha.
#[derive(Clone, Copy, Debug, PartialEq, Eq, Structural)]
pub struct Rgba8 {
    pub r: u8,
    pub g: u8,
    pub b: u8,
    pub a: u8,
}

/// Blend `color` over the pixel at (`x`, `y`).
#[derive(Clone, Copy, Debug, PartialEq, Eq, Structural)]
pub struct Blend {
    pub x: u32,
    pub y: u32,
    pub color: Rgba8,
}

/// Label text.
pub open spec fn text_color() -> Rgba8 {
    Rgba8 { r: 255, g: 255, b: 0, a: 220 }
}

/// Shadow under label text.
pub open spec fn shadow_color() -> Rgba8 {
    Rgba8 { r: 0, g: 0, b: 0, a: 200 }
}

/// Dashed grid lines.
pub open spec fn line_color() -> Rgba8 {
    Rgba8 { r: 255, g: 255, b: 0, a: 120 }
}

/// Background behind intersection and corner labels.
pub open spec fn label_bg_color() -> Rgba8 {
    Rgba8 { r: 0, g: 0, b: 0, a: 160 }
}

/// How a two-level sweep maps its outer index `o` and inner index `i` to a pixel.
#[derive(Clone, Copy, Debug, PartialEq, Eq, Structural)]
pub enum Shape {
    /// Row-major rectangle from (`x`, `y`): (x + i, y + o).
    Rect { x: i64, y: i64 },
    /// Tick rising from the bottom edge of an image of height `h`:
    /// (x + i, max(h - 1 - o, 0)).
    BottomTick { x: i64, h: i64 },
    /// Tick from the left edge: (o, y + i).
    LeftTick { y: i64 },
    /// Tick from the right edge of an image of width `w`: (max(w - 1 - o, 0), y + i).
    RightTick { w: i64, y: i64 },
    /// Two-pixel vertical dashed line at `x`, 4 pixels on and 8 off: (x + i, o).
    VDash { x: i64 },
    /// Two-pixel horizontal dashed line at `y`: (o, y + i).
    HDash { y: i64 },
}

/// Zero for negative values.
pub open spec fn floor0(v: int) -> int {
    if v < 0 {
        0
    } else {
        v
    }
}

/// Pixel of `s` at step (`o`, `i`); (-1, -1), which no image holds, in the gaps of a dash.
pub open spec fn shape_at(s: Shape, o: int, i: int) -> (int, int) {
    match s {
        Shape::Rect { x, y } => (x + i, y + o),
        Shape::BottomTick { x, h } => (x + i, floor0(h - 1 - o)),
        Shape::LeftTick { y } => (o, y + i),
        Shape::RightTick { w, y } => (floor0(w - 1 - o), y + i),
        Shape::VDash { x } => if o % 12 < 4 {
            (x + i, o)
        } else {
            (-1, -1)
        },
        Shape::HDash { y } => if o % 12 < 4 {
            (o, y + i)
        } else {
            (-1, -1)
        },
    }
}

/// One blend at (`x`, `y`) when the pixel lies in a `w` by `h` image, else none.
pub open spec fn blend_inside(w: int, h: int, x: int, y: int, c: Rgba8) -> Seq<Blend> {
    if 0 <= x < w && 0 <= y < h {
        seq![Blend { x: x as u32, y: y as u32, color: c }]
    } else {
        Seq::empty()
    }
}

/// Blends of row `o` of a sweep, for inner indices below `inner`.
pub open spec fn sweep_row(w: int, h: int, o: int, inner: int, s: Shape, c: Rgba8) -> Seq<Blend>
    decreases inner,
{
    if inner <= 0 {
        Seq::empty()
    } else {
        sweep_row(w, h, o, inner - 1, s, c) + blend_inside(
            w,
            h,
            shape_at(s, o, inner - 1).0,
            shape_at(s, o, inner - 1).1,
            c,
        )
    }
}

/// Blends of a sweep over outer indices below `outer` and inner ones below `inner`.
pub open spec fn sweep(w: int, h: int, outer: int, inner: int, s: Shape, c: Rgba8) -> Seq<Blend>
    decreases outer,
{
    if outer <= 0 {
        Seq::empty()
    } else {
        sweep(w, h, outer - 1, inner, s, c) + sweep_row(w, h, outer - 1, inner, s, c)
    }
}

fn shape_point(s: &Shape, o: u32, i: u32) -> (r: (i64, i64))
    requires
        shape_ok(*s),
    ensures
        (r.0 as int, r.1 as int) == shape_at(*s, o as int, i as int),
{
    match *s {
        Shape::Rect { x, y } => (x + i as i64, y + o as i64),
        Shape::BottomTick { x, h } => {
            let v = h - 1 - o as i64;
            (x + i as i64, if v < 0 {
                0
            } else {
                v
            })
        },
        Shape::LeftTick { y } => (o as i64, y + i as i64),
        Shape::RightTick { w, y } => {
            let v = w - 1 - o as i64;
            (if v < 0 {
                0
            } else {
                v
            }, y + i as i64)
        },
        Shape::VDash { x } => if o % 12 < 4 {
            (x + i as i64, o as i64)
        } else {
            (-1, -1)
        },
        Shape::HDash { y } => if o % 12 < 4 {
            (o as i64, y + i as i64)
        } else {
            (-1, -1)
        },
    }
}

/// Bound on the coordinates that shapes and labels are placed at.
pub const COORD_LIMIT: i64 = 0x100_0000_0000;

/// Coordinates of a shape stay within reach of 64-bit arithmetic.
pub open spec fn shape_ok(s: Shape) -> bool {
    match s {
        Shape::Rect { x, y } => -COORD_LIMIT <= x <= COORD_LIMIT && -COORD_LIMIT <= y
            <= COORD_LIMIT,
        Shape::BottomTick { x, h } => -COORD_LIMIT <= x <= COORD_LIMIT && 0 <= h <= COORD_LIMIT,
        Shape::LeftTick { y } => -COORD_LIMIT <= y <= COORD_LIMIT,
        Shape::RightTick { w, y } => 0 <= w <= COORD_LIMIT && -COORD_LIMIT <= y <= COORD_LIMIT,
        Shape::VDash { x } => -COORD_LIMIT <= x <= COORD_LIMIT,
        Shape::HDash { y } => -COORD_LIMIT <= y <= COORD_LIMIT,
    }
}

/// Appends the blends of a sweep.
pub fn sweep_into(ops: &mut Vec<Blend>, w: u32, h: u32, outer: u32, inner: u32, s: Shape, c: Rgba8)
    requires
        shape_ok(s),
    ensures
        final(ops)@ == old(ops)@ + sweep(w as int, h as int, outer as int, inner as int, s, c),
{
    let mut o: u32 = 0;
    while o < outer
        invariant
            shape_ok(s),
            o <= outer,
            ops@ == old(ops)@ + sweep(w as int, h as int, o as int, inner as int, s, c),
        decreases outer - o,
    {
        let mut i: u32 = 0;
        while i < inner
            invariant
                shape_ok(s),
                o < outer,
                i <= inner,
                ops@ == old(ops)@ + sweep(w as int, h as int, o as int, inner as int, s, c)
                    + sweep_row(w as int, h as int, o as int, i as int, s, c),
            decreases inner - i,
        {
            let (x, y) = shape_point(&s, o, i);
            let ghost before = ops@;
            if 0 <= x && x < w as i64 && 0 <= y && y < h as i64 {
                ops.push(Blend { x: x as u32, y: y as u32, color: c });
            }
            proof {
                assert(ops@ =~= before + blend_inside(w as int, h as int, x as int, y as int, c));
                assert(ops@ =~= old(ops)@ + sweep(w as int, h as int, o as int, inner as int, s, c)
                    + sweep_row(w as int, h as int, o as int, i + 1, s, c));
            }
            i = i + 1;
        }
        proof {
            assert(ops@ =~= old(ops)@ + sweep(w as int, h as int, o + 1, inner as int, s, c));
        }
        o = o + 1;
    }
}

/// The 3x5 pixel-art glyph of digit `g` (0 to 9), `.` (10) or `,` (11): rows
/// top to bottom, left to right, `1` for a set pixel.
pub open spec fn glyph_pattern(g: int) -> Seq<char> {
    if g == 0 {
        "111101101101111"@
    } else if g == 1 {
        "010110010010111"@
    } else if g == 2 {
        "111001111100111"@
    } else if g == 3 {
        "111001111001111"@
    } else if g == 4 {
        "101101111001001"@
    } else if g == 5 {
        "111100111001111"@
    } else if g == 6 {
        "111100111101111"@
    } else if g == 7 {
        "111001010010010"@
    } else if g == 8 {
        "111101111101111"@
    } else if g == 9 {
        "111101111001111"@
    } else if g == 10 {
        "000000000000010"@
    } else {
        "000000000010010"@
    }
}

fn glyph_str(g: usize) -> (r: &'static str)
    requires
        g < 12,
    ensures
        r@ == glyph_pattern(g as int),
        r@.len() == 15,
{
    proof {
        reveal_strlit("111101101101111");
        reveal_strlit("010110010010111");
        reveal_strlit("111001111100111");
        reveal_strlit("111001111001111");
        reveal_strlit("101101111001001");
        reveal_strlit("111100111001111");
        reveal_strlit("111100111101111");
        reveal_strlit("111001010010010");
        reveal_strlit("111101111101111");
        reveal_strlit("111101111001111");
        reveal_strlit("000000000000010");
        reveal_strlit("000000000010010");
    }
    if g == 0 {
        "111101101101111"
    } else if g == 1 {
        "010110010010111"
    } else if g == 2 {
        "111001111100111"
    } else if g == 3 {
        "111001111001111"
    } else if g == 4 {
        "101101111001001"
    } else if g == 5 {
        "111100111001111"
    } else if g == 6 {
        "111100111101111"
    } else if g == 7 {
        "111001010010010"
    } else if g == 8 {
        "111101111101111"
    } else if g == 9 {
        "111101111001111"
    } else if g == 10 {
        "000000000000010"
    } else {
        "000000000010010"
    }
}

/// Glyph of a character: digits, `.` and `,`; -1 for characters that are skipped.
pub open spec fn glyph_index(c: char) -> int {
    if '0' <= c && c <= '9' {
        (c as u32) as int - 48
    } else if c == '.' {
        10
    } else if c == ',' {
        11
    } else {
        -1
    }
}

/// Blends of the first `k` cells of glyph `g` at (`cx`, `y`), scaled 2x: each
/// set cell is a 2x2 shadow block one pixel down and right, then the 2x2 block.
pub open spec fn glyph_cells(
    w: int,
    h: int,
    cx: int,
    y: int,
    g: int,
    k: int,
    fg: Rgba8,
    shadow: Rgba8,
) -> Seq<Blend>
    decreases k,
{
    if k <= 0 {
        Seq::empty()
    } else {
        let px = cx + ((k - 1) % 3) * 2;
        let py = y + ((k - 1) / 3) * 2;
        glyph_cells(w, h, cx, y, g, k - 1, fg, shadow) + if glyph_pattern(g)[k - 1] == '1' {
            sweep(w, h, 2, 2, Shape::Rect { x: (px + 1) as i64, y: (py + 1) as i64 }, shadow) + sweep(
                w,
                h,
                2,
                2,
                Shape::Rect { x: px as i64, y: py as i64 },
                fg,
            )
        } else {
            Seq::empty()
        }
    }
}

/// Number of characters of `cs` that have a glyph.
pub open spec fn glyph_count(cs: Seq<char>) -> int
    decreases cs.len(),
{
    if cs.len() == 0 {
        0
    } else {
        glyph_count(cs.drop_last()) + if glyph_index(cs.last()) >= 0 {
            1int
        } else {
            0int
        }
    }
}

/// Blends of a label at (`x`, `y`): glyphs 7 pixels apart, characters without a
/// glyph skipped without advancing.
pub open spec fn text_ops(w: int, h: int, cs: Seq<char>, x: int, y: int, fg: Rgba8, shadow: Rgba8) -> Seq<
    Blend,
>
    decreases cs.len(),
{
    if cs.len() == 0 {
        Seq::empty()
    } else {
        text_ops(w, h, cs.drop_last(), x, y, fg, shadow) + if glyph_index(cs.last()) >= 0 {
            glyph_cells(w, h, x + 7 * glyph_count(cs.drop_last()), y, glyph_index(cs.last()), 15, fg, shadow)
        } else {
            Seq::empty()
        }
    }
}

fn glyph_of(c: char) -> (r: i64)
    ensures
        r as int == glyph_index(c),
{
    if '0' <= c && c <= '9' {
        (c as u32) as i64 - 48
    } else if c == '.' {
        10
    } else if c == ',' {
        11
    } else {
        -1
    }
}

proof fn lemma_glyph_count_bounds(cs: Seq<char>)
    ensures
        0 <= glyph_count(cs) <= cs.len(),
    decreases cs.len(),
{
    if cs.len() > 0 {
        lemma_glyph_count_bounds(cs.drop_last());
    }
}

/// Appends the blends of label `text` at (`x`, `y`).
fn text_into(
    ops: &mut Vec<Blend>,
    w: u32,
    h: u32,
    text: &Vec<char>,
    x: i64,
    y: i64,
    fg: Rgba8,
    shadow: Rgba8,
)
    requires
        text@.len() <= 16,
        -0x2_0000_0000 <= x <= 0x2_0000_0000,
        -0x2_0000_0000 <= y <= 0x2_0000_0000,
    ensures
        final(ops)@ == old(ops)@ + text_ops(w as int, h as int, text@, x as int, y as int, fg, shadow),
{
    let mut j: usize = 0;
    let mut cx: i64 = x;
    while j < text.len()
        invariant
            text@.len() <= 16,
            -0x2_0000_0000 <= x <= 0x2_0000_0000,
            -0x2_0000_0000 <= y <= 0x2_0000_0000,
            j <= text@.len(),
            cx == x + 7 * glyph_count(text@.subrange(0, j as int)),
            ops@ == old(ops)@ + text_ops(
                w as int,
                h as int,
                text@.subrange(0, j as int),
                x as int,
                y as int,
                fg,
                shadow,
            ),
        decreases text@.len() - j,
    {
        proof {
            lemma_glyph_count_bounds(text@.subrange(0, j as int));
            assert(text@.subrange(0, j + 1).drop_last() =~= text@.subrange(0, j as int));
        }
        let g = glyph_of(text[j]);
        if g >= 0 {
            let pattern = glyph_str(g as usize);
            let mut k: usize = 0;
            let ghost start = ops@;
            while k < 15
                invariant
                    0 <= g < 12,
                    pattern@ == glyph_pattern(g as int),
                    pattern@.len() == 15,
                    k <= 15,
                    -0x3_0000_0000 <= cx <= 0x3_0000_0000,
                    -0x2_0000_0000 <= y <= 0x2_0000_0000,
                    ops@ == start + glyph_cells(
                        w as int,
                        h as int,
                        cx as int,
                        y as int,
                        g as int,
                        k as int,
                        fg,
                        shadow,
                    ),
                decreases 15 - k,
            {
                let px = cx + ((k % 3) * 2) as i64;
                let py = y + ((k / 3) * 2) as i64;
                let ghost before = ops@;
                if pattern.get_char(k) == '1' {
                    sweep_into(ops, w, h, 2, 2, Shape::Rect { x: px + 1, y: py + 1 }, shadow);
                    sweep_into(ops, w, h, 2, 2, Shape::Rect { x: px, y: py }, fg);
                }
                proof {
                    assert(ops@ =~= start + glyph_cells(
                        w as int,
                        h as int,
                        cx as int,
                        y as int,
                        g as int,
                        k + 1,
                        fg,
                        shadow,
                    ));
                }
                k = k + 1;
            }
            cx = cx + 7;
        }
        proof {
            assert(ops@ =~= old(ops)@ + text_ops(
                w as int,
                h as int,
                text@.subrange(0, j + 1),
                x as int,
                y as int,
                fg,
                shadow,
            ));
        }
        j = j + 1;
    }
    proof {
        assert(text@.subrange(0, text@.len() as int) =~= text@);
    }
}

/// `v * q / 4`, rounded down: the quarter line `q` of a side of length `v`.
pub open spec fn quarter(v: int, q: int) -> int {
    v * q / 4
}

/// Edge label `0.<i>`.
pub open spec fn edge_label(i: int) -> Seq<char> {
    seq!['0', '.', ((48 + i) as u8) as char]
}

/// Tick `i` of 1 to 9 at `i / 10` along each edge, each followed by its label:
/// top (label below), bottom (label above), left (label right), right (label left).
pub open spec fn edge_marks(w: int, h: int, i: int) -> Seq<Blend> {
    let tx = w * i / 10;
    let ty = h * i / 10;
    let label = edge_label(i);
    let fg = text_color();
    let sh = shadow_color();
    sweep(w, h, 12, 2, Shape::Rect { x: tx as i64, y: 0 }, fg) + text_ops(w, h, label, tx - 6, 14, fg, sh)
        + sweep(w, h, 12, 2, Shape::BottomTick { x: tx as i64, h: h as i64 }, fg) + text_ops(
        w,
        h,
        label,
        tx - 6,
        h - 26,
        fg,
        sh,
    ) + sweep(w, h, 12, 2, Shape::LeftTick { y: ty as i64 }, fg) + text_ops(w, h, label, 14, ty - 5, fg, sh)
        + sweep(w, h, 12, 2, Shape::RightTick { w: w as i64, y: ty as i64 }, fg) + text_ops(
        w,
        h,
        label,
        w - 35,
        ty - 5,
        fg,
        sh,
    )
}

/// Edge marks 1 to `n`.
pub open spec fn edges(w: int, h: int, n: int) -> Seq<Blend>
    decreases n,
{
    if n <= 0 {
        Seq::empty()
    } else {
        edges(w, h, n - 1) + edge_marks(w, h, n)
    }
}

/// Dashed lines at quarter `q`: the vertical one, then the horizontal one.
pub open spec fn dashes(w: int, h: int, q: int) -> Seq<Blend> {
    sweep(w, h, h, 2, Shape::VDash { x: quarter(w, q) as i64 }, line_color()) + sweep(
        w,
        h,
        w,
        2,
        Shape::HDash { y: quarter(h, q) as i64 },
        line_color(),
    )
}

/// Dashed lines at quarters 1 to `n`.
pub open spec fn all_dashes(w: int, h: int, n: int) -> Seq<Blend>
    decreases n,
{
    if n <= 0 {
        Seq::empty()
    } else {
        all_dashes(w, h, n - 1) + dashes(w, h, n)
    }
}

/// `25`, `50` or `75`: quarter `q` in percent.
pub open spec fn percent_label(q: int) -> Seq<char> {
    if q == 1 {
        "25"@
    } else if q == 2 {
        "50"@
    } else {
        "75"@
    }
}

/// Label of the crossing of quarter lines `qx` and `qy`, e.g. `25,50`.
pub open spec fn crossing_label(qx: int, qy: int) -> Seq<char> {
    percent_label(qx) + seq![','] + percent_label(qy)
}

/// Crossing `k` of 0 to 8, rows first: a 39 by 14 background from 3 pixels
/// past the crossing, and its label from 5 pixels past.
pub open spec fn crossing_mark(w: int, h: int, k: int) -> Seq<Blend> {
    let qy = k / 3 + 1;
    let qx = k % 3 + 1;
    let cx = quarter(w, qx);
    let cy = quarter(h, qy);
    sweep(w, h, 14, 39, Shape::Rect { x: (cx + 3) as i64, y: (cy + 3) as i64 }, label_bg_color())
        + text_ops(w, h, crossing_label(qx, qy), cx + 5, cy + 5, text_color(), shadow_color())
}

/// The first `n` crossings.
pub open spec fn crossings(w: int, h: int, n: int) -> Seq<Blend>
    decreases n,
{
    if n <= 0 {
        Seq::empty()
    } else {
        crossings(w, h, n - 1) + crossing_mark(w, h, n - 1)
    }
}

/// `0,0` on a background at the top-left corner, `1,1` at the bottom-right.
pub open spec fn corner_marks(w: int, h: int) -> Seq<Blend> {
    sweep(w, h, 14, 32, Shape::Rect { x: 2, y: 2 }, label_bg_color()) + text_ops(
        w,
        h,
        "0,0"@,
        4,
        4,
        text_color(),
        shadow_color(),
    ) + sweep(w, h, 14, 32, Shape::Rect { x: (w - 34) as i64, y: (h - 16) as i64 }, label_bg_color())
        + text_ops(w, h, "1,1"@, w - 32, h - 14, text_color(), shadow_color())
}

/// The whole grid over a `w` by `h` frame, in drawing order.
pub open spec fn grid_spec(w: int, h: int) -> Seq<Blend> {
    edges(w, h, 9) + all_dashes(w, h, 3) + crossings(w, h, 9) + corner_marks(w, h)
}

fn edge_into(ops: &mut Vec<Blend>, w: u32, h: u32, i: u32)
    requires
        1 <= i <= 9,
    ensures
        final(ops)@ == old(ops)@ + edge_marks(w as int, h as int, i as int),
{
    let fg = Rgba8 { r: 255, g: 255, b: 0, a: 220 };
    let sh = Rgba8 { r: 0, g: 0, b: 0, a: 200 };
    assert((w as int) * (i as int) / 10 <= w && (h as int) * (i as int) / 10 <= h) by (nonlinear_arith)
        requires
            1 <= i <= 9,
    ;
    let tx = ((w as u64) * (i as u64) / 10) as i64;
    let ty = ((h as u64) * (i as u64) / 10) as i64;
    let label: Vec<char> = vec!['0', '.', ((48 + i) as u8) as char];
    assert(label@ =~= edge_label(i as int));
    sweep_into(ops, w, h, 12, 2, Shape::Rect { x: tx, y: 0 }, fg);
    text_into(ops, w, h, &label, tx - 6, 14, fg, sh);
    sweep_into(ops, w, h, 12, 2, Shape::BottomTick { x: tx, h: h as i64 }, fg);
    text_into(ops, w, h, &label, tx - 6, h as i64 - 26, fg, sh);
    sweep_into(ops, w, h, 12, 2, Shape::LeftTick { y: ty }, fg);
    text_into(ops, w, h, &label, 14, ty - 5, fg, sh);
    sweep_into(ops, w, h, 12, 2, Shape::RightTick { w: w as i64, y: ty }, fg);
    text_into(ops, w, h, &label, w as i64 - 35, ty - 5, fg, sh);
    proof {
        assert(ops@ =~= old(ops)@ + edge_marks(w as int, h as int, i as int));
    }
}

fn dash_into(ops: &mut Vec<Blend>, w: u32, h: u32, q: u32)
    requires
        1 <= q <= 3,
    ensures
        final(ops)@ == old(ops)@ + dashes(w as int, h as int, q as int),
{
    let line = Rgba8 { r: 255, g: 255, b: 0, a: 120 };
    assert((w as int) * (q as int) / 4 <= w && (h as int) * (q as int) / 4 <= h) by (nonlinear_arith)
        requires
            1 <= q <= 3,
    ;
    let gx = ((w as u64) * (q as u64) / 4) as i64;
    let gy = ((h as u64) * (q as u64) / 4) as i64;
    sweep_into(ops, w, h, h, 2, Shape::VDash { x: gx }, line);
    sweep_into(ops, w, h, w, 2, Shape::HDash { y: gy }, line);
    proof {
        assert(ops@ =~= old(ops)@ + dashes(w as int, h as int, q as int));
    }
}

fn percent_str(q: u32) -> (r: &'static str)
    requires
        1 <= q <= 3,
    ensures
        r@ == percent_label(q as int),
        r@.len() == 2,
{
    proof {
        reveal_strlit("25");
        reveal_strlit("50");
        reveal_strlit("75");
    }
    if q == 1 {
        "25"
    } else if q == 2 {
        "50"
    } else {
        "75"
    }
}

fn crossing_into(ops: &mut Vec<Blend>, w: u32, h: u32, k: u32)
    requires
        k < 9,
    ensures
        final(ops)@ == old(ops)@ + crossing_mark(w as int, h as int, k as int),
{
    let bg = Rgba8 { r: 0, g: 0, b: 0, a: 160 };
    let fg = Rgba8 { r: 255, g: 255, b: 0, a: 220 };
    let sh = Rgba8 { r: 0, g: 0, b: 0, a: 200 };
    let qy = k / 3 + 1;
    let qx = k % 3 + 1;
    assert((w as int) * (qx as int) / 4 <= w && (h as int) * (qy as int) / 4 <= h) by (nonlinear_arith)
        requires
            1 <= qx <= 3,
            1 <= qy <= 3,
    ;
    let cx = ((w as u64) * (qx as u64) / 4) as i64;
    let cy = ((h as u64) * (qy as u64) / 4) as i64;
    let mut label = chars_of(percent_str(qx));
    label.push(',');
    push_chars(&mut label, &chars_of(percent_str(qy)));
    assert(label@ =~= crossing_label(qx as int, qy as int));
    sweep_into(ops, w, h, 14, 39, Shape::Rect { x: cx + 3, y: cy + 3 }, bg);
    text_into(ops, w, h, &label, cx + 5, cy + 5, fg, sh);
    proof {
        assert(ops@ =~= old(ops)@ + crossing_mark(w as int, h as int, k as int));
    }
}

fn corners_into(ops: &mut Vec<Blend>, w: u32, h: u32)
    ensures
        final(ops)@ == old(ops)@ + corner_marks(w as int, h as int),
{
    let bg = Rgba8 { r: 0, g: 0, b: 0, a: 160 };
    let fg = Rgba8 { r: 255, g: 255, b: 0, a: 220 };
    let sh = Rgba8 { r: 0, g: 0, b: 0, a: 200 };
    proof {
        reveal_strlit("0,0");
        reveal_strlit("1,1");
    }
    sweep_into(ops, w, h, 14, 32, Shape::Rect { x: 2, y: 2 }, bg);
    text_into(ops, w, h, &chars_of("0,0"), 4, 4, fg, sh);
    let bx = w as i64 - 34;
    let by = h as i64 - 16;
    sweep_into(ops, w, h, 14, 32, Shape::Rect { x: bx, y: by }, bg);
    text_into(ops, w, h, &chars_of("1,1"), bx + 2, by + 2, fg, sh);
    proof {
        assert(ops@ =~= old(ops)@ + corner_marks(w as int, h as int));
    }
}

/// The coordinate grid over a `w` by `h` frame, as the pixels to blend in order.
pub fn grid_plan(w: u32, h: u32) -> (r: Vec<Blend>)
    ensures
        r@ == grid_spec(w as int, h as int),
{
    let mut ops: Vec<Blend> = Vec::new();
    let mut i: u32 = 1;
    while i <= 9
        invariant
            1 <= i <= 10,
            ops@ == edges(w as int, h as int, i - 1),
        decreases 10 - i,
    {
        edge_into(&mut ops, w, h, i);
        i = i + 1;
    }
    let ghost base = ops@;
    let mut q: u32 = 1;
    while q <= 3
        invariant
            1 <= q <= 4,
            base == edges(w as int, h as int, 9),
            ops@ == base + all_dashes(w as int, h as int, q - 1),
        decreases 4 - q,
    {
        dash_into(&mut ops, w, h, q);
        proof {
            assert(ops@ =~= base + all_dashes(w as int, h as int, q as int));
        }
        q = q + 1;
    }
    let ghost base2 = ops@;
    let mut k: u32 = 0;
    while k < 9
        invariant
            k <= 9,
            base2 == edges(w as int, h as int, 9) + all_dashes(w as int, h as int, 3),
            ops@ == base2 + crossings(w as int, h as int, k as int),
        decreases 9 - k,
    {
        crossing_into(&mut ops, w, h, k);
        proof {
            assert(ops@ =~= base2 + crossings(w as int, h as int, k + 1));
        }
        k = k + 1;
    }
    corners_into(&mut ops, w, h);
    ops
}

} // verus!
