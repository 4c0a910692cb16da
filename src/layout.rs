use vstd::prelude::*;
use crate::text::{breaks_in, lemma_lines_round_trip, lines_of};
use crate::raster::{
    blank_raster, draw_raster, fits, glyph_canvas, glyph_raster, placeable, placeholder_raster,
    size_ok,
    Canvas, GlyphBitmap, Raster, Rgb,
};

verus! {

/// Font size of the probe rendering that the fitted size is scaled from.
pub const PROBE_SIZE: u32 = 10;

/// Line height of the probe rendering.
pub const PROBE_LINE_HEIGHT: u64 = 12;

/// A glyph as the font's layout places it in a line: its character, the
/// top-left corner and size of its box, and its rasterized bitmap.
pub struct PlacedGlyph {
    pub ch: char,
    pub x: i32,
    pub y: i32,
    pub width: u32,
    pub height: u32,
    pub bitmap: GlyphBitmap,
}

/// Width of a laid-out line: where the last glyph's box ends.
pub open spec fn line_width(gs: Seq<PlacedGlyph>) -> int {
    if gs.len() == 0 {
        0
    } else {
        gs.last().x + gs.last().width
    }
}

/// Height of a laid-out line: the lowest bottom of any glyph box, at least 0.
pub open spec fn line_height(gs: Seq<PlacedGlyph>) -> int
    decreases gs.len(),
{
    if gs.len() == 0 {
        0
    } else {
        let h = line_height(gs.drop_last());
        let b = gs.last().y + gs.last().height;
        if b > h {
            b
        } else {
            h
        }
    }
}

/// `base` with each glyph's raster drawn over it in turn, at its position.
/// A glyph whose far edge would pass `i32::MAX` is skipped: it starts more
/// than `MAX_SIDE` pixels right of or below the origin, so it would lie wholly
/// outside any canvas.
pub open spec fn paint_glyphs(base: Raster, gs: Seq<PlacedGlyph>, size: u32, color: Rgb) -> Raster
    decreases gs.len(),
{
    if gs.len() == 0 {
        base
    } else {
        let g = gs.last();
        let before = paint_glyphs(base, gs.drop_last(), size, color);
        let r = glyph_raster(g.ch, size, g.bitmap, color);
        if placeable(r.width as int, r.height as int, g.x as int, g.y as int) {
            draw_raster(before, r, g.x, g.y)
        } else {
            before
        }
    }
}

/// The raster of one line of text: its glyphs drawn on a transparent canvas
/// of the line's width and height, or the placeholder when that size cannot
/// exist (no glyph, nothing visible, or too large).
pub open spec fn line_raster(gs: Seq<PlacedGlyph>, size: u32, color: Rgb) -> Raster {
    let w = line_width(gs);
    let h = line_height(gs);
    if size_ok(w, h) {
        paint_glyphs(blank_raster(w as u32, h as u32), gs, size, color)
    } else {
        placeholder_raster()
    }
}

/// Lays out one line of text from its placed glyphs, at font size `size`,
/// tinted to `color`.
pub fn render_line(glyphs: &Vec<PlacedGlyph>, size: u32, color: Rgb) -> (r: Canvas)
    requires
        forall|i: int| 0 <= i < glyphs@.len() ==> (#[trigger] glyphs@[i]).bitmap.wf(),
    ensures
        r.wf(),
        r@ == line_raster(glyphs@, size, color),
{
    let n = glyphs.len();
    let mut width: i64 = 0;
    let mut height: i64 = 0;
    let mut i: usize = 0;
    while i < n
        invariant
            i <= n,
            n == glyphs@.len(),
            width == line_width(glyphs@.take(i as int)),
            height == line_height(glyphs@.take(i as int)),
            0 <= height <= i32::MAX as int + u32::MAX as int,
        decreases n - i,
    {
        let g = &glyphs[i];
        proof {
            assert(glyphs@.take(i + 1).drop_last() =~= glyphs@.take(i as int));
        }
        width = g.x as i64 + g.width as i64;
        let bottom = g.y as i64 + g.height as i64;
        if bottom > height {
            height = bottom;
        }
        i = i + 1;
    }
    proof {
        assert(glyphs@.take(n as int) =~= glyphs@);
    }
    if width <= 0 || width > u32::MAX as i64 || height <= 0 || height > u32::MAX as i64 {
        return Canvas::placeholder();
    }
    if !fits(width as u32, height as u32) {
        return Canvas::placeholder();
    }
    let mut canvas = Canvas::blank(width as u32, height as u32);
    let ghost base = canvas@;
    let mut j: usize = 0;
    while j < n
        invariant
            j <= n,
            n == glyphs@.len(),
            forall|k: int| 0 <= k < glyphs@.len() ==> (#[trigger] glyphs@[k]).bitmap.wf(),
            canvas.wf(),
            canvas@ == paint_glyphs(base, glyphs@.take(j as int), size, color),
        decreases n - j,
    {
        let g = &glyphs[j];
        let gc = glyph_canvas(g.ch, size, &g.bitmap, color);
        if g.x as i64 + gc.width() as i64 <= i32::MAX as i64 && g.y as i64 + gc.height() as i64
            <= i32::MAX as i64 {
            canvas.draw(&gc, g.x, g.y);
        }
        proof {
            assert(glyphs@.take(j + 1).drop_last() =~= glyphs@.take(j as int));
        }
        j = j + 1;
    }
    proof {
        assert(glyphs@.take(n as int) =~= glyphs@);
    }
    canvas
}

/// The widest of the rasters `ls`, at least 0.
pub open spec fn widest(ls: Seq<Raster>) -> int
    decreases ls.len(),
{
    if ls.len() == 0 {
        0
    } else {
        let w = widest(ls.drop_last());
        if ls.last().width > w {
            ls.last().width as int
        } else {
            w
        }
    }
}

/// `base` with each line drawn at the left edge of its slot of height
/// `line_height`, bottom-aligned in the slot.
pub open spec fn paint_lines(base: Raster, ls: Seq<Raster>, line_height: int) -> Raster
    decreases ls.len(),
{
    if ls.len() == 0 {
        base
    } else {
        draw_raster(
            paint_lines(base, ls.drop_last(), line_height),
            ls.last(),
            0,
            (ls.len() * line_height - ls.last().height) as i32,
        )
    }
}

/// A block of lines: as wide as the widest line and `line_height` per line
/// high, or the placeholder when that size cannot exist.
pub open spec fn block_raster(ls: Seq<Raster>, line_height: int) -> Raster {
    let w = widest(ls);
    let h = ls.len() * line_height;
    if size_ok(w, h) {
        paint_lines(blank_raster(w as u32, h as u32), ls, line_height)
    } else {
        placeholder_raster()
    }
}

proof fn lemma_paint_lines_keeps_size(base: Raster, ls: Seq<Raster>, line_height: int)
    ensures
        paint_lines(base, ls, line_height).width == base.width,
        paint_lines(base, ls, line_height).height == base.height,
    decreases ls.len(),
{
    if ls.len() > 0 {
        lemma_paint_lines_keeps_size(base, ls.drop_last(), line_height);
    }
}

/// Layout keeps the line count: the block of the lines of `s`, one rendered
/// raster per line, is one slot of `line_height` high for each line, and there
/// is one line more than `s` has line breaks, empty lines and a trailing break
/// included. This holds wherever the block fits a canvas.
pub proof fn lemma_layout_keeps_line_count(s: Seq<char>, ls: Seq<Raster>, line_height: int)
    requires
        ls.len() == lines_of(s).len(),
        size_ok(widest(ls), ls.len() * line_height),
    ensures
        block_raster(ls, line_height).height == (breaks_in(s) + 1) * line_height,
        block_raster(ls, line_height).width == widest(ls),
{
    lemma_lines_round_trip(s);
    let w = widest(ls);
    let h = ls.len() * line_height;
    lemma_paint_lines_keeps_size(blank_raster(w as u32, h as u32), ls, line_height);
}

/// Stacks rendered lines into one block, a slot of `line_height` each.
pub fn stack_lines(lines: &Vec<Canvas>, line_height: u64) -> (r: Canvas)
    requires
        forall|i: int| 0 <= i < lines@.len() ==> (#[trigger] lines@[i]).wf(),
    ensures
        r.wf(),
        r@ == block_raster(lines@.map_values(|c: Canvas| c@), line_height as int),
{
    let ghost ls = lines@.map_values(|c: Canvas| c@);
    let n = lines.len();
    let mut width: u32 = 0;
    let mut i: usize = 0;
    while i < n
        invariant
            i <= n,
            n == lines@.len(),
            ls == lines@.map_values(|c: Canvas| c@),
            width == widest(ls.take(i as int)),
        decreases n - i,
    {
        proof {
            assert(ls.take(i + 1).drop_last() =~= ls.take(i as int));
        }
        let w = lines[i].width();
        if w > width {
            width = w;
        }
        i = i + 1;
    }
    proof {
        assert(ls.take(n as int) =~= ls);
    }
    let total = (n as u64).checked_mul(line_height);
    let height: u64 = match total {
        Some(h) => h,
        None => {
            return Canvas::placeholder();
        },
    };
    if height > u32::MAX as u64 || !fits(width, height as u32) {
        return Canvas::placeholder();
    }
    let mut canvas = Canvas::blank(width, height as u32);
    let ghost base = canvas@;
    let mut j: usize = 0;
    while j < n
        invariant
            j <= n,
            n == lines@.len(),
            ls == lines@.map_values(|c: Canvas| c@),
            forall|k: int| 0 <= k < lines@.len() ==> (#[trigger] lines@[k]).wf(),
            n * line_height == height,
            height <= u32::MAX,
            size_ok(width as int, height as int),
            canvas.wf(),
            canvas@ == paint_lines(base, ls.take(j as int), line_height as int),
        decreases n - j,
    {
        let line = &lines[j];
        assert((j + 1) * line_height <= n * line_height) by (nonlinear_arith)
            requires
                j < n,
        ;
        let slot_bottom = (j as u64 + 1) * line_height;
        let y = slot_bottom as i64 - line.height() as i64;
        canvas.draw(line, 0, y as i32);
        proof {
            assert(ls.take(j + 1).drop_last() =~= ls.take(j as int));
            assert(ls.take(j + 1).last() == line@);
        }
        j = j + 1;
    }
    proof {
        assert(ls.take(n as int) =~= ls);
    }
    canvas
}

/// The font size that makes a block measured at the probe size fill a window
/// of `width` by `height`: the probe block's size is scaled linearly, and the
/// tighter of the two directions wins.
pub open spec fn fitted_size(width: int, height: int, probe_width: int, probe_height: int) -> int {
    let by_height = height * PROBE_SIZE / probe_height;
    let by_width = width * PROBE_SIZE / probe_width;
    if by_height < by_width {
        by_height
    } else {
        by_width
    }
}

/// The font size for a window of `width` by `height`, from the size of the
/// text block rendered at the probe size; capped at `u32::MAX`.
pub fn fit_font_size(width: u32, height: u32, probe_width: u32, probe_height: u32) -> (r: u32)
    requires
        probe_width > 0,
        probe_height > 0,
    ensures
        fitted_size(width as int, height as int, probe_width as int, probe_height as int)
            <= u32::MAX ==> r == fitted_size(
            width as int,
            height as int,
            probe_width as int,
            probe_height as int,
        ),
        fitted_size(width as int, height as int, probe_width as int, probe_height as int)
            > u32::MAX ==> r == u32::MAX,
{
    let probe = PROBE_SIZE as u64;
    assert(probe == 10);
    let by_height = height as u64 * probe / probe_height as u64;
    let by_width = width as u64 * probe / probe_width as u64;
    let s = if by_height < by_width {
        by_height
    } else {
        by_width
    };
    if s > u32::MAX as u64 {
        u32::MAX
    } else {
        s as u32
    }
}

/// The line height for font size `size`: 1.2 times the size, rounded down.
pub fn line_height_for(size: u32) -> (r: u64)
    ensures
        r == size as int * 6 / 5,
{
    size as u64 * 6 / 5
}

/// Offset that centres an extent of `inner` within one of `outer`.
pub fn center_offset(outer: u32, inner: u32) -> (r: i32)
    requires
        inner <= crate::raster::MAX_SIDE,
    ensures
        r == outer as int / 2 - inner as int / 2,
{
    (outer as i64 / 2 - inner as i64 / 2) as i32
}

} // verus!
