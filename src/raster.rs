use vstd::prelude::*;
use crate::snapshot::{rgba_len, ClipboardSnapshot};

verus! {

/// Largest width or height of a canvas: a row of RGBA8 pixels must stay
/// within `i32::MAX` bytes.
pub const MAX_SIDE: u32 = 0x1fff_ffff;

/// What a canvas holds: its size and its RGBA8 bytes, row-major.
pub struct Raster {
    pub width: u32,
    pub height: u32,
    pub bytes: Seq<u8>,
}

/// Whether a canvas of `width` by `height` pixels can exist.
pub open spec fn size_ok(width: int, height: int) -> bool {
    &&& 0 < width <= MAX_SIDE
    &&& 0 < height <= MAX_SIDE
    &&& rgba_len(width, height) <= usize::MAX
}

/// Whether a canvas of `width` by `height` pixels can exist.
pub fn fits(width: u32, height: u32) -> (r: bool)
    ensures
        r == size_ok(width as int, height as int),
{
    if width == 0 || width > MAX_SIDE || height == 0 || height > MAX_SIDE {
        return false;
    }
    match (width as usize).checked_mul(height as usize) {
        Some(n) => n.checked_mul(4).is_some(),
        None => {
            assert(rgba_len(width as int, height as int) > usize::MAX) by (nonlinear_arith)
                requires
                    width as int * height as int > usize::MAX,
                    height > 0,
            ;
            false
        },
    }
}

/// A fully transparent raster of `width` by `height` pixels.
pub open spec fn blank_raster(width: u32, height: u32) -> Raster {
    Raster {
        width,
        height,
        bytes: Seq::new(rgba_len(width as int, height as int) as nat, |i: int| 0u8),
    }
}

/// The 1x1 transparent raster that stands in for a degenerate layout.
pub open spec fn placeholder_raster() -> Raster {
    blank_raster(1, 1)
}

/// The bytes that drawing the pixmap `src` over the pixmap `dst` at offset
/// `(x, y)` leaves in `dst`, blending source-over.
pub uninterp spec fn drawn_over(
    dst: Seq<u8>,
    dst_width: u32,
    dst_height: u32,
    src: Seq<u8>,
    src_width: u32,
    src_height: u32,
    x: i32,
    y: i32,
) -> Seq<u8>;

/// The bytes of a pixmap of `len` bytes filled with the color `(r, g, b, a)`.
pub uninterp spec fn filled_with(len: nat, r: u8, g: u8, b: u8, a: u8) -> Seq<u8>;

/// Whether a source of `src_width` by `src_height` placed at `(x, y)` keeps
/// its far edges within `i32`, as drawing requires.
pub open spec fn placeable(src_width: int, src_height: int, x: int, y: int) -> bool {
    x + src_width <= i32::MAX && y + src_height <= i32::MAX
}

/// `dst` with `src` drawn over it at `(x, y)`.
pub open spec fn draw_raster(dst: Raster, src: Raster, x: i32, y: i32) -> Raster {
    Raster {
        bytes: drawn_over(dst.bytes, dst.width, dst.height, src.bytes, src.width, src.height, x, y),
        ..dst
    }
}

/// Relies on tiny_skia::PixmapMut::draw_pixmap with the default paint
/// (source-over, nearest filtering) and no transform: it blends `src` over
/// `dst` in place, at offset `(x, y)`.
#[verifier::external_body]
fn draw_pixmap_over(
    dst: &mut Vec<u8>,
    dst_width: u32,
    dst_height: u32,
    src: &Vec<u8>,
    src_width: u32,
    src_height: u32,
    x: i32,
    y: i32,
)
    requires
        size_ok(dst_width as int, dst_height as int),
        size_ok(src_width as int, src_height as int),
        old(dst)@.len() == rgba_len(dst_width as int, dst_height as int),
        src@.len() == rgba_len(src_width as int, src_height as int),
        placeable(src_width as int, src_height as int, x as int, y as int),
    ensures
        final(dst)@ == drawn_over(
            old(dst)@,
            dst_width,
            dst_height,
            src@,
            src_width,
            src_height,
            x,
            y,
        ),
        final(dst)@.len() == old(dst)@.len(),
{
    let mut target = tiny_skia::PixmapMut::from_bytes(dst.as_mut_slice(), dst_width, dst_height).unwrap();
    let source = tiny_skia::PixmapRef::from_bytes(src.as_slice(), src_width, src_height).unwrap();
    let paint = tiny_skia::PixmapPaint::default();
    target.draw_pixmap(x, y, source, &paint, tiny_skia::Transform::identity(), None);
}

/// Relies on tiny_skia::PixmapMut::fill: every pixel becomes the same four
/// bytes, the color `(r, g, b, a)` premultiplied, whose alpha stays `a`.
#[verifier::external_body]
fn fill_pixmap(data: &mut Vec<u8>, width: u32, height: u32, r: u8, g: u8, b: u8, a: u8)
    requires
        size_ok(width as int, height as int),
        old(data)@.len() == rgba_len(width as int, height as int),
    ensures
        final(data)@ == filled_with(old(data)@.len(), r, g, b, a),
        final(data)@.len() == old(data)@.len(),
        forall|k: int| 0 <= k < final(data)@.len() ==> #[trigger] final(data)@[k] == final(data)@[k % 4],
        final(data)@[3] == a,
{
    let mut target = tiny_skia::PixmapMut::from_bytes(data.as_mut_slice(), width, height).unwrap();
    target.fill(tiny_skia::Color::from_rgba8(r, g, b, a));
}

/// A software pixel buffer: `width * height` RGBA8 pixels, row-major.
pub struct Canvas {
    width: u32,
    height: u32,
    data: Vec<u8>,
}

impl View for Canvas {
    type V = Raster;

    closed spec fn view(&self) -> Raster {
        Raster { width: self.width, height: self.height, bytes: self.data@ }
    }
}

impl Canvas {
    /// The size is within bounds and there are four bytes per pixel.
    pub open spec fn wf(&self) -> bool {
        &&& size_ok(self@.width as int, self@.height as int)
        &&& self@.bytes.len() == rgba_len(self@.width as int, self@.height as int)
    }

    /// A transparent canvas of `width` by `height` pixels.
    pub fn blank(width: u32, height: u32) -> (r: Canvas)
        requires
            size_ok(width as int, height as int),
        ensures
            r.wf(),
            r@ == blank_raster(width, height),
    {
        let n = width as usize * height as usize * 4;
        let mut data: Vec<u8> = Vec::with_capacity(n);
        let mut i: usize = 0;
        while i < n
            invariant
                i <= n,
                data@ == Seq::new(i as nat, |k: int| 0u8),
            decreases n - i,
        {
            data.push(0);
            i = i + 1;
        }
        let r = Canvas { width, height, data };
        assert(r@.bytes =~= blank_raster(width, height).bytes);
        r
    }

    /// The 1x1 transparent canvas that stands in for a degenerate layout.
    pub fn placeholder() -> (r: Canvas)
        ensures
            r.wf(),
            r@ == placeholder_raster(),
    {
        Canvas::blank(1, 1)
    }

    /// A canvas of `width` by `height` pixels filled with `(r, g, b, a)`:
    /// every pixel is the same premultiplied color, with alpha `a`.
    pub fn filled(width: u32, height: u32, r: u8, g: u8, b: u8, a: u8) -> (c: Canvas)
        requires
            size_ok(width as int, height as int),
        ensures
            c.wf(),
            forall|k: int| 0 <= k < c@.bytes.len() ==> #[trigger] c@.bytes[k] == c@.bytes[k % 4],
            c@.bytes[3] == a,
            c@ == (Raster {
                width,
                height,
                bytes: filled_with(rgba_len(width as int, height as int) as nat, r, g, b, a),
            }),
    {
        let mut c = Canvas::blank(width, height);
        fill_pixmap(&mut c.data, width, height, r, g, b, a);
        c
    }

    /// A canvas over the given bytes, if they are four per pixel of a size
    /// within bounds.
    pub fn from_parts(width: u32, height: u32, data: Vec<u8>) -> (r: Option<Canvas>)
        ensures
            r is Some <==> size_ok(width as int, height as int) && data@.len() == rgba_len(
                width as int,
                height as int,
            ),
            r matches Some(c) ==> c.wf() && c@ == (Raster { width, height, bytes: data@ }),
    {
        if width == 0 || width > MAX_SIDE || height == 0 || height > MAX_SIDE {
            return None;
        }
        let len = data.len();
        let n = (width as usize).checked_mul(height as usize);
        match n {
            Some(n) => match n.checked_mul(4) {
                Some(m) => {
                    if len == m {
                        Some(Canvas { width, height, data })
                    } else {
                        None
                    }
                },
                None => None,
            },
            None => None,
        }
    }

    /// The size and bytes of the canvas.
    pub fn into_parts(self) -> (r: (u32, u32, Vec<u8>))
        ensures
            r.0 == self@.width,
            r.1 == self@.height,
            r.2@ == self@.bytes,
    {
        (self.width, self.height, self.data)
    }

    /// Width in pixels.
    pub fn width(&self) -> (r: u32)
        ensures
            r == self@.width,
    {
        self.width
    }

    /// Height in pixels.
    pub fn height(&self) -> (r: u32)
        ensures
            r == self@.height,
    {
        self.height
    }

    /// The RGBA8 bytes, row-major.
    pub fn bytes(&self) -> (r: &[u8])
        ensures
            r@ == self@.bytes,
    {
        self.data.as_slice()
    }

    /// The RGBA8 value of pixel `(x, y)`.
    pub fn pixel(&self, x: u32, y: u32) -> (r: (u8, u8, u8, u8))
        requires
            self.wf(),
            x < self@.width,
            y < self@.height,
        ensures
            ({
                let k = (y as int * self@.width as int + x as int) * 4;
                r == (self@.bytes[k], self@.bytes[k + 1], self@.bytes[k + 2], self@.bytes[k + 3])
            }),
    {
        proof {
            assert((y as int * self.width as int + x as int) * 4 + 3 < rgba_len(
                self.width as int,
                self.height as int,
            )) by (nonlinear_arith)
                requires
                    x < self.width,
                    y < self.height,
            ;
        }
        let k = (y as usize * self.width as usize + x as usize) * 4;
        (self.data[k], self.data[k + 1], self.data[k + 2], self.data[k + 3])
    }

    /// Draws `src` over this canvas at `(x, y)`, blending source-over;
    /// whatever falls outside is clipped.
    pub fn draw(&mut self, src: &Canvas, x: i32, y: i32)
        requires
            old(self).wf(),
            src.wf(),
            placeable(src@.width as int, src@.height as int, x as int, y as int),
        ensures
            final(self).wf(),
            final(self)@ == draw_raster(old(self)@, src@, x, y),
    {
        draw_pixmap_over(&mut self.data, self.width, self.height, &src.data, src.width, src.height, x, y);
    }
}

/// An RGB color.
#[derive(Clone, Copy, Debug, PartialEq, Eq, Structural)]
pub struct Rgb {
    pub r: u8,
    pub g: u8,
    pub b: u8,
}

/// A glyph's coverage bitmap as the font rasterizer gives it: one byte of
/// coverage per pixel, row-major.
pub struct GlyphBitmap {
    pub width: u32,
    pub height: u32,
    pub coverage: Vec<u8>,
}

impl GlyphBitmap {
    /// One coverage byte per pixel.
    pub open spec fn wf(&self) -> bool {
        self.coverage@.len() == self.width as int * self.height as int
    }
}

/// A coverage bitmap tinted to `color`: each pixel gets the color's channels
/// and keeps its coverage as alpha.
pub open spec fn tinted_raster(width: u32, height: u32, coverage: Seq<u8>, color: Rgb) -> Raster {
    Raster {
        width,
        height,
        bytes: Seq::new(
            rgba_len(width as int, height as int) as nat,
            |i: int|
                if i % 4 == 0 {
                    color.r
                } else if i % 4 == 1 {
                    color.g
                } else if i % 4 == 2 {
                    color.b
                } else {
                    coverage[i / 4]
                },
        ),
    }
}

/// The raster of one character at font size `size`: a space is a blank
/// `size` square, a tab a blank of twice that width, and any other character
/// its tinted bitmap. A size that cannot exist gives the placeholder.
pub open spec fn glyph_raster(ch: char, size: u32, bitmap: GlyphBitmap, color: Rgb) -> Raster {
    if ch == ' ' {
        if size_ok(size as int, size as int) {
            blank_raster(size, size)
        } else {
            placeholder_raster()
        }
    } else if ch == '\t' {
        if size_ok(2 * size as int, size as int) {
            blank_raster((2 * size) as u32, size)
        } else {
            placeholder_raster()
        }
    } else if size_ok(bitmap.width as int, bitmap.height as int) {
        tinted_raster(bitmap.width, bitmap.height, bitmap.coverage@, color)
    } else {
        placeholder_raster()
    }
}

/// A pixel's value in the surface's packed format: `0x00RRGGBB`.
pub open spec fn packed(r: u8, g: u8, b: u8) -> u32 {
    (r as int * 65536 + g as int * 256 + b as int) as u32
}

proof fn lemma_pack_bits(r: u8, g: u8, b: u8)
    ensures
        ((r as u32) << 16u32) | ((g as u32) << 8u32) | (b as u32) == r as u32 * 65536 + g as u32 * 256
            + b as u32,
{
    assert(((r as u32) << 16u32) | ((g as u32) << 8u32) | (b as u32) == r as u32 * 65536 + g as u32
        * 256 + b as u32) by (bit_vector);
}

/// Tints a glyph's coverage bitmap to `color`, or gives the placeholder when
/// the bitmap has no pixels or is too large.
pub fn tint_glyph(bitmap: &GlyphBitmap, color: Rgb) -> (r: Canvas)
    requires
        bitmap.wf(),
    ensures
        r.wf(),
        size_ok(bitmap.width as int, bitmap.height as int) ==> r@ == tinted_raster(
            bitmap.width,
            bitmap.height,
            bitmap.coverage@,
            color,
        ),
        !size_ok(bitmap.width as int, bitmap.height as int) ==> r@ == placeholder_raster(),
{
    let w = bitmap.width;
    let h = bitmap.height;
    if w == 0 || w > MAX_SIDE || h == 0 || h > MAX_SIDE {
        return Canvas::placeholder();
    }
    let n = bitmap.coverage.len();
    if n > usize::MAX / 4 {
        return Canvas::placeholder();
    }
    let ghost t = tinted_raster(w, h, bitmap.coverage@, color);
    let mut data: Vec<u8> = Vec::with_capacity(n * 4);
    let mut j: usize = 0;
    while j < n
        invariant
            j <= n,
            n == bitmap.coverage@.len(),
            n * 4 <= usize::MAX,
            data@.len() == 4 * j,
            forall|k: int|
                0 <= k < 4 * j ==> data@[k] == (if k % 4 == 0 {
                    color.r
                } else if k % 4 == 1 {
                    color.g
                } else if k % 4 == 2 {
                    color.b
                } else {
                    bitmap.coverage@[k / 4]
                }),
        decreases n - j,
    {
        data.push(color.r);
        data.push(color.g);
        data.push(color.b);
        data.push(bitmap.coverage[j]);
        j = j + 1;
    }
    let r = Canvas { width: w, height: h, data };
    assert(r@.bytes =~= t.bytes);
    r
}

/// The canvas of one character at font size `size`, with `bitmap` its
/// rasterized glyph: spaces and tabs are blank placeholders of fixed width.
pub fn glyph_canvas(ch: char, size: u32, bitmap: &GlyphBitmap, color: Rgb) -> (r: Canvas)
    requires
        bitmap.wf(),
    ensures
        r.wf(),
        r@ == glyph_raster(ch, size, *bitmap, color),
{
    if ch == ' ' {
        if fits(size, size) {
            Canvas::blank(size, size)
        } else {
            Canvas::placeholder()
        }
    } else if ch == '\t' {
        if size <= MAX_SIDE / 2 && fits(2 * size, size) {
            Canvas::blank(2 * size, size)
        } else {
            Canvas::placeholder()
        }
    } else {
        tint_glyph(bitmap, color)
    }
}

/// Copies an image snapshot's pixels into a canvas of the image's own size;
/// `None` for text, for no content, and for an image too large for a canvas.
pub fn image_canvas(content: &ClipboardSnapshot) -> (r: Option<Canvas>)
    requires
        content.wf(),
    ensures
        match *content {
            ClipboardSnapshot::Image { width, height, pixels } => if size_ok(
                width as int,
                height as int,
            ) {
                r matches Some(c) && c.wf() && c@ == (Raster { width, height, bytes: pixels@ })
            } else {
                r is None
            },
            _ => r is None,
        },
{
    match content {
        ClipboardSnapshot::Image { width, height, pixels } => {
            let w = *width;
            let h = *height;
            if w == 0 || w > MAX_SIDE || h == 0 || h > MAX_SIDE {
                return None;
            }
            let n = pixels.len();
            let mut data: Vec<u8> = Vec::with_capacity(n);
            let mut i: usize = 0;
            while i < n
                invariant
                    i <= n,
                    n == pixels@.len(),
                    data@ == pixels@.subrange(0, i as int),
                decreases n - i,
            {
                data.push(pixels[i]);
                i = i + 1;
            }
            assert(data@ =~= pixels@);
            Some(Canvas { width: w, height: h, data })
        },
        _ => None,
    }
}

impl Canvas {
    /// The canvas in the surface's packed format: one `0x00RRGGBB` word per
    /// pixel, row-major, alpha dropped.
    pub fn pack(&self) -> (r: Vec<u32>)
        requires
            self.wf(),
        ensures
            r@.len() == self@.width as int * self@.height as int,
            forall|i: int|
                0 <= i < r@.len() ==> r@[i] == packed(
                    self@.bytes[4 * i],
                    self@.bytes[4 * i + 1],
                    self@.bytes[4 * i + 2],
                ),
    {
        let len = self.data.len();
        let n = len / 4;
        let mut out: Vec<u32> = Vec::with_capacity(n);
        let mut i: usize = 0;
        while i < n
            invariant
                i <= n,
                n * 4 == self.data@.len(),
                len == self.data@.len(),
                out@.len() == i,
                forall|k: int|
                    0 <= k < i ==> out@[k] == packed(
                        self.data@[4 * k],
                        self.data@[4 * k + 1],
                        self.data@[4 * k + 2],
                    ),
            decreases n - i,
        {
            assert(4 * i + 3 < self.data@.len());
            let r = self.data[4 * i];
            let g = self.data[4 * i + 1];
            let b = self.data[4 * i + 2];
            proof {
                lemma_pack_bits(r, g, b);
            }
            out.push(((r as u32) << 16u32) | ((g as u32) << 8u32) | (b as u32));
            i = i + 1;
        }
        proof {
            assert(n == self.width as int * self.height as int);
        }
        out
    }
}

} // verus!
