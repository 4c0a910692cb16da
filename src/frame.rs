use vstd::prelude::*;
use crate::layout::center_offset;
use crate::raster::{draw_raster, filled_with, fits, size_ok, Canvas, Raster, Rgb};
use crate::snapshot::rgba_len;

verus! {

/// Red channel of the note background.
pub const BACKGROUND_R: u8 = 250;

/// Green channel of the note background.
pub const BACKGROUND_G: u8 = 250;

/// Blue channel of the note background.
pub const BACKGROUND_B: u8 = 120;

/// Alpha channel of the note background.
pub const BACKGROUND_A: u8 = 250;

/// The color text is drawn in.
pub open spec fn text_color_spec() -> Rgb {
    Rgb { r: 255, g: 0, b: 0 }
}

/// The color text is drawn in: red.
pub fn text_color() -> (r: Rgb)
    ensures
        r == text_color_spec(),
{
    Rgb { r: 255, g: 0, b: 0 }
}

/// A window of `width` by `height` filled with the note background.
pub open spec fn background_raster(width: u32, height: u32) -> Raster {
    Raster {
        width,
        height,
        bytes: filled_with(
            rgba_len(width as int, height as int) as nat,
            BACKGROUND_R,
            BACKGROUND_G,
            BACKGROUND_B,
            BACKGROUND_A,
        ),
    }
}

/// The frame for a window of `width` by `height`: the background, with the
/// content layer, if any, drawn centred over it.
pub open spec fn frame_raster(width: u32, height: u32, layer: Option<Raster>) -> Raster {
    match layer {
        None => background_raster(width, height),
        Some(l) => draw_raster(
            background_raster(width, height),
            l,
            (width as int / 2 - l.width as int / 2) as i32,
            (height as int / 2 - l.height as int / 2) as i32,
        ),
    }
}

/// Composes the frame of a window of `width` by `height` physical pixels:
/// the background, then the content layer centred on it. `None` when the
/// window has no area or is too large for a canvas. Without a layer every
/// pixel is the same background color: nothing but the background shows.
pub fn compose_frame(width: u32, height: u32, layer: Option<&Canvas>) -> (r: Option<Canvas>)
    requires
        layer matches Some(l) ==> l.wf(),
    ensures
        r is Some <==> size_ok(width as int, height as int),
        r matches Some(c) ==> c.wf() && c@ == frame_raster(
            width,
            height,
            match layer {
                Some(l) => Some(l@),
                None => None,
            },
        ),
        layer is None ==> (r matches Some(c) ==> {
            &&& forall|k: int| 0 <= k < c@.bytes.len() ==> #[trigger] c@.bytes[k] == c@.bytes[k % 4]
            &&& c@.bytes[3] == BACKGROUND_A
        }),
{
    if !fits(width, height) {
        return None;
    }
    let mut frame = Canvas::filled(
        width,
        height,
        BACKGROUND_R,
        BACKGROUND_G,
        BACKGROUND_B,
        BACKGROUND_A,
    );
    match layer {
        Some(l) => {
            let x = center_offset(width, l.width());
            let y = center_offset(height, l.height());
            frame.draw(l, x, y);
        },
        None => {},
    }
    Some(frame)
}

} // verus!
