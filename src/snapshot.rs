use vstd::prelude::*;

verus! {

#[verifier::external_type_specification]
#[verifier::external_body]
pub struct ExClipboard(arboard::Clipboard);

/// What the clipboard held at one moment. Once taken it is never mutated.
#[derive(Debug)]
pub enum ClipboardSnapshot {
    /// An image, `width * height` pixels of RGBA8, row-major.
    Image { width: u32, height: u32, pixels: Vec<u8> },
    /// Text.
    Text(String),
    /// Neither an image nor text could be read.
    Empty,
}

/// The byte length of an RGBA8 image of `width` by `height` pixels.
pub open spec fn rgba_len(width: int, height: int) -> int {
    width * height * 4
}

impl ClipboardSnapshot {
    /// An image holds exactly four bytes per pixel.
    pub open spec fn wf(&self) -> bool {
        match self {
            ClipboardSnapshot::Image { width, height, pixels } => pixels@.len() == rgba_len(
                *width as int,
                *height as int,
            ),
            _ => true,
        }
    }
}

/// The snapshot that an image read of `width` by `height` pixels with bytes
/// `bytes` gives, if the sizes fit in `u32` and the bytes are four per pixel.
pub open spec fn image_of(width: int, height: int, bytes: Seq<u8>) -> Option<(u32, u32)> {
    if width <= u32::MAX && height <= u32::MAX && bytes.len() == rgba_len(width, height) {
        Some((width as u32, height as u32))
    } else {
        None
    }
}

/// Builds an image snapshot from the sizes and bytes of a clipboard image, or
/// `None` when they do not describe an RGBA8 image.
pub fn image_snapshot(width: usize, height: usize, bytes: Vec<u8>) -> (r: Option<ClipboardSnapshot>)
    ensures
        match image_of(width as int, height as int, bytes@) {
            Some((w, h)) => r == Some(ClipboardSnapshot::Image { width: w, height: h, pixels: bytes }),
            None => r is None,
        },
        r matches Some(s) ==> s.wf(),
{
    let len = bytes.len();
    if width > u32::MAX as usize || height > u32::MAX as usize {
        return None;
    }
    let n = width.checked_mul(height);
    match n {
        Some(n) => {
            let m = n.checked_mul(4);
            match m {
                Some(m) => {
                    if len == m {
                        Some(
                            ClipboardSnapshot::Image {
                                width: width as u32,
                                height: height as u32,
                                pixels: bytes,
                            },
                        )
                    } else {
                        None
                    }
                },
                None => {
                    assert(bytes@.len() != rgba_len(width as int, height as int)) by (nonlinear_arith)
                        requires
                            len <= usize::MAX,
                            len == bytes@.len(),
                            n == width * height,
                            n * 4 > usize::MAX,
                    ;
                    None
                },
            }
        },
        None => {
            assert(bytes@.len() != rgba_len(width as int, height as int)) by (nonlinear_arith)
                requires
                    len <= usize::MAX,
                    len == bytes@.len(),
                    width * height > usize::MAX,
            ;
            None
        },
    }
}

/// The acquisition policy: an image if the image read gave a valid one, else
/// the text if the text read succeeded, else nothing.
pub open spec fn snapshot_of(
    image: Option<(usize, usize, Vec<u8>)>,
    text: Option<String>,
) -> ClipboardSnapshot {
    match image {
        Some((w, h, bytes)) if image_of(w as int, h as int, bytes@) is Some => {
            let (w2, h2) = image_of(w as int, h as int, bytes@).unwrap();
            ClipboardSnapshot::Image { width: w2, height: h2, pixels: bytes }
        },
        _ => match text {
            Some(t) => ClipboardSnapshot::Text(t),
            None => ClipboardSnapshot::Empty,
        },
    }
}

/// Applies the acquisition policy to the outcomes of an image read and a text
/// read of the clipboard.
pub fn snapshot_from_reads(
    image: Option<(usize, usize, Vec<u8>)>,
    text: Option<String>,
) -> (r: ClipboardSnapshot)
    ensures
        r == snapshot_of(image, text),
        r.wf(),
{
    match image {
        Some((w, h, bytes)) => {
            let s = image_snapshot(w, h, bytes);
            match s {
                Some(s) => {
                    return s;
                },
                None => {},
            }
        },
        None => {},
    }
    match text {
        Some(t) => ClipboardSnapshot::Text(t),
        None => ClipboardSnapshot::Empty,
    }
}

/// Relies on arboard::Clipboard::get_image: the width, height and bytes of
/// the image on the clipboard, or an error when it holds none.
#[verifier::external_body]
fn read_clipboard_image(clipboard: &mut arboard::Clipboard) -> (r: Option<(usize, usize, Vec<u8>)>) {
    match clipboard.get_image() {
        Ok(img) => Some((img.width, img.height, img.bytes.into_owned())),
        Err(_) => None,
    }
}

/// Relies on arboard::Clipboard::get_text: the UTF-8 text on the clipboard,
/// or an error when it holds none.
#[verifier::external_body]
fn read_clipboard_text(clipboard: &mut arboard::Clipboard) -> (r: Option<String>) {
    clipboard.get_text().ok()
}

/// Takes a snapshot of the clipboard: the image read is tried first, the text
/// read only when it gave no valid image; neither failure is an error.
pub fn get_clipboard(clipboard: &mut arboard::Clipboard) -> (r: ClipboardSnapshot)
    ensures
        r.wf(),
        exists|image: Option<(usize, usize, Vec<u8>)>, text: Option<String>|
            r == snapshot_of(image, text),
{
    let image = read_clipboard_image(clipboard);
    let valid = match image {
        Some((w, h, bytes)) => image_snapshot(w, h, bytes),
        None => None,
    };
    match valid {
        Some(s) => {
            proof {
                if s is Image {
                    let w = Some((s->width as usize, s->height as usize, s->pixels));
                    assert(s == snapshot_of(w, None));
                }
            }
            s
        },
        None => {
            let text = read_clipboard_text(clipboard);
            let r = snapshot_from_reads(None, text);
            assert(r == snapshot_of(None, text));
            r
        },
    }
}

} // verus!
