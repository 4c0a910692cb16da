use vstd::prelude::*;
use crate::snapshot::ClipboardSnapshot;

verus! {

/// Logical size of a note window for anything but an image.
pub const DEFAULT_WIDTH: u32 = 250;

/// Logical size of a note window for anything but an image.
pub const DEFAULT_HEIGHT: u32 = 300;

/// Smallest logical size a note window can be resized to.
pub const MIN_SIDE: u32 = 50;

/// How the UI thread is to build a note's native window.
#[derive(Debug)]
pub struct WindowConfig {
    pub title: String,
    pub width: u32,
    pub height: u32,
    pub min_width: u32,
    pub min_height: u32,
    pub resizable: bool,
    pub decorated: bool,
    pub always_on_top: bool,
    pub visible: bool,
}

/// A request to open one note, built on the listener thread and moved once
/// across the channel to the UI thread.
#[derive(Debug)]
pub struct CreateNoteRequest {
    pub config: WindowConfig,
    pub content: ClipboardSnapshot,
}

/// The window title for a snapshot: it names the kind of content.
pub open spec fn title_of(content: ClipboardSnapshot) -> Seq<char> {
    match content {
        ClipboardSnapshot::Image { .. } => "FONotes - Image"@,
        ClipboardSnapshot::Text(_) => "FONotes - Text"@,
        ClipboardSnapshot::Empty => "FONotes - ???"@,
    }
}

/// The initial logical window size for a snapshot: an image's own size, else
/// the default.
pub open spec fn size_of(content: ClipboardSnapshot) -> (u32, u32) {
    match content {
        ClipboardSnapshot::Image { width, height, .. } => (width, height),
        _ => (DEFAULT_WIDTH, DEFAULT_HEIGHT),
    }
}

/// Wraps a snapshot into the request for a borderless, always-on-top,
/// resizable note window showing it.
pub fn popup_clipboard(content: ClipboardSnapshot) -> (r: CreateNoteRequest)
    ensures
        r.content == content,
        r.config.title@ == title_of(content),
        (r.config.width, r.config.height) == size_of(content),
        r.config.min_width == MIN_SIDE,
        r.config.min_height == MIN_SIDE,
        r.config.resizable,
        !r.config.decorated,
        r.config.always_on_top,
        r.config.visible,
{
    let title = match &content {
        ClipboardSnapshot::Image { .. } => "FONotes - Image".to_owned(),
        ClipboardSnapshot::Text(_) => "FONotes - Text".to_owned(),
        ClipboardSnapshot::Empty => "FONotes - ???".to_owned(),
    };
    let (width, height) = match &content {
        ClipboardSnapshot::Image { width, height, .. } => (*width, *height),
        _ => (DEFAULT_WIDTH, DEFAULT_HEIGHT),
    };
    CreateNoteRequest {
        config: WindowConfig {
            title,
            width,
            height,
            min_width: MIN_SIDE,
            min_height: MIN_SIDE,
            resizable: true,
            decorated: false,
            always_on_top: true,
            visible: true,
        },
        content,
    }
}

} // verus!
