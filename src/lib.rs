//! A clipboard popup-note library: the global hotkey chord, clipboard
//! snapshots and the requests that carry them to the UI thread, the registry
//! of open notes, hit-testing of their hand-drawn chrome, and the software
//! compositing of their content into a presentable frame.

mod chrome;
mod frame;
mod hotkey;
mod layout;
mod raster;
mod registry;
mod request;
mod snapshot;
mod text;

pub use chrome::{cursor_for, zone, CursorKind, Zone, CLOSE_BOX, EDGE};
pub use frame::{
    compose_frame, text_color, BACKGROUND_A, BACKGROUND_B, BACKGROUND_G, BACKGROUND_R,
};
pub use hotkey::{ChordListener, Key, KeyEvent};
pub use layout::{
    center_offset, fit_font_size, line_height_for, render_line, stack_lines, PlacedGlyph,
    PROBE_LINE_HEIGHT, PROBE_SIZE,
};
pub use raster::{fits, glyph_canvas, image_canvas, tint_glyph, Canvas, GlyphBitmap, Rgb, MAX_SIDE};
pub use registry::{Note, NoteRegistry};
pub use request::{popup_clipboard, CreateNoteRequest, WindowConfig};
pub use snapshot::{get_clipboard, image_snapshot, snapshot_from_reads, ClipboardSnapshot};
pub use text::split_lines;
mod remove;

pub use remove::RemoveElem;
