use fonotes::{
    image_snapshot, popup_clipboard, snapshot_from_reads, ChordListener, ClipboardSnapshot, Key,
    KeyEvent, NoteRegistry,
};

#[test]
fn chord_fires_once_per_physical_press() {
    let mut l = ChordListener::new();
    assert!(!l.press(Key::ControlLeft));
    assert!(!l.press(Key::Alt));
    assert!(l.press(Key::KeyN));
    // Auto-repeat of the held N.
    assert!(!l.press(Key::KeyN));
    assert!(!l.press(Key::KeyN));
    l.release(Key::KeyN);
    assert!(l.press(Key::KeyN));
    l.release(Key::KeyN);
    l.release(Key::Alt);
    assert!(!l.press(Key::KeyN));
    assert!(!l.is_held(Key::Alt));
    assert!(l.is_held(Key::ControlLeft));
}

#[test]
fn chord_needs_every_key() {
    let mut l = ChordListener::new();
    assert!(!l.handle(KeyEvent::Press(Key::Alt)));
    assert!(!l.handle(KeyEvent::Press(Key::KeyN)));
    assert!(!l.handle(KeyEvent::Press(Key::Other(42))));
    assert!(!l.handle(KeyEvent::Release(Key::Alt)));
    assert!(!l.handle(KeyEvent::Press(Key::ControlLeft)));
    assert!(l.handle(KeyEvent::Press(Key::Alt)));
}

#[test]
fn image_read_must_be_rgba() {
    assert!(image_snapshot(2, 1, vec![0; 8]).is_some());
    assert!(image_snapshot(2, 1, vec![0; 7]).is_none());
    assert!(image_snapshot(usize::MAX, 2, vec![]).is_none());
    match image_snapshot(1, 2, vec![1, 2, 3, 4, 5, 6, 7, 8]) {
        Some(ClipboardSnapshot::Image { width, height, pixels }) => {
            assert_eq!((width, height), (1, 2));
            assert_eq!(pixels, vec![1, 2, 3, 4, 5, 6, 7, 8]);
        },
        _ => panic!("expected an image"),
    }
}

#[test]
fn acquisition_prefers_image_then_text() {
    let s = snapshot_from_reads(Some((1, 1, vec![9, 8, 7, 6])), Some("hi".to_string()));
    assert!(matches!(s, ClipboardSnapshot::Image { width: 1, height: 1, .. }));
    let s = snapshot_from_reads(None, Some("hi".to_string()));
    assert!(matches!(s, ClipboardSnapshot::Text(ref t) if t == "hi"));
    let s = snapshot_from_reads(Some((3, 3, vec![0; 4])), Some("fallback".to_string()));
    assert!(matches!(s, ClipboardSnapshot::Text(ref t) if t == "fallback"));
    let s = snapshot_from_reads(None, None);
    assert!(matches!(s, ClipboardSnapshot::Empty));
}

#[test]
fn request_describes_the_window() {
    let r = popup_clipboard(ClipboardSnapshot::Text("x".to_string()));
    assert_eq!(r.config.title, "FONotes - Text");
    assert_eq!((r.config.width, r.config.height), (250, 300));
    assert_eq!((r.config.min_width, r.config.min_height), (50, 50));
    assert!(r.config.resizable && !r.config.decorated && r.config.always_on_top && r.config.visible);

    let r = popup_clipboard(ClipboardSnapshot::Image { width: 3, height: 5, pixels: vec![0; 60] });
    assert_eq!(r.config.title, "FONotes - Image");
    assert_eq!((r.config.width, r.config.height), (3, 5));

    let r = popup_clipboard(ClipboardSnapshot::Empty);
    assert_eq!(r.config.title, "FONotes - ???");
    assert_eq!((r.config.width, r.config.height), (250, 300));
}

#[test]
fn snapshot_arrives_unchanged() {
    let pixels: Vec<u8> = (0..48u32).map(|i| (i * 5) as u8).collect();
    let req = popup_clipboard(ClipboardSnapshot::Image { width: 4, height: 3, pixels: pixels.clone() });
    let mut reg: NoteRegistry<&str> = NoteRegistry::new();
    assert!(reg.open_note(11, "window", req));
    let note = reg.get(11).unwrap();
    assert_eq!(note.id, 11);
    assert_eq!(note.pointer, (0, 0));
    match &note.content {
        ClipboardSnapshot::Image { width, height, pixels: p } => {
            assert_eq!((*width, *height), (4, 3));
            assert_eq!(p, &pixels);
        },
        _ => panic!("expected an image"),
    }
    let text = "line one\nline two\n\tend".to_string();
    assert!(reg.open_note(12, "other", popup_clipboard(ClipboardSnapshot::Text(text.clone()))));
    assert!(matches!(&reg.get(12).unwrap().content, ClipboardSnapshot::Text(t) if *t == text));
}

#[test]
fn duplicate_ids_are_refused() {
    let mut reg: NoteRegistry<u8> = NoteRegistry::new();
    assert!(reg.open_note(5, 1, popup_clipboard(ClipboardSnapshot::Empty)));
    assert!(!reg.open_note(5, 2, popup_clipboard(ClipboardSnapshot::Empty)));
    assert_eq!(reg.len(), 1);
    assert_eq!(reg.get(5).unwrap().handle, 1);
    *reg.handle_mut(5).unwrap() = 9;
    assert_eq!(reg.get(5).unwrap().handle, 9);
    let closed = reg.remove(5).unwrap();
    assert_eq!(closed.id, 5);
    assert_eq!(reg.len(), 0);
}
