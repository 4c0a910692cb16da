use fonotes::{cursor_for, zone, ClipboardSnapshot, CreateNoteRequest, CursorKind, NoteRegistry, Zone};
use fonotes::popup_clipboard;

/// Half-pixel units of exactly pixel `p`.
fn at(p: i64) -> i64 {
    2 * p
}

fn request() -> CreateNoteRequest {
    popup_clipboard(ClipboardSnapshot::Empty)
}

#[test]
fn interior_is_drag() {
    for x in 20..=180i64 {
        for y in 20..=180i64 {
            if x > 170 && y < 30 {
                continue;
            }
            assert_eq!(zone(at(x), at(y), 200, 200), Zone::Drag, "({}, {})", x, y);
        }
    }
}

#[test]
fn close_box_takes_priority() {
    for x in 171..260i64 {
        for y in -40..30i64 {
            assert_eq!(zone(at(x), at(y), 200, 200), Zone::Close);
        }
    }
    // Also in the north-east corner and along the east and north edges.
    assert_eq!(zone(at(195), at(5), 200, 200), Zone::Close);
    assert_eq!(zone(at(175), at(25), 200, 200), Zone::Close);
}

#[test]
fn corners_then_edges() {
    assert_eq!(zone(at(5), at(5), 200, 200), Zone::NorthWest);
    assert_eq!(zone(at(5), at(195), 200, 200), Zone::SouthWest);
    assert_eq!(zone(at(195), at(195), 200, 200), Zone::SouthEast);
    assert_eq!(zone(at(185), at(35), 200, 200), Zone::East);
    assert_eq!(zone(at(195), at(40), 200, 200), Zone::East);
    assert_eq!(zone(at(5), at(100), 200, 200), Zone::West);
    assert_eq!(zone(at(100), at(195), 200, 200), Zone::South);
    assert_eq!(zone(at(100), at(5), 200, 200), Zone::North);
    assert_eq!(zone(at(165), at(10), 200, 200), Zone::North);
    // The north-east corner outside the close box only exists in tall, thin
    // bands; with a wide close box it is covered entirely.
    assert_eq!(zone(at(185), at(30), 200, 200), Zone::East);
}

#[test]
fn narrow_window_prefers_west() {
    // Both within 20px of the west and of the east edge.
    assert_eq!(zone(at(15), at(100), 30, 200), Zone::West);
}

#[test]
fn zone_is_repeatable() {
    for (x, y) in [(0i64, 0i64), (185, 15), (100, 100), (5, 195), (-3, 400)] {
        assert_eq!(zone(at(x), at(y), 200, 200), zone(at(x), at(y), 200, 200));
    }
}

#[test]
fn cursor_icons() {
    assert_eq!(cursor_for(Zone::Close), CursorKind::Hand);
    assert_eq!(cursor_for(Zone::NorthEast), CursorKind::EwResize);
    assert_eq!(cursor_for(Zone::West), CursorKind::EwResize);
    assert_eq!(cursor_for(Zone::North), CursorKind::NsResize);
    assert_eq!(cursor_for(Zone::South), CursorKind::NsResize);
    assert_eq!(cursor_for(Zone::Drag), CursorKind::Default);
}

#[test]
fn click_in_close_box_closes_regardless_of_hover() {
    let mut reg: NoteRegistry<u8> = NoteRegistry::new();
    assert!(reg.open_note(7, 0, request()));
    assert_eq!(reg.pointer_moved(7, at(100), at(100), 200, 200), Some(CursorKind::Default));
    assert_eq!(reg.pointer_moved(7, at(5), at(5), 200, 200), Some(CursorKind::EwResize));
    assert_eq!(reg.pointer_moved(7, at(185), at(15), 200, 200), Some(CursorKind::Hand));
    assert_eq!(reg.pointer_pressed(7, 200, 200), Some(Zone::Close));
    assert_eq!(reg.len(), 0);
    assert!(!reg.contains(7));
}

#[test]
fn press_elsewhere_keeps_note() {
    let mut reg: NoteRegistry<u8> = NoteRegistry::new();
    assert!(reg.open_note(1, 0, request()));
    assert_eq!(reg.pointer_pressed(1, 200, 200), Some(Zone::NorthWest));
    reg.pointer_moved(1, at(100), at(100), 200, 200);
    assert_eq!(reg.pointer_pressed(1, 200, 200), Some(Zone::Drag));
    reg.pointer_moved(1, at(100), at(195), 200, 200);
    assert_eq!(reg.pointer_pressed(1, 200, 200), Some(Zone::South));
    assert_eq!(reg.len(), 1);
}

#[test]
fn events_for_closed_notes_are_dropped() {
    let mut reg: NoteRegistry<u8> = NoteRegistry::new();
    assert_eq!(reg.pointer_moved(3, at(1), at(1), 200, 200), None);
    assert_eq!(reg.pointer_pressed(3, 200, 200), None);
    assert!(reg.handle_mut(3).is_none());
    assert!(reg.remove(3).is_none());
}

#[test]
fn fractional_positions_are_exact() {
    // 170.5 lies right of 200 - 30; 170 itself does not.
    assert_eq!(zone(341, at(15), 200, 200), Zone::Close);
    assert_eq!(zone(at(170), at(15), 200, 200), Zone::North);
    // 19.5 lies within the west band; anything past 20 does not.
    assert_eq!(zone(39, at(100), 200, 200), Zone::West);
    assert_eq!(zone(41, at(100), 200, 200), Zone::Drag);
    assert_eq!(zone(at(20), at(100), 200, 200), Zone::Drag);
    // Between 29 and 30 is still inside the close box's height.
    assert_eq!(zone(at(190), 59, 200, 200), Zone::Close);
    assert_eq!(zone(at(190), at(30), 200, 200), Zone::East);
}
