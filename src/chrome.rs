use vstd::prelude::*;

verus! {

/// Width in physical pixels of the resize band along each window edge.
pub const EDGE: i64 = 20;

/// Side in physical pixels of the square close box in the top-right corner.
pub const CLOSE_BOX: i64 = 30;

/// Where a pointer position falls relative to a window's hand-drawn chrome.
#[derive(Clone, Copy, Debug, PartialEq, Eq, Structural)]
pub enum Zone {
    Close,
    North,
    South,
    East,
    West,
    NorthEast,
    NorthWest,
    SouthEast,
    SouthWest,
    Drag,
}

/// The cursor icon shown while the pointer hovers a zone.
#[derive(Clone, Copy, Debug, PartialEq, Eq, Structural)]
pub enum CursorKind {
    /// The hand shown over the close box.
    Hand,
    /// Horizontal resize, for the east and west edges and all corners.
    EwResize,
    /// Vertical resize, for the north and south edges.
    NsResize,
    /// The default arrow, over the draggable interior.
    Default,
}

/// The zone of pointer `(x, y)` in a window of `width` by `height` physical
/// pixels. The pointer is in half-pixel units: `2 * k` stands for exactly
/// pixel `k`, and `2 * k + 1` for any position strictly between pixels `k`
/// and `k + 1`. Every boundary is a whole pixel, so this decides each test as
/// it would be decided on the exact position. The close box is tested first,
/// then the four corners, then the four edges; anything else is the draggable
/// interior.
pub open spec fn zone_of(x: int, y: int, width: int, height: int) -> Zone {
    let right = 2 * (width - CLOSE_BOX);
    let top = 2 * CLOSE_BOX;
    let near = 2 * EDGE;
    let far_x = 2 * (width - EDGE);
    let far_y = 2 * (height - EDGE);
    if x > right && y < top {
        Zone::Close
    } else if x < near && y < near {
        Zone::NorthWest
    } else if x < near && y > far_y {
        Zone::SouthWest
    } else if x > far_x && y < near {
        Zone::NorthEast
    } else if x > far_x && y > far_y {
        Zone::SouthEast
    } else if x < near {
        Zone::West
    } else if x > far_x {
        Zone::East
    } else if y > far_y {
        Zone::South
    } else if y < near {
        Zone::North
    } else {
        Zone::Drag
    }
}

/// The cursor icon for a zone.
pub open spec fn cursor_of(z: Zone) -> CursorKind {
    match z {
        Zone::Close => CursorKind::Hand,
        Zone::East | Zone::West | Zone::NorthEast | Zone::NorthWest | Zone::SouthEast
        | Zone::SouthWest => CursorKind::EwResize,
        Zone::North | Zone::South => CursorKind::NsResize,
        Zone::Drag => CursorKind::Default,
    }
}

/// Classifies pointer `(x, y)`, window-local, in half-pixel units (see
/// `zone_of`), against a window of `width` by `height` physical pixels. The
/// result depends on the arguments alone.
pub fn zone(x: i64, y: i64, width: u32, height: u32) -> (r: Zone)
    ensures
        r == zone_of(x as int, y as int, width as int, height as int),
{
    let right = 2 * (width as i64 - CLOSE_BOX);
    let top = 2 * CLOSE_BOX;
    let near = 2 * EDGE;
    let far_x = 2 * (width as i64 - EDGE);
    let far_y = 2 * (height as i64 - EDGE);
    if x > right && y < top {
        Zone::Close
    } else if x < near && y < near {
        Zone::NorthWest
    } else if x < near && y > far_y {
        Zone::SouthWest
    } else if x > far_x && y < near {
        Zone::NorthEast
    } else if x > far_x && y > far_y {
        Zone::SouthEast
    } else if x < near {
        Zone::West
    } else if x > far_x {
        Zone::East
    } else if y > far_y {
        Zone::South
    } else if y < near {
        Zone::North
    } else {
        Zone::Drag
    }
}

/// The cursor icon to show over zone `z`.
pub fn cursor_for(z: Zone) -> (r: CursorKind)
    ensures
        r == cursor_of(z),
{
    match z {
        Zone::Close => CursorKind::Hand,
        Zone::East | Zone::West | Zone::NorthEast | Zone::NorthWest | Zone::SouthEast
        | Zone::SouthWest => CursorKind::EwResize,
        Zone::North | Zone::South => CursorKind::NsResize,
        Zone::Drag => CursorKind::Default,
    }
}

/// Every position at least the edge band away from all four edges, and not in
/// the close box, is the draggable interior (half-pixel units).
pub proof fn lemma_interior_is_drag(x: int, y: int, width: int, height: int)
    requires
        2 * EDGE <= x <= 2 * (width - EDGE),
        2 * EDGE <= y <= 2 * (height - EDGE),
        !(x > 2 * (width - CLOSE_BOX) && y < 2 * CLOSE_BOX),
    ensures
        zone_of(x, y, width, height) == Zone::Drag,
{
}

/// Every position in the close box is the close zone, also where it lies in a
/// corner or along an edge (half-pixel units).
pub proof fn lemma_close_box_first(x: int, y: int, width: int, height: int)
    requires
        x > 2 * (width - CLOSE_BOX),
        y < 2 * CLOSE_BOX,
    ensures
        zone_of(x, y, width, height) == Zone::Close,
{
}

} // verus!
