use vstd::prelude::*;
use crate::chrome::{cursor_for, cursor_of, zone, zone_of, CursorKind, Zone};
use crate::request::CreateNoteRequest;
use crate::snapshot::ClipboardSnapshot;

verus! {

/// One open popup: its native resources `handle`, the last pointer position
/// reported in its window, and the snapshot it shows.
pub struct Note<H> {
    /// Stable for the window's lifetime, unique among open notes.
    pub id: u64,
    /// The native window, drawing context and surface, released on drop.
    pub handle: H,
    /// Last pointer position, window-local, in half-pixel units (see
    /// `zone_of`).
    pub pointer: (i64, i64),
    /// The snapshot this note owns.
    pub content: ClipboardSnapshot,
}

/// The note that request `req` opens with identifier `id` and native
/// resources `handle`: the pointer starts at the origin, and the content is
/// the request's snapshot.
pub open spec fn opened_note<H>(id: u64, handle: H, req: CreateNoteRequest) -> Note<H> {
    Note { id, handle, pointer: (0, 0), content: req.content }
}

/// A snapshot carried by a request reaches the note that the request opens
/// bit for bit. When a request for `content` is opened with an identifier that
/// no open note has, as `open_note` does, the notes already open stay as they
/// were, and one more follows them: it has the fresh identifier, its pointer
/// at the origin, and exactly `content`, in kind, size and bytes or text.
pub proof fn lemma_snapshot_survives_transit<H>(
    before: NoteRegistry<H>,
    after: NoteRegistry<H>,
    content: ClipboardSnapshot,
    req: CreateNoteRequest,
    id: u64,
    handle: H,
)
    requires
        before.wf(),
        !before.has(id),
        req.content == content,
        after.notes() == before.notes().push(opened_note(id, handle, req)),
    ensures
        after.wf(),
        after.has(id),
        after.notes().len() == before.notes().len() + 1,
        after.notes().drop_last() == before.notes(),
        after.notes().last().content == content,
        after.notes().last().id == id,
        after.notes().last().pointer == (0i64, 0i64),
        forall|i: int| 0 <= i < before.notes().len() ==> before.notes()[i].id != id,
{
    let n = before.notes().len();
    assert(after.notes()[n as int].id == id);
    assert(after.notes().drop_last() =~= before.notes());
    assert forall|i: int, j: int|
        0 <= i < after.notes().len() && 0 <= j < after.notes().len() && i != j implies after.notes()[i].id
        != after.notes()[j].id by {
        if i < n && j < n {
            assert(after.notes()[i] == before.notes()[i]);
            assert(after.notes()[j] == before.notes()[j]);
        } else if i < n {
            assert(after.notes()[i] == before.notes()[i]);
        } else if j < n {
            assert(after.notes()[j] == before.notes()[j]);
        }
    }
}

/// The open notes, owned by the UI thread, in the order they were opened.
pub struct NoteRegistry<H> {
    notes: Vec<Note<H>>,
}

impl<H> NoteRegistry<H> {
    /// The open notes in opening order.
    pub closed spec fn notes(&self) -> Seq<Note<H>> {
        self.notes@
    }

    /// Whether a note with identifier `id` is open.
    pub open spec fn has(&self, id: u64) -> bool {
        exists|i: int| 0 <= i < self.notes().len() && self.notes()[i].id == id
    }

    /// No two open notes share an identifier.
    pub open spec fn wf(&self) -> bool {
        forall|i: int, j: int|
            0 <= i < self.notes().len() && 0 <= j < self.notes().len() && i != j
                ==> self.notes()[i].id != self.notes()[j].id
    }

    /// An empty registry.
    pub fn new() -> (r: NoteRegistry<H>)
        ensures
            r.wf(),
            r.notes() == Seq::<Note<H>>::empty(),
    {
        NoteRegistry { notes: Vec::new() }
    }

    /// The number of open notes.
    pub fn len(&self) -> (r: usize)
        ensures
            r == self.notes().len(),
    {
        self.notes.len()
    }

    fn index_of(&self, id: u64) -> (r: Option<usize>)
        ensures
            r matches Some(i) ==> i < self.notes().len() && self.notes()[i as int].id == id,
            r is None ==> !self.has(id),
    {
        let mut i: usize = 0;
        while i < self.notes.len()
            invariant
                i <= self.notes@.len(),
                forall|j: int| 0 <= j < i ==> self.notes@[j].id != id,
            decreases self.notes@.len() - i,
        {
            if self.notes[i].id == id {
                return Some(i);
            }
            i = i + 1;
        }
        None
    }

    /// Whether a note with identifier `id` is open.
    pub fn contains(&self, id: u64) -> (r: bool)
        ensures
            r == self.has(id),
    {
        self.index_of(id).is_some()
    }

    /// The note with identifier `id`, if it is open.
    pub fn get(&self, id: u64) -> (r: Option<&Note<H>>)
        requires
            self.wf(),
        ensures
            r is None <==> !self.has(id),
            r matches Some(n) ==> exists|i: int|
                0 <= i < self.notes().len() && self.notes()[i] == *n && n.id == id,
    {
        match self.index_of(id) {
            Some(i) => Some(&self.notes[i]),
            None => None,
        }
    }

    /// Opens a note for a request, with the native resources `handle` that
    /// were built from its configuration. The note gets the request's
    /// snapshot unchanged. Refused, and nothing changes, when `id` is taken.
    pub fn open_note(&mut self, id: u64, handle: H, req: CreateNoteRequest) -> (r: bool)
        requires
            old(self).wf(),
        ensures
            final(self).wf(),
            r == !old(self).has(id),
            r ==> final(self).notes() == old(self).notes().push(opened_note(id, handle, req)),
            !r ==> final(self).notes() == old(self).notes(),
    {
        if self.contains(id) {
            return false;
        }
        let CreateNoteRequest { config: _, content } = req;
        self.notes.push(Note { id, handle, pointer: (0, 0), content });
        true
    }

    /// Closes the note with identifier `id`: it leaves the registry and is
    /// handed back, so that dropping it releases its native resources.
    pub fn remove(&mut self, id: u64) -> (r: Option<Note<H>>)
        requires
            old(self).wf(),
        ensures
            final(self).wf(),
            r is None <==> !old(self).has(id),
            r is None ==> final(self).notes() == old(self).notes(),
            r matches Some(n) ==> exists|i: int|
                0 <= i < old(self).notes().len() && old(self).notes()[i] == n
                    && final(self).notes() == old(self).notes().remove(i) && n.id == id,
    {
        match self.index_of(id) {
            Some(i) => {
                let n = self.notes.remove(i);
                proof {
                    let s = old(self).notes();
                    let t = self.notes();
                    assert forall|a: int, b: int|
                        0 <= a < t.len() && 0 <= b < t.len() && a != b implies t[a].id
                        != t[b].id by {
                        let a2 = if a < i { a } else { a + 1 };
                        let b2 = if b < i { b } else { b + 1 };
                        assert(t[a] == s[a2]);
                        assert(t[b] == s[b2]);
                    }
                }
                Some(n)
            },
            None => None,
        }
    }

    /// Handles pointer motion to `(x, y)`, in half-pixel units, in the window
    /// of note `id`, whose current size is `width` by `height`: the note
    /// remembers the position, and the cursor icon for its zone is returned. An event for a note that
    /// is no longer open changes nothing and gives `None`.
    pub fn pointer_moved(&mut self, id: u64, x: i64, y: i64, width: u32, height: u32) -> (r: Option<
        CursorKind,
    >)
        requires
            old(self).wf(),
        ensures
            final(self).wf(),
            r is None <==> !old(self).has(id),
            r is None ==> final(self).notes() == old(self).notes(),
            r matches Some(c) ==> c == cursor_of(
                zone_of(x as int, y as int, width as int, height as int),
            ),
            forall|i: int|
                0 <= i < old(self).notes().len() && old(self).notes()[i].id == id
                    ==> final(self).notes() == old(self).notes().update(
                    i,
                    Note { pointer: (x, y), ..old(self).notes()[i] },
                ),
    {
        match self.index_of(id) {
            Some(i) => {
                let mut n = self.notes.remove(i);
                n.pointer = (x, y);
                self.notes.insert(i, n);
                proof {
                    let s = old(self).notes();
                    let t = self.notes();
                    assert(t =~= s.update(i as int, Note { pointer: (x, y), ..s[i as int] }));
                    assert forall|j: int| 0 <= j < s.len() && s[j].id == id implies j == i by {
                        if j != i {
                            assert(s[j].id != s[i as int].id);
                        }
                    }
                    assert forall|a: int, b: int|
                        0 <= a < t.len() && 0 <= b < t.len() && a != b implies t[a].id
                        != t[b].id by {
                        assert(t[a].id == s[a].id);
                        assert(t[b].id == s[b].id);
                    }
                }
                Some(cursor_for(zone(x, y, width, height)))
            },
            None => None,
        }
    }

    /// Handles a primary-button press in the window of note `id`, whose
    /// current size is `width` by `height`. The zone of the last pointer
    /// position the note saw is returned; on the close zone the note is also
    /// closed, which drops it and releases its native resources. Any other
    /// zone leaves the registry unchanged: the caller starts the resize or
    /// move it names. An event for a note that is no longer open changes
    /// nothing and gives `None`.
    pub fn pointer_pressed(&mut self, id: u64, width: u32, height: u32) -> (r: Option<Zone>)
        requires
            old(self).wf(),
        ensures
            final(self).wf(),
            r is None <==> !old(self).has(id),
            forall|i: int|
                0 <= i < old(self).notes().len() && old(self).notes()[i].id == id ==> {
                    let p = old(self).notes()[i].pointer;
                    let z = zone_of(p.0 as int, p.1 as int, width as int, height as int);
                    &&& r == Some(z)
                    &&& z == Zone::Close ==> final(self).notes() == old(self).notes().remove(i)
                    &&& z != Zone::Close ==> final(self).notes() == old(self).notes()
                },
            r is None ==> final(self).notes() == old(self).notes(),
    {
        match self.index_of(id) {
            Some(i) => {
                let (x, y) = self.notes[i].pointer;
                let z = zone(x, y, width, height);
                proof {
                    let s = old(self).notes();
                    assert forall|j: int| 0 <= j < s.len() && s[j].id == id implies j == i by {
                        if j != i {
                            assert(s[j].id != s[i as int].id);
                        }
                    }
                }
                if z == Zone::Close {
                    let closed = self.remove(id);
                    proof {
                        let s = old(self).notes();
                        let n = closed.unwrap();
                        let k = choose|k: int|
                            0 <= k < s.len() && s[k] == n && self.notes() == s.remove(k) && n.id
                                == id;
                        if k != i {
                            assert(s[k].id != s[i as int].id);
                        }
                    }
                }
                Some(z)
            },
            None => None,
        }
    }

    /// The native resources of note `id`, for the caller to act on.
    pub fn handle_mut(&mut self, id: u64) -> (r: Option<&mut H>)
        requires
            old(self).wf(),
        ensures
            r is None <==> !old(self).has(id),
            r is None ==> final(self).notes() == old(self).notes(),
            r matches Some(h) ==> exists|i: int|
                0 <= i < old(self).notes().len() && old(self).notes()[i].id == id && *h
                    == old(self).notes()[i].handle && final(self).notes() == old(self).notes().update(
                    i,
                    Note { handle: *final(h), ..old(self).notes()[i] },
                ),
    {
        match self.index_of(id) {
            Some(i) => Some(&mut self.notes[i].handle),
            None => None,
        }
    }
}

} // verus!
