//! The registry of lock surfaces, one for each output of the display.
//!
//! Outputs come and go while the session runs. The registry holds the
//! surface of each live output under the output's identity, and no two of
//! its entries share an identity.

use vstd::prelude::*;
use crate::lock::canvas::Glyph;
use crate::lock::surface::{
    redraw_result,
    DrawError,
    LockSurface,
    PoolReply,
    RenderEvent,
    SurfaceState,
    slot_after,
};

verus! {

/// No two entries have the same identity.
pub open spec fn distinct_ids(s: Seq<(u32, SurfaceState)>) -> bool {
    forall|i: int, j: int| 0 <= i < j < s.len() ==> s[i].0 != s[j].0
}

/// The place of the entry with identity `id`, if there is one.
pub open spec fn find(s: Seq<(u32, SurfaceState)>, id: u32) -> Option<int> {
    if exists|i: int| 0 <= i < s.len() && s[i].0 == id {
        Some(choose|i: int| 0 <= i < s.len() && s[i].0 == id)
    } else {
        None
    }
}

/// The surface with identity `id`, if there is one.
pub open spec fn entry(s: Seq<(u32, SurfaceState)>, id: u32) -> Option<SurfaceState> {
    match find(s, id) {
        Some(i) => Some(s[i].1),
        None => None,
    }
}

/// The entries with another identity than `id`.
pub open spec fn other_than(id: u32) -> spec_fn((u32, SurfaceState)) -> bool {
    |e: (u32, SurfaceState)| e.0 != id
}

/// The entries without the one of identity `id`.
pub open spec fn without(s: Seq<(u32, SurfaceState)>, id: u32) -> Seq<(u32, SurfaceState)> {
    s.filter(other_than(id))
}

/// The entries after a fresh surface for the output `id` has been put in,
/// in place of any that was there under that identity.
pub open spec fn with_output(s: Seq<(u32, SurfaceState)>, id: u32, color: u32) -> Seq<
    (u32, SurfaceState),
> {
    without(s, id).push((id, SurfaceState::fresh(color)))
}

/// The entries with the colour and the number of characters of the
/// session's state on every surface, and a new frame asked for.
pub open spec fn with_state(s: Seq<(u32, SurfaceState)>, color: u32, num: u32) -> Seq<
    (u32, SurfaceState),
> {
    s.map_values(
        |e: (u32, SurfaceState)|
            (e.0, SurfaceState { color, chars_entered: num, redraw: true, ..e.1 }),
    )
}

/// The entries with a new frame asked for on every surface.
pub open spec fn marked(s: Seq<(u32, SurfaceState)>) -> Seq<(u32, SurfaceState)> {
    s.map_values(|e: (u32, SurfaceState)| (e.0, SurfaceState { redraw: true, ..e.1 }))
}

/// The surface of this entry has a close event pending.
pub open spec fn closing(e: (u32, SurfaceState)) -> bool {
    e.1.pending == Some(RenderEvent::Close)
}

/// The entry after its surface has handled its pending event.
pub open spec fn handled(e: (u32, SurfaceState)) -> (u32, SurfaceState) {
    (e.0, e.1.handled())
}

/// The identity of the entry.
pub open spec fn id_of(e: (u32, SurfaceState)) -> u32 {
    e.0
}

/// The entries after a sweep: those with a close pending are gone, and
/// every other surface has handled its pending event.
pub open spec fn swept(s: Seq<(u32, SurfaceState)>) -> Seq<(u32, SurfaceState)> {
    s.filter(|e: (u32, SurfaceState)| !closing(e)).map_values(|e: (u32, SurfaceState)| handled(e))
}

/// The identities that a sweep removes, in the order of the entries.
pub open spec fn closed_ids(s: Seq<(u32, SurfaceState)>) -> Seq<u32> {
    s.filter(|e: (u32, SurfaceState)| closing(e)).map_values(|e: (u32, SurfaceState)| id_of(e))
}

/// A frame that is to be painted: the output, the size of its surface and
/// the number of password characters that the frame is to mask.
#[derive(Clone, Copy, PartialEq, Eq, Structural, Debug)]
pub struct FrameRequest {
    /// Identity of the output.
    pub id: u32,
    /// Width of the surface in pixels.
    pub width: usize,
    /// Height of the surface in pixels.
    pub height: usize,
    /// Number of password characters entered.
    pub entered: u32,
}

/// The surface of this entry asks for a new frame.
pub open spec fn due(e: (u32, SurfaceState)) -> bool {
    e.1.redraw
}

/// The frame that the surface of this entry asks for.
pub open spec fn request_of(e: (u32, SurfaceState)) -> FrameRequest {
    FrameRequest {
        id: e.0,
        width: e.1.dimensions.0,
        height: e.1.dimensions.1,
        entered: e.1.chars_entered,
    }
}

/// The frames that are to be painted, in the order of the entries: one for
/// each surface that asks for a new frame.
pub open spec fn frames_due(s: Seq<(u32, SurfaceState)>) -> Seq<FrameRequest> {
    s.filter(|e: (u32, SurfaceState)| due(e)).map_values(|e: (u32, SurfaceState)| request_of(e))
}

/// Filtering one element more keeps it or not, as the predicate says.
proof fn lemma_filter_step<A>(s: Seq<A>, k: int, p: spec_fn(A) -> bool)
    requires
        0 <= k < s.len(),
    ensures
        s.take(k + 1).filter(p) == if p(s[k]) {
            s.take(k).filter(p).push(s[k])
        } else {
            s.take(k).filter(p)
        },
{
    reveal(Seq::filter);
    assert(s.take(k + 1).drop_last() =~= s.take(k));
    assert(s.take(k + 1).last() == s[k]);
}

/// With distinct identities, the place of an identity is the one place
/// that holds it.
proof fn lemma_find_unique(s: Seq<(u32, SurfaceState)>, id: u32, i: int)
    requires
        distinct_ids(s),
        0 <= i < s.len(),
        s[i].0 == id,
    ensures
        find(s, id) == Some(i),
        entry(s, id) == Some(s[i].1),
{
    let j = choose|j: int| 0 <= j < s.len() && s[j].0 == id;
    if j < i {
        assert(s[j].0 != s[i].0);
    }
    if i < j {
        assert(s[i].0 != s[j].0);
    }
}

/// The lock surfaces of the live outputs, each under its output's
/// identity.
pub struct OutputRegistry {
    surfaces: Vec<(u32, LockSurface)>,
}

impl View for OutputRegistry {
    type V = Seq<(u32, SurfaceState)>;

    /// The entries in the order in which their outputs appeared.
    closed spec fn view(&self) -> Seq<(u32, SurfaceState)> {
        self.surfaces@.map_values(|e: (u32, LockSurface)| (e.0, e.1@))
    }
}

impl OutputRegistry {
    /// The invariant of the registry: no two entries share an identity,
    /// and every surface is well formed.
    pub open spec fn wf(&self) -> bool {
        &&& distinct_ids(self@)
        &&& forall|i: int| 0 <= i < self@.len() ==> (#[trigger] self@[i]).1.wf()
    }

    /// A registry without entries.
    pub fn new() -> (out: OutputRegistry)
        ensures
            out@ == Seq::<(u32, SurfaceState)>::empty(),
            out.wf(),
    {
        let out = OutputRegistry { surfaces: Vec::new() };
        assert(out@ =~= Seq::<(u32, SurfaceState)>::empty());
        out
    }

    /// Number of live outputs.
    pub fn len(&self) -> (n: usize)
        ensures
            n == self@.len(),
    {
        self.surfaces.len()
    }

    /// The place of the entry with identity `id`.
    fn position(&self, id: u32) -> (at: Option<usize>)
        requires
            self.wf(),
        ensures
            at matches Some(i) ==> i < self@.len() && self@[i as int].0 == id && find(self@, id)
                == Some(i as int),
            at is None ==> find(self@, id) is None,
    {
        let mut i: usize = 0;
        while i < self.surfaces.len()
            invariant
                self.wf(),
                i <= self.surfaces@.len(),
                self@.len() == self.surfaces@.len(),
                forall|j: int| 0 <= j < i ==> self@[j].0 != id,
            decreases self.surfaces@.len() - i,
        {
            if self.surfaces[i].0 == id {
                proof {
                    lemma_find_unique(self@, id, i as int);
                }
                return Some(i);
            }
            i += 1;
        }
        None
    }

    /// The surface of the output `id`, if the output is live.
    pub fn get(&self, id: u32) -> (out: Option<&LockSurface>)
        requires
            self.wf(),
        ensures
            out matches Some(surface) ==> entry(self@, id) == Some(surface@) && surface.wf(),
            out is None ==> entry(self@, id) is None,
    {
        match self.position(id) {
            Some(i) => {
                assert(self@[i as int].1.wf());
                Some(&self.surfaces[i].1)
            },
            None => None,
        }
    }

    /// The identities of the live outputs, in the order of the entries.
    pub fn ids(&self) -> (out: Vec<u32>)
        ensures
            out@ == self@.map_values(|e: (u32, SurfaceState)| e.0),
    {
        let mut out: Vec<u32> = Vec::new();
        let mut i: usize = 0;
        while i < self.surfaces.len()
            invariant
                i <= self.surfaces@.len(),
                self@.len() == self.surfaces@.len(),
                out@ == self@.take(i as int).map_values(|e: (u32, SurfaceState)| e.0),
            decreases self.surfaces@.len() - i,
        {
            out.push(self.surfaces[i].0);
            i += 1;
            assert(out@ =~= self@.take(i as int).map_values(|e: (u32, SurfaceState)| e.0));
        }
        assert(self@.take(i as int) =~= self@);
        out
    }

    /// The frames that are to be painted now: one for each surface that
    /// asks for a new frame, and none for the others.
    pub fn pending_frames(&self) -> (out: Vec<FrameRequest>)
        ensures
            out@ == frames_due(self@),
    {
        let ghost wanted = |e: (u32, SurfaceState)| due(e);
        let ghost request = |e: (u32, SurfaceState)| request_of(e);
        let mut out: Vec<FrameRequest> = Vec::new();
        let mut i: usize = 0;
        proof {
            reveal(Seq::filter);
            assert(self@.take(0).filter(wanted).map_values(request) =~= out@);
        }
        while i < self.surfaces.len()
            invariant
                i <= self.surfaces@.len(),
                self@.len() == self.surfaces@.len(),
                wanted == |e: (u32, SurfaceState)| due(e),
                request == |e: (u32, SurfaceState)| request_of(e),
                out@ == self@.take(i as int).filter(wanted).map_values(request),
            decreases self.surfaces@.len() - i,
        {
            proof {
                lemma_filter_step(self@, i as int, wanted);
            }
            let surface = &self.surfaces[i].1;
            if surface.needs_redraw() {
                let (width, height) = surface.dimensions();
                out.push(
                    FrameRequest { id: self.surfaces[i].0, width, height, entered: surface.entered() },
                );
            }
            i += 1;
            assert(out@ =~= self@.take(i as int).filter(wanted).map_values(request));
        }
        assert(self@.take(i as int) =~= self@);
        out
    }

    /// Takes the output `id` out of the registry, with its surface. An
    /// identity that is not live changes nothing.
    pub fn on_output_removed(&mut self, id: u32)
        requires
            old(self).wf(),
        ensures
            final(self).wf(),
            final(self)@ == without(old(self)@, id),
            entry(final(self)@, id) is None,
    {
        let ghost before = self@;
        let ghost keep = other_than(id);
        let ghost mut k: int = 0;
        let mut i: usize = 0;
        proof {
            reveal(Seq::filter);
            assert(before.take(0).filter(keep) =~= self@.take(0));
            assert(self@.skip(0) =~= before.skip(0));
        }
        while i < self.surfaces.len()
            invariant
                self.wf(),
                self@.len() == self.surfaces@.len(),
                0 <= k <= before.len(),
                i <= self@.len(),
                self@.len() - i == before.len() - k,
                keep == other_than(id),
                self@.take(i as int) == before.take(k).filter(keep),
                self@.skip(i as int) == before.skip(k),
                forall|j: int| 0 <= j < i ==> self@[j].0 != id,
            decreases before.len() - k,
        {
            let ghost prev = self@;
            proof {
                lemma_filter_step(before, k, keep);
                assert(prev[i as int] == prev.skip(i as int)[0]);
                assert(before[k] == before.skip(k)[0]);
            }
            if self.surfaces[i].0 == id {
                self.surfaces.remove(i);
                proof {
                    assert(self@ =~= prev.remove(i as int));
                    assert(self@.take(i as int) =~= prev.take(i as int));
                    assert(self@.skip(i as int) =~= prev.skip(i as int).skip(1));
                    assert(before.skip(k + 1) =~= before.skip(k).skip(1));
                    assert forall|a: int| 0 <= a < self@.len() implies (#[trigger] self@[a]).1.wf() by {
                        if a < i {
                            assert(self@[a] == prev[a]);
                        } else {
                            assert(self@[a] == prev[a + 1]);
                        }
                    }
                    assert forall|a: int, b: int| 0 <= a < b < self@.len() implies self@[a].0
                        != self@[b].0 by {
                        let a0 = if a < i { a } else { a + 1 };
                        let b0 = if b < i { b } else { b + 1 };
                        assert(self@[a] == prev[a0] && self@[b] == prev[b0]);
                    }
                }
            } else {
                i += 1;
                proof {
                    assert(self@.take(i as int) =~= prev.take(i - 1).push(prev[i - 1]));
                    assert(self@.skip(i as int) =~= prev.skip(i - 1).skip(1));
                    assert(before.skip(k + 1) =~= before.skip(k).skip(1));
                }
            }
            proof {
                k = k + 1;
            }
        }
        proof {
            assert(self@.take(i as int) =~= self@);
            assert(before.take(k) =~= before);
            if find(self@, id) is Some {
                let j = choose|j: int| 0 <= j < self@.len() && self@[j].0 == id;
                assert(self@[j].0 != id);
            }
        }
    }

    /// Makes a surface for the new output `id`, in the colour of the
    /// session's state, and puts it in under that identity. A surface that
    /// was there under the same identity is dropped: the new one inherits
    /// nothing from it.
    pub fn on_output_added(&mut self, id: u32, color: u32)
        requires
            old(self).wf(),
        ensures
            final(self).wf(),
            final(self)@ == with_output(old(self)@, id, color),
            entry(final(self)@, id) == Some(SurfaceState::fresh(color)),
    {
        self.on_output_removed(id);
        let ghost prev = self@;
        self.surfaces.push((id, LockSurface::new(color)));
        proof {
            assert(self@ =~= prev.push((id, SurfaceState::fresh(color))));
            assert forall|a: int, b: int| 0 <= a < b < self@.len() implies self@[a].0
                != self@[b].0 by {
                if b == prev.len() {
                    if prev[a].0 == id {
                        lemma_find_unique(prev, id, a);
                    }
                } else {
                    assert(self@[a] == prev[a] && self@[b] == prev[b]);
                }
            }
            assert forall|a: int| 0 <= a < self@.len() implies (#[trigger] self@[a]).1.wf() by {
                if a < prev.len() {
                    assert(self@[a] == prev[a]);
                }
            }
            lemma_find_unique(self@, id, prev.len() as int);
        }
    }

    /// Records an event of the compositor for the surface of the output
    /// `id`. The result is `None` where the output is not live; else it
    /// says whether the event was taken (see [`LockSurface::record_event`]).
    pub fn record_event(&mut self, id: u32, event: RenderEvent) -> (taken: Option<bool>)
        requires
            old(self).wf(),
        ensures
            final(self).wf(),
            match find(old(self)@, id) {
                Some(i) => {
                    let was = old(self)@[i].1;
                    &&& taken == Some(slot_after(was.pending, event) == Some(event))
                    &&& final(self)@ == old(self)@.update(
                        i,
                        (id, SurfaceState { pending: slot_after(was.pending, event), ..was }),
                    )
                },
                None => taken is None && final(self)@ == old(self)@,
            },
    {
        match self.position(id) {
            Some(i) => {
                let ghost prev = self@;
                let taken = self.surfaces[i].1.record_event(event);
                proof {
                    assert(self@ =~= prev.update(
                        i as int,
                        (
                            id,
                            SurfaceState {
                                pending: slot_after(prev[i as int].1.pending, event),
                                ..prev[i as int].1
                            },
                        ),
                    ));
                    assert forall|a: int| 0 <= a < self@.len() implies (#[trigger] self@[a]).1.wf() by {
                        assert(prev[a].1.wf());
                    }
                }
                Some(taken)
            },
            None => None,
        }
    }

    /// Gives every surface the colour and the number of characters of the
    /// session's state, and asks each for a new frame.
    pub fn set_state(&mut self, color: u32, num: u32)
        requires
            old(self).wf(),
        ensures
            final(self).wf(),
            final(self)@ == with_state(old(self)@, color, num),
    {
        let ghost before = self@;
        let mut i: usize = 0;
        while i < self.surfaces.len()
            invariant
                self@.len() == self.surfaces@.len(),
                self@.len() == before.len(),
                i <= self@.len(),
                forall|j: int| 0 <= j < i ==> self@[j] == with_state(before, color, num)[j],
                forall|j: int| i <= j < self@.len() ==> self@[j] == before[j],
            decreases self.surfaces@.len() - i,
        {
            let ghost prev = self@;
            self.surfaces[i].1.set_color(color);
            let ghost coloured = self@;
            self.surfaces[i].1.chars_entered(num);
            let ghost counted = self@;
            self.surfaces[i].1.set_redraw();
            proof {
                assert forall|j: int| 0 <= j < self@.len() && j != i implies self@[j] == prev[j] by {
                    assert(coloured[j] == prev[j]);
                    assert(counted[j] == coloured[j]);
                }
                assert(coloured[i as int] == (prev[i as int].0, SurfaceState { color, redraw: true, ..prev[i as int].1 }));
                assert(counted[i as int] == (prev[i as int].0, SurfaceState { chars_entered: num, ..coloured[i as int].1 }));
                assert forall|j: int| 0 <= j < i + 1 implies self@[j] == with_state(
                    before,
                    color,
                    num,
                )[j] by {
                    if j < i {
                        assert(prev[j] == with_state(before, color, num)[j]);
                        assert(self@[j] == prev[j]);
                    }
                }
            }
            i += 1;
        }
        proof {
            assert(self@ =~= with_state(before, color, num));
            assert forall|a: int| 0 <= a < self@.len() implies (#[trigger] self@[a]).1.wf() by {
                assert(before[a].1.wf());
            }
        }
    }

    /// Asks every surface for a new frame, as the clock's timer does once a
    /// minute.
    pub fn tick(&mut self)
        requires
            old(self).wf(),
        ensures
            final(self).wf(),
            final(self)@ == marked(old(self)@),
    {
        let ghost before = self@;
        let mut i: usize = 0;
        while i < self.surfaces.len()
            invariant
                self@.len() == self.surfaces@.len(),
                self@.len() == before.len(),
                i <= self@.len(),
                forall|j: int| 0 <= j < i ==> self@[j] == marked(before)[j],
                forall|j: int| i <= j < self@.len() ==> self@[j] == before[j],
            decreases self.surfaces@.len() - i,
        {
            let ghost prev = self@;
            self.surfaces[i].1.set_redraw();
            proof {
                assert forall|j: int| 0 <= j < self@.len() && j != i implies self@[j] == prev[j] by {}
            }
            i += 1;
        }
        proof {
            assert(self@ =~= marked(before));
            assert forall|a: int| 0 <= a < self@.len() implies (#[trigger] self@[a]).1.wf() by {
                assert(before[a].1.wf());
            }
        }
    }

    /// Lets every surface handle its pending event, and takes out of the
    /// registry each surface whose event was a close. The result holds the
    /// identities taken out.
    pub fn sweep(&mut self) -> (gone: Vec<u32>)
        requires
            old(self).wf(),
        ensures
            final(self).wf(),
            final(self)@ == swept(old(self)@),
            gone@ == closed_ids(old(self)@),
    {
        let ghost before = self@;
        let ghost keep = |e: (u32, SurfaceState)| !closing(e);
        let ghost drop = |e: (u32, SurfaceState)| closing(e);
        let ghost handle = |e: (u32, SurfaceState)| handled(e);
        let ghost name = |e: (u32, SurfaceState)| id_of(e);
        let ghost mut k: int = 0;
        let mut gone: Vec<u32> = Vec::new();
        let mut i: usize = 0;
        proof {
            reveal(Seq::filter);
            assert(before.take(0).filter(keep).map_values(handle) =~= self@.take(0));
            assert(before.take(0).filter(drop).map_values(name) =~= gone@);
            assert(self@.skip(0) =~= before.skip(0));
        }
        while i < self.surfaces.len()
            invariant
                self@.len() == self.surfaces@.len(),
                0 <= k <= before.len(),
                i <= self@.len(),
                self@.len() - i == before.len() - k,
                self@.take(i as int) == before.take(k).filter(keep).map_values(handle),
                self@.skip(i as int) == before.skip(k),
                gone@ == before.take(k).filter(drop).map_values(name),
                forall|a: int| 0 <= a < self@.len() ==> (#[trigger] self@[a]).1.wf(),
                forall|a: int| 0 <= a < before.len() ==> (#[trigger] before[a]).1.wf(),
                keep == |e: (u32, SurfaceState)| !closing(e),
                drop == |e: (u32, SurfaceState)| closing(e),
                handle == |e: (u32, SurfaceState)| handled(e),
                name == |e: (u32, SurfaceState)| id_of(e),
            decreases before.len() - k,
        {
            let ghost prev = self@;
            proof {
                lemma_filter_step(before, k, keep);
                lemma_filter_step(before, k, drop);
                assert(prev[i as int] == prev.skip(i as int)[0]);
                assert(before[k] == before.skip(k)[0]);
                assert(before[k].1.wf());
            }
            let id = self.surfaces[i].0;
            let destroy = self.surfaces[i].1.handle_events();
            let ghost mid = self@;
            proof {
                assert(mid =~= prev.update(i as int, handle(before[k])));
            }
            if destroy {
                self.surfaces.remove(i);
                gone.push(id);
                proof {
                    assert(self@ =~= mid.remove(i as int));
                    assert(self@.take(i as int) =~= prev.take(i as int));
                    assert(self@.skip(i as int) =~= prev.skip(i as int).skip(1));
                    assert(before.skip(k + 1) =~= before.skip(k).skip(1));
                    assert(gone@ =~= before.take(k + 1).filter(drop).map_values(name));
                    assert forall|a: int| 0 <= a < self@.len() implies (#[trigger] self@[a]).1.wf() by {
                        if a < i {
                            assert(self@[a] == prev[a]);
                        } else {
                            assert(self@[a] == prev[a + 1]);
                        }
                    }
                }
            } else {
                i += 1;
                proof {
                    assert(self@.take(i as int) =~= prev.take(i - 1).push(handle(before[k])));
                    assert(self@.take(i as int) =~= before.take(k + 1).filter(keep).map_values(
                        handle,
                    ));
                    assert(self@.skip(i as int) =~= prev.skip(i - 1).skip(1));
                    assert(before.skip(k + 1) =~= before.skip(k).skip(1));
                    assert forall|a: int| 0 <= a < self@.len() implies (#[trigger] self@[a]).1.wf() by {
                        if a != i - 1 {
                            assert(self@[a] == prev[a]);
                        }
                    }
                }
            }
            proof {
                k = k + 1;
            }
        }
        proof {
            assert(self@.take(i as int) =~= self@);
            assert(before.take(k) =~= before);
            lemma_swept_distinct(before);
        }
        gone
    }

    /// Paints a new frame on the surface of the output `id`, given what
    /// the display's pool answered (see [`LockSurface::redraw`]). The
    /// result is `None` where the output is not live.
    pub fn redraw(&mut self, id: u32, pool: PoolReply, glyphs: &Vec<Glyph>) -> (out: Option<
        Result<(), DrawError>,
    >)
        requires
            old(self).wf(),
        ensures
            final(self).wf(),
            match find(old(self)@, id) {
                Some(i) => {
                    let was = old(self)@[i].1;
                    &&& out == Some(redraw_result(was, pool))
                    &&& final(self)@ == old(self)@.update(
                        i,
                        (
                            id,
                            if redraw_result(was, pool) is Ok {
                                was.painted(glyphs@)
                            } else {
                                was
                            },
                        ),
                    )
                },
                None => out is None && final(self)@ == old(self)@,
            },
    {
        match self.position(id) {
            Some(i) => {
                let ghost prev = self@;
                assert(prev[i as int].1.wf());
                let out = self.surfaces[i].1.redraw(pool, glyphs);
                proof {
                    let now = if out is Ok {
                        prev[i as int].1.painted(glyphs@)
                    } else {
                        prev[i as int].1
                    };
                    assert(self@ =~= prev.update(i as int, (id, now)));
                    assert forall|a: int| 0 <= a < self@.len() implies (#[trigger] self@[a]).1.wf() by {
                        assert(prev[a].1.wf());
                    }
                }
                Some(out)
            },
            None => None,
        }
    }
}

/// A sweep keeps the identities distinct.
proof fn lemma_swept_distinct(s: Seq<(u32, SurfaceState)>)
    requires
        distinct_ids(s),
    ensures
        distinct_ids(swept(s)),
{
    let keep = |e: (u32, SurfaceState)| !closing(e);
    lemma_filter_distinct(s, keep);
    let kept = s.filter(keep);
    assert forall|i: int, j: int| 0 <= i < j < swept(s).len() implies swept(s)[i].0 != swept(
        s,
    )[j].0 by {
        assert(swept(s)[i].0 == kept[i].0);
        assert(swept(s)[j].0 == kept[j].0);
    }
}

/// Filtering keeps the identities distinct.
proof fn lemma_filter_distinct(s: Seq<(u32, SurfaceState)>, p: spec_fn((u32, SurfaceState)) -> bool)
    requires
        distinct_ids(s),
    ensures
        distinct_ids(s.filter(p)),
        forall|i: int|
            0 <= i < s.filter(p).len() ==> exists|j: int|
                0 <= j < s.len() && s[j] == #[trigger] s.filter(p)[i],
    decreases s.len(),
{
    reveal(Seq::filter);
    if s.len() > 0 {
        let head = s.drop_last();
        assert forall|i: int, j: int| 0 <= i < j < head.len() implies head[i].0 != head[j].0 by {
            assert(head[i] == s[i] && head[j] == s[j]);
        }
        lemma_filter_distinct(head, p);
        let f = head.filter(p);
        assert forall|i: int| 0 <= i < s.filter(p).len() implies exists|j: int|
            0 <= j < s.len() && s[j] == #[trigger] s.filter(p)[i] by {
            if i < f.len() {
                let j = choose|j: int| 0 <= j < head.len() && head[j] == f[i];
                assert(s[j] == s.filter(p)[i]);
            } else {
                assert(s[s.len() - 1] == s.filter(p)[i]);
            }
        }
        assert forall|i: int, j: int| 0 <= i < j < s.filter(p).len() implies s.filter(p)[i].0
            != s.filter(p)[j].0 by {
            if j < f.len() {
                assert(f[i].0 != f[j].0);
            } else {
                let a = choose|a: int| 0 <= a < head.len() && head[a] == f[i];
                assert(s[a].0 != s[s.len() - 1].0);
            }
        }
    }
}

/// Taking an identity out leaves no entry under it and leaves every other
/// entry as it was.
pub proof fn without_forgets_only_the_output(s: Seq<(u32, SurfaceState)>, id: u32, other: u32)
    requires
        distinct_ids(s),
    ensures
        distinct_ids(without(s, id)),
        entry(without(s, id), id) is None,
        other != id ==> entry(without(s, id), other) == entry(s, other),
{
    let p = other_than(id);
    let f = without(s, id);
    lemma_filter_distinct(s, p);
    broadcast use vstd::seq_lib::group_filter_ensures;
    if find(f, id) is Some {
        let j = choose|j: int| 0 <= j < f.len() && f[j].0 == id;
        assert(p(f[j]));
    }
    if other != id {
        if find(s, other) is Some {
            let i = choose|i: int| 0 <= i < s.len() && s[i].0 == other;
            lemma_find_unique(s, other, i);
            assert(p(s[i]));
            assert(f.contains(s[i]));
            let j = choose|j: int| 0 <= j < f.len() && f[j] == s[i];
            lemma_find_unique(f, other, j);
        } else {
            if find(f, other) is Some {
                let j = choose|j: int| 0 <= j < f.len() && f[j].0 == other;
                let i = choose|i: int| 0 <= i < s.len() && s[i] == f[j];
                assert(s[i].0 == other);
            }
        }
    }
}

/// An output that goes and at once comes back under the same identity has
/// a surface of its own: the new surface is the one that any new output
/// gets, whatever the old surface held, and the surfaces of the other
/// outputs are as they were.
pub proof fn readded_output_starts_fresh(
    s: Seq<(u32, SurfaceState)>,
    id: u32,
    color: u32,
    other: u32,
)
    requires
        distinct_ids(s),
    ensures
        distinct_ids(with_output(without(s, id), id, color)),
        entry(with_output(without(s, id), id, color), id) == Some(SurfaceState::fresh(color)),
        other != id ==> entry(with_output(without(s, id), id, color), other) == entry(s, other),
{
    let gone = without(s, id);
    without_forgets_only_the_output(s, id, other);
    without_forgets_only_the_output(gone, id, other);
    let rest = without(gone, id);
    let back = with_output(gone, id, color);
    assert(back == rest.push((id, SurfaceState::fresh(color))));
    assert forall|a: int, b: int| 0 <= a < b < back.len() implies back[a].0 != back[b].0 by {
        if b == rest.len() {
            if rest[a].0 == id {
                lemma_find_unique(rest, id, a);
            }
        } else {
            assert(back[a] == rest[a] && back[b] == rest[b]);
        }
    }
    lemma_find_unique(back, id, rest.len() as int);
    if other != id {
        if find(rest, other) is Some {
            let i = choose|i: int| 0 <= i < rest.len() && rest[i].0 == other;
            assert(back[i] == rest[i]);
            lemma_find_unique(rest, other, i);
            lemma_find_unique(back, other, i);
        } else {
            if find(back, other) is Some {
                let j = choose|j: int| 0 <= j < back.len() && back[j].0 == other;
                assert(j < rest.len());
                assert(rest[j].0 == other);
            }
        }
    }
}

} // verus!
