//! Pointer device handling.
//!
//! A [`PointerTracker`] follows up to two pointers (a mouse, or fingers on a
//! touchscreen) from their pointer down, move and up events, and turns the
//! moves into drag gestures (one pointer) or pinch gestures (two pointers).

use vstd::prelude::*;

verus! {

/// Number of pointers that can be followed at once.
pub const NUM_POINTERS: usize = 2;

/// What the tracker reads of a pointer event: the pointer ID and its position
/// in client coordinates (pixels).
#[derive(Debug, Copy, Clone, PartialEq, Eq, Hash, Structural)]
pub struct PointerSample {
    /// Pointer ID.
    pub pointer_id: i32,
    /// X position in pixels.
    pub client_x: i32,
    /// Y position in pixels.
    pub client_y: i32,
}

/// A followed pointer: its last event and the series of gestures it belongs to.
#[derive(Debug, Copy, Clone, PartialEq, Eq, Hash, Structural)]
pub struct Pointer {
    /// Last event of the pointer.
    pub event: PointerSample,
    /// ID of the series of gestures of the pointer.
    pub series_id: u8,
}

/// Positions involved in a pinch gesture, from which its dilation is computed.
#[derive(Debug, Copy, Clone, PartialEq, Eq, Hash)]
pub struct PinchPoints {
    /// Previous position of the pointer that moved.
    pub same: (i32, i32),
    /// Position of the other pointer.
    pub other: (i32, i32),
    /// New position of the pointer that moved.
    pub new: (i32, i32),
}

/// Pointer gesture.
#[derive(Debug, Copy, Clone, PartialEq, Eq, Hash)]
pub enum PointerGesture {
    /// A drag gesture (mouse drag or one-finger drag).
    Drag {
        /// Displacement in the X dimension (in pixels).
        dx: i32,
        /// Displacement in the Y dimension (in pixels).
        dy: i32,
        /// X position (in pixels) of the previous pointer location.
        x0: i32,
        /// Y position (in pixels) of the previous pointer location.
        y0: i32,
        /// ID for the series of gestures.
        series_id: u8,
    },
    /// A pinch gesture (two fingers moving closer or further apart).
    Pinch {
        /// Center of the pinch: the mean point between the last recorded
        /// positions of the two fingers (rounded down).
        center: (i32, i32),
        /// Positions from which the dilation factor is computed.
        points: PinchPoints,
        /// ID for the series of gestures: the smaller of the two pointers' IDs.
        series_id: u8,
    },
}

/// The point halfway between two positions, rounded down.
pub open spec fn mean_position(a: i32, b: i32) -> int {
    (a + b) / 2
}

/// Computes the point halfway between two positions, rounded down.
fn mean(a: i32, b: i32) -> (r: i32)
    ensures
        r == mean_position(a, b),
{
    let sa: u64 = (a as i64 + 0x8000_0000i64) as u64;
    let sb: u64 = (b as i64 + 0x8000_0000i64) as u64;
    let m: u64 = (sa + sb) / 2;
    assert(m == (a + b) / 2 + 0x8000_0000) by {
        vstd::arithmetic::div_mod::lemma_fundamental_div_mod(a + b, 2);
        vstd::arithmetic::div_mod::lemma_fundamental_div_mod_converse(
            a + b + 0x1_0000_0000,
            2,
            (a + b) / 2 + 0x8000_0000,
            (a + b) % 2,
        );
    }
    (m as i64 - 0x8000_0000i64) as i32
}

/// Whether a difference of two positions fits in an `i32`.
pub open spec fn fits_i32(v: int) -> bool {
    i32::MIN <= v <= i32::MAX
}

/// Index of the first slot that follows pointer `id`, if any.
pub open spec fn slot_of(slots: Seq<Option<Pointer>>, id: i32) -> Option<int> {
    if slots[0] matches Some(p) && p.event.pointer_id == id {
        Some(0)
    } else if slots[1] matches Some(p) && p.event.pointer_id == id {
        Some(1)
    } else {
        None
    }
}

/// Index of the first free slot, if any.
pub open spec fn free_slot(slots: Seq<Option<Pointer>>) -> Option<int> {
    if slots[0] is None {
        Some(0)
    } else if slots[1] is None {
        Some(1)
    } else {
        None
    }
}

/// Number of followed pointers.
pub open spec fn active_count(slots: Seq<Option<Pointer>>) -> int {
    (if slots[0] is Some { 1int } else { 0int }) + (if slots[1] is Some { 1int } else { 0int })
}

/// The slots, and the next series ID, after recording an event in `slots`
/// (see [`PointerTracker::recorded`]).
pub open spec fn record_in(slots: Seq<Option<Pointer>>, next_id: u8, event: PointerSample) -> (Seq<Option<Pointer>>, u8) {
    match slot_of(slots, event.pointer_id) {
        Some(i) => (slots.update(i, Some(Pointer { event, series_id: slots[i]->Some_0.series_id })), next_id),
        None => match free_slot(slots) {
            Some(i) => (
                slots.update(i, Some(Pointer { event, series_id: next_id })),
                (if next_id == 255 { 0 } else { (next_id + 1) as u8 }),
            ),
            None => (slots, next_id),
        },
    }
}

/// The gesture that a move event makes with the pointers followed in `slots`
/// (see [`PointerTracker::gesture`]).
pub open spec fn slots_gesture(slots: Seq<Option<Pointer>>, event: PointerSample) -> Option<PointerGesture> {
    match slot_of(slots, event.pointer_id) {
        None => None,
        Some(i) => {
            let same = slots[i]->Some_0;
            if active_count(slots) == 1 {
                Some(PointerGesture::Drag {
                    dx: (event.client_x - same.event.client_x) as i32,
                    dy: (event.client_y - same.event.client_y) as i32,
                    x0: same.event.client_x,
                    y0: same.event.client_y,
                    series_id: same.series_id,
                })
            } else {
                let other = slots[1 - i]->Some_0;
                Some(PointerGesture::Pinch {
                    center: (
                        mean_position(same.event.client_x, other.event.client_x) as i32,
                        mean_position(same.event.client_y, other.event.client_y) as i32,
                    ),
                    points: PinchPoints {
                        same: (same.event.client_x, same.event.client_y),
                        other: (other.event.client_x, other.event.client_y),
                        new: (event.client_x, event.client_y),
                    },
                    series_id: if same.series_id < other.series_id { same.series_id } else { other.series_id },
                })
            }
        },
    }
}

/// Pointer tracker.
pub struct PointerTracker {
    slots: [Option<Pointer>; 2],
    new_series_id: u8,
}

impl PointerTracker {
    /// The two slots.
    pub closed spec fn slots(&self) -> Seq<Option<Pointer>> {
        seq![self.slots[0], self.slots[1]]
    }

    /// Series ID that the next new pointer gets.
    pub closed spec fn next_series_id(&self) -> u8 {
        self.new_series_id
    }

    /// There are two slots, and they never follow the same pointer.
    pub open spec fn wf(&self) -> bool {
        &&& self.slots().len() == NUM_POINTERS
        &&& match (self.slots()[0], self.slots()[1]) {
            (Some(a), Some(b)) => a.event.pointer_id != b.event.pointer_id,
            _ => true,
        }
    }

    /// The slots after recording an event: the event replaces the last event of
    /// its pointer if that pointer is followed; otherwise the pointer goes to
    /// the first free slot with a new series ID; with no free slot the event
    /// is dropped.
    pub open spec fn recorded(&self, event: PointerSample) -> (Seq<Option<Pointer>>, u8) {
        record_in(self.slots(), self.next_series_id(), event)
    }

    /// Creates a tracker that follows no pointer.
    pub fn new() -> (r: PointerTracker)
        ensures
            r.wf(),
            r.slots() == seq![None::<Pointer>, None::<Pointer>],
            r.next_series_id() == 0,
    {
        let r = PointerTracker { slots: [None, None], new_series_id: 0 };
        assert(r.slots() =~= seq![None::<Pointer>, None::<Pointer>]);
        r
    }

    fn record_event(&mut self, event: PointerSample)
        requires
            old(self).wf(),
        ensures
            final(self).wf(),
            (final(self).slots(), final(self).next_series_id()) == old(self).recorded(event),
    {
        let pointer_id = event.pointer_id;
        // search a previous event of the same pointer, and replace it
        if let Some(p) = self.slots[0] {
            if p.event.pointer_id == pointer_id {
                self.slots[0] = Some(Pointer { event, series_id: p.series_id });
                assert(self.slots() =~= old(self).recorded(event).0);
                return;
            }
        }
        if let Some(p) = self.slots[1] {
            if p.event.pointer_id == pointer_id {
                self.slots[1] = Some(Pointer { event, series_id: p.series_id });
                assert(self.slots() =~= old(self).recorded(event).0);
                return;
            }
        }
        // otherwise follow the pointer in a free slot, with a new series
        if self.slots[0].is_none() {
            self.slots[0] = Some(Pointer { event, series_id: self.new_series_id });
            self.new_series_id = self.new_series_id.wrapping_add(1);
            assert(self.slots() =~= old(self).recorded(event).0);
            return;
        }
        if self.slots[1].is_none() {
            self.slots[1] = Some(Pointer { event, series_id: self.new_series_id });
            self.new_series_id = self.new_series_id.wrapping_add(1);
            assert(self.slots() =~= old(self).recorded(event).0);
            return;
        }
        // no free slot: the pointer cannot be followed
        assert(self.slots() =~= old(self).recorded(event).0);
    }

    /// Handler for the pointer down event: starts following the pointer.
    pub fn on_pointer_down(&mut self, event: PointerSample)
        requires
            old(self).wf(),
        ensures
            final(self).wf(),
            (final(self).slots(), final(self).next_series_id()) == old(self).recorded(event),
    {
        self.record_event(event);
    }

    /// Handler for the pointer up event: stops following the pointer.
    pub fn on_pointer_up(&mut self, event: PointerSample)
        requires
            old(self).wf(),
        ensures
            final(self).wf(),
            final(self).next_series_id() == old(self).next_series_id(),
            final(self).slots() == match slot_of(old(self).slots(), event.pointer_id) {
                Some(i) => old(self).slots().update(i, None),
                None => old(self).slots(),
            },
    {
        let pointer_id = event.pointer_id;
        if let Some(p) = self.slots[0] {
            if p.event.pointer_id == pointer_id {
                self.slots[0] = None;
                assert(slot_of(old(self).slots(), pointer_id) == Some(0int));
                assert(self.slots() =~= old(self).slots().update(0, None));
                return;
            }
        }
        if let Some(p) = self.slots[1] {
            if p.event.pointer_id == pointer_id {
                self.slots[1] = None;
                assert(slot_of(old(self).slots(), pointer_id) == Some(1int));
                assert(self.slots() =~= old(self).slots().update(1, None));
                return;
            }
        }
    }

    fn get_pointer(&self, pointer_id: i32) -> (r: Option<Pointer>)
        ensures
            r == match slot_of(self.slots(), pointer_id) {
                Some(i) => self.slots()[i],
                None => None,
            },
    {
        if let Some(p) = self.slots[0] {
            if p.event.pointer_id == pointer_id {
                return Some(p);
            }
        }
        if let Some(p) = self.slots[1] {
            if p.event.pointer_id == pointer_id {
                return Some(p);
            }
        }
        None
    }

    /// Checks if there are any active pointers: pointers that went down and
    /// did not go up yet.
    pub fn has_active_pointers(&self) -> (r: bool)
        ensures
            r == (active_count(self.slots()) > 0),
    {
        self.slots[0].is_some() || self.slots[1].is_some()
    }

    fn num_active_pointers(&self) -> (r: usize)
        ensures
            r == active_count(self.slots()),
    {
        let mut n: usize = 0;
        if self.slots[0].is_some() {
            n = n + 1;
        }
        if self.slots[1].is_some() {
            n = n + 1;
        }
        n
    }

    /// The gesture that a move event makes: a drag of the only followed
    /// pointer, a pinch when two pointers are followed and the move is of one
    /// of them, and otherwise none.
    pub open spec fn gesture(&self, event: PointerSample) -> Option<PointerGesture> {
        slots_gesture(self.slots(), event)
    }

    /// Whether the displacement of a drag made by a move event fits in an
    /// `i32` (a move that makes no drag always does).
    pub open spec fn move_fits(&self, event: PointerSample) -> bool {
        let slots = self.slots();
        match slot_of(slots, event.pointer_id) {
            Some(i) if active_count(slots) == 1 => {
                let same = slots[i]->Some_0;
                fits_i32(event.client_x - same.event.client_x) && fits_i32(event.client_y - same.event.client_y)
            },
            _ => true,
        }
    }

    /// Handler for the pointer move event.
    ///
    /// Returns the gesture that the move makes, if any; when there is one, the
    /// event is recorded as the last event of its pointer.
    pub fn on_pointer_move(&mut self, event: PointerSample) -> (r: Option<PointerGesture>)
        requires
            old(self).wf(),
            old(self).move_fits(event),
        ensures
            final(self).wf(),
            r == old(self).gesture(event),
            r is Some ==> (final(self).slots(), final(self).next_series_id()) == old(self).recorded(event),
            r is None ==> final(self).slots() == old(self).slots() && final(self).next_series_id()
                == old(self).next_series_id(),
    {
        let n = self.num_active_pointers();
        let ret = if n == 1 {
            match self.get_pointer(event.pointer_id) {
                Some(old_event) => Some(self.drag(&event, &old_event)),
                None => None,
            }
        } else if n == 2 {
            self.pinch(&event)
        } else {
            None
        };
        if ret.is_some() {
            self.record_event(event);
        }
        ret
    }

    fn drag(&self, new: &PointerSample, old: &Pointer) -> (r: PointerGesture)
        requires
            fits_i32(new.client_x - old.event.client_x),
            fits_i32(new.client_y - old.event.client_y),
        ensures
            r == (PointerGesture::Drag {
                dx: (new.client_x - old.event.client_x) as i32,
                dy: (new.client_y - old.event.client_y) as i32,
                x0: old.event.client_x,
                y0: old.event.client_y,
                series_id: old.series_id,
            }),
    {
        let x0 = old.event.client_x;
        let y0 = old.event.client_y;
        PointerGesture::Drag { dx: new.client_x - x0, dy: new.client_y - y0, x0, y0, series_id: old.series_id }
    }

    fn pinch(&self, event: &PointerSample) -> (r: Option<PointerGesture>)
        requires
            self.wf(),
            active_count(self.slots()) == 2,
        ensures
            r == self.gesture(*event),
    {
        let pointer_id = event.pointer_id;
        let same = match self.get_pointer(pointer_id) {
            Some(p) => p,
            None => {
                return None;
            },
        };
        let other = if let Some(p) = self.slots[0] {
            if p.event.pointer_id != pointer_id {
                p
            } else {
                self.slots[1].unwrap()
            }
        } else {
            self.slots[1].unwrap()
        };
        let series_id = if same.series_id < other.series_id { same.series_id } else { other.series_id };
        Some(PointerGesture::Pinch {
            center: (
                mean(same.event.client_x, other.event.client_x),
                mean(same.event.client_y, other.event.client_y),
            ),
            points: PinchPoints {
                same: (same.event.client_x, same.event.client_y),
                other: (other.event.client_x, other.event.client_y),
                new: (event.client_x, event.client_y),
            },
            series_id,
        })
    }
}

/// A pointer that goes down while not followed and with a free slot is then
/// followed in that slot, and its going up leaves the slots as they were.
pub proof fn lemma_pointer_down_then_up(t: PointerTracker, e: PointerSample)
    requires
        t.wf(),
        slot_of(t.slots(), e.pointer_id) is None,
        free_slot(t.slots()) is Some,
    ensures
        ({
            let i = free_slot(t.slots())->0;
            let after_down = t.recorded(e).0;
            &&& slot_of(after_down, e.pointer_id) == Some(i)
            &&& after_down[i] == Some(Pointer { event: e, series_id: t.next_series_id() })
            &&& after_down.update(i, None) == t.slots()
        }),
{
    let i = free_slot(t.slots())->0;
    let after_down = t.recorded(e).0;
    assert(after_down.update(i, None) =~= t.slots());
}

/// With a single pointer followed, a move of that pointer drags it from its
/// last recorded position and is recorded, so that the next move of the same
/// pointer drags it from the position of this move, in the same series.
pub proof fn lemma_drag_then_move(slots: Seq<Option<Pointer>>, next_id: u8, e1: PointerSample, e2: PointerSample)
    requires
        slots.len() == NUM_POINTERS,
        active_count(slots) == 1,
        slot_of(slots, e1.pointer_id) is Some,
        e2.pointer_id == e1.pointer_id,
    ensures
        ({
            let i = slot_of(slots, e1.pointer_id)->0;
            let p = slots[i]->Some_0;
            let after = record_in(slots, next_id, e1);
            &&& slots_gesture(slots, e1) == Some(PointerGesture::Drag {
                dx: (e1.client_x - p.event.client_x) as i32,
                dy: (e1.client_y - p.event.client_y) as i32,
                x0: p.event.client_x,
                y0: p.event.client_y,
                series_id: p.series_id,
            })
            &&& after.1 == next_id
            &&& slots_gesture(after.0, e2) == Some(PointerGesture::Drag {
                dx: (e2.client_x - e1.client_x) as i32,
                dy: (e2.client_y - e1.client_y) as i32,
                x0: e1.client_x,
                y0: e1.client_y,
                series_id: p.series_id,
            })
        }),
{
}

/// A move of a pointer that is not followed makes no gesture and records
/// nothing.
pub proof fn lemma_move_of_unfollowed_pointer(t: PointerTracker, e: PointerSample)
    requires
        t.wf(),
        slot_of(t.slots(), e.pointer_id) is None,
    ensures
        t.gesture(e) is None,
{
}

/// With two pointers followed, a move of either one makes a pinch; both
/// pinches have the same series ID, the smaller of the two pointers' series
/// IDs, so the series does not depend on which finger moved. The center is
/// the same too: the mean point of the two fingers.
pub proof fn lemma_pinch_series_is_shared(slots: Seq<Option<Pointer>>, e1: PointerSample, e2: PointerSample)
    requires
        slots.len() == NUM_POINTERS,
        slots[0] is Some,
        slots[1] is Some,
        slots[0]->Some_0.event.pointer_id != slots[1]->Some_0.event.pointer_id,
        e1.pointer_id == slots[0]->Some_0.event.pointer_id,
        e2.pointer_id == slots[1]->Some_0.event.pointer_id,
    ensures
        ({
            let a = slots[0]->Some_0;
            let b = slots[1]->Some_0;
            &&& slots_gesture(slots, e1) matches Some(PointerGesture::Pinch { series_id: s1, center: c1, .. })
            &&& slots_gesture(slots, e2) matches Some(PointerGesture::Pinch { series_id: s2, center: c2, .. })
            &&& s1 == s2
            &&& s1 <= a.series_id && s1 <= b.series_id
            &&& (s1 == a.series_id || s1 == b.series_id)
            &&& c1 == c2
            &&& 2 * c1.0 <= a.event.client_x + b.event.client_x <= 2 * c1.0 + 1
            &&& 2 * c1.1 <= a.event.client_y + b.event.client_y <= 2 * c1.1 + 1
        }),
{
    let a = slots[0]->Some_0;
    let b = slots[1]->Some_0;
    vstd::arithmetic::div_mod::lemma_fundamental_div_mod(a.event.client_x + b.event.client_x, 2);
    vstd::arithmetic::div_mod::lemma_fundamental_div_mod(a.event.client_y + b.event.client_y, 2);
    assert(mean_position(a.event.client_x, b.event.client_x) == mean_position(b.event.client_x, a.event.client_x));
    assert(mean_position(a.event.client_y, b.event.client_y) == mean_position(b.event.client_y, a.event.client_y));
}

} // verus!
