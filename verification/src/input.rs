//! Input aggregation: raw device events in, one snapshot per frame out.

use crate::clock::ClockReading;
use std::collections::HashSet;
use vstd::prelude::*;

verus! {

broadcast use vstd::std_specs::hash::group_hash_axioms;

/// Whether a button or key went down or came up.
#[derive(Clone, Copy, Debug, PartialEq, Eq, Structural)]
pub enum ElementState {
    Pressed,
    Released,
}

/// A mouse button. Only the left one drives the engine's mouse flags.
#[derive(Clone, Copy, Debug, PartialEq, Eq, Structural)]
pub enum MouseButton {
    Left,
    Right,
    Middle,
    Other(u16),
}

/// An absolute pointer position. The engine keeps and hands back the
/// coordinates without ever computing on them, so their type is the host's.
#[derive(Debug)]
pub struct MousePosition<C> {
    pub x: C,
    pub y: C,
}

impl<C: Copy> Clone for MousePosition<C> {
    fn clone(&self) -> (copy: Self)
        ensures
            copy == *self,
    {
        *self
    }
}

impl<C: Copy> Copy for MousePosition<C> {

}

/// What the event source can deliver. Keys are identified by the host's key
/// codes; a key event without a code carries `None`.
#[derive(Debug)]
pub enum Event<C> {
    CloseRequested,
    CursorMoved { position: MousePosition<C> },
    MouseInput { state: ElementState, button: MouseButton },
    KeyboardInput { virtual_keycode: Option<u32>, state: ElementState },
    RedrawRequested,
    LoopDestroyed,
    Other,
}

/// The input state as a mathematical value.
#[verifier::ext_equal]
pub struct InputView<C> {
    pub mouse_position: MousePosition<C>,
    pub is_mouse_down: bool,
    pub is_mouse_released: bool,
    pub keys_hold: Set<u32>,
    pub keys_down: Set<u32>,
    pub keys_up: Set<u32>,
}

impl<C> InputView<C> {
    /// The state before any event: nothing held, nothing pending.
    pub open spec fn initial(mouse_position: MousePosition<C>) -> Self {
        InputView {
            mouse_position,
            is_mouse_down: false,
            is_mouse_released: false,
            keys_hold: Set::empty(),
            keys_down: Set::empty(),
            keys_up: Set::empty(),
        }
    }

    /// The state after one event.
    pub open spec fn after(self, event: Event<C>) -> Self {
        match event {
            Event::CursorMoved { position } => InputView { mouse_position: position, ..self },
            Event::MouseInput { state: ElementState::Pressed, button: MouseButton::Left } => {
                InputView { is_mouse_down: true, ..self }
            },
            Event::MouseInput { state: ElementState::Released, button: MouseButton::Left } => {
                InputView { is_mouse_down: false, is_mouse_released: true, ..self }
            },
            Event::KeyboardInput { virtual_keycode: Some(key), state: ElementState::Pressed } => {
                if self.keys_hold.contains(key) {
                    self
                } else {
                    InputView {
                        keys_hold: self.keys_hold.insert(key),
                        keys_down: self.keys_down.insert(key),
                        ..self
                    }
                }
            },
            Event::KeyboardInput { virtual_keycode: Some(key), state: ElementState::Released } => {
                InputView {
                    keys_hold: self.keys_hold.remove(key),
                    keys_up: self.keys_up.insert(key),
                    ..self
                }
            },
            _ => self,
        }
    }

    /// The state once a frame's layers have run: what was valid for that
    /// frame only is gone, the rest stays.
    pub open spec fn frame_ended(self) -> Self {
        InputView {
            is_mouse_released: false,
            keys_down: Set::empty(),
            keys_up: Set::empty(),
            ..self
        }
    }

    /// What the layers of a frame get to see of this state, together with
    /// the clock's reading for the frame.
    pub open spec fn seen(self, reading: ClockReading) -> MetaView<C> {
        MetaView {
            frames_per_second: reading.frames_per_second,
            delta_time: reading.delta_time,
            mouse_position: self.mouse_position,
            is_mouse_down: self.is_mouse_down,
            is_mouse_released: self.is_mouse_released,
            keys_hold: self.keys_hold,
            keys_up: self.keys_up,
            keys_down: self.keys_down,
        }
    }
}

/// Something that happens to the input state: an event arrives, or a frame
/// ends.
pub enum Occurrence<C> {
    Arrived(Event<C>),
    FrameEnded,
}

impl<C> Occurrence<C> {
    /// Whether this is `key` going down or coming up.
    pub open spec fn is_key(self, key: u32) -> bool {
        self matches Occurrence::Arrived(Event::KeyboardInput { virtual_keycode: Some(k), .. })
            && k == key
    }

    /// Whether this is `key` going down.
    pub open spec fn is_press_of(self, key: u32) -> bool {
        self matches Occurrence::Arrived(
            Event::KeyboardInput { virtual_keycode: Some(k), state: ElementState::Pressed },
        ) && k == key
    }

    /// Whether this is `key` coming up.
    pub open spec fn is_release_of(self, key: u32) -> bool {
        self matches Occurrence::Arrived(
            Event::KeyboardInput { virtual_keycode: Some(k), state: ElementState::Released },
        ) && k == key
    }

    /// Whether this is any key going down or coming up.
    pub open spec fn is_any_key(self) -> bool {
        self matches Occurrence::Arrived(Event::KeyboardInput { virtual_keycode: Some(_), .. })
    }

    /// Whether this is the left mouse button coming up.
    pub open spec fn is_mouse_release(self) -> bool {
        self matches Occurrence::Arrived(
            Event::MouseInput { state: ElementState::Released, button: MouseButton::Left },
        )
    }
}

impl<C> InputView<C> {
    /// The state after all of `history`, oldest first.
    pub open spec fn replayed(self, history: Seq<Occurrence<C>>) -> Self
        decreases history.len(),
    {
        if history.len() == 0 {
            self
        } else {
            let before = self.replayed(history.drop_last());
            match history.last() {
                Occurrence::Arrived(event) => before.after(event),
                Occurrence::FrameEnded => before.frame_ended(),
            }
        }
    }

    /// Every key that went down in the current frame and has not come up in
    /// it is held.
    pub open spec fn consistent(self) -> bool {
        forall|key: u32| self.keys_down.contains(key) && !self.keys_up.contains(key)
            ==> self.keys_hold.contains(key)
    }

    /// The initial state is consistent, and events and frame ends keep a
    /// state consistent.
    pub proof fn lemma_consistent(self, event: Event<C>, mouse_position: MousePosition<C>)
        ensures
            Self::initial(mouse_position).consistent(),
            self.consistent() ==> self.after(event).consistent(),
            self.frame_ended().consistent(),
    {
    }

    /// Whatever happened and however frames fell in between, a key is held
    /// exactly if the last that was heard of it was that it went down.
    pub proof fn lemma_held_iff_last_was_press(
        self,
        history: Seq<Occurrence<C>>,
        key: u32,
        last: int,
    )
        requires
            0 <= last < history.len(),
            history[last].is_key(key),
            forall|later: int| last < later < history.len() ==> !(#[trigger] history[later]).is_key(key),
        ensures
            self.replayed(history).keys_hold.contains(key) <==> history[last].is_press_of(key),
        decreases history.len(),
    {
        let before = self.replayed(history.drop_last());
        if last < history.len() - 1 {
            assert(!history[history.len() - 1].is_key(key));
            assert(history.drop_last()[last] == history[last]);
            assert forall|later: int| last < later < history.drop_last().len() implies !(
            #[trigger] history.drop_last()[later]).is_key(key) by {
                assert(history.drop_last()[later] == history[later]);
            }
            self.lemma_held_iff_last_was_press(history.drop_last(), key, last);
        }
    }

    /// A key of which nothing was heard is held exactly if it was held
    /// before.
    pub proof fn lemma_unheard_key_stays(self, history: Seq<Occurrence<C>>, key: u32)
        requires
            forall|i: int| 0 <= i < history.len() ==> !(#[trigger] history[i]).is_key(key),
        ensures
            self.replayed(history).keys_hold.contains(key) <==> self.keys_hold.contains(key),
        decreases history.len(),
    {
        if history.len() > 0 {
            assert(!history[history.len() - 1].is_key(key));
            assert forall|i: int| 0 <= i < history.drop_last().len() implies !(
            #[trigger] history.drop_last()[i]).is_key(key) by {
                assert(history.drop_last()[i] == history[i]);
            }
            self.lemma_unheard_key_stays(history.drop_last(), key);
        }
    }

    /// Whether the left mouse button came up after the last frame end of
    /// `history`.
    pub open spec fn mouse_released_since_frame(history: Seq<Occurrence<C>>) -> bool {
        exists|at: int|
            0 <= at < history.len() && (#[trigger] history[at]).is_mouse_release() && forall|
                later: int,
            |
                at < later < history.len() ==> !(#[trigger] history[later] is FrameEnded)
    }

    /// Whether no frame has ended in `history`.
    pub open spec fn in_first_frame(history: Seq<Occurrence<C>>) -> bool {
        forall|i: int| 0 <= i < history.len() ==> !(#[trigger] history[i] is FrameEnded)
    }

    /// The released flag is up exactly in the frame in which the left button
    /// came up: it is set if and only if the button came up since the last
    /// frame end, or, where no frame has ended yet, if it was set to begin
    /// with.
    pub proof fn lemma_release_flag_lasts_one_frame(self, history: Seq<Occurrence<C>>)
        ensures
            self.replayed(history).is_mouse_released <==> Self::mouse_released_since_frame(history)
                || (self.is_mouse_released && Self::in_first_frame(history)),
        decreases history.len(),
    {
        if history.len() > 0 {
            let earlier = history.drop_last();
            let last = history.len() - 1;
            self.lemma_release_flag_lasts_one_frame(earlier);
            assert forall|i: int| 0 <= i < earlier.len() implies earlier[i] == history[i] by {}
            if history[last] is FrameEnded {
                assert(!Self::in_first_frame(history));
                if Self::mouse_released_since_frame(history) {
                    let at = choose|at: int|
                        0 <= at < history.len() && (#[trigger] history[at]).is_mouse_release()
                            && forall|later: int|
                            at < later < history.len() ==> !(#[trigger] history[later]
                                is FrameEnded);
                    assert(history[last] is FrameEnded);
                    assert(false);
                }
            } else if history[last].is_mouse_release() {
                assert(Self::mouse_released_since_frame(history));
            } else {
                if Self::mouse_released_since_frame(earlier) {
                    let at = choose|at: int|
                        0 <= at < earlier.len() && (#[trigger] earlier[at]).is_mouse_release()
                            && forall|later: int|
                            at < later < earlier.len() ==> !(#[trigger] earlier[later]
                                is FrameEnded);
                    assert(history[at].is_mouse_release());
                    assert forall|later: int| at < later < history.len() implies !(
                    #[trigger] history[later] is FrameEnded) by {
                        if later < earlier.len() {
                            assert(earlier[later] == history[later]);
                        }
                    }
                    assert(Self::mouse_released_since_frame(history));
                }
                if Self::mouse_released_since_frame(history) {
                    let at = choose|at: int|
                        0 <= at < history.len() && (#[trigger] history[at]).is_mouse_release()
                            && forall|later: int|
                            at < later < history.len() ==> !(#[trigger] history[later]
                                is FrameEnded);
                    assert(at < last);
                    assert(earlier[at].is_mouse_release());
                    assert forall|later: int| at < later < earlier.len() implies !(
                    #[trigger] earlier[later] is FrameEnded) by {
                        assert(earlier[later] == history[later]);
                    }
                    assert(Self::mouse_released_since_frame(earlier));
                }
                if Self::in_first_frame(earlier) {
                    assert forall|i: int| 0 <= i < history.len() implies !(#[trigger] history[i]
                        is FrameEnded) by {
                        if i < earlier.len() {
                            assert(earlier[i] == history[i]);
                        }
                    }
                }
                if Self::in_first_frame(history) {
                    assert forall|i: int| 0 <= i < earlier.len() implies !(#[trigger] earlier[i]
                        is FrameEnded) by {
                        assert(earlier[i] == history[i]);
                    }
                }
            }
        }
    }

    /// Ending a frame twice is ending it once.
    pub proof fn lemma_frame_end_is_idempotent(self)
        ensures
            self.frame_ended().frame_ended() == self.frame_ended(),
            self.frame_ended().keys_down == Set::<u32>::empty(),
            self.frame_ended().keys_up == Set::<u32>::empty(),
            !self.frame_ended().is_mouse_released,
    {
    }

    /// Where no key went down or came up since the last frame end, the two
    /// per-frame key sets are empty.
    pub proof fn lemma_key_edges_empty_without_events(
        self,
        history: Seq<Occurrence<C>>,
        frame_end: int,
    )
        requires
            0 <= frame_end < history.len(),
            history[frame_end] is FrameEnded,
            forall|later: int|
                frame_end < later < history.len() ==> !(#[trigger] history[later]).is_any_key(),
        ensures
            self.replayed(history).keys_down == Set::<u32>::empty(),
            self.replayed(history).keys_up == Set::<u32>::empty(),
        decreases history.len(),
    {
        if frame_end < history.len() - 1 {
            let earlier = history.drop_last();
            assert(!history[history.len() - 1].is_any_key());
            assert(earlier[frame_end] == history[frame_end]);
            assert forall|later: int| frame_end < later < earlier.len() implies !(
            #[trigger] earlier[later]).is_any_key() by {
                assert(earlier[later] == history[later]);
            }
            self.lemma_key_edges_empty_without_events(earlier, frame_end);
        }
    }

    /// A key that came up since the last frame end is among the keys
    /// released in this frame.
    pub proof fn lemma_release_is_seen_in_its_frame(
        self,
        history: Seq<Occurrence<C>>,
        key: u32,
        at: int,
    )
        requires
            0 <= at < history.len(),
            history[at].is_release_of(key),
            forall|later: int| at < later < history.len() ==> !(#[trigger] history[later]
                is FrameEnded),
        ensures
            self.replayed(history).keys_up.contains(key),
        decreases history.len(),
    {
        if at < history.len() - 1 {
            let earlier = history.drop_last();
            assert(!(history[history.len() - 1] is FrameEnded));
            assert(earlier[at] == history[at]);
            assert forall|later: int| at < later < earlier.len() implies !(
            #[trigger] earlier[later] is FrameEnded) by {
                assert(earlier[later] == history[later]);
            }
            self.lemma_release_is_seen_in_its_frame(earlier, key, at);
        }
    }

    /// A key that went down since the last frame end, and was not held when
    /// it did, is among the keys pressed in this frame.
    pub proof fn lemma_press_is_seen_in_its_frame(
        self,
        history: Seq<Occurrence<C>>,
        key: u32,
        at: int,
    )
        requires
            0 <= at < history.len(),
            history[at].is_press_of(key),
            !self.replayed(history.take(at)).keys_hold.contains(key),
            forall|later: int| at < later < history.len() ==> !(#[trigger] history[later]
                is FrameEnded),
        ensures
            self.replayed(history).keys_down.contains(key),
        decreases history.len(),
    {
        let earlier = history.drop_last();
        if at < history.len() - 1 {
            assert(!(history[history.len() - 1] is FrameEnded));
            assert(earlier[at] == history[at]);
            assert(earlier.take(at) == history.take(at));
            assert forall|later: int| at < later < earlier.len() implies !(
            #[trigger] earlier[later] is FrameEnded) by {
                assert(earlier[later] == history[later]);
            }
            self.lemma_press_is_seen_in_its_frame(earlier, key, at);
        } else {
            assert(earlier == history.take(at));
        }
    }

    /// A key that is held is not reported as pressed again: a press of a
    /// held key changes nothing, so pressing twice is pressing once.
    pub proof fn lemma_repeated_press_changes_nothing(self, key: u32)
        ensures
            self.keys_hold.contains(key) ==> self.after(Self::press(key)) == self,
            self.after(Self::press(key)).after(Self::press(key)) == self.after(Self::press(key)),
    {
    }

    /// The event of `key` going down.
    pub open spec fn press(key: u32) -> Event<C> {
        Event::KeyboardInput { virtual_keycode: Some(key), state: ElementState::Pressed }
    }
}

/// The input state of a running engine.
pub struct InputState<C> {
    mouse_position: MousePosition<C>,
    is_mouse_down: bool,
    is_mouse_released: bool,
    keys_hold: HashSet<u32>,
    keys_down: HashSet<u32>,
    keys_up: HashSet<u32>,
}

impl<C> View for InputState<C> {
    type V = InputView<C>;

    closed spec fn view(&self) -> InputView<C> {
        InputView {
            mouse_position: self.mouse_position,
            is_mouse_down: self.is_mouse_down,
            is_mouse_released: self.is_mouse_released,
            keys_hold: self.keys_hold@,
            keys_down: self.keys_down@,
            keys_up: self.keys_up@,
        }
    }
}

/// One frame's view of input and timing, as the layers receive it.
/// `delta_time` is in nanoseconds.
pub struct Meta<'a, C> {
    pub frames_per_second: usize,
    pub delta_time: u64,
    pub mouse_position: MousePosition<C>,
    pub is_mouse_down: bool,
    pub is_mouse_released: bool,
    pub keys_hold: &'a HashSet<u32>,
    pub keys_up: &'a HashSet<u32>,
    pub keys_down: &'a HashSet<u32>,
}

/// A frame snapshot as a mathematical value.
#[verifier::ext_equal]
pub struct MetaView<C> {
    pub frames_per_second: usize,
    pub delta_time: u64,
    pub mouse_position: MousePosition<C>,
    pub is_mouse_down: bool,
    pub is_mouse_released: bool,
    pub keys_hold: Set<u32>,
    pub keys_up: Set<u32>,
    pub keys_down: Set<u32>,
}

impl<'a, C> View for Meta<'a, C> {
    type V = MetaView<C>;

    open spec fn view(&self) -> MetaView<C> {
        MetaView {
            frames_per_second: self.frames_per_second,
            delta_time: self.delta_time,
            mouse_position: self.mouse_position,
            is_mouse_down: self.is_mouse_down,
            is_mouse_released: self.is_mouse_released,
            keys_hold: self.keys_hold@,
            keys_up: self.keys_up@,
            keys_down: self.keys_down@,
        }
    }
}

impl<C: Copy> InputState<C> {
    /// A fresh input state with the pointer at `mouse_position`.
    pub fn new(mouse_position: MousePosition<C>) -> (state: Self)
        ensures
            state@ == InputView::initial(mouse_position),
    {
        InputState {
            mouse_position,
            is_mouse_down: false,
            is_mouse_released: false,
            keys_hold: HashSet::new(),
            keys_down: HashSet::new(),
            keys_up: HashSet::new(),
        }
    }

    /// Takes in one event. Events that are not input leave the state as it is.
    pub fn on_os_event(&mut self, event: Event<C>)
        ensures
            final(self)@ == old(self)@.after(event),
    {
        match event {
            Event::CursorMoved { position } => {
                self.mouse_position = position;
            },
            Event::MouseInput { state: ElementState::Pressed, button: MouseButton::Left } => {
                self.is_mouse_down = true;
            },
            Event::MouseInput { state: ElementState::Released, button: MouseButton::Left } => {
                self.is_mouse_down = false;
                self.is_mouse_released = true;
            },
            Event::KeyboardInput { virtual_keycode: Some(key), state: ElementState::Pressed } => {
                if !self.keys_hold.contains(&key) {
                    self.keys_hold.insert(key);
                    self.keys_down.insert(key);
                }
            },
            Event::KeyboardInput { virtual_keycode: Some(key), state: ElementState::Released } => {
                self.keys_hold.remove(&key);
                self.keys_up.insert(key);
            },
            _ => {},
        }
    }

    /// Builds the frame's snapshot from the state and the clock's reading.
    /// The state itself is not touched.
    pub fn snapshot(&self, reading: ClockReading) -> (meta: Meta<'_, C>)
        ensures
            meta@ == self@.seen(reading),
    {
        Meta {
            frames_per_second: reading.frames_per_second,
            delta_time: reading.delta_time,
            mouse_position: self.mouse_position,
            is_mouse_down: self.is_mouse_down,
            is_mouse_released: self.is_mouse_released,
            keys_hold: &self.keys_hold,
            keys_up: &self.keys_up,
            keys_down: &self.keys_down,
        }
    }

    /// Drops what was valid for the past frame only.
    pub fn end_frame(&mut self)
        ensures
            final(self)@ == old(self)@.frame_ended(),
    {
        self.is_mouse_released = false;
        self.keys_up.clear();
        self.keys_down.clear();
    }
}

} // verus!
