//! A host application on top of the engine: a render loop whose state is fed
//! by a simulation that runs elsewhere and hands its results over a channel.

use crate::clock::ClockView;
use crate::engine::{Acquisition, Phase, Powder, Running, WindowConfig};
use crate::input::{InputView, Meta, MetaView, MousePosition};
use crate::layers::RenderLayer;
use femtovg::FontId;
use std::collections::HashMap;
use std::sync::mpsc::Receiver;
use vstd::prelude::*;

verus! {

/// A font handle of femtovg. The library stores it and hands it back.
#[verifier::external_type_specification]
#[verifier::external_body]
pub struct ExFontId(FontId);

/// The receiving end of a channel of the standard library.
#[verifier::external_type_specification]
#[verifier::external_body]
#[verifier::reject_recursive_types(T)]
pub struct ExReceiver<T>(Receiver<T>);

/// What the simulation hands over for rendering.
#[derive(Debug)]
pub struct RenderableState {}

impl Default for RenderableState {
    fn default() -> (state: Self)
        ensures
            state == (RenderableState {  }),
    {
        RenderableState {  }
    }
}

/// The state that the demo's layers share.
pub struct PowderState {
    pub renderable_state: RenderableState,
    pub dynamic_state: HashMap<String, String>,
    pub font: Option<FontId>,
}

impl Default for PowderState {
    fn default() -> (state: Self)
        ensures
            state.renderable_state == (RenderableState {  }),
            state.dynamic_state@ == Map::<String, String>::empty(),
            state.font is None,
    {
        PowderState {
            renderable_state: RenderableState::default(),
            dynamic_state: HashMap::new(),
            font: None,
        }
    }
}

/// The working copy after a poll: what was received, or else what was there.
pub open spec fn adopted<V>(working: V, polled: Option<V>) -> V {
    match polled {
        Some(received) => received,
        None => working,
    }
}

/// Takes over the value that a poll brought, if it brought one.
pub fn adopt<V>(working: &mut V, polled: Option<V>)
    ensures
        *final(working) == adopted(*old(working), polled),
{
    match polled {
        Some(received) => {
            *working = received;
        },
        None => {},
    }
}

/// The working copy after a row of polls, oldest first.
pub open spec fn adopted_all<V>(working: V, polls: Seq<Option<V>>) -> V
    decreases polls.len(),
{
    if polls.len() == 0 {
        working
    } else {
        adopted(adopted_all(working, polls.drop_last()), polls.last())
    }
}

/// A poll that brings nothing leaves the working copy as it is. A poll that
/// brings a value replaces the copy, and the polls after it that bring
/// nothing neither undo that nor bring the value again.
pub proof fn lemma_poll_replaces_once<V>(working: V, received: V)
    ensures
        adopted(working, None) == working,
        adopted(working, Some(received)) == received,
        adopted(adopted(working, Some(received)), None) == received,
{
}

/// After any row of polls the working copy is the value that came last.
pub proof fn lemma_copy_is_latest_received<V>(working: V, polls: Seq<Option<V>>, last: int)
    requires
        0 <= last < polls.len(),
        polls[last] is Some,
        forall|later: int| last < later < polls.len() ==> #[trigger] polls[later] is None,
    ensures
        adopted_all(working, polls) == polls[last]->0,
    decreases polls.len(),
{
    if last < polls.len() - 1 {
        let earlier = polls.drop_last();
        assert(polls[polls.len() - 1] is None);
        assert(earlier[last] == polls[last]);
        assert forall|later: int| last < later < earlier.len() implies #[trigger] earlier[later]
            is None by {
            assert(earlier[later] == polls[later]);
        }
        lemma_copy_is_latest_received(working, earlier, last);
    }
}

/// Polls that all bring nothing leave the working copy as it is.
pub proof fn lemma_copy_kept_without_values<V>(working: V, polls: Seq<Option<V>>)
    requires
        forall|i: int| 0 <= i < polls.len() ==> #[trigger] polls[i] is None,
    ensures
        adopted_all(working, polls) == working,
    decreases polls.len(),
{
    if polls.len() > 0 {
        let earlier = polls.drop_last();
        assert(polls[polls.len() - 1] is None);
        assert forall|i: int| 0 <= i < earlier.len() implies #[trigger] earlier[i] is None by {
            assert(earlier[i] == polls[i]);
        }
        lemma_copy_kept_without_values(working, earlier);
    }
}

/// Calls `try_recv` of the standard library's `Receiver`: a pending value if
/// there is one, without waiting. Nothing is claimed of what comes back.
#[verifier::external_body]
fn poll(rx: &Receiver<RenderableState>) -> (polled: Option<RenderableState>) {
    rx.try_recv().ok()
}

/// The layer that takes over, once per frame, what the simulation has handed
/// over since.
pub struct HandoffLayer {
    pub rx: Receiver<RenderableState>,
}

impl<S, C> RenderLayer<S, C, PowderState> for HandoffLayer {
    /// The surface is left alone, and so is the state but for the
    /// renderable part.
    open spec fn renders(
        &self,
        meta: MetaView<C>,
        surface: S,
        state: PowderState,
        surface_after: S,
        state_after: PowderState,
    ) -> bool {
        &&& surface_after == surface
        &&& state_after.dynamic_state == state.dynamic_state
        &&& state_after.font == state.font
    }

    fn render(&mut self, surface: &mut S, meta: &Meta<'_, C>, state: &mut PowderState) {
        let polled = poll(&self.rx);
        adopt(&mut state.renderable_state, polled);
    }
}

/// A layer of the demo: the hand-off, or one that the host brings.
pub enum DemoLayer<G> {
    Handoff(HandoffLayer),
    Custom(G),
}

impl<S, C, G: RenderLayer<S, C, PowderState>> RenderLayer<S, C, PowderState> for DemoLayer<G> {
    open spec fn renders(
        &self,
        meta: MetaView<C>,
        surface: S,
        state: PowderState,
        surface_after: S,
        state_after: PowderState,
    ) -> bool {
        match self {
            DemoLayer::Handoff(handoff) => handoff.renders(
                meta,
                surface,
                state,
                surface_after,
                state_after,
            ),
            DemoLayer::Custom(custom) => custom.renders(
                meta,
                surface,
                state,
                surface_after,
                state_after,
            ),
        }
    }

    fn render(&mut self, surface: &mut S, meta: &Meta<'_, C>, state: &mut PowderState) {
        match self {
            DemoLayer::Handoff(handoff) => handoff.render(surface, meta, state),
            DemoLayer::Custom(custom) => custom.render(surface, meta, state),
        }
    }
}

/// The width and height that the demo asks for its window, and its title.
pub const WINDOW_WIDTH: u16 = 1200;

pub const WINDOW_HEIGHT: u16 = 800;

pub const WINDOW_TITLE: &'static str = "Powder";

/// Where the demo's font is found.
pub const FONT_PATH: &'static str = "assets/Roboto-Regular.ttf";

/// The window that the demo asks for.
pub fn window() -> (config: WindowConfig)
    ensures
        config.min_width == 1200,
        config.min_height == 800,
        config.title@ == WINDOW_TITLE@,
        config.x == 0,
        config.y == 0,
        config.multisampling == 8,
        config.vsync,
{
    WindowConfig::new(WINDOW_WIDTH, WINDOW_HEIGHT, WINDOW_TITLE)
}

/// The layers of the demo in the order in which they run: the hand-off
/// first, then the host's layers as they were given.
pub open spec fn demo_layers<G>(rx: Receiver<RenderableState>, layers: Seq<G>) -> Seq<
    DemoLayer<G>,
> {
    seq![DemoLayer::Handoff(HandoffLayer { rx })] + Seq::new(
        layers.len(),
        |i: int| DemoLayer::Custom(layers[i]),
    )
}

/// Sets up the demo and starts it: the state is the default one with the
/// font that the host loaded, the hand-off layer runs first and the host's
/// layers after it, and the engine starts at `now`. Where the host could not
/// bring up the window there is no engine, only the failed step's message.
pub fn render<C: Copy, G>(
    rx: Receiver<RenderableState>,
    acquired: Result<(), Acquisition>,
    font: Option<FontId>,
    layers: Vec<G>,
    now: u64,
    mouse_position: MousePosition<C>,
) -> (started: Result<Running<C, PowderState, DemoLayer<G>>, String>)
    ensures
        match acquired {
            Ok(_) => {
                &&& started matches Ok(running)
                &&& running@.phase == Phase::Running
                &&& running@.input == InputView::initial(mouse_position)
                &&& running@.clock == ClockView::started(now)
                &&& running@.state.renderable_state == (RenderableState {  })
                &&& running@.state.dynamic_state@ == Map::<String, String>::empty()
                &&& running@.state.font == font
                &&& running@.layers == demo_layers(rx, layers@)
            },
            Err(step) => started matches Err(message) && message@ == step.text(),
        },
{
    let mut state = PowderState::default();
    state.font = font;
    let mut powder = match Powder::new(state, acquired) {
        Ok(powder) => powder,
        Err(message) => {
            return Err(message);
        },
    };
    powder.push(DemoLayer::Handoff(HandoffLayer { rx }));
    let ghost given = layers@;
    for layer in it: layers
        invariant
            powder@.state.renderable_state == (RenderableState {  }),
            powder@.state.dynamic_state@ == Map::<String, String>::empty(),
            powder@.state.font == font,
            it.seq() == given,
            powder@.layers == demo_layers(rx, given.take(it.index())),
    {
        assert(layer == given[it.index()]);
        assert(demo_layers(rx, given.take(it.index() + 1)) == demo_layers(
            rx,
            given.take(it.index()),
        ).push(DemoLayer::Custom(layer)));
        powder.push(DemoLayer::Custom(layer));
    }
    assert(given.take(given.len() as int) == given);
    Ok(powder.start(now, mouse_position))
}

/// Whether a button counts as clicked in this frame: the pointer is over it
/// and the mouse button was let go since the last frame.
pub fn button_clicked<C>(meta: &Meta<'_, C>, is_mouse_hovering: bool) -> (clicked: bool)
    ensures
        clicked == (is_mouse_hovering && meta@.is_mouse_released),
{
    is_mouse_hovering && meta.is_mouse_released
}

} // verus!
