//! The engine: construction, the layer stack before the start, and the
//! running loop's decisions.

use crate::clock::{ClockView, FrameClock};
use crate::input::{Event, InputState, InputView, MousePosition};
use crate::layers::{behaviours, dispatched, RenderLayer, RenderLayerStack};
use vstd::prelude::*;

verus! {

/// The steps of bringing up a window, in the order the host takes them. A
/// value names the step that failed.
#[derive(Clone, Copy, Debug, PartialEq, Eq, Structural)]
pub enum Acquisition {
    Window,
    Context,
    Renderer,
    Canvas,
}

impl Acquisition {
    /// What the caller is told when this step fails.
    pub open spec fn text(self) -> Seq<char> {
        match self {
            Acquisition::Window => "Could not build window"@,
            Acquisition::Context => "Could not make context current"@,
            Acquisition::Renderer => "Could not create renderer"@,
            Acquisition::Canvas => "Could not create canvas"@,
        }
    }

    /// The failure as a message.
    pub fn message(self) -> (message: String)
        ensures
            message@ == self.text(),
    {
        match self {
            Acquisition::Window => "Could not build window".to_owned(),
            Acquisition::Context => "Could not make context current".to_owned(),
            Acquisition::Renderer => "Could not create renderer".to_owned(),
            Acquisition::Canvas => "Could not create canvas".to_owned(),
        }
    }
}

/// What the host asks of the windowing system for an engine's window.
pub struct WindowConfig {
    pub min_width: u16,
    pub min_height: u16,
    pub x: i32,
    pub y: i32,
    pub title: String,
    pub multisampling: u16,
    pub vsync: bool,
}

impl WindowConfig {
    /// A window of at least `width` by `height` at the screen's origin, with
    /// eightfold multisampling and vertical sync.
    pub fn new(width: u16, height: u16, title: &str) -> (config: Self)
        ensures
            config.min_width == width,
            config.min_height == height,
            config.x == 0,
            config.y == 0,
            config.title@ == title@,
            config.multisampling == 8,
            config.vsync,
    {
        WindowConfig {
            min_width: width,
            min_height: height,
            x: 0,
            y: 0,
            title: title.to_owned(),
            multisampling: 8,
            vsync: true,
        }
    }
}

/// Where a started engine stands.
#[derive(Clone, Copy, Debug, PartialEq, Eq, Structural)]
pub enum Phase {
    /// Taking events and drawing frames.
    Running,
    /// A close was requested; the loop ends after the iteration at hand.
    ShuttingDown,
    /// The loop is over.
    Stopped,
}

/// What the host is to do after an event.
#[derive(Clone, Copy, Debug, PartialEq, Eq, Structural)]
pub enum Directive {
    /// Nothing; go on with the next event.
    Continue,
    /// A frame is due: size and clear the surface, call `frame`, present the
    /// surface and ask for the next redraw.
    Frame,
    /// Tell the loop to end after this iteration.
    Exit,
}

/// An engine that is ready: layers can still be pushed, nothing runs yet.
pub struct Powder<T, L> {
    pub state: T,
    render_layers: RenderLayerStack<L>,
}

/// A ready engine as a mathematical value: the host's state and the layers
/// pushed so far, first to last.
pub struct PowderView<T, L> {
    pub state: T,
    pub layers: Seq<L>,
}

impl<T, L> View for Powder<T, L> {
    type V = PowderView<T, L>;

    closed spec fn view(&self) -> PowderView<T, L> {
        PowderView { state: self.state, layers: self.render_layers@ }
    }
}

impl<T, L> Powder<T, L> {
    /// Makes the engine around `state` once the host has tried to bring up
    /// the window. There is an engine only if every step succeeded; a failed
    /// step gives its message and nothing else.
    pub fn new(state: T, acquired: Result<(), Acquisition>) -> (made: Result<Self, String>)
        ensures
            match acquired {
                Ok(_) => made matches Ok(powder) && powder@.state == state
                    && powder@.layers.len() == 0,
                Err(step) => made matches Err(message) && message@ == step.text(),
            },
    {
        match acquired {
            Ok(_) => Ok(Powder { state, render_layers: RenderLayerStack::new() }),
            Err(step) => Err(step.message()),
        }
    }

    /// Adds a layer behind those already pushed.
    pub fn push(&mut self, render_layer: L)
        ensures
            final(self)@.layers == old(self)@.layers.push(render_layer),
            final(self)@.state == old(self)@.state,
    {
        self.render_layers.push(render_layer);
    }

    /// Starts the engine at time `now` with the pointer at `mouse_position`.
    /// The ready engine is used up: from here on no layer can be added.
    pub fn start<C: Copy>(self, now: u64, mouse_position: MousePosition<C>) -> (running: Running<
        C,
        T,
        L,
    >)
        ensures
            running@ == (RunningView {
                phase: Phase::Running,
                input: InputView::initial(mouse_position),
                clock: ClockView::started(now),
                state: self@.state,
                layers: self@.layers,
            }),
    {
        Running {
            phase: Phase::Running,
            input: InputState::new(mouse_position),
            clock: FrameClock::new(now),
            state: self.state,
            render_layers: self.render_layers,
        }
    }
}

/// A started engine as a mathematical value.
pub struct RunningView<C, T, L> {
    pub phase: Phase,
    pub input: InputView<C>,
    pub clock: ClockView,
    pub state: T,
    pub layers: Seq<L>,
}

impl<C, T, L> RunningView<C, T, L> {
    /// The engine after `event`. A close request begins the shutdown, the
    /// loop's end stops the engine, a redraw request changes nothing by
    /// itself, and everything else goes to the input state. A stopped engine
    /// stays as it is.
    pub open spec fn handled(self, event: Event<C>) -> Self {
        if self.phase == Phase::Stopped {
            self
        } else {
            match event {
                Event::CloseRequested => RunningView { phase: Phase::ShuttingDown, ..self },
                Event::LoopDestroyed => RunningView { phase: Phase::Stopped, ..self },
                Event::RedrawRequested => self,
                _ => RunningView { input: self.input.after(event), ..self },
            }
        }
    }

    /// What the host is told after `event`.
    pub open spec fn answer(self, event: Event<C>) -> Directive {
        if self.phase == Phase::Stopped {
            Directive::Exit
        } else {
            match event {
                Event::CloseRequested => Directive::Exit,
                Event::LoopDestroyed => Directive::Exit,
                Event::RedrawRequested => Directive::Frame,
                _ => if self.phase == Phase::ShuttingDown {
                    Directive::Exit
                } else {
                    Directive::Continue
                },
            }
        }
    }

    /// The shutdown goes one way: an engine that is shutting down or has
    /// stopped never runs again, and a stopped one stays as it is. The host
    /// is told to end the loop from the close request on. Events never touch
    /// the clock, the host's state or the layers.
    pub proof fn lemma_shutdown_goes_one_way(self, event: Event<C>)
        ensures
            self.phase != Phase::Running ==> self.handled(event).phase != Phase::Running,
            self.phase == Phase::Stopped ==> self.handled(event) == self,
            self.phase != Phase::Running && !(event is RedrawRequested) ==> self.answer(event)
                == Directive::Exit,
            self.handled(event).clock == self.clock,
            self.handled(event).state == self.state,
            self.handled(event).layers == self.layers,
    {
    }
}

/// A started engine. The host hands it each event and draws a frame when
/// told to.
pub struct Running<C, T, L> {
    phase: Phase,
    input: InputState<C>,
    clock: FrameClock,
    state: T,
    render_layers: RenderLayerStack<L>,
}

impl<C, T, L> View for Running<C, T, L> {
    type V = RunningView<C, T, L>;

    closed spec fn view(&self) -> RunningView<C, T, L> {
        RunningView {
            phase: self.phase,
            input: self.input@,
            clock: self.clock@,
            state: self.state,
            layers: self.render_layers@,
        }
    }
}

impl<C: Copy, T, L> Running<C, T, L> {
    /// Where the engine stands.
    pub fn phase(&self) -> (phase: Phase)
        ensures
            phase == self@.phase,
    {
        self.phase
    }

    /// The host's state as the layers left it.
    pub fn state(&self) -> (state: &T)
        ensures
            *state == self@.state,
    {
        &self.state
    }

    /// The input state.
    pub fn input(&self) -> (input: &InputState<C>)
        ensures
            input@ == self@.input,
    {
        &self.input
    }

    /// Takes in one event and says what the host is to do.
    pub fn handle(&mut self, event: Event<C>) -> (directive: Directive)
        ensures
            final(self)@ == old(self)@.handled(event),
            directive == old(self)@.answer(event),
    {
        match self.phase {
            Phase::Stopped => Directive::Exit,
            _ => match event {
                Event::CloseRequested => {
                    self.phase = Phase::ShuttingDown;
                    Directive::Exit
                },
                Event::LoopDestroyed => {
                    self.phase = Phase::Stopped;
                    Directive::Exit
                },
                Event::RedrawRequested => Directive::Frame,
                other => {
                    self.input.on_os_event(other);
                    match self.phase {
                        Phase::ShuttingDown => Directive::Exit,
                        _ => Directive::Continue,
                    }
                },
            },
        }
    }

    /// Runs one frame at time `now` on a surface that the host has cleared:
    /// the clock ticks, the layers run in order on one snapshot of the input
    /// and the clock's reading, and the input that was valid for this frame
    /// only is dropped. A stopped engine draws no frame.
    pub fn frame<S>(&mut self, now: u64, surface: &mut S) where L: RenderLayer<S, C, T>
        ensures
            old(self)@.phase == Phase::Stopped ==> final(self)@ == old(self)@ && *final(surface)
                == *old(surface),
            old(self)@.phase != Phase::Stopped ==> {
                &&& final(self)@.phase == old(self)@.phase
                &&& final(self)@.clock == old(self)@.clock.ticked(now)
                &&& final(self)@.input == old(self)@.input.frame_ended()
                &&& final(self)@.layers.len() == old(self)@.layers.len()
                &&& behaviours::<S, C, T, L>(final(self)@.layers) == behaviours::<S, C, T, L>(
                    old(self)@.layers,
                )
                &&& dispatched(
                    behaviours::<S, C, T, L>(old(self)@.layers),
                    old(self)@.input.seen(old(self)@.clock.reading(now)),
                    *old(surface),
                    old(self)@.state,
                    *final(surface),
                    final(self)@.state,
                )
            },
    {
        match self.phase {
            Phase::Stopped => {},
            _ => {
                let reading = self.clock.tick(now);
                let meta = self.input.snapshot(reading);
                self.render_layers.dispatch(surface, &meta, &mut self.state);
                self.input.end_frame();
            },
        }
    }
}

} // verus!
