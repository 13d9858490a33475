//! A small real-time render-loop engine, kept free of any window or GPU.
//!
//! The engine gathers raw input events into a per-frame snapshot, measures
//! frame timing, and runs an ordered stack of render layers once per frame
//! over a drawing surface and the host's state. Opening the window, reading
//! the clock, clearing and presenting the surface are left to the host: the
//! engine is told what happened and answers with what to do next.

pub mod clock;
pub mod demo;
pub mod engine;
pub mod input;
pub mod layers;

pub use clock::{ClockReading, ClockView, FrameClock, RATE_WINDOW};
pub use demo::{
    adopt, button_clicked, render, window, DemoLayer, HandoffLayer, PowderState, RenderableState,
    FONT_PATH, WINDOW_HEIGHT, WINDOW_TITLE, WINDOW_WIDTH,
};
pub use engine::{Acquisition, Directive, Phase, Powder, Running, WindowConfig};
pub use input::{
    ElementState, Event, InputState, InputView, Meta, MetaView, MouseButton, MousePosition,
};
pub use layers::{RenderLayer, RenderLayerFn, RenderLayerStack};
