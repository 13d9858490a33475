use powder::{
    Acquisition, ClockReading, Directive, ElementState, Event, Meta, MouseButton, MousePosition, Phase, Powder,
    RenderLayer, RenderLayerFn, Running, WindowConfig,
};

fn reading(delta_time: u64, frames_per_second: usize) -> ClockReading {
    ClockReading { delta_time, frames_per_second }
}

#[derive(Debug, Default, PartialEq)]
struct Seen {
    frames: u64,
    released: Vec<bool>,
    down: Vec<bool>,
    pressed: Vec<Vec<u32>>,
    let_go: Vec<Vec<u32>>,
    held: Vec<Vec<u32>>,
    deltas: Vec<u64>,
    rates: Vec<usize>,
    pointer: (f32, f32),
}

fn sorted(keys: &std::collections::HashSet<u32>) -> Vec<u32> {
    let mut keys: Vec<u32> = keys.iter().copied().collect();
    keys.sort();
    keys
}

struct Recorder;

impl RenderLayer<Vec<&'static str>, f32, Seen> for Recorder {
    fn render(&mut self, surface: &mut Vec<&'static str>, meta: &Meta<'_, f32>, state: &mut Seen) {
        surface.push("recorder");
        state.frames += 1;
        state.released.push(meta.is_mouse_released);
        state.down.push(meta.is_mouse_down);
        state.pressed.push(sorted(meta.keys_down));
        state.let_go.push(sorted(meta.keys_up));
        state.held.push(sorted(meta.keys_hold));
        state.deltas.push(meta.delta_time);
        state.rates.push(meta.frames_per_second);
        state.pointer = (meta.mouse_position.x, meta.mouse_position.y);
    }
}

struct Marker(&'static str);

impl RenderLayer<Vec<&'static str>, f32, Seen> for Marker {
    fn render(&mut self, surface: &mut Vec<&'static str>, _meta: &Meta<'_, f32>, _state: &mut Seen) {
        surface.push(self.0);
    }
}

type Layer = RenderLayerFn<Vec<&'static str>, f32, Seen>;

fn started(now: u64) -> Running<f32, Seen, Layer> {
    let mut powder = Powder::new(Seen::default(), Ok(())).unwrap();
    powder.push(RenderLayerFn(Box::new(Recorder)));
    powder.push(RenderLayerFn(Box::new(Marker("second"))));
    powder.start(now, MousePosition { x: 0.0, y: 0.0 })
}

fn key(code: u32, state: ElementState) -> Event<f32> {
    Event::KeyboardInput { virtual_keycode: Some(code), state }
}

const MS: u64 = 1_000_000;

#[test]
fn window_config_asks_for_what_the_engine_needs() {
    let config = WindowConfig::new(800, 600, "Example");
    assert_eq!(config.min_width, 800);
    assert_eq!(config.min_height, 600);
    assert_eq!(config.x, 0);
    assert_eq!(config.y, 0);
    assert_eq!(config.title, "Example");
    assert_eq!(config.multisampling, 8);
    assert!(config.vsync);
}

#[test]
fn each_failed_step_has_its_message() {
    assert_eq!(Acquisition::Window.message(), "Could not build window");
    assert_eq!(Acquisition::Context.message(), "Could not make context current");
    assert_eq!(Acquisition::Renderer.message(), "Could not create renderer");
    assert_eq!(Acquisition::Canvas.message(), "Could not create canvas");
}

#[test]
fn no_engine_without_a_window() {
    for (step, message) in [
        (Acquisition::Window, "Could not build window"),
        (Acquisition::Context, "Could not make context current"),
        (Acquisition::Renderer, "Could not create renderer"),
        (Acquisition::Canvas, "Could not create canvas"),
    ] {
        let made: Result<Powder<u64, Layer>, String> = Powder::new(7, Err(step));
        match made {
            Ok(_) => panic!("an engine was made although {:?} failed", step),
            Err(text) => assert_eq!(text, message),
        }
    }
}

#[test]
fn engine_keeps_the_state_it_was_given() {
    let powder: Powder<u64, Layer> = Powder::new(7, Ok(())).unwrap();
    assert_eq!(powder.state, 7);
    let running = powder.start(0, MousePosition { x: 1.5, y: 2.5 });
    assert_eq!(*running.state(), 7);
    assert_eq!(running.phase(), Phase::Running);
    let meta = running.input().snapshot(reading(0, 0));
    assert_eq!(meta.mouse_position.x, 1.5);
    assert_eq!(meta.mouse_position.y, 2.5);
}

#[test]
fn events_are_answered_with_what_to_do() {
    let mut running = started(0);
    assert_eq!(running.handle(Event::Other), Directive::Continue);
    assert_eq!(running.handle(key(3, ElementState::Pressed)), Directive::Continue);
    assert_eq!(
        running.handle(Event::CursorMoved { position: MousePosition { x: 4.0, y: 5.0 } }),
        Directive::Continue
    );
    assert_eq!(running.handle(Event::RedrawRequested), Directive::Frame);
    assert_eq!(running.phase(), Phase::Running);
    assert_eq!(running.handle(Event::CloseRequested), Directive::Exit);
    assert_eq!(running.phase(), Phase::ShuttingDown);
    assert_eq!(running.handle(Event::Other), Directive::Exit);
    assert_eq!(running.handle(Event::RedrawRequested), Directive::Frame);
    assert_eq!(running.phase(), Phase::ShuttingDown);
    assert_eq!(running.handle(Event::LoopDestroyed), Directive::Exit);
    assert_eq!(running.phase(), Phase::Stopped);
}

#[test]
fn stopped_engine_ignores_events() {
    let mut running = started(0);
    running.handle(Event::LoopDestroyed);
    assert_eq!(running.phase(), Phase::Stopped);
    assert_eq!(running.handle(key(3, ElementState::Pressed)), Directive::Exit);
    assert_eq!(running.handle(Event::RedrawRequested), Directive::Exit);
    assert_eq!(running.handle(Event::CloseRequested), Directive::Exit);
    assert_eq!(running.phase(), Phase::Stopped);
    assert!(running.input().snapshot(reading(0, 0)).keys_hold.is_empty());
}

#[test]
fn stopped_engine_draws_no_frame() {
    let mut running = started(0);
    let mut surface = Vec::new();
    running.frame(10 * MS, &mut surface);
    running.handle(Event::LoopDestroyed);
    running.frame(20 * MS, &mut surface);
    assert_eq!(surface, vec!["recorder", "second"]);
    assert_eq!(running.state().frames, 1);
}

#[test]
fn frames_are_still_drawn_while_shutting_down() {
    let mut running = started(0);
    let mut surface = Vec::new();
    running.handle(Event::CloseRequested);
    running.frame(10 * MS, &mut surface);
    assert_eq!(surface, vec!["recorder", "second"]);
    assert_eq!(running.phase(), Phase::ShuttingDown);
}

#[test]
fn input_is_still_taken_while_shutting_down() {
    let mut running = started(0);
    running.handle(Event::CloseRequested);
    running.handle(key(3, ElementState::Pressed));
    assert!(running.input().snapshot(reading(0, 0)).keys_hold.contains(&3));
}

#[test]
fn a_frame_runs_the_layers_in_order_on_the_surface() {
    let mut running = started(0);
    let mut surface = Vec::new();
    running.frame(0, &mut surface);
    assert_eq!(surface, vec!["recorder", "second"]);
    running.frame(16 * MS, &mut surface);
    assert_eq!(surface, vec!["recorder", "second", "recorder", "second"]);
    assert_eq!(running.state().frames, 2);
}

#[test]
fn layers_see_a_release_in_exactly_one_frame() {
    let mut running = started(0);
    let mut surface = Vec::new();
    running.handle(Event::MouseInput { state: ElementState::Pressed, button: MouseButton::Left });
    running.frame(10 * MS, &mut surface);
    running.handle(Event::MouseInput { state: ElementState::Released, button: MouseButton::Left });
    running.frame(20 * MS, &mut surface);
    running.frame(30 * MS, &mut surface);
    running.frame(40 * MS, &mut surface);
    assert_eq!(running.state().released, vec![false, true, false, false]);
    assert_eq!(running.state().down, vec![true, false, false, false]);
}

#[test]
fn layers_see_key_edges_in_their_frame_and_holds_until_release() {
    let mut running = started(0);
    let mut surface = Vec::new();
    running.handle(key(10, ElementState::Pressed));
    running.handle(key(11, ElementState::Pressed));
    running.handle(key(10, ElementState::Pressed));
    running.frame(10 * MS, &mut surface);
    running.frame(20 * MS, &mut surface);
    running.handle(key(10, ElementState::Released));
    running.frame(30 * MS, &mut surface);
    running.frame(40 * MS, &mut surface);
    let seen = running.state();
    assert_eq!(seen.pressed, vec![vec![10, 11], vec![], vec![], vec![]]);
    assert_eq!(seen.let_go, vec![vec![], vec![], vec![10], vec![]]);
    assert_eq!(seen.held, vec![vec![10, 11], vec![10, 11], vec![11], vec![11]]);
}

#[test]
fn layers_see_the_clock_reading_of_their_frame() {
    let mut running = started(0);
    let mut surface = Vec::new();
    running.frame(5 * MS, &mut surface);
    running.frame(21 * MS, &mut surface);
    running.frame(1000 * MS, &mut surface);
    running.frame(1010 * MS, &mut surface);
    let seen = running.state();
    assert_eq!(seen.deltas, vec![0, 16 * MS, 979 * MS, 10 * MS]);
    assert_eq!(seen.rates, vec![0, 0, 3, 3]);
}

#[test]
fn layers_see_the_last_pointer_position() {
    let mut running = started(0);
    let mut surface = Vec::new();
    running.handle(Event::CursorMoved { position: MousePosition { x: 4.0, y: 5.0 } });
    running.handle(Event::CursorMoved { position: MousePosition { x: 6.5, y: 7.5 } });
    running.frame(5 * MS, &mut surface);
    assert_eq!(running.state().pointer, (6.5, 7.5));
}
