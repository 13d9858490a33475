use powder::{
    ClockReading, InputState, Meta, MousePosition, RenderLayer, RenderLayerFn, RenderLayerStack,
};

fn reading(delta_time: u64, frames_per_second: usize) -> ClockReading {
    ClockReading { delta_time, frames_per_second }
}

struct Add(u64);

impl RenderLayer<Vec<u64>, f32, u64> for Add {
    fn render(&mut self, surface: &mut Vec<u64>, _meta: &Meta<'_, f32>, state: &mut u64) {
        *state += self.0;
        surface.push(*state);
    }
}

struct Times(u64);

impl RenderLayer<Vec<u64>, f32, u64> for Times {
    fn render(&mut self, surface: &mut Vec<u64>, _meta: &Meta<'_, f32>, state: &mut u64) {
        *state *= self.0;
        surface.push(*state);
    }
}

struct Runs {
    count: u64,
}

impl RenderLayer<Vec<u64>, f32, u64> for Runs {
    fn render(&mut self, _surface: &mut Vec<u64>, _meta: &Meta<'_, f32>, state: &mut u64) {
        self.count += 1;
        *state = self.count;
    }
}

struct Sees;

impl RenderLayer<Vec<u64>, f32, u64> for Sees {
    fn render(&mut self, surface: &mut Vec<u64>, meta: &Meta<'_, f32>, _state: &mut u64) {
        surface.push(meta.delta_time);
        surface.push(meta.frames_per_second as u64);
        surface.push(meta.keys_hold.len() as u64);
    }
}

fn boxed<L: RenderLayer<Vec<u64>, f32, u64> + 'static>(layer: L) -> RenderLayerFn<Vec<u64>, f32, u64> {
    RenderLayerFn(Box::new(layer))
}

fn input() -> InputState<f32> {
    InputState::new(MousePosition { x: 0.0, y: 0.0 })
}

#[test]
fn three_layers_mutate_a_counter_in_push_order() {
    let mut stack = RenderLayerStack::new();
    stack.push(boxed(Add(1)));
    stack.push(boxed(Times(10)));
    stack.push(boxed(Add(3)));
    assert_eq!(stack.len(), 3);
    let input = input();
    let meta = input.snapshot(reading(0, 0));
    let mut counter = 4u64;
    let mut surface = Vec::new();
    stack.dispatch(&mut surface, &meta, &mut counter);
    assert_eq!(counter, 53);
    assert_eq!(surface, vec![5, 50, 53]);
}

#[test]
fn another_push_order_gives_another_result() {
    let mut stack = RenderLayerStack::new();
    stack.push(boxed(Add(3)));
    stack.push(boxed(Add(1)));
    stack.push(boxed(Times(10)));
    let input = input();
    let meta = input.snapshot(reading(0, 0));
    let mut counter = 4u64;
    let mut surface = Vec::new();
    stack.dispatch(&mut surface, &meta, &mut counter);
    assert_eq!(counter, 80);
    assert_eq!(surface, vec![7, 8, 80]);
}

#[test]
fn stack_of_one_type_needs_no_box() {
    let mut stack = RenderLayerStack::new();
    stack.push(Add(2));
    stack.push(Add(5));
    let input = input();
    let meta = input.snapshot(reading(0, 0));
    let mut counter = 0u64;
    let mut surface = Vec::new();
    stack.dispatch(&mut surface, &meta, &mut counter);
    assert_eq!(counter, 7);
    assert_eq!(surface, vec![2, 7]);
}

#[test]
fn empty_stack_changes_nothing() {
    let mut stack: RenderLayerStack<Add> = RenderLayerStack::new();
    assert_eq!(stack.len(), 0);
    let input = input();
    let meta = input.snapshot(reading(0, 0));
    let mut counter = 9u64;
    let mut surface = vec![1, 2];
    stack.dispatch(&mut surface, &meta, &mut counter);
    assert_eq!(counter, 9);
    assert_eq!(surface, vec![1, 2]);
}

#[test]
fn layers_stay_on_the_stack_and_keep_their_own_state() {
    let mut stack = RenderLayerStack::new();
    stack.push(boxed(Runs { count: 0 }));
    stack.push(boxed(Add(100)));
    let input = input();
    let meta = input.snapshot(reading(0, 0));
    let mut counter = 0u64;
    let mut surface = Vec::new();
    stack.dispatch(&mut surface, &meta, &mut counter);
    assert_eq!(counter, 101);
    stack.dispatch(&mut surface, &meta, &mut counter);
    assert_eq!(counter, 102);
    stack.dispatch(&mut surface, &meta, &mut counter);
    assert_eq!(counter, 103);
    assert_eq!(stack.len(), 2);
}

#[test]
fn every_layer_gets_the_same_snapshot() {
    let mut stack = RenderLayerStack::new();
    stack.push(boxed(Sees));
    stack.push(boxed(Add(1)));
    stack.push(boxed(Sees));
    let input = input();
    let meta = input.snapshot(reading(16, 60));
    let mut counter = 0u64;
    let mut surface = Vec::new();
    stack.dispatch(&mut surface, &meta, &mut counter);
    assert_eq!(surface, vec![16, 60, 0, 1, 16, 60, 0]);
}
