//! Render layers: the callbacks of a frame, run in the order they were pushed.

use crate::input::{Meta, MetaView};
use vstd::prelude::*;

verus! {

/// One unit of per-frame behaviour. A layer draws on the surface, reads the
/// frame's snapshot and may change the host's state.
pub trait RenderLayer<S, C, T> {
    /// What one run of this layer may do: from the surface and the state it
    /// finds to the surface and the state it leaves. A layer that says
    /// nothing here may do anything.
    open spec fn renders(
        &self,
        meta: MetaView<C>,
        surface: S,
        state: T,
        surface_after: S,
        state_after: T,
    ) -> bool {
        true
    }

    /// Runs the layer for one frame. Whatever the layer changes in itself,
    /// what it may do in a later frame stays the same.
    fn render(&mut self, surface: &mut S, meta: &Meta<'_, C>, state: &mut T)
        ensures
            old(self).renders(
                meta@,
                *old(surface),
                *old(state),
                *final(surface),
                *final(state),
            ),
            forall|m: MetaView<C>, s0: S, t0: T, s1: S, t1: T|
                final(self).renders(m, s0, t0, s1, t1) == old(self).renders(m, s0, t0, s1, t1),
    ;
}

/// A layer of any type behind a pointer, for stacks whose layers differ in
/// type. It does what the layer inside does.
#[verifier::reject_recursive_types(S)]
#[verifier::reject_recursive_types(C)]
#[verifier::reject_recursive_types(T)]
pub struct RenderLayerFn<S, C, T>(pub Box<dyn RenderLayer<S, C, T>>);

impl<S, C, T> RenderLayer<S, C, T> for RenderLayerFn<S, C, T> {
    open spec fn renders(
        &self,
        meta: MetaView<C>,
        surface: S,
        state: T,
        surface_after: S,
        state_after: T,
    ) -> bool {
        self.0.renders(meta, surface, state, surface_after, state_after)
    }

    fn render(&mut self, surface: &mut S, meta: &Meta<'_, C>, state: &mut T) {
        self.0.render(surface, meta, state);
    }
}

/// What a layer may do in one run, as a relation: it holds of a snapshot,
/// the surface and state before, and the surface and state after.
pub type Behaviour<S, C, T> = spec_fn(MetaView<C>, S, T, S, T) -> bool;

/// The behaviour of a layer.
pub open spec fn behaviour_of<S, C, T, L: RenderLayer<S, C, T>>(layer: L) -> Behaviour<S, C, T> {
    |meta: MetaView<C>, surface: S, state: T, surface_after: S, state_after: T|
        layer.renders(meta, surface, state, surface_after, state_after)
}

/// The behaviours of a sequence of layers, place by place.
pub open spec fn behaviours<S, C, T, L: RenderLayer<S, C, T>>(layers: Seq<L>) -> Seq<
    Behaviour<S, C, T>,
> {
    Seq::new(layers.len(), |i: int| behaviour_of::<S, C, T, L>(layers[i]))
}

/// Whether running `layers` one after the other, first to last, on one
/// snapshot can lead from `surface` and `state` to `surface_after` and
/// `state_after`: each layer starts from what the one before it left.
pub open spec fn dispatched<S, C, T>(
    layers: Seq<Behaviour<S, C, T>>,
    meta: MetaView<C>,
    surface: S,
    state: T,
    surface_after: S,
    state_after: T,
) -> bool
    decreases layers.len(),
{
    if layers.len() == 0 {
        surface_after == surface && state_after == state
    } else {
        exists|surface_between: S, state_between: T|
            dispatched(
                layers.drop_last(),
                meta,
                surface,
                state,
                surface_between,
                state_between,
            ) && #[trigger] (layers.last())(
                meta,
                surface_between,
                state_between,
                surface_after,
                state_after,
            )
    }
}

/// A run of all layers but the last, followed by a run of the last on what
/// they left, is a run of all layers.
pub proof fn lemma_dispatched_extends<S, C, T>(
    layers: Seq<Behaviour<S, C, T>>,
    meta: MetaView<C>,
    surface: S,
    state: T,
    surface_between: S,
    state_between: T,
    surface_after: S,
    state_after: T,
)
    requires
        layers.len() > 0,
        dispatched(layers.drop_last(), meta, surface, state, surface_between, state_between),
        (layers.last())(meta, surface_between, state_between, surface_after, state_after),
    ensures
        dispatched(layers, meta, surface, state, surface_after, state_after),
{
}

/// What a layer does in one run where that is a function of what it finds:
/// from the surface and state before to the surface and state after.
pub type Step<S, T> = spec_fn(S, T) -> (S, T);

/// The steps applied one after the other, first to last.
pub open spec fn composed<S, T>(steps: Seq<Step<S, T>>, surface: S, state: T) -> (S, T)
    decreases steps.len(),
{
    if steps.len() == 0 {
        (surface, state)
    } else {
        let between = composed(steps.drop_last(), surface, state);
        (steps.last())(between.0, between.1)
    }
}

/// Whether, on the snapshot `meta`, the layer does exactly what `step` says.
pub open spec fn follows<S, C, T>(
    layer: Behaviour<S, C, T>,
    meta: MetaView<C>,
    step: Step<S, T>,
) -> bool {
    forall|surface: S, state: T, surface_after: S, state_after: T|
        #[trigger] layer(meta, surface, state, surface_after, state_after) <==> (
        surface_after,
        state_after,
    ) == step(surface, state)
}

/// A run of no layers changes nothing.
pub proof fn lemma_dispatched_none<S, C, T>(
    meta: MetaView<C>,
    surface: S,
    state: T,
    surface_after: S,
    state_after: T,
)
    ensures
        dispatched(
            Seq::<Behaviour<S, C, T>>::empty(),
            meta,
            surface,
            state,
            surface_after,
            state_after,
        ) <==> surface_after == surface && state_after == state,
{
}

/// A layer pushed last runs last: a run of the longer stack is a run of the
/// stack as it was, followed by a run of the new layer on what that left.
pub proof fn lemma_dispatched_after_push<S, C, T>(
    layers: Seq<Behaviour<S, C, T>>,
    pushed: Behaviour<S, C, T>,
    meta: MetaView<C>,
    surface: S,
    state: T,
    surface_after: S,
    state_after: T,
)
    ensures
        dispatched(layers.push(pushed), meta, surface, state, surface_after, state_after)
            <==> exists|surface_between: S, state_between: T|
            dispatched(layers, meta, surface, state, surface_between, state_between)
                && #[trigger] pushed(
                meta,
                surface_between,
                state_between,
                surface_after,
                state_after,
            ),
{
    assert(layers.push(pushed).drop_last() == layers);
    assert(layers.push(pushed).last() == pushed);
}

/// Where every layer does what a function says, a run does what those
/// functions do when applied in the order in which the layers were pushed.
pub proof fn lemma_dispatched_in_push_order<S, C, T>(
    layers: Seq<Behaviour<S, C, T>>,
    steps: Seq<Step<S, T>>,
    meta: MetaView<C>,
    surface: S,
    state: T,
    surface_after: S,
    state_after: T,
)
    requires
        layers.len() == steps.len(),
        forall|i: int| 0 <= i < layers.len() ==> follows(#[trigger] layers[i], meta, steps[i]),
    ensures
        dispatched(layers, meta, surface, state, surface_after, state_after) <==> (
            surface_after,
            state_after,
        ) == composed(steps, surface, state),
    decreases layers.len(),
{
    if layers.len() > 0 {
        let between = composed(steps.drop_last(), surface, state);
        assert(follows(layers[layers.len() - 1], meta, steps[steps.len() - 1]));
        assert forall|surface_between: S, state_between: T|
            dispatched(
                layers.drop_last(),
                meta,
                surface,
                state,
                surface_between,
                state_between,
            ) <==> (surface_between, state_between) == between by {
            assert forall|i: int| 0 <= i < layers.drop_last().len() implies follows(
                #[trigger] layers.drop_last()[i],
                meta,
                steps.drop_last()[i],
            ) by {
                assert(follows(layers[i], meta, steps[i]));
            }
            lemma_dispatched_in_push_order(
                layers.drop_last(),
                steps.drop_last(),
                meta,
                surface,
                state,
                surface_between,
                state_between,
            );
        }
        if (surface_after, state_after) == composed(steps, surface, state) {
            assert((layers.last())(meta, between.0, between.1, surface_after, state_after));
            lemma_dispatched_extends(
                layers,
                meta,
                surface,
                state,
                between.0,
                between.1,
                surface_after,
                state_after,
            );
        }
        if dispatched(layers, meta, surface, state, surface_after, state_after) {
            let (surface_between, state_between) = choose|surface_between: S, state_between: T|
                dispatched(
                    layers.drop_last(),
                    meta,
                    surface,
                    state,
                    surface_between,
                    state_between,
                ) && #[trigger] (layers.last())(
                    meta,
                    surface_between,
                    state_between,
                    surface_after,
                    state_after,
                );
            assert((surface_between, state_between) == between);
        }
    }
}

/// The layers of an engine, in the order in which they run.
pub struct RenderLayerStack<L> {
    layers: Vec<L>,
}

impl<L> View for RenderLayerStack<L> {
    type V = Seq<L>;

    closed spec fn view(&self) -> Seq<L> {
        self.layers@
    }
}

impl<L> RenderLayerStack<L> {
    /// A stack without layers.
    pub fn new() -> (stack: Self)
        ensures
            stack@ == Seq::<L>::empty(),
    {
        RenderLayerStack { layers: Vec::new() }
    }

    /// The number of layers.
    pub fn len(&self) -> (count: usize)
        ensures
            count == self@.len(),
    {
        self.layers.len()
    }

    /// Adds a layer behind those already there.
    pub fn push(&mut self, render_layer: L)
        ensures
            final(self)@ == old(self)@.push(render_layer),
    {
        self.layers.push(render_layer);
    }

    /// Runs every layer once, in the order of pushing, each on the same
    /// snapshot and on the surface and state as the layer before left them.
    /// The stack holds as many layers afterwards, with the same behaviours.
    pub fn dispatch<S, C, T>(&mut self, surface: &mut S, meta: &Meta<'_, C>, state: &mut T) where
        L: RenderLayer<S, C, T>,

        ensures
            final(self)@.len() == old(self)@.len(),
            behaviours::<S, C, T, L>(final(self)@) == behaviours::<S, C, T, L>(old(self)@),
            dispatched(
                behaviours::<S, C, T, L>(old(self)@),
                meta@,
                *old(surface),
                *old(state),
                *final(surface),
                *final(state),
            ),
    {
        let ghost layers0 = behaviours::<S, C, T, L>(self@);
        let ghost surface0 = *surface;
        let ghost state0 = *state;
        let count = self.layers.len();
        let mut i: usize = 0;
        assert(layers0.take(0).len() == 0);
        while i < count
            invariant
                i <= count,
                count == self.layers@.len(),
                behaviours::<S, C, T, L>(self@) == layers0,
                dispatched(layers0.take(i as int), meta@, surface0, state0, *surface, *state),
            decreases count - i,
        {
            let ghost surface_between = *surface;
            let ghost state_between = *state;
            let ghost before = self.layers@;
            self.layers[i].render(surface, meta, state);
            proof {
                let done = layers0.take(i + 1);
                assert(done.drop_last() == layers0.take(i as int));
                assert(done.last() == behaviour_of::<S, C, T, L>(before[i as int]));
                lemma_dispatched_extends(
                    done,
                    meta@,
                    surface0,
                    state0,
                    surface_between,
                    state_between,
                    *surface,
                    *state,
                );
                assert(behaviour_of::<S, C, T, L>(self.layers@[i as int]) =~= behaviour_of::<
                    S,
                    C,
                    T,
                    L,
                >(before[i as int]));
                assert(behaviours::<S, C, T, L>(self@) =~= layers0);
            }
            i = i + 1;
        }
        assert(layers0.take(count as int) == layers0);
    }
}

} // verus!
