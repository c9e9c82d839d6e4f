use crate::algorithms::util::{select_event_index, total_weight, UniformSource};
use crate::models::{absorbed, selectable_in, step_possible, Model, POP_MAX};
use vstd::prelude::*;

verus! {

/// Gillespie's direct method.
///
/// Starting from `initial_conditions`, repeatedly enumerates the current
/// events, sums their weights, draws one uniform point below the total to
/// select the firing event proportionally to its weight, applies it, and
/// records the new state; it stops after `max_iters` completed iterations,
/// or as soon as the total weight is zero (an absorbing state — normal
/// early termination, not an error).
///
/// The returned trajectory begins with the initial state, holds one entry
/// per completed iteration, and every consecutive pair is connected by one
/// applied event of positive weight; no recorded state except possibly the
/// last is absorbing, and a run shorter than the cap ends absorbed,
/// whatever the random draws were.
pub fn direct<M: Model>(
    model: M,
    initial_conditions: M::State,
    max_iters: u64,
    source: &mut UniformSource,
) -> (states: Vec<M::State>)
    requires
        model.wf(),
        M::pop(initial_conditions) + max_iters <= POP_MAX,
    ensures
        1 <= states@.len() <= max_iters + 1,
        states@[0] == initial_conditions,
        forall|j: int|
            0 <= j < states@.len() - 1 ==> step_possible(
                model,
                #[trigger] states@[j],
                states@[j + 1],
            ),
        forall|j: int| 0 <= j < states@.len() - 1 ==> !absorbed(model, #[trigger] states@[j]),
        forall|j: int|
            0 <= j < states@.len() ==> M::pop(#[trigger] states@[j]) <= M::pop(initial_conditions)
                + j,
        states@.len() <= max_iters ==> absorbed(model, states@[states@.len() - 1]),
        absorbed(model, initial_conditions) ==> states@.len() == 1,
        max_iters >= 1 && !absorbed(model, initial_conditions) ==> states@.len() >= 2,
{
    let mut state = initial_conditions;
    let mut states: Vec<M::State> = Vec::new();
    states.push(state);
    let mut finished_iters: u64 = 0;
    while finished_iters < max_iters
        invariant_except_break
            model.wf(),
            M::pop(initial_conditions) + max_iters <= POP_MAX,
            finished_iters <= max_iters,
            states@.len() == finished_iters + 1,
            states@[0] == initial_conditions,
            state == states@[states@.len() - 1],
            forall|j: int|
                0 <= j < states@.len() - 1 ==> step_possible(
                    model,
                    #[trigger] states@[j],
                    states@[j + 1],
                ),
            forall|j: int| 0 <= j < states@.len() - 1 ==> !absorbed(model, #[trigger] states@[j]),
            forall|j: int|
                0 <= j < states@.len() ==> M::pop(#[trigger] states@[j]) <= M::pop(
                    initial_conditions,
                ) + j,
        ensures
            finished_iters <= max_iters,
            states@.len() == finished_iters + 1,
            states@[0] == initial_conditions,
            state == states@[states@.len() - 1],
            finished_iters < max_iters ==> absorbed(model, state),
            forall|j: int|
                0 <= j < states@.len() - 1 ==> step_possible(
                    model,
                    #[trigger] states@[j],
                    states@[j + 1],
                ),
            forall|j: int| 0 <= j < states@.len() - 1 ==> !absorbed(model, #[trigger] states@[j]),
            forall|j: int|
                0 <= j < states@.len() ==> M::pop(#[trigger] states@[j]) <= M::pop(
                    initial_conditions,
                ) + j,
        decreases max_iters - finished_iters,
    {
        let events = model.events(&state);
        let rate_total = total_weight(&events);
        if rate_total == 0 {
            break ;
        }
        let point = source.pick(rate_total);
        let idx = select_event_index(&events, point);
        proof {
            assert(selectable_in(model.spec_events(state), events@[idx as int]));
        }
        let next = model.update(&state, &events[idx]);
        proof {
            let e = events@[idx as int];
            assert(selectable_in(model.spec_events(state), e) && next == model.spec_update(
                state,
                e,
            ));
        }
        state = next;
        states.push(state);
        finished_iters = finished_iters + 1;
    }
    states
}

} // verus!
