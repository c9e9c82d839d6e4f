use crate::models::{
    absorbed, lemma_total_weight_zero, lemma_weight_le_total, selectable_in, step_possible, Model,
    ModelEvent, POP_MAX,
};
use vstd::prelude::*;

verus! {

/// One candidate waiting time per enumerated event, in any common
/// order-preserving integer encoding.  An absent entry marks an event
/// whose rate — hence weight — is zero: no candidate time exists for it
/// and it can never fire.
pub open spec fn candidates_match<M: Model>(m: M, state: M::State, c: Seq<Option<u64>>) -> bool {
    &&& c.len() == m.spec_events(state).len()
    &&& forall|i: int|
        0 <= i < c.len() ==> ((#[trigger] c[i]) is Some <==> m.spec_events(state)[i].spec_weight()
            > 0)
}

/// `i` is the winning index of the first-reaction method: its candidate
/// time is present, no present candidate is smaller, and no earlier one is
/// equal — the first minimum in enumeration order.
pub open spec fn first_min_candidate(c: Seq<Option<u64>>, i: int) -> bool {
    &&& 0 <= i < c.len()
    &&& c[i] is Some
    &&& forall|j: int|
        0 <= j < c.len() && (#[trigger] c[j]) is Some ==> c[i].unwrap() <= c[j].unwrap()
    &&& forall|j: int| 0 <= j < i ==> (#[trigger] c[j]) is None || c[j].unwrap() > c[i].unwrap()
}

/// One iteration of Gillespie's first-reaction method.
///
/// The caller samples, for each enumerated event with a positive rate, an
/// independent exponential candidate waiting time, and passes the times
/// here in an order-preserving integer encoding.  If every candidate is
/// absent the state is absorbing and the run is over (`None`); otherwise
/// the event with the minimum candidate time — ties broken by earliest
/// enumeration order — fires, and the resulting state is returned.
pub fn first_reaction_step<M: Model>(
    model: &M,
    state: &M::State,
    candidates: &Vec<Option<u64>>,
) -> (next: Option<M::State>)
    requires
        model.wf(),
        M::pop(*state) <= POP_MAX,
        candidates_match(*model, *state, candidates@),
    ensures
        next is None <==> absorbed(*model, *state),
        forall|i: int|
            first_min_candidate(candidates@, i) ==> next == Some(
                model.spec_update(*state, model.spec_events(*state)[i]),
            ),
        next matches Some(t) ==> step_possible(*model, *state, t) && M::pop(t) <= M::pop(*state)
            + 1,
{
    let events = model.events(state);
    let mut found = false;
    let mut best: usize = 0;
    let mut best_val: u64 = 0;
    let mut k: usize = 0;
    while k < candidates.len()
        invariant
            k <= candidates@.len(),
            !found ==> forall|j: int| 0 <= j < k ==> (#[trigger] candidates@[j]) is None,
            found ==> best < k && candidates@[best as int] == Some(best_val),
            found ==> forall|j: int|
                0 <= j < k && (#[trigger] candidates@[j]) is Some ==> best_val
                    <= candidates@[j].unwrap(),
            found ==> forall|j: int|
                0 <= j < best ==> (#[trigger] candidates@[j]) is None || candidates@[j].unwrap()
                    > best_val,
        decreases candidates@.len() - k,
    {
        match candidates[k] {
            Some(v) => {
                if !found || v < best_val {
                    found = true;
                    best = k;
                    best_val = v;
                }
            },
            None => {},
        }
        k = k + 1;
    }
    if !found {
        proof {
            let evs = model.spec_events(*state);
            assert forall|i: int| 0 <= i < evs.len() implies (#[trigger] evs[i]).spec_weight()
                == 0 by {
                assert(candidates@[i] is None);
            }
            lemma_total_weight_zero(evs);
        }
        return None;
    }
    proof {
        lemma_weight_le_total(model.spec_events(*state), best as int);
        assert(selectable_in(model.spec_events(*state), events@[best as int]));
        assert forall|i: int| first_min_candidate(candidates@, i) implies i == best as int by {
            let c = candidates@;
            assert(c[best as int].unwrap() <= c[i].unwrap());
            assert(c[i].unwrap() <= c[best as int].unwrap());
            if i < best as int {
                assert(c[i] is None || c[i].unwrap() > best_val);
            }
            if (best as int) < i {
                assert(c[best as int] is None || c[best as int].unwrap() > c[i].unwrap());
            }
        }
    }
    let next = model.update(state, &events[best]);
    proof {
        let e = events@[best as int];
        assert(selectable_in(model.spec_events(*state), e) && next == model.spec_update(*state, e));
    }
    Some(next)
}

} // verus!
