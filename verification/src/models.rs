use vstd::prelude::*;

pub mod seir;
pub mod sir;

verus! {

/// Largest total population (sum of all compartment counts) that the
/// simulation accepts.  Together with `PARAM_MAX` it keeps every event
/// weight product, and the sum of all weights of one enumeration, inside
/// `u128` arithmetic.
pub const POP_MAX: u64 = 0xFFFF_FFFF;

/// Largest rate-parameter numerator the models accept.
pub const PARAM_MAX: u64 = 0xFFFF_FFFF;

/// Upper bound on the summed weights of one event enumeration, guaranteed
/// by every `Model::events` implementation.  `8 * PARAM_MAX * POP_MAX^2`
/// stays below `2^100`.
pub const MAX_TOTAL_WEIGHT: u128 = 0x10_0000_0000_0000_0000_0000_0000;

/// Anything with a total population count.
pub trait Population: Sized {
    /// The total population as a mathematical integer.
    spec fn spec_n(&self) -> int;

    /// The total population; callable whenever the mathematical total fits
    /// the machine word.
    fn n(&self) -> (total: u64)
        requires
            0 <= self.spec_n() <= u64::MAX,
        ensures
            total == self.spec_n(),
    ;
}

/// An event enumerated by a model: a tagged transition kind carrying the
/// weight of the transition under the state it was enumerated for.
///
/// Weights are exact integers: a model whose rate parameters are rationals
/// `num / scale` enumerates, for a state with total population `n`, each
/// event's rate multiplied by the common positive denominator `scale * n`.
/// Selection proportional to the weights is therefore selection
/// proportional to the exact rates, with no rounding anywhere.
pub trait ModelEvent: Sized {
    /// The weight carried inside the event value.
    spec fn spec_weight(&self) -> u128;

    /// Reads the carried weight.
    fn rate(&self) -> (w: u128)
        ensures
            w == self.spec_weight(),
    ;
}

/// Sum of the weights of the first `k` events of `s`.
pub open spec fn prefix_weight<E: ModelEvent>(s: Seq<E>, k: int) -> int
    decreases k,
{
    if k <= 0 {
        0
    } else {
        prefix_weight(s, k - 1) + s[k - 1].spec_weight()
    }
}

/// Sum of all event weights of `s`.
pub open spec fn spec_total_weight<E: ModelEvent>(s: Seq<E>) -> int {
    prefix_weight(s, s.len() as int)
}

/// Prefix sums of non-negative weights grow monotonically.
pub proof fn lemma_prefix_weight_monotone<E: ModelEvent>(s: Seq<E>, j: int, k: int)
    requires
        j <= k,
    ensures
        prefix_weight(s, j) <= prefix_weight(s, k),
    decreases k - j,
{
    if j < k {
        lemma_prefix_weight_monotone(s, j, k - 1);
    }
}

/// Every single weight is bounded by the total.
pub proof fn lemma_weight_le_total<E: ModelEvent>(s: Seq<E>, i: int)
    requires
        0 <= i < s.len(),
    ensures
        s[i].spec_weight() <= spec_total_weight(s),
        prefix_weight(s, i) >= 0,
        prefix_weight(s, i) + s[i].spec_weight() == prefix_weight(s, i + 1),
{
    lemma_prefix_weight_monotone(s, 0, i);
    lemma_prefix_weight_monotone(s, i + 1, s.len() as int);
}

/// The total weight is zero exactly when every event's weight is zero.
pub proof fn lemma_total_weight_zero<E: ModelEvent>(s: Seq<E>)
    ensures
        spec_total_weight(s) == 0 <==> (forall|i: int|
            0 <= i < s.len() ==> s[i].spec_weight() == 0),
{
    if spec_total_weight(s) == 0 {
        assert forall|i: int| 0 <= i < s.len() implies s[i].spec_weight() == 0 by {
            lemma_weight_le_total(s, i);
        }
    } else {
        lemma_prefix_nonzero_witness(s, s.len() as int);
    }
}

/// A positive prefix sum of non-negative weights has a positive entry.
proof fn lemma_prefix_nonzero_witness<E: ModelEvent>(s: Seq<E>, k: int)
    requires
        k <= s.len(),
        prefix_weight(s, k) != 0,
    ensures
        exists|i: int| 0 <= i < k && #[trigger] s[i].spec_weight() > 0,
    decreases k,
{
    if k > 0 {
        if s[k - 1].spec_weight() > 0 {
            assert(0 <= k - 1 < k && s[k - 1].spec_weight() > 0);
        } else {
            lemma_prefix_nonzero_witness(s, k - 1);
        }
    }
}

/// `event` occurs in `events` and carries a positive weight, so sampling
/// may pick it.
pub open spec fn selectable_in<E: ModelEvent>(events: Seq<E>, event: E) -> bool {
    exists|i: int|
        0 <= i < events.len() && events[i] == event && event.spec_weight() > 0
}

/// The contract every simulatable process presents to the engines: a
/// copyable state, a self-describing event type, a pure enumeration of the
/// candidate events under a state, and a transition function.
pub trait Model: Sized {
    type State: Copy;

    type Event: ModelEvent;

    /// The model's fixed parameters are acceptable.
    spec fn wf(&self) -> bool;

    /// Total population of a state.
    spec fn pop(state: Self::State) -> nat;

    /// The fixed list of candidate events under `state`, each carrying its
    /// weight.
    spec fn spec_events(&self, state: Self::State) -> Seq<Self::Event>;

    /// The state reached by applying `event` to `state`.
    spec fn spec_update(&self, state: Self::State, event: Self::Event) -> Self::State;

    /// Enumerates the candidate events under `state`.  Pure: equal states
    /// give equal results.
    fn events(&self, state: &Self::State) -> (evs: Vec<Self::Event>)
        requires
            self.wf(),
            Self::pop(*state) <= POP_MAX,
        ensures
            evs@ == self.spec_events(*state),
            spec_total_weight(self.spec_events(*state)) <= MAX_TOTAL_WEIGHT,
    ;

    /// Applies a selected event.  Only an event enumerated for `state` with
    /// a positive weight may be applied; the engines guarantee this by
    /// construction.
    fn update(&self, state: &Self::State, event: &Self::Event) -> (next: Self::State)
        requires
            self.wf(),
            Self::pop(*state) <= POP_MAX,
            selectable_in(self.spec_events(*state), *event),
        ensures
            next == self.spec_update(*state, *event),
            Self::pop(next) <= Self::pop(*state) + 1,
    ;
}

/// `event` is one of the events enumerated for `state` and its weight is
/// positive, so sampling may pick it.
pub open spec fn selectable<M: Model>(m: M, state: M::State, event: M::Event) -> bool {
    selectable_in(m.spec_events(state), event)
}

/// `next` is reachable from `state` by one applied event.
pub open spec fn step_possible<M: Model>(m: M, state: M::State, next: M::State) -> bool {
    exists|e: M::Event| selectable(m, state, e) && next == m.spec_update(state, e)
}

/// `state` is absorbing: every enumerated event has weight zero, so no
/// further transition is possible.
pub open spec fn absorbed<M: Model>(m: M, state: M::State) -> bool {
    spec_total_weight(m.spec_events(state)) == 0
}

/// An absorbing state admits no step.
pub proof fn lemma_absorbed_no_step<M: Model>(m: M, state: M::State)
    requires
        absorbed(m, state),
    ensures
        forall|next: M::State| !step_possible(m, state, next),
{
    assert forall|next: M::State| !step_possible(m, state, next) by {
        if step_possible(m, state, next) {
            let e = choose|e: M::Event|
                selectable(m, state, e) && next == m.spec_update(state, e);
            let i = choose|i: int|
                0 <= i < m.spec_events(state).len() && m.spec_events(state)[i] == e
                    && e.spec_weight() > 0;
            lemma_weight_le_total(m.spec_events(state), i);
        }
    }
}

} // verus!
