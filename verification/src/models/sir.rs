use crate::models::{
    absorbed, prefix_weight, selectable, selectable_in, spec_total_weight, step_possible, Model,
    ModelEvent, Population, MAX_TOTAL_WEIGHT, PARAM_MAX, POP_MAX,
};
use vstd::prelude::*;

verus! {

/// Compartment counts of the susceptible-infected-recovered process.
#[derive(Clone, Copy, Debug, PartialEq, Eq, Structural)]
pub struct SirPopulation {
    pub susceptible: u64,
    pub infected: u64,
    pub recovered: u64,
}

/// Total population of a state, as a mathematical integer.
pub open spec fn sir_n(st: SirPopulation) -> int {
    st.susceptible + st.infected + st.recovered
}

impl Population for SirPopulation {
    open spec fn spec_n(&self) -> int {
        sir_n(*self)
    }

    fn n(&self) -> u64 {
        self.susceptible + self.infected + self.recovered
    }
}

impl From<[u64; 3]> for SirPopulation {
    /// Reads counts in the order susceptible, infected, recovered.
    fn from(value: [u64; 3]) -> (r: SirPopulation) {
        SirPopulation { susceptible: value[0], infected: value[1], recovered: value[2] }
    }
}

impl vstd::std_specs::convert::FromSpecImpl<[u64; 3]> for SirPopulation {
    open spec fn obeys_from_spec() -> bool {
        true
    }

    open spec fn from_spec(v: [u64; 3]) -> SirPopulation {
        SirPopulation { susceptible: v[0], infected: v[1], recovered: v[2] }
    }
}

/// The compartment an individual leaves on natural death.
#[derive(Clone, Copy, Debug, PartialEq, Eq, Structural)]
pub enum SirCompartment {
    Susceptible,
    Infected,
    Recovered,
}

/// One candidate transition of the SIR process, carrying its weight under
/// the state it was enumerated for.
#[derive(Clone, Copy, Debug, PartialEq, Eq, Structural)]
pub enum SirEvent {
    Transmission(u128),
    Recovery(u128),
    Birth(u128),
    NaturalDeath(SirCompartment, u128),
}

impl ModelEvent for SirEvent {
    open spec fn spec_weight(&self) -> u128 {
        match *self {
            SirEvent::Transmission(w) => w,
            SirEvent::Recovery(w) => w,
            SirEvent::Birth(w) => w,
            SirEvent::NaturalDeath(_, w) => w,
        }
    }

    fn rate(&self) -> u128 {
        match *self {
            SirEvent::Transmission(w) => w,
            SirEvent::Recovery(w) => w,
            SirEvent::Birth(w) => w,
            SirEvent::NaturalDeath(_, w) => w,
        }
    }
}

/// The SIR model: rate parameters as exact rationals over the common
/// denominator `scale`.  The transmission rate is `(beta/scale) * S * I / N`
/// (mass-action incidence), the recovery rate `(gamma/scale) * I`, the
/// birth rate `(mu/scale) * N` and each compartment's natural-death rate
/// `(mu/scale) * count`.
#[derive(Clone, Copy, Debug, PartialEq, Eq, Structural)]
pub struct Sir {
    pub beta: u64,
    pub gamma: u64,
    pub mu: u64,
    pub scale: u64,
}

impl Sir {
    /// Builds the model from the rate numerators and their common
    /// denominator.
    pub fn new(beta: u64, gamma: u64, mu: u64, scale: u64) -> (m: Sir)
        requires
            beta <= PARAM_MAX,
            gamma <= PARAM_MAX,
            mu <= PARAM_MAX,
            1 <= scale,
        ensures
            m == (Sir { beta, gamma, mu, scale }),
            m.wf(),
    {
        Sir { beta, gamma, mu, scale }
    }
}

/// The fixed event list of the SIR model under `st`, in enumeration order.
/// Every weight is the event's rate multiplied by the common positive
/// denominator `m.scale * n`; a zero weight marks an event whose
/// precondition is unmet.
pub open spec fn spec_sir_events(m: Sir, st: SirPopulation) -> Seq<SirEvent> {
    seq![
        SirEvent::Transmission((m.beta * st.susceptible * st.infected) as u128),
        SirEvent::Recovery((m.gamma * st.infected * sir_n(st)) as u128),
        SirEvent::Birth((m.mu * sir_n(st) * sir_n(st)) as u128),
        SirEvent::NaturalDeath(
            SirCompartment::Susceptible,
            (m.mu * st.susceptible * sir_n(st)) as u128,
        ),
        SirEvent::NaturalDeath(SirCompartment::Infected, (m.mu * st.infected * sir_n(st)) as u128),
        SirEvent::NaturalDeath(
            SirCompartment::Recovered,
            (m.mu * st.recovered * sir_n(st)) as u128,
        ),
    ]
}

/// The transition each event kind performs.
pub open spec fn spec_sir_update(st: SirPopulation, e: SirEvent) -> SirPopulation {
    match e {
        SirEvent::Transmission(_) => SirPopulation {
            susceptible: (st.susceptible - 1) as u64,
            infected: (st.infected + 1) as u64,
            recovered: st.recovered,
        },
        SirEvent::Recovery(_) => SirPopulation {
            susceptible: st.susceptible,
            infected: (st.infected - 1) as u64,
            recovered: (st.recovered + 1) as u64,
        },
        SirEvent::Birth(_) => SirPopulation {
            susceptible: (st.susceptible + 1) as u64,
            infected: st.infected,
            recovered: st.recovered,
        },
        SirEvent::NaturalDeath(SirCompartment::Susceptible, _) => SirPopulation {
            susceptible: (st.susceptible - 1) as u64,
            infected: st.infected,
            recovered: st.recovered,
        },
        SirEvent::NaturalDeath(SirCompartment::Infected, _) => SirPopulation {
            susceptible: st.susceptible,
            infected: (st.infected - 1) as u64,
            recovered: st.recovered,
        },
        SirEvent::NaturalDeath(SirCompartment::Recovered, _) => SirPopulation {
            susceptible: st.susceptible,
            infected: st.infected,
            recovered: (st.recovered - 1) as u64,
        },
    }
}

/// Bound on a product of three factors below `2^32`.
proof fn lemma_mul3_bound(x: int, y: int, z: int)
    by (nonlinear_arith)
    requires
        0 <= x <= 0xFFFF_FFFF,
        0 <= y <= 0xFFFF_FFFF,
        0 <= z <= 0xFFFF_FFFF,
    ensures
        0 <= x * y < 0x1_0000_0000_0000_0000,
        0 <= x * y * z < 0x1_0000_0000_0000_0000_0000_0000,
{
}

/// A product of three non-negative factors is positive only if every
/// factor is.
proof fn lemma_mul3_positive(x: int, y: int, z: int)
    by (nonlinear_arith)
    requires
        0 <= x,
        0 <= y,
        0 <= z,
        0 < x * y * z,
    ensures
        0 < x,
        0 < y,
        0 < z,
{
}

/// What selection tells the transition function: the event's weight is the
/// enumerated one, and the compartments it drains are occupied.
proof fn lemma_sir_selectable_facts(m: Sir, st: SirPopulation, e: SirEvent)
    requires
        m.wf(),
        sir_n(st) <= POP_MAX,
        selectable_in(spec_sir_events(m, st), e),
    ensures
        match e {
            SirEvent::Transmission(_) => st.susceptible > 0 && st.infected > 0,
            SirEvent::Recovery(_) => st.infected > 0,
            SirEvent::Birth(_) => true,
            SirEvent::NaturalDeath(c, _) => match c {
                SirCompartment::Susceptible => st.susceptible > 0,
                SirCompartment::Infected => st.infected > 0,
                SirCompartment::Recovered => st.recovered > 0,
            },
        },
{
    let evs = spec_sir_events(m, st);
    let i = choose|i: int| 0 <= i < evs.len() && evs[i] == e && e.spec_weight() > 0;
    let n = sir_n(st);
    match e {
        SirEvent::Transmission(_) => {
            assert(evs[i] == e);
            lemma_mul3_bound(m.beta as int, st.susceptible as int, st.infected as int);
            lemma_mul3_positive(m.beta as int, st.susceptible as int, st.infected as int);
        },
        SirEvent::Recovery(_) => {
            lemma_mul3_bound(m.gamma as int, st.infected as int, n);
            lemma_mul3_positive(m.gamma as int, st.infected as int, n);
        },
        SirEvent::Birth(_) => {},
        SirEvent::NaturalDeath(c, _) => match c {
            SirCompartment::Susceptible => {
                lemma_mul3_bound(m.mu as int, st.susceptible as int, n);
                lemma_mul3_positive(m.mu as int, st.susceptible as int, n);
            },
            SirCompartment::Infected => {
                lemma_mul3_bound(m.mu as int, st.infected as int, n);
                lemma_mul3_positive(m.mu as int, st.infected as int, n);
            },
            SirCompartment::Recovered => {
                lemma_mul3_bound(m.mu as int, st.recovered as int, n);
                lemma_mul3_positive(m.mu as int, st.recovered as int, n);
            },
        },
    }
}

impl Model for Sir {
    type State = SirPopulation;

    type Event = SirEvent;

    open spec fn wf(&self) -> bool {
        &&& self.beta <= PARAM_MAX
        &&& self.gamma <= PARAM_MAX
        &&& self.mu <= PARAM_MAX
        &&& 1 <= self.scale
    }

    open spec fn pop(state: SirPopulation) -> nat {
        sir_n(state) as nat
    }

    open spec fn spec_events(&self, state: SirPopulation) -> Seq<SirEvent> {
        spec_sir_events(*self, state)
    }

    open spec fn spec_update(&self, state: SirPopulation, event: SirEvent) -> SirPopulation {
        spec_sir_update(state, event)
    }

    fn events(&self, state: &SirPopulation) -> (evs: Vec<SirEvent>)
    {
        let n: u64 = state.susceptible + state.infected + state.recovered;
        proof {
            lemma_mul3_bound(self.beta as int, state.susceptible as int, state.infected as int);
            lemma_mul3_bound(self.gamma as int, state.infected as int, n as int);
            lemma_mul3_bound(self.mu as int, n as int, n as int);
            lemma_mul3_bound(self.mu as int, state.susceptible as int, n as int);
            lemma_mul3_bound(self.mu as int, state.infected as int, n as int);
            lemma_mul3_bound(self.mu as int, state.recovered as int, n as int);
        }
        let w_transmission: u128 = (self.beta as u128) * (state.susceptible as u128) * (
        state.infected as u128);
        let w_recovery: u128 = (self.gamma as u128) * (state.infected as u128) * (n as u128);
        let w_birth: u128 = (self.mu as u128) * (n as u128) * (n as u128);
        let w_death_s: u128 = (self.mu as u128) * (state.susceptible as u128) * (n as u128);
        let w_death_i: u128 = (self.mu as u128) * (state.infected as u128) * (n as u128);
        let w_death_r: u128 = (self.mu as u128) * (state.recovered as u128) * (n as u128);
        let evs: Vec<SirEvent> = vec![
            SirEvent::Transmission(w_transmission),
            SirEvent::Recovery(w_recovery),
            SirEvent::Birth(w_birth),
            SirEvent::NaturalDeath(SirCompartment::Susceptible, w_death_s),
            SirEvent::NaturalDeath(SirCompartment::Infected, w_death_i),
            SirEvent::NaturalDeath(SirCompartment::Recovered, w_death_r),
        ];
        proof {
            assert(evs@ =~= spec_sir_events(*self, *state));
            lemma_sir_total_weight(*self, *state);
        }
        evs
    }

    fn update(&self, state: &SirPopulation, event: &SirEvent) -> (next: SirPopulation)
    {
        proof {
            lemma_sir_selectable_facts(*self, *state, *event);
        }
        match *event {
            SirEvent::Transmission(_) => SirPopulation {
                susceptible: state.susceptible - 1,
                infected: state.infected + 1,
                recovered: state.recovered,
            },
            SirEvent::Recovery(_) => SirPopulation {
                susceptible: state.susceptible,
                infected: state.infected - 1,
                recovered: state.recovered + 1,
            },
            SirEvent::Birth(_) => SirPopulation {
                susceptible: state.susceptible + 1,
                infected: state.infected,
                recovered: state.recovered,
            },
            SirEvent::NaturalDeath(SirCompartment::Susceptible, _) => SirPopulation {
                susceptible: state.susceptible - 1,
                infected: state.infected,
                recovered: state.recovered,
            },
            SirEvent::NaturalDeath(SirCompartment::Infected, _) => SirPopulation {
                susceptible: state.susceptible,
                infected: state.infected - 1,
                recovered: state.recovered,
            },
            SirEvent::NaturalDeath(SirCompartment::Recovered, _) => SirPopulation {
                susceptible: state.susceptible,
                infected: state.infected,
                recovered: state.recovered - 1,
            },
        }
    }
}

/// Rate consistency: the summed weight of one enumeration is exactly the
/// sum of the six event weights, the value the direct method uses as its
/// total rate.
pub proof fn lemma_sir_total_weight(m: Sir, st: SirPopulation)
    requires
        m.wf(),
        sir_n(st) <= POP_MAX,
    ensures
        spec_total_weight(spec_sir_events(m, st)) == m.beta * st.susceptible * st.infected
            + m.gamma * st.infected * sir_n(st) + m.mu * sir_n(st) * sir_n(st) + m.mu
            * st.susceptible * sir_n(st) + m.mu * st.infected * sir_n(st) + m.mu * st.recovered
            * sir_n(st),
        spec_total_weight(spec_sir_events(m, st)) <= MAX_TOTAL_WEIGHT,
{
    let n = sir_n(st);
    lemma_mul3_bound(m.beta as int, st.susceptible as int, st.infected as int);
    lemma_mul3_bound(m.gamma as int, st.infected as int, n);
    lemma_mul3_bound(m.mu as int, n, n);
    lemma_mul3_bound(m.mu as int, st.susceptible as int, n);
    lemma_mul3_bound(m.mu as int, st.infected as int, n);
    lemma_mul3_bound(m.mu as int, st.recovered as int, n);
    reveal_with_fuel(prefix_weight, 8);
}

/// Non-negativity: every compartment count of every state is a machine
/// natural, so no state, reachable or not, holds a negative count.
pub proof fn lemma_sir_nonnegative(st: SirPopulation)
    ensures
        st.susceptible >= 0,
        st.infected >= 0,
        st.recovered >= 0,
        sir_n(st) >= 0,
{
}

/// Conservation, per event kind: transmission and recovery move one
/// individual between compartments and keep the total population; a birth
/// adds one; a natural death removes one.
pub proof fn lemma_sir_conservation(m: Sir, st: SirPopulation, e: SirEvent)
    requires
        m.wf(),
        sir_n(st) <= POP_MAX,
        selectable_in(spec_sir_events(m, st), e),
    ensures
        match e {
            SirEvent::Transmission(_) => sir_n(spec_sir_update(st, e)) == sir_n(st),
            SirEvent::Recovery(_) => sir_n(spec_sir_update(st, e)) == sir_n(st),
            SirEvent::Birth(_) => sir_n(spec_sir_update(st, e)) == sir_n(st) + 1,
            SirEvent::NaturalDeath(_, _) => sir_n(spec_sir_update(st, e)) == sir_n(st) - 1,
        },
{
    lemma_sir_selectable_facts(m, st, e);
}

/// A selectable event is one of the six enumerated values.
proof fn lemma_sir_event_form(m: Sir, st: SirPopulation, e: SirEvent)
    requires
        selectable_in(spec_sir_events(m, st), e),
    ensures
        e == spec_sir_events(m, st)[0] || e == spec_sir_events(m, st)[1] || e == spec_sir_events(
            m,
            st,
        )[2] || e == spec_sir_events(m, st)[3] || e == spec_sir_events(m, st)[4] || e
            == spec_sir_events(m, st)[5],
        e.spec_weight() > 0,
{
    let evs = spec_sir_events(m, st);
    let i = choose|i: int| 0 <= i < evs.len() && evs[i] == e && e.spec_weight() > 0;
    assert(i == 0 || i == 1 || i == 2 || i == 3 || i == 4 || i == 5);
}

/// Conservation in a closed population: with no birth/death rate, every
/// possible step keeps the total population.
pub proof fn lemma_sir_closed_conservation(m: Sir, st: SirPopulation, t: SirPopulation)
    requires
        m.wf(),
        m.mu == 0,
        sir_n(st) <= POP_MAX,
        step_possible(m, st, t),
    ensures
        sir_n(t) == sir_n(st),
{
    let e = choose|e: SirEvent| selectable(m, st, e) && t == m.spec_update(st, e);
    lemma_sir_event_form(m, st, e);
    lemma_sir_conservation(m, st, e);
    match e {
        SirEvent::Transmission(_) => {},
        SirEvent::Recovery(_) => {},
        SirEvent::Birth(_) => {
            assert(e == spec_sir_events(m, st)[2]);
            assert(e.spec_weight() == 0);
        },
        SirEvent::NaturalDeath(_, _) => {
            assert(e.spec_weight() == 0);
        },
    }
}

/// In a closed population the only possible steps are one transmission or
/// one recovery, each moving exactly one individual.
pub proof fn lemma_sir_step_shape(m: Sir, st: SirPopulation, t: SirPopulation)
    requires
        m.wf(),
        m.mu == 0,
        sir_n(st) <= POP_MAX,
        step_possible(m, st, t),
    ensures
        (st.susceptible > 0 && st.infected > 0 && t == (SirPopulation {
            susceptible: (st.susceptible - 1) as u64,
            infected: (st.infected + 1) as u64,
            recovered: st.recovered,
        })) || (st.infected > 0 && t == (SirPopulation {
            susceptible: st.susceptible,
            infected: (st.infected - 1) as u64,
            recovered: (st.recovered + 1) as u64,
        })),
{
    let e = choose|e: SirEvent| selectable(m, st, e) && t == m.spec_update(st, e);
    lemma_sir_event_form(m, st, e);
    lemma_sir_selectable_facts(m, st, e);
    match e {
        SirEvent::Transmission(_) => {},
        SirEvent::Recovery(_) => {},
        SirEvent::Birth(_) => {
            assert(e == spec_sir_events(m, st)[2]);
            assert(e.spec_weight() == 0);
        },
        SirEvent::NaturalDeath(_, _) => {
            assert(e.spec_weight() == 0);
        },
    }
}

/// With nobody infected and no birth/death rate, the state is absorbing:
/// every event's weight is zero.
pub proof fn lemma_sir_absorbed_no_infected(m: Sir, st: SirPopulation)
    requires
        m.wf(),
        m.mu == 0,
        st.infected == 0,
    ensures
        absorbed(m, st),
{
    reveal_with_fuel(prefix_weight, 8);
}

/// Conservation along a whole trajectory of a closed population: every
/// recorded state has the total population of the initial one.
pub proof fn lemma_sir_trajectory_conservation(m: Sir, states: Seq<SirPopulation>)
    requires
        m.wf(),
        m.mu == 0,
        states.len() >= 1,
        forall|j: int| 0 <= j < states.len() ==> sir_n(#[trigger] states[j]) <= POP_MAX,
        forall|j: int|
            0 <= j < states.len() - 1 ==> step_possible(m, #[trigger] states[j], states[j + 1]),
    ensures
        forall|j: int| 0 <= j < states.len() ==> sir_n(#[trigger] states[j]) == sir_n(states[0]),
    decreases states.len(),
{
    if states.len() > 1 {
        let prefix = states.drop_last();
        assert(forall|j: int| 0 <= j < prefix.len() ==> prefix[j] == states[j]);
        lemma_sir_trajectory_conservation(m, prefix);
        lemma_sir_closed_conservation(
            m,
            states[states.len() - 2],
            states[states.len() - 1],
        );
    }
}

} // verus!
