use crate::models::{
    absorbed, prefix_weight, selectable, selectable_in, spec_total_weight, step_possible, Model,
    ModelEvent, Population, MAX_TOTAL_WEIGHT, PARAM_MAX, POP_MAX,
};
use vstd::prelude::*;

verus! {

/// Compartment counts of the susceptible-exposed-infected-recovered
/// process.
#[derive(Clone, Copy, Debug, PartialEq, Eq, Structural)]
pub struct SeirPopulation {
    pub susceptible: u64,
    pub exposed: u64,
    pub infected: u64,
    pub recovered: u64,
}

/// Total population of a state, as a mathematical integer.
pub open spec fn seir_n(st: SeirPopulation) -> int {
    st.susceptible + st.exposed + st.infected + st.recovered
}

impl Population for SeirPopulation {
    open spec fn spec_n(&self) -> int {
        seir_n(*self)
    }

    fn n(&self) -> u64 {
        self.susceptible + self.exposed + self.infected + self.recovered
    }
}

impl From<[u64; 4]> for SeirPopulation {
    /// Reads counts in the order susceptible, exposed, infected, recovered.
    fn from(value: [u64; 4]) -> (r: SeirPopulation) {
        SeirPopulation {
            susceptible: value[0],
            exposed: value[1],
            infected: value[2],
            recovered: value[3],
        }
    }
}

impl vstd::std_specs::convert::FromSpecImpl<[u64; 4]> for SeirPopulation {
    open spec fn obeys_from_spec() -> bool {
        true
    }

    open spec fn from_spec(v: [u64; 4]) -> SeirPopulation {
        SeirPopulation { susceptible: v[0], exposed: v[1], infected: v[2], recovered: v[3] }
    }
}

/// The compartment an individual leaves on natural death.
#[derive(Clone, Copy, Debug, PartialEq, Eq, Structural)]
pub enum SeirCompartment {
    Susceptible,
    Exposed,
    Infected,
    Recovered,
}

/// One candidate transition of the SEIR process, carrying its weight under
/// the state it was enumerated for.
#[derive(Clone, Copy, Debug, PartialEq, Eq, Structural)]
pub enum SeirEvent {
    Transmission(u128),
    Infectious(u128),
    Recovery(u128),
    Birth(u128),
    NaturalDeath(SeirCompartment, u128),
}

impl ModelEvent for SeirEvent {
    open spec fn spec_weight(&self) -> u128 {
        match *self {
            SeirEvent::Transmission(w) => w,
            SeirEvent::Infectious(w) => w,
            SeirEvent::Recovery(w) => w,
            SeirEvent::Birth(w) => w,
            SeirEvent::NaturalDeath(_, w) => w,
        }
    }

    fn rate(&self) -> u128 {
        match *self {
            SeirEvent::Transmission(w) => w,
            SeirEvent::Infectious(w) => w,
            SeirEvent::Recovery(w) => w,
            SeirEvent::Birth(w) => w,
            SeirEvent::NaturalDeath(_, w) => w,
        }
    }
}

/// The SEIR model: rate parameters as exact rationals over the common
/// denominator `scale`.  The transmission rate is `(beta/scale) * S * I / N`,
/// the progression rate `(sigma/scale) * E`, the recovery rate
/// `(gamma/scale) * I`, the birth rate `(mu/scale) * N` and each
/// compartment's natural-death rate `(mu/scale) * count`.
#[derive(Clone, Copy, Debug, PartialEq, Eq, Structural)]
pub struct Seir {
    pub beta: u64,
    pub sigma: u64,
    pub gamma: u64,
    pub mu: u64,
    pub scale: u64,
}

impl Seir {
    /// Builds the model from the rate numerators and their common
    /// denominator.
    pub fn new(beta: u64, sigma: u64, gamma: u64, mu: u64, scale: u64) -> (m: Seir)
        requires
            beta <= PARAM_MAX,
            sigma <= PARAM_MAX,
            gamma <= PARAM_MAX,
            mu <= PARAM_MAX,
            1 <= scale,
        ensures
            m == (Seir { beta, sigma, gamma, mu, scale }),
            m.wf(),
    {
        Seir { beta, sigma, gamma, mu, scale }
    }
}

/// The fixed event list of the SEIR model under `st`, in enumeration
/// order.  Every weight is the event's rate multiplied by the common
/// positive denominator `m.scale * n`.
pub open spec fn spec_seir_events(m: Seir, st: SeirPopulation) -> Seq<SeirEvent> {
    seq![
        SeirEvent::Transmission((m.beta * st.susceptible * st.infected) as u128),
        SeirEvent::Infectious((m.sigma * st.exposed * seir_n(st)) as u128),
        SeirEvent::Recovery((m.gamma * st.infected * seir_n(st)) as u128),
        SeirEvent::Birth((m.mu * seir_n(st) * seir_n(st)) as u128),
        SeirEvent::NaturalDeath(
            SeirCompartment::Susceptible,
            (m.mu * st.susceptible * seir_n(st)) as u128,
        ),
        SeirEvent::NaturalDeath(SeirCompartment::Exposed, (m.mu * st.exposed * seir_n(st)) as u128),
        SeirEvent::NaturalDeath(
            SeirCompartment::Infected,
            (m.mu * st.infected * seir_n(st)) as u128,
        ),
        SeirEvent::NaturalDeath(
            SeirCompartment::Recovered,
            (m.mu * st.recovered * seir_n(st)) as u128,
        ),
    ]
}

/// The transition each event kind performs.
pub open spec fn spec_seir_update(st: SeirPopulation, e: SeirEvent) -> SeirPopulation {
    match e {
        SeirEvent::Transmission(_) => SeirPopulation {
            susceptible: (st.susceptible - 1) as u64,
            exposed: (st.exposed + 1) as u64,
            infected: st.infected,
            recovered: st.recovered,
        },
        SeirEvent::Infectious(_) => SeirPopulation {
            susceptible: st.susceptible,
            exposed: (st.exposed - 1) as u64,
            infected: (st.infected + 1) as u64,
            recovered: st.recovered,
        },
        SeirEvent::Recovery(_) => SeirPopulation {
            susceptible: st.susceptible,
            exposed: st.exposed,
            infected: (st.infected - 1) as u64,
            recovered: (st.recovered + 1) as u64,
        },
        SeirEvent::Birth(_) => SeirPopulation {
            susceptible: (st.susceptible + 1) as u64,
            exposed: st.exposed,
            infected: st.infected,
            recovered: st.recovered,
        },
        SeirEvent::NaturalDeath(SeirCompartment::Susceptible, _) => SeirPopulation {
            susceptible: (st.susceptible - 1) as u64,
            exposed: st.exposed,
            infected: st.infected,
            recovered: st.recovered,
        },
        SeirEvent::NaturalDeath(SeirCompartment::Exposed, _) => SeirPopulation {
            susceptible: st.susceptible,
            exposed: (st.exposed - 1) as u64,
            infected: st.infected,
            recovered: st.recovered,
        },
        SeirEvent::NaturalDeath(SeirCompartment::Infected, _) => SeirPopulation {
            susceptible: st.susceptible,
            exposed: st.exposed,
            infected: (st.infected - 1) as u64,
            recovered: st.recovered,
        },
        SeirEvent::NaturalDeath(SeirCompartment::Recovered, _) => SeirPopulation {
            susceptible: st.susceptible,
            exposed: st.exposed,
            infected: st.infected,
            recovered: (st.recovered - 1) as u64,
        },
    }
}

/// Non-negativity: every compartment count of every state is a machine
/// natural, so no state, reachable or not, holds a negative count.
pub proof fn lemma_seir_nonnegative(st: SeirPopulation)
    ensures
        st.susceptible >= 0,
        st.exposed >= 0,
        st.infected >= 0,
        st.recovered >= 0,
        seir_n(st) >= 0,
{
}

/// Bound on a product of three factors below `2^32`.
proof fn lemma_mul3_bound(x: int, y: int, z: int)
    by (nonlinear_arith)
    requires
        0 <= x <= 0xFFFF_FFFF,
        0 <= y <= 0xFFFF_FFFF,
        0 <= z <= 0xFFFF_FFFF,
    ensures
        0 <= x * y < 0x1_0000_0000_0000_0000,
        0 <= x * y * z < 0x1_0000_0000_0000_0000_0000_0000,
{
}

/// A product of three non-negative factors is positive only if every
/// factor is.
proof fn lemma_mul3_positive(x: int, y: int, z: int)
    by (nonlinear_arith)
    requires
        0 <= x,
        0 <= y,
        0 <= z,
        0 < x * y * z,
    ensures
        0 < x,
        0 < y,
        0 < z,
{
}

/// What selection tells the transition function: the compartments the
/// event drains are occupied.
proof fn lemma_seir_selectable_facts(m: Seir, st: SeirPopulation, e: SeirEvent)
    requires
        m.wf(),
        seir_n(st) <= POP_MAX,
        selectable_in(spec_seir_events(m, st), e),
    ensures
        match e {
            SeirEvent::Transmission(_) => st.susceptible > 0 && st.infected > 0,
            SeirEvent::Infectious(_) => st.exposed > 0,
            SeirEvent::Recovery(_) => st.infected > 0,
            SeirEvent::Birth(_) => true,
            SeirEvent::NaturalDeath(c, _) => match c {
                SeirCompartment::Susceptible => st.susceptible > 0,
                SeirCompartment::Exposed => st.exposed > 0,
                SeirCompartment::Infected => st.infected > 0,
                SeirCompartment::Recovered => st.recovered > 0,
            },
        },
{
    let evs = spec_seir_events(m, st);
    let i = choose|i: int| 0 <= i < evs.len() && evs[i] == e && e.spec_weight() > 0;
    let n = seir_n(st);
    match e {
        SeirEvent::Transmission(_) => {
            assert(evs[i] == e);
            lemma_mul3_bound(m.beta as int, st.susceptible as int, st.infected as int);
            lemma_mul3_positive(m.beta as int, st.susceptible as int, st.infected as int);
        },
        SeirEvent::Infectious(_) => {
            lemma_mul3_bound(m.sigma as int, st.exposed as int, n);
            lemma_mul3_positive(m.sigma as int, st.exposed as int, n);
        },
        SeirEvent::Recovery(_) => {
            lemma_mul3_bound(m.gamma as int, st.infected as int, n);
            lemma_mul3_positive(m.gamma as int, st.infected as int, n);
        },
        SeirEvent::Birth(_) => {},
        SeirEvent::NaturalDeath(c, _) => match c {
            SeirCompartment::Susceptible => {
                lemma_mul3_bound(m.mu as int, st.susceptible as int, n);
                lemma_mul3_positive(m.mu as int, st.susceptible as int, n);
            },
            SeirCompartment::Exposed => {
                lemma_mul3_bound(m.mu as int, st.exposed as int, n);
                lemma_mul3_positive(m.mu as int, st.exposed as int, n);
            },
            SeirCompartment::Infected => {
                lemma_mul3_bound(m.mu as int, st.infected as int, n);
                lemma_mul3_positive(m.mu as int, st.infected as int, n);
            },
            SeirCompartment::Recovered => {
                lemma_mul3_bound(m.mu as int, st.recovered as int, n);
                lemma_mul3_positive(m.mu as int, st.recovered as int, n);
            },
        },
    }
}

impl Model for Seir {
    type State = SeirPopulation;

    type Event = SeirEvent;

    open spec fn wf(&self) -> bool {
        &&& self.beta <= PARAM_MAX
        &&& self.sigma <= PARAM_MAX
        &&& self.gamma <= PARAM_MAX
        &&& self.mu <= PARAM_MAX
        &&& 1 <= self.scale
    }

    open spec fn pop(state: SeirPopulation) -> nat {
        seir_n(state) as nat
    }

    open spec fn spec_events(&self, state: SeirPopulation) -> Seq<SeirEvent> {
        spec_seir_events(*self, state)
    }

    open spec fn spec_update(&self, state: SeirPopulation, event: SeirEvent) -> SeirPopulation {
        spec_seir_update(state, event)
    }

    fn events(&self, state: &SeirPopulation) -> (evs: Vec<SeirEvent>) {
        let n: u64 = state.susceptible + state.exposed + state.infected + state.recovered;
        proof {
            lemma_mul3_bound(self.beta as int, state.susceptible as int, state.infected as int);
            lemma_mul3_bound(self.sigma as int, state.exposed as int, n as int);
            lemma_mul3_bound(self.gamma as int, state.infected as int, n as int);
            lemma_mul3_bound(self.mu as int, n as int, n as int);
            lemma_mul3_bound(self.mu as int, state.susceptible as int, n as int);
            lemma_mul3_bound(self.mu as int, state.exposed as int, n as int);
            lemma_mul3_bound(self.mu as int, state.infected as int, n as int);
            lemma_mul3_bound(self.mu as int, state.recovered as int, n as int);
        }
        let w_transmission: u128 = (self.beta as u128) * (state.susceptible as u128) * (
        state.infected as u128);
        let w_infectious: u128 = (self.sigma as u128) * (state.exposed as u128) * (n as u128);
        let w_recovery: u128 = (self.gamma as u128) * (state.infected as u128) * (n as u128);
        let w_birth: u128 = (self.mu as u128) * (n as u128) * (n as u128);
        let w_death_s: u128 = (self.mu as u128) * (state.susceptible as u128) * (n as u128);
        let w_death_e: u128 = (self.mu as u128) * (state.exposed as u128) * (n as u128);
        let w_death_i: u128 = (self.mu as u128) * (state.infected as u128) * (n as u128);
        let w_death_r: u128 = (self.mu as u128) * (state.recovered as u128) * (n as u128);
        let evs: Vec<SeirEvent> = vec![
            SeirEvent::Transmission(w_transmission),
            SeirEvent::Infectious(w_infectious),
            SeirEvent::Recovery(w_recovery),
            SeirEvent::Birth(w_birth),
            SeirEvent::NaturalDeath(SeirCompartment::Susceptible, w_death_s),
            SeirEvent::NaturalDeath(SeirCompartment::Exposed, w_death_e),
            SeirEvent::NaturalDeath(SeirCompartment::Infected, w_death_i),
            SeirEvent::NaturalDeath(SeirCompartment::Recovered, w_death_r),
        ];
        proof {
            assert(evs@ =~= spec_seir_events(*self, *state));
            lemma_seir_total_weight(*self, *state);
        }
        evs
    }

    fn update(&self, state: &SeirPopulation, event: &SeirEvent) -> (next: SeirPopulation) {
        proof {
            lemma_seir_selectable_facts(*self, *state, *event);
        }
        match *event {
            SeirEvent::Transmission(_) => SeirPopulation {
                susceptible: state.susceptible - 1,
                exposed: state.exposed + 1,
                infected: state.infected,
                recovered: state.recovered,
            },
            SeirEvent::Infectious(_) => SeirPopulation {
                susceptible: state.susceptible,
                exposed: state.exposed - 1,
                infected: state.infected + 1,
                recovered: state.recovered,
            },
            SeirEvent::Recovery(_) => SeirPopulation {
                susceptible: state.susceptible,
                exposed: state.exposed,
                infected: state.infected - 1,
                recovered: state.recovered + 1,
            },
            SeirEvent::Birth(_) => SeirPopulation {
                susceptible: state.susceptible + 1,
                exposed: state.exposed,
                infected: state.infected,
                recovered: state.recovered,
            },
            SeirEvent::NaturalDeath(SeirCompartment::Susceptible, _) => SeirPopulation {
                susceptible: state.susceptible - 1,
                exposed: state.exposed,
                infected: state.infected,
                recovered: state.recovered,
            },
            SeirEvent::NaturalDeath(SeirCompartment::Exposed, _) => SeirPopulation {
                susceptible: state.susceptible,
                exposed: state.exposed - 1,
                infected: state.infected,
                recovered: state.recovered,
            },
            SeirEvent::NaturalDeath(SeirCompartment::Infected, _) => SeirPopulation {
                susceptible: state.susceptible,
                exposed: state.exposed,
                infected: state.infected - 1,
                recovered: state.recovered,
            },
            SeirEvent::NaturalDeath(SeirCompartment::Recovered, _) => SeirPopulation {
                susceptible: state.susceptible,
                exposed: state.exposed,
                infected: state.infected,
                recovered: state.recovered - 1,
            },
        }
    }
}

/// Rate consistency: the summed weight of one enumeration is exactly the
/// sum of the eight event weights, the value the direct method uses as its
/// total rate.
pub proof fn lemma_seir_total_weight(m: Seir, st: SeirPopulation)
    requires
        m.wf(),
        seir_n(st) <= POP_MAX,
    ensures
        spec_total_weight(spec_seir_events(m, st)) == m.beta * st.susceptible * st.infected
            + m.sigma * st.exposed * seir_n(st) + m.gamma * st.infected * seir_n(st) + m.mu
            * seir_n(st) * seir_n(st) + m.mu * st.susceptible * seir_n(st) + m.mu * st.exposed
            * seir_n(st) + m.mu * st.infected * seir_n(st) + m.mu * st.recovered * seir_n(st),
        spec_total_weight(spec_seir_events(m, st)) <= MAX_TOTAL_WEIGHT,
{
    let n = seir_n(st);
    lemma_mul3_bound(m.beta as int, st.susceptible as int, st.infected as int);
    lemma_mul3_bound(m.sigma as int, st.exposed as int, n);
    lemma_mul3_bound(m.gamma as int, st.infected as int, n);
    lemma_mul3_bound(m.mu as int, n, n);
    lemma_mul3_bound(m.mu as int, st.susceptible as int, n);
    lemma_mul3_bound(m.mu as int, st.exposed as int, n);
    lemma_mul3_bound(m.mu as int, st.infected as int, n);
    lemma_mul3_bound(m.mu as int, st.recovered as int, n);
    reveal_with_fuel(prefix_weight, 10);
}

/// Conservation, per event kind: transmission, progression and recovery
/// keep the total population; a birth adds one; a natural death removes
/// one.
pub proof fn lemma_seir_conservation(m: Seir, st: SeirPopulation, e: SeirEvent)
    requires
        m.wf(),
        seir_n(st) <= POP_MAX,
        selectable_in(spec_seir_events(m, st), e),
    ensures
        match e {
            SeirEvent::Transmission(_) => seir_n(spec_seir_update(st, e)) == seir_n(st),
            SeirEvent::Infectious(_) => seir_n(spec_seir_update(st, e)) == seir_n(st),
            SeirEvent::Recovery(_) => seir_n(spec_seir_update(st, e)) == seir_n(st),
            SeirEvent::Birth(_) => seir_n(spec_seir_update(st, e)) == seir_n(st) + 1,
            SeirEvent::NaturalDeath(_, _) => seir_n(spec_seir_update(st, e)) == seir_n(st) - 1,
        },
{
    lemma_seir_selectable_facts(m, st, e);
}

/// A selectable event is one of the eight enumerated values.
proof fn lemma_seir_event_form(m: Seir, st: SeirPopulation, e: SeirEvent)
    requires
        selectable_in(spec_seir_events(m, st), e),
    ensures
        exists|i: int|
            0 <= i < 8 && e == #[trigger] spec_seir_events(m, st)[i],
        e.spec_weight() > 0,
{
    let evs = spec_seir_events(m, st);
    let i = choose|i: int| 0 <= i < evs.len() && evs[i] == e && e.spec_weight() > 0;
    assert(0 <= i < 8 && e == spec_seir_events(m, st)[i]);
}

/// Conservation in a closed population: with no birth/death rate, every
/// possible step keeps the total population.
pub proof fn lemma_seir_closed_conservation(m: Seir, st: SeirPopulation, t: SeirPopulation)
    requires
        m.wf(),
        m.mu == 0,
        seir_n(st) <= POP_MAX,
        step_possible(m, st, t),
    ensures
        seir_n(t) == seir_n(st),
{
    let e = choose|e: SeirEvent| selectable(m, st, e) && t == m.spec_update(st, e);
    lemma_seir_event_form(m, st, e);
    lemma_seir_conservation(m, st, e);
    match e {
        SeirEvent::Transmission(_) => {},
        SeirEvent::Infectious(_) => {},
        SeirEvent::Recovery(_) => {},
        SeirEvent::Birth(_) => {
            assert(e == spec_seir_events(m, st)[3]);
            assert(e.spec_weight() == 0);
        },
        SeirEvent::NaturalDeath(_, _) => {
            assert(e.spec_weight() == 0);
        },
    }
}

/// With nobody exposed or infected and no birth/death rate, the state is
/// absorbing: every event's weight is zero.
pub proof fn lemma_seir_absorbed_no_carriers(m: Seir, st: SeirPopulation)
    requires
        m.wf(),
        m.mu == 0,
        st.exposed == 0,
        st.infected == 0,
    ensures
        absorbed(m, st),
{
    reveal_with_fuel(prefix_weight, 10);
}

/// Conservation along a whole trajectory of a closed population: every
/// recorded state has the total population of the initial one.
pub proof fn lemma_seir_trajectory_conservation(m: Seir, states: Seq<SeirPopulation>)
    requires
        m.wf(),
        m.mu == 0,
        states.len() >= 1,
        forall|j: int| 0 <= j < states.len() ==> seir_n(#[trigger] states[j]) <= POP_MAX,
        forall|j: int|
            0 <= j < states.len() - 1 ==> step_possible(m, #[trigger] states[j], states[j + 1]),
    ensures
        forall|j: int| 0 <= j < states.len() ==> seir_n(#[trigger] states[j]) == seir_n(states[0]),
    decreases states.len(),
{
    if states.len() > 1 {
        let prefix = states.drop_last();
        assert(forall|j: int| 0 <= j < prefix.len() ==> prefix[j] == states[j]);
        lemma_seir_trajectory_conservation(m, prefix);
        lemma_seir_closed_conservation(m, states[states.len() - 2], states[states.len() - 1]);
    }
}

} // verus!
