use gillespie::algorithms::util::{total_weight, UniformSource};
use gillespie::algorithms::direct;
use gillespie::models::sir::{Sir, SirPopulation};
use gillespie::models::seir::{Seir, SeirPopulation};
use gillespie::models::{Model, ModelEvent, Population};
use rand::rngs::StdRng;
use rand::{Rng, SeedableRng};

#[test]
fn sir_single_step_moves_one_individual() {
    // beta = 1.0, gamma = 0.1, closed population, one iteration.
    let model = Sir::new(10, 1, 0, 10);
    let initial = SirPopulation { susceptible: 999, infected: 1, recovered: 0 };
    for seed in 0..20 {
        let mut source = UniformSource::from_seed(seed);
        let states = direct(model, initial, 1, &mut source);
        assert_eq!(states.len(), 2);
        assert_eq!(states[0], initial);
        let after = states[1];
        let transmission = SirPopulation { susceptible: 998, infected: 2, recovered: 0 };
        let recovery = SirPopulation { susceptible: 999, infected: 0, recovered: 1 };
        assert!(after == transmission || after == recovery);

        // Elapsed time is a reporting side channel the trajectory does not
        // depend on: one exponential draw from the step's total rate, as
        // the reporting layer makes it, is always positive.
        let total: u128 = model.events(&states[0]).iter().map(|e| e.rate()).sum();
        let rate = total as f64 / (model.scale as f64 * states[0].n() as f64);
        let mut rng = StdRng::seed_from_u64(seed);
        let u: f64 = rng.gen::<f64>().max(f64::MIN_POSITIVE);
        let elapsed = -u.ln() / rate;
        assert!(elapsed > 0.0);
    }
}

#[test]
fn sir_absorbed_immediately_without_infected() {
    // With nobody infected and no birth/death the initial state is
    // absorbing: only the initial state comes back, whatever the cap.
    let model = Sir::new(10, 1, 0, 10);
    let initial = SirPopulation { susceptible: 500, infected: 0, recovered: 7 };
    let mut source = UniformSource::from_entropy();
    let states = direct(model, initial, 1000, &mut source);
    assert_eq!(states.len(), 1);
    assert_eq!(states[0], initial);
}

#[test]
fn sir_run_conserves_population_when_closed() {
    let model = Sir::new(15, 3, 0, 10);
    let initial = SirPopulation { susceptible: 95, infected: 5, recovered: 0 };
    let mut source = UniformSource::from_seed(42);
    let states = direct(model, initial, 500, &mut source);
    assert!(states.len() <= 501);
    for state in &states {
        assert_eq!(state.n(), 100);
    }
    // The run either used up the cap or ended absorbed (nobody infected).
    let last = states[states.len() - 1];
    assert!(states.len() == 501 || last.infected == 0);
}

#[test]
fn sir_birth_death_changes_population_by_at_most_one() {
    let model = Sir::new(15, 3, 1, 10);
    let initial = SirPopulation { susceptible: 50, infected: 5, recovered: 0 };
    let mut source = UniformSource::from_seed(7);
    let states = direct(model, initial, 400, &mut source);
    for pair in states.windows(2) {
        let before = pair[0].n() as i64;
        let after = pair[1].n() as i64;
        assert!((after - before).abs() <= 1);
    }
}

#[test]
fn sir_total_weight_matches_event_sum() {
    let model = Sir::new(12, 4, 2, 10);
    let state = SirPopulation { susceptible: 17, infected: 3, recovered: 2 };
    let events = model.events(&state);
    let manual: u128 = events.iter().map(|e| e.rate()).sum();
    assert_eq!(total_weight(&events), manual);
}

#[test]
fn largest_supported_population() {
    // Weight products reach their extreme values without overflow.
    let model = Sir::new(gillespie::models::PARAM_MAX, 1, 0, 1_000_000);
    let susceptible = gillespie::models::POP_MAX - 11;
    let initial = SirPopulation { susceptible, infected: 1, recovered: 0 };
    let events = model.events(&initial);
    let n = susceptible as u128 + 1;
    assert_eq!(
        events[0].rate(),
        gillespie::models::PARAM_MAX as u128 * susceptible as u128
    );
    assert_eq!(events[1].rate(), n);
    assert_eq!(total_weight(&events), events[0].rate() + events[1].rate());

    let mut source = UniformSource::from_seed(1);
    let states = direct(model, initial, 10, &mut source);
    assert!(states.len() <= 11);
    for state in &states {
        assert_eq!(state.n(), susceptible + 1);
    }
}

#[test]
fn seir_run_terminates_and_conserves() {
    let model = Seir::new(12, 6, 2, 0, 10);
    let initial = SeirPopulation { susceptible: 80, exposed: 10, infected: 10, recovered: 0 };
    let mut source = UniformSource::from_seed(3);
    let states = direct(model, initial, 2000, &mut source);
    for state in &states {
        assert_eq!(state.n(), 100);
    }
    let last = states[states.len() - 1];
    // 2000 iterations outlast any closed run of 100 individuals, so the
    // run ends absorbed: nobody left exposed or infected.
    assert!(states.len() < 2001);
    assert_eq!(last.exposed, 0);
    assert_eq!(last.infected, 0);
}
