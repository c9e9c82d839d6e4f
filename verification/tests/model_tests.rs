use gillespie::models::seir::{Seir, SeirCompartment, SeirEvent, SeirPopulation};
use gillespie::models::sir::{Sir, SirCompartment, SirEvent, SirPopulation};
use gillespie::models::{Model, ModelEvent, Population};

#[test]
fn sir_initial_population() {
    let population = SirPopulation::from([1000, 1, 0]);
    let model = Sir::new(10, 1, 0, 10);
    assert!(population.n() == 1001);
    assert_eq!(model.beta, 10);
    assert_eq!(model.gamma, 1);
    assert_eq!(model.scale, 10);
}

#[test]
fn sir_event_weights() {
    // beta = 10/10 = 1.0, gamma = 1/10 = 0.1, no birth/death.
    let model = Sir::new(10, 1, 0, 10);
    let state = SirPopulation { susceptible: 10, infected: 1, recovered: 0 };
    let events = model.events(&state);
    assert_eq!(events.len(), 6);
    // Weights are rates times the common denominator scale * n = 110:
    // transmission rate 10/11 -> weight 100, recovery rate 0.1 -> weight 11.
    assert_eq!(events[0].rate(), 100);
    assert!(matches!(events[0], SirEvent::Transmission(100)));
    assert_eq!(events[1].rate(), 11);
    assert!(matches!(events[1], SirEvent::Recovery(11)));
    for event in events.iter().skip(2) {
        assert_eq!(event.rate(), 0);
    }
}

#[test]
fn sir_zero_population_has_zero_rates() {
    let model = Sir::new(10, 1, 5, 10);
    let state = SirPopulation { susceptible: 0, infected: 0, recovered: 0 };
    for event in model.events(&state) {
        assert_eq!(event.rate(), 0);
    }
}

#[test]
fn sir_birth_death_weights() {
    // mu = 2/10: birth weight mu * n * n, death weights mu * count * n.
    let model = Sir::new(10, 1, 2, 10);
    let state = SirPopulation { susceptible: 3, infected: 2, recovered: 1 };
    let events = model.events(&state);
    assert!(matches!(events[2], SirEvent::Birth(72)));
    assert!(matches!(
        events[3],
        SirEvent::NaturalDeath(SirCompartment::Susceptible, 36)
    ));
    assert!(matches!(
        events[4],
        SirEvent::NaturalDeath(SirCompartment::Infected, 24)
    ));
    assert!(matches!(
        events[5],
        SirEvent::NaturalDeath(SirCompartment::Recovered, 12)
    ));
}

#[test]
fn sir_update_moves_one_individual() {
    let model = Sir::new(10, 1, 0, 10);
    let state = SirPopulation { susceptible: 10, infected: 1, recovered: 0 };
    let events = model.events(&state);
    let after_transmission = model.update(&state, &events[0]);
    assert_eq!(
        after_transmission,
        SirPopulation { susceptible: 9, infected: 2, recovered: 0 }
    );
    let after_recovery = model.update(&state, &events[1]);
    assert_eq!(
        after_recovery,
        SirPopulation { susceptible: 10, infected: 0, recovered: 1 }
    );
}

#[test]
fn sir_population_from_array() {
    let population = SirPopulation::from([7, 8, 9]);
    assert_eq!(population.susceptible, 7);
    assert_eq!(population.infected, 8);
    assert_eq!(population.recovered, 9);
    assert_eq!(population.n(), 24);
}

#[test]
fn seir_initial_population() {
    let population = SeirPopulation::from([100, 5, 2, 1]);
    assert_eq!(population.susceptible, 100);
    assert_eq!(population.exposed, 5);
    assert_eq!(population.infected, 2);
    assert_eq!(population.recovered, 1);
    assert_eq!(population.n(), 108);
}

#[test]
fn seir_event_weights() {
    // beta = 1.0, sigma = 0.5, gamma = 0.1, no birth/death, scale 10.
    let model = Seir::new(10, 5, 1, 0, 10);
    let state = SeirPopulation { susceptible: 6, exposed: 2, infected: 1, recovered: 1 };
    let events = model.events(&state);
    assert_eq!(events.len(), 8);
    // n = 10; weights over scale * n = 100.
    assert!(matches!(events[0], SeirEvent::Transmission(60)));
    assert!(matches!(events[1], SeirEvent::Infectious(100)));
    assert!(matches!(events[2], SeirEvent::Recovery(10)));
    for event in events.iter().skip(3) {
        assert_eq!(event.rate(), 0);
    }
}

#[test]
fn seir_update_moves_one_individual() {
    let model = Seir::new(10, 5, 1, 0, 10);
    let state = SeirPopulation { susceptible: 6, exposed: 2, infected: 1, recovered: 1 };
    let events = model.events(&state);
    assert_eq!(
        model.update(&state, &events[0]),
        SeirPopulation { susceptible: 5, exposed: 3, infected: 1, recovered: 1 }
    );
    assert_eq!(
        model.update(&state, &events[1]),
        SeirPopulation { susceptible: 6, exposed: 1, infected: 2, recovered: 1 }
    );
    assert_eq!(
        model.update(&state, &events[2]),
        SeirPopulation { susceptible: 6, exposed: 2, infected: 0, recovered: 2 }
    );
}

#[test]
fn seir_death_events_decrement() {
    let model = Seir::new(10, 5, 1, 2, 10);
    let state = SeirPopulation { susceptible: 3, exposed: 2, infected: 2, recovered: 1 };
    let events = model.events(&state);
    assert!(matches!(
        events[5],
        SeirEvent::NaturalDeath(SeirCompartment::Exposed, _)
    ));
    let after = model.update(&state, &events[5]);
    assert_eq!(
        after,
        SeirPopulation { susceptible: 3, exposed: 1, infected: 2, recovered: 1 }
    );
}
