use gillespie::algorithms::{direct, first_reaction_step, UniformSource};
use gillespie::models::sir::{Sir, SirPopulation};
use gillespie::models::{Model, ModelEvent};
use rand::rngs::StdRng;
use rand::{Rng, SeedableRng};

/// Runs the first-reaction method once: per-event exponential candidate
/// draws, earliest candidate fires.
fn run_first_reaction(model: Sir, initial: SirPopulation, rng: &mut StdRng) -> SirPopulation {
    let mut state = initial;
    for _ in 0..10_000 {
        let events = model.events(&state);
        let mut candidates = Vec::new();
        for event in &events {
            let w = event.rate();
            if w == 0 {
                candidates.push(None);
            } else {
                let u: f64 = rng.gen::<f64>().max(f64::MIN_POSITIVE);
                let t = -u.ln() / (w as f64);
                let ticks = (t * 4_294_967_296.0).min(u64::MAX as f64) as u64;
                candidates.push(Some(ticks));
            }
        }
        match first_reaction_step(&model, &state, &candidates) {
            None => break,
            Some(next) => state = next,
        }
    }
    state
}

/// Aggregated over many independent runs, the direct method and the
/// first-reaction method sample the same process: the distributions of the
/// final state agree.  Compared here through the mean and the coarse
/// histogram of the final recovered count, under fixed seeds.
#[test]
fn final_state_distributions_agree() {
    // beta = 1.5, gamma = 1.0: outbreaks die out or burn through.
    let model = Sir::new(15, 10, 0, 10);
    let initial = SirPopulation { susceptible: 30, infected: 3, recovered: 0 };
    let runs: u64 = 2000;

    let mut direct_sum: u64 = 0;
    let mut direct_small: u64 = 0;
    for seed in 0..runs {
        let mut source = UniformSource::from_seed(seed);
        let states = direct(model, initial, 10_000, &mut source);
        let last = states[states.len() - 1];
        assert_eq!(last.infected, 0);
        direct_sum += last.recovered;
        if last.recovered <= 5 {
            direct_small += 1;
        }
    }

    let mut fr_sum: u64 = 0;
    let mut fr_small: u64 = 0;
    for seed in 0..runs {
        let mut rng = StdRng::seed_from_u64(seed.wrapping_add(777_777));
        let last = run_first_reaction(model, initial, &mut rng);
        assert_eq!(last.infected, 0);
        fr_sum += last.recovered;
        if last.recovered <= 5 {
            fr_small += 1;
        }
    }

    let direct_mean = direct_sum as f64 / runs as f64;
    let fr_mean = fr_sum as f64 / runs as f64;
    assert!(
        (direct_mean - fr_mean).abs() < 1.5,
        "means diverged: {direct_mean} vs {fr_mean}"
    );

    let direct_small_frac = direct_small as f64 / runs as f64;
    let fr_small_frac = fr_small as f64 / runs as f64;
    assert!(
        (direct_small_frac - fr_small_frac).abs() < 0.06,
        "die-out fractions diverged: {direct_small_frac} vs {fr_small_frac}"
    );
}
