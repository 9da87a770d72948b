use rand::Rng;
use warp_odds::estimator::{calculate_warp_probability, EstimationResult, InvalidParameter};
use warp_odds::samples::{SampleSource, ScriptedSamples, ThreadSamples, PPM};
use warp_odds::trial::{Rules, SimulationParameters};

fn scripted(script: Vec<u32>) -> ScriptedSamples {
    ScriptedSamples::new(script).expect("every entry is below PPM")
}

fn base() -> SimulationParameters {
    SimulationParameters {
        total_draws: 10,
        character_pity: 0,
        lightcone_pity: 0,
        character_guaranteed: false,
        lightcone_guaranteed: false,
        character_target: 1,
        lightcone_target: 1,
        num_trials: 5,
    }
}

/// Each trial: a guaranteed character at hard pity, then a lightcone at
/// hard pity decided by the third sample.
fn three_sample_trials(num_trials: u32) -> SimulationParameters {
    SimulationParameters {
        total_draws: 2,
        character_pity: 89,
        lightcone_pity: 79,
        character_guaranteed: true,
        lightcone_guaranteed: false,
        character_target: 1,
        lightcone_target: 1,
        num_trials,
    }
}

#[test]
fn character_pity_at_hard_pity_is_refused() {
    let rules = Rules::standard();
    let mut p = base();
    p.character_pity = 90;
    assert_eq!(rules.validate(&p), Err(InvalidParameter::CharacterPity));
    p.character_pity = 89;
    assert_eq!(rules.validate(&p), Ok(()));
}

#[test]
fn lightcone_pity_at_hard_pity_is_refused() {
    let rules = Rules::standard();
    let mut p = base();
    p.lightcone_pity = 80;
    assert_eq!(rules.validate(&p), Err(InvalidParameter::LightconePity));
    p.lightcone_pity = 79;
    assert_eq!(rules.validate(&p), Ok(()));
}

#[test]
fn zero_trials_are_refused() {
    let rules = Rules::standard();
    let mut p = base();
    p.num_trials = 0;
    assert_eq!(rules.validate(&p), Err(InvalidParameter::NoTrials));
}

#[test]
fn zero_warps_with_a_target_are_refused() {
    let rules = Rules::standard();
    let mut p = base();
    p.total_draws = 0;
    assert_eq!(rules.validate(&p), Err(InvalidParameter::NoDraws));
    p.character_target = 0;
    assert_eq!(rules.validate(&p), Err(InvalidParameter::NoDraws));
    p.lightcone_target = 0;
    assert_eq!(rules.validate(&p), Ok(()));
}

#[test]
fn first_violation_is_reported() {
    let rules = Rules::standard();
    let mut p = base();
    p.character_pity = 200;
    p.lightcone_pity = 200;
    p.num_trials = 0;
    p.total_draws = 0;
    assert_eq!(rules.validate(&p), Err(InvalidParameter::CharacterPity));
    p.character_pity = 0;
    assert_eq!(rules.validate(&p), Err(InvalidParameter::LightconePity));
    p.lightcone_pity = 0;
    assert_eq!(rules.validate(&p), Err(InvalidParameter::NoTrials));
    p.num_trials = 1;
    assert_eq!(rules.validate(&p), Err(InvalidParameter::NoDraws));
}

#[test]
fn refused_parameters_draw_no_sample() {
    let rules = Rules::standard();
    let mut p = base();
    p.character_pity = 90;
    let mut src = scripted(vec![0; 100]);
    assert_eq!(rules.estimate(&p, &mut src), Err(InvalidParameter::CharacterPity));
    assert_eq!(src.consumed(), 0);
}

#[test]
fn estimate_counts_scripted_successes() {
    let rules = Rules::standard();
    let p = three_sample_trials(3);
    let mut src = scripted(vec![0, 0, 0, 999_999, 999_999, 750_000, 5, 5, 749_999]);
    assert_eq!(
        rules.estimate(&p, &mut src),
        Ok(EstimationResult { successes: 2, trials: 3 })
    );
    assert_eq!(src.consumed(), 9);
}

#[test]
fn split_batches_add_up_to_the_whole() {
    let rules = Rules::standard();
    let p = three_sample_trials(3);
    let script = vec![0, 0, 0, 999_999, 999_999, 750_000, 5, 5, 749_999];

    let mut whole_src = scripted(script.clone());
    let whole = rules.count_successes(&p, 3, &mut whole_src);

    let mut split_src = scripted(script);
    let first = rules.count_successes(&p, 1, &mut split_src);
    assert_eq!(split_src.consumed(), 3);
    let second = rules.count_successes(&p, 2, &mut split_src);

    assert_eq!((first, second), (1, 1));
    assert_eq!(first + second, whole);
    assert_eq!(split_src.consumed(), whole_src.consumed());
    let merged = EstimationResult { successes: first, trials: 1 }
        .merge(&EstimationResult { successes: second, trials: 2 });
    assert_eq!(merged, Some(EstimationResult { successes: whole, trials: 3 }));
}

#[test]
fn merge_adds_counts_in_any_order() {
    let a = EstimationResult { successes: 3, trials: 10 };
    let b = EstimationResult { successes: 7, trials: 20 };
    let c = EstimationResult { successes: 0, trials: 5 };
    assert_eq!(a.merge(&b), Some(EstimationResult { successes: 10, trials: 30 }));
    assert_eq!(a.merge(&b), b.merge(&a));
    let left = a.merge(&b).and_then(|ab| ab.merge(&c));
    let right = b.merge(&c).and_then(|bc| a.merge(&bc));
    assert_eq!(left, right);
    assert_eq!(left, Some(EstimationResult { successes: 10, trials: 35 }));
}

#[test]
fn merge_refuses_counts_that_do_not_fit() {
    let a = EstimationResult { successes: 1, trials: u32::MAX };
    let b = EstimationResult { successes: 1, trials: 1 };
    assert_eq!(a.merge(&b), None);
    let c = EstimationResult { successes: 1, trials: u32::MAX - 1 };
    assert_eq!(
        c.merge(&b),
        Some(EstimationResult { successes: 2, trials: u32::MAX })
    );
}

#[test]
fn probability_in_parts_per_million() {
    assert_eq!(EstimationResult { successes: 0, trials: 7 }.per_million(), 0);
    assert_eq!(EstimationResult { successes: 7, trials: 7 }.per_million(), PPM);
    assert_eq!(EstimationResult { successes: 1, trials: 3 }.per_million(), 333_333);
    assert_eq!(EstimationResult { successes: 2, trials: 3 }.per_million(), 666_666);
    assert_eq!(EstimationResult { successes: 1, trials: 2_000_000 }.per_million(), 0);
    assert_eq!(
        EstimationResult { successes: u32::MAX, trials: u32::MAX }.per_million(),
        PPM
    );
}

#[test]
fn no_warps_and_a_target_never_succeed() {
    let rules = Rules::standard();
    let mut p = base();
    p.total_draws = 0;
    let mut src = ThreadSamples::new();
    assert_eq!(rules.count_successes(&p, 1_000, &mut src), 0);
    let mut scripted_src = scripted(vec![0; 4]);
    assert_eq!(rules.count_successes(&p, 1_000, &mut scripted_src), 0);
    assert_eq!(scripted_src.consumed(), 0);
    assert_eq!(
        calculate_warp_probability(0, 0, 0, false, false, 1, 1, 1_000),
        Err(InvalidParameter::NoDraws)
    );
}

#[test]
fn no_warps_and_no_target_always_succeed() {
    let out = calculate_warp_probability(0, 0, 0, false, false, 0, 0, 25);
    assert_eq!(out, Ok(EstimationResult { successes: 25, trials: 25 }));
}

#[test]
fn ample_budget_is_near_certain() {
    let out = calculate_warp_probability(1000, 0, 0, false, false, 1, 1, 2_000)
        .expect("parameters are valid");
    assert_eq!(out.trials, 2_000);
    let probability = out.successes as f64 / out.trials as f64;
    assert!(probability > 0.999);
    assert_eq!(out.per_million(), PPM);
}

#[test]
fn worst_case_budget_never_fails() {
    let out = calculate_warp_probability(340, 0, 0, false, false, 1, 1, 3_000)
        .expect("parameters are valid");
    assert_eq!(out, EstimationResult { successes: 3_000, trials: 3_000 });
    let out = calculate_warp_probability(170, 89, 79, true, true, 1, 2, 3_000)
        .expect("parameters are valid");
    assert_eq!(out, EstimationResult { successes: 3_000, trials: 3_000 });
}

#[test]
fn character_alone_never_succeeds() {
    let out = calculate_warp_probability(400, 0, 0, true, true, 1, 0, 500)
        .expect("parameters are valid");
    assert_eq!(out, EstimationResult { successes: 0, trials: 500 });
}

#[test]
fn tiny_budget_rarely_succeeds() {
    let out = calculate_warp_probability(2, 0, 0, false, false, 1, 1, 2_000)
        .expect("parameters are valid");
    assert_eq!(out.trials, 2_000);
    assert!(out.successes < 2_000);
    let probability = out.successes as f64 / out.trials as f64;
    assert!(probability < 0.05);
}

#[test]
fn estimate_is_a_fraction_of_the_trials() {
    let out = calculate_warp_probability(75, 0, 0, false, false, 1, 1, 3_000)
        .expect("parameters are valid");
    assert_eq!(out.trials, 3_000);
    assert!(out.successes <= out.trials);
    // One copy of each within 75 warps is neither hopeless nor certain.
    assert!(out.successes > 0);
    assert!(out.successes < out.trials);
    assert!(out.per_million() <= PPM);
}

#[test]
fn invalid_input_is_refused_before_any_work() {
    assert_eq!(
        calculate_warp_probability(10, 90, 0, false, false, 1, 1, 10),
        Err(InvalidParameter::CharacterPity)
    );
    assert_eq!(
        calculate_warp_probability(10, 0, 80, false, false, 1, 1, 10),
        Err(InvalidParameter::LightconePity)
    );
    assert_eq!(
        calculate_warp_probability(10, 0, 0, false, false, 1, 1, 0),
        Err(InvalidParameter::NoTrials)
    );
}

#[test]
fn thread_samples_are_legal_and_vary() {
    let mut src = ThreadSamples::new();
    let samples: Vec<u32> = (0..2_000).map(|_| src.next_sample()).collect();
    assert!(samples.iter().all(|&s| s < PPM));
    let min = samples.iter().min().unwrap();
    let max = samples.iter().max().unwrap();
    assert!(min < max);
    assert!(*min < PPM / 10);
    assert!(*max > PPM - PPM / 10);
}

#[test]
fn split_random_batches_agree_with_one_batch_within_noise() {
    let rules = Rules::standard();
    let mut p = base();
    p.total_draws = 120;
    let mut src = ThreadSamples::new();
    let first = rules.count_successes(&p, 2_000, &mut src);
    let second = rules.count_successes(&p, 2_000, &mut src);
    let whole = rules.count_successes(&p, 4_000, &mut src);
    let merged = EstimationResult { successes: first, trials: 2_000 }
        .merge(&EstimationResult { successes: second, trials: 2_000 })
        .expect("the counts fit");
    let split = merged.successes as f64 / merged.trials as f64;
    let single = whole as f64 / 4_000.0;
    assert!((split - single).abs() < 0.06);
}

/// The same simulation with floating-point chances and samples, as an
/// independent model to hold the fixed-point one against.
fn floating_point_model(
    warps: u32,
    character_target: u32,
    lightcone_target: u32,
    trials: u32,
) -> f64 {
    let mut rng = rand::thread_rng();
    let mut successes = 0u32;
    for _ in 0..trials {
        let (mut character_pity, mut lightcone_pity) = (0u32, 0u32);
        let (mut character_guaranteed, mut lightcone_guaranteed) = (false, false);
        let (mut characters, mut lightcones) = (0u32, 0u32);
        for _ in 0..warps {
            let roll: f64 = rng.gen();
            if lightcone_target > 0 && characters < character_target {
                let chance = 0.006 + 0.06 * f64::max(character_pity as f64 - 74.0, 0.0);
                if roll < chance || character_pity + 1 == 90 {
                    character_pity = 0;
                    if character_guaranteed || rng.gen::<f64>() < 0.5 {
                        characters += 1;
                        character_guaranteed = false;
                    } else {
                        character_guaranteed = true;
                    }
                } else {
                    character_pity += 1;
                }
            } else {
                let chance = 0.008 + 0.06 * f64::max(lightcone_pity as f64 - 64.0, 0.0);
                if roll < chance || lightcone_pity + 1 == 80 {
                    lightcone_pity = 0;
                    if lightcone_guaranteed || rng.gen::<f64>() < 0.75 {
                        lightcones += 1;
                        lightcone_guaranteed = false;
                    } else {
                        lightcone_guaranteed = true;
                    }
                } else {
                    lightcone_pity += 1;
                }
            }
        }
        if characters >= character_target && lightcones >= lightcone_target {
            successes += 1;
        }
    }
    successes as f64 / trials as f64
}

#[test]
fn fixed_point_estimate_agrees_with_floating_point_model() {
    for (warps, character_target, lightcone_target) in [(150, 1, 1), (90, 0, 1), (300, 2, 1)] {
        let trials = 10_000;
        let out = calculate_warp_probability(
            warps,
            0,
            0,
            false,
            false,
            character_target,
            lightcone_target,
            trials,
        )
        .expect("parameters are valid");
        let fixed = out.successes as f64 / out.trials as f64;
        let floating = floating_point_model(warps, character_target, lightcone_target, trials);
        assert!(
            (fixed - floating).abs() < 0.04,
            "{} warps: {} against {}",
            warps,
            fixed,
            floating
        );
    }
}
