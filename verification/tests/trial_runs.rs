use warp_odds::pity::{Draw, DrawEvent, TrackConfig, TrackState};
use warp_odds::samples::ScriptedSamples;
use warp_odds::trial::{Rules, SimulationParameters, Track, TrialState};

fn scripted(script: Vec<u32>) -> ScriptedSamples {
    ScriptedSamples::new(script).expect("every entry is below PPM")
}

fn params(total_draws: u32, character_target: u32, lightcone_target: u32) -> SimulationParameters {
    SimulationParameters {
        total_draws,
        character_pity: 0,
        lightcone_pity: 0,
        character_guaranteed: false,
        lightcone_guaranteed: false,
        character_target,
        lightcone_target,
        num_trials: 1,
    }
}

#[test]
fn trial_starts_from_the_parameters() {
    let p = SimulationParameters {
        total_draws: 12,
        character_pity: 5,
        lightcone_pity: 6,
        character_guaranteed: true,
        lightcone_guaranteed: false,
        character_target: 2,
        lightcone_target: 3,
        num_trials: 9,
    };
    assert_eq!(
        p.start(),
        TrialState {
            draws_left: 12,
            character: TrackState { pity: 5, guaranteed: true },
            lightcone: TrackState { pity: 6, guaranteed: false },
            character_copies: 0,
            lightcone_copies: 0,
        }
    );
}

#[test]
fn warps_go_to_the_character_until_its_target_is_met() {
    let p = params(10, 2, 1);
    let mut st = p.start();
    assert_eq!(p.next_track(&st), Track::Character);
    st.character_copies = 1;
    assert_eq!(p.next_track(&st), Track::Character);
    st.character_copies = 2;
    assert_eq!(p.next_track(&st), Track::Lightcone);
    st.character_copies = 3;
    assert_eq!(p.next_track(&st), Track::Lightcone);
}

#[test]
fn warps_go_to_the_lightcone_when_no_character_is_wanted() {
    let p = params(10, 0, 1);
    assert_eq!(p.next_track(&p.start()), Track::Lightcone);
}

#[test]
fn warps_go_to_the_lightcone_when_no_lightcone_is_wanted() {
    let p = params(10, 1, 0);
    assert_eq!(p.next_track(&p.start()), Track::Lightcone);
}

#[test]
fn targets_are_met_at_or_above_both_counts() {
    let p = params(10, 2, 1);
    let mut st = p.start();
    assert!(!p.targets_met(&st));
    st.character_copies = 2;
    assert!(!p.targets_met(&st));
    st.lightcone_copies = 1;
    assert!(p.targets_met(&st));
    st.lightcone_copies = 4;
    st.character_copies = 5;
    assert!(p.targets_met(&st));
    assert!(params(0, 0, 0).targets_met(&params(0, 0, 0).start()));
}

#[test]
fn record_books_a_featured_item_on_its_track_only() {
    let st = params(3, 1, 1).start();
    let hit = Draw { next: TrackState { pity: 0, guaranteed: false }, event: DrawEvent::Featured };
    let after = st.record(Track::Character, hit);
    assert_eq!(after.draws_left, 2);
    assert_eq!(after.character_copies, 1);
    assert_eq!(after.lightcone_copies, 0);
    let after = after.record(Track::Lightcone, hit);
    assert_eq!(after.draws_left, 1);
    assert_eq!(after.character_copies, 1);
    assert_eq!(after.lightcone_copies, 1);
    let lost =
        Draw { next: TrackState { pity: 0, guaranteed: true }, event: DrawEvent::NonFeatured };
    let after = after.record(Track::Lightcone, lost);
    assert_eq!(after.draws_left, 0);
    assert_eq!((after.character_copies, after.lightcone_copies), (1, 1));
    assert_eq!(after.lightcone, TrackState { pity: 0, guaranteed: true });
    assert_eq!(after.character, TrackState { pity: 0, guaranteed: false });
}

#[test]
fn scripted_trial_ends_in_the_expected_state() {
    let rules = Rules::standard();
    let p = SimulationParameters {
        total_draws: 5,
        character_pity: 88,
        lightcone_pity: 78,
        character_guaranteed: false,
        lightcone_guaranteed: false,
        character_target: 1,
        lightcone_target: 1,
        num_trials: 1,
    };
    let mut src = scripted(vec![900_000, 950_000, 499_999, 848_000, 999_999, 750_000, 7_999]);
    let end = rules.run_trial(&p, &mut src);
    assert_eq!(
        end,
        TrialState {
            draws_left: 0,
            character: TrackState { pity: 0, guaranteed: false },
            lightcone: TrackState { pity: 0, guaranteed: false },
            character_copies: 1,
            lightcone_copies: 1,
        }
    );
    assert!(p.targets_met(&end));
    assert_eq!(src.consumed(), 7);
}

#[test]
fn scripted_trial_state_by_state() {
    let rules = Rules::standard();
    let p = SimulationParameters {
        total_draws: 5,
        character_pity: 88,
        lightcone_pity: 78,
        character_guaranteed: false,
        lightcone_guaranteed: false,
        character_target: 1,
        lightcone_target: 1,
        num_trials: 1,
    };
    let mut src = scripted(vec![900_000, 950_000, 499_999, 848_000, 999_999, 750_000, 7_999]);
    let mut st = p.start();
    let mut seen = Vec::new();
    while st.draws_left > 0 {
        st = rules.warp(&p, st, &mut src);
        seen.push((
            st.draws_left,
            st.character.pity,
            st.character_copies,
            st.lightcone.pity,
            st.lightcone.guaranteed,
            st.lightcone_copies,
        ));
    }
    assert_eq!(
        seen,
        vec![
            (4, 89, 0, 78, false, 0),
            (3, 0, 1, 78, false, 0),
            (2, 0, 1, 79, false, 0),
            (1, 0, 1, 0, true, 0),
            (0, 0, 1, 0, false, 1),
        ]
    );
}

#[test]
fn trial_spends_every_warp_after_targets_are_met() {
    let rules = Rules::standard();
    let p = SimulationParameters {
        total_draws: 4,
        character_pity: 89,
        lightcone_pity: 79,
        character_guaranteed: true,
        lightcone_guaranteed: true,
        character_target: 1,
        lightcone_target: 1,
        num_trials: 1,
    };
    let mut src = scripted(vec![999_999; 8]);
    let end = rules.run_trial(&p, &mut src);
    assert_eq!(end.draws_left, 0);
    assert_eq!(src.consumed(), 4);
    assert_eq!(end.character_copies, 1);
    assert_eq!(end.lightcone_copies, 1);
    assert_eq!(end.lightcone.pity, 2);
    assert!(p.targets_met(&end));
}

#[test]
fn trial_consumes_one_or_two_samples_per_warp() {
    let rules = Rules::standard();
    for total in [0u32, 1, 7, 40] {
        let mut p = params(total, 3, 2);
        p.character_pity = 80;
        let mut src = scripted(vec![0; 2 * total as usize]);
        let end = rules.run_trial(&p, &mut src);
        assert_eq!(end.draws_left, 0);
        assert!(src.consumed() >= total as usize);
        assert!(src.consumed() <= 2 * total as usize);
        assert!(end.character_copies + end.lightcone_copies <= total);
    }
}

#[test]
fn trial_without_warps_reads_nothing() {
    let rules = Rules::standard();
    let p = params(0, 1, 0);
    let mut src = scripted(vec![0, 0]);
    let end = rules.run_trial(&p, &mut src);
    assert_eq!(end, p.start());
    assert_eq!(src.consumed(), 0);
    assert!(!p.targets_met(&end));
}

#[test]
fn character_is_never_gained_when_no_lightcone_is_wanted() {
    let rules = Rules::standard();
    let p = params(50, 1, 0);
    let mut src = scripted(vec![0; 100]);
    let end = rules.run_trial(&p, &mut src);
    assert_eq!(end.character_copies, 0);
    assert_eq!(end.character, TrackState { pity: 0, guaranteed: false });
    assert_eq!(end.lightcone_copies, 50);
    assert!(!p.targets_met(&end));
}

#[test]
fn alternate_rules_are_honoured() {
    let mut rules = Rules::standard();
    rules.character.hard_pity = 3;
    rules.character.base_chance = 0;
    rules.character.featured_chance = 0;
    let p = params(6, 5, 1);
    let mut src = scripted(vec![999_999; 12]);
    let end = rules.run_trial(&p, &mut src);
    // Hard pity every third warp; the first five-star is lost, the second guaranteed.
    assert_eq!(end.character_copies, 1);
    assert_eq!(end.character, TrackState { pity: 0, guaranteed: false });
    assert_eq!(src.consumed(), 7);
}

#[test]
fn standard_rules_are_the_published_tracks() {
    let rules = Rules::standard();
    assert_eq!(rules.character, TrackConfig::character());
    assert_eq!(rules.lightcone, TrackConfig::lightcone());
}

#[test]
fn worst_luck_takes_two_hard_pities_per_copy() {
    let rules = Rules::standard();
    let p = params(340, 1, 1);
    let mut src = scripted(vec![999_999; 342]);
    let end = rules.run_trial(&p, &mut src);
    assert!(p.targets_met(&end));
    assert_eq!((end.character_copies, end.lightcone_copies), (1, 1));
    assert_eq!(end.lightcone, TrackState { pity: 0, guaranteed: false });
    assert_eq!(src.consumed(), 342);
}

#[test]
fn worst_luck_fails_one_warp_short() {
    let rules = Rules::standard();
    let p = params(339, 1, 1);
    let mut src = scripted(vec![999_999; 342]);
    let end = rules.run_trial(&p, &mut src);
    assert!(!p.targets_met(&end));
    assert_eq!((end.character_copies, end.lightcone_copies), (1, 0));
    assert_eq!(end.lightcone, TrackState { pity: 79, guaranteed: true });
    assert_eq!(src.consumed(), 341);
}

#[test]
fn best_luck_takes_one_warp_per_copy() {
    let rules = Rules::standard();
    let p = params(5, 3, 2);
    let mut src = scripted(vec![0; 10]);
    let end = rules.run_trial(&p, &mut src);
    assert!(p.targets_met(&end));
    assert_eq!((end.character_copies, end.lightcone_copies), (3, 2));
    assert_eq!(src.consumed(), 10);
}
