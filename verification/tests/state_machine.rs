use fishing_bot::{Outcome, Phase, Policy, SampleResult, Target, TickInput, WindowHandle};

fn fresh(id: u32, since: u64) -> Target {
    Target::new(id, WindowHandle(0x5010), String::from("World of Warcraft"), since)
}

fn cast_at(id: u32, at: u64) -> Target {
    let mut target = fresh(id, 0);
    let outcome = target.tick(at, SampleResult::Inactive, 0, &Policy::default());
    assert_eq!(outcome, Outcome::Cast);
    target
}

#[test]
fn new_target_owes_a_cast() {
    let target = fresh(7, 1_000);
    assert_eq!(target.id, 7);
    assert_eq!(target.window, WindowHandle(0x5010));
    assert_eq!(target.display_name, "World of Warcraft");
    assert_eq!(target.last_cast_at, 1_000);
    assert_eq!(target.last_reel_at, 1_000);
    assert_eq!(target.reaction_ready_at, None);
    assert!(!target.paused);
    assert!(target.recast_pending);
}

#[test]
fn first_tick_after_settling_casts() {
    let policy = Policy::default();
    let mut target = fresh(7, 1_000);
    assert_eq!(target.phase(1_999, &policy), Phase::Settling);
    assert_eq!(target.tick(1_999, SampleResult::Active(1_000_000), 0, &policy), Outcome::Idle);
    assert_eq!(target.last_cast_at, 1_000);
    assert_eq!(target.phase(2_000, &policy), Phase::Idle);
    assert_eq!(target.tick(2_000, SampleResult::Inactive, 0, &policy), Outcome::Cast);
    assert_eq!(target.last_cast_at, 2_000);
    assert_eq!(target.last_reel_at, 1_000);
    assert!(!target.recast_pending);
}

#[test]
fn paused_target_does_nothing() {
    let policy = Policy::default();
    let mut target = fresh(7, 0);
    target.reaction_ready_at = Some(10);
    target.paused = true;
    let times: [u64; 6] = [0, 10, 999, 5_000, 31_000, 4_000_000_000];
    for now in times {
        assert_eq!(target.phase(now, &policy), Phase::Paused);
        assert_eq!(target.tick(now, SampleResult::Active(1_000_000), 300, &policy), Outcome::Idle);
        assert_eq!(target.tick(now, SampleResult::Inactive, 300, &policy), Outcome::Idle);
        assert_eq!(target.last_cast_at, 0);
        assert_eq!(target.last_reel_at, 0);
        assert_eq!(target.reaction_ready_at, Some(10));
        assert!(target.paused);
    }
}

#[test]
fn pause_drops_pending_reaction_and_resume_forces_cast() {
    let policy = Policy::default();
    let mut target = cast_at(7, 10_000);
    assert_eq!(
        target.tick(16_000, SampleResult::Active(50_000), 300, &policy),
        Outcome::Detected { ready_at: 16_300 }
    );
    target.pause();
    assert!(target.paused);
    assert_eq!(target.reaction_ready_at, None);
    assert_eq!(target.tick(20_000, SampleResult::Active(50_000), 300, &policy), Outcome::Idle);
    target.resume();
    assert!(!target.paused);
    assert!(target.recast_pending);
    assert_eq!(target.reaction_ready_at, None);
    assert_eq!(target.tick(20_050, SampleResult::Active(50_000), 300, &policy), Outcome::Cast);
    assert_eq!(target.last_cast_at, 20_050);
    assert!(!target.recast_pending);
}

#[test]
fn resume_waits_out_the_cooldown_then_casts() {
    let policy = Policy::default();
    let mut target = cast_at(7, 10_000);
    target.tick(16_000, SampleResult::Active(50_000), 300, &policy);
    assert_eq!(
        target.tick(16_300, SampleResult::Inactive, 0, &policy),
        Outcome::React { duration: 6_300 }
    );
    target.pause();
    target.resume();
    assert_eq!(target.tick(17_299, SampleResult::Inactive, 0, &policy), Outcome::Idle);
    assert_eq!(target.tick(17_300, SampleResult::Inactive, 0, &policy), Outcome::Cast);
}

#[test]
fn resume_of_a_running_target_changes_nothing() {
    let policy = Policy::default();
    let mut target = cast_at(7, 10_000);
    target.resume();
    assert!(!target.recast_pending);
    assert_eq!(target.tick(12_000, SampleResult::Inactive, 0, &policy), Outcome::Idle);
}

#[test]
fn suppression_window_ignores_full_scale_sample() {
    let policy = Policy::default();
    let mut target = cast_at(7, 100_000);
    let mut now: u64 = 100_000;
    while now < 105_000 {
        assert_eq!(target.phase(now, &policy), Phase::Suppressed);
        assert_eq!(target.tick(now, SampleResult::Active(1_000_000), 300, &policy), Outcome::Idle);
        assert_eq!(target.last_cast_at, 100_000);
        assert_eq!(target.reaction_ready_at, None);
        now += 50;
    }
    assert_eq!(target.phase(105_000, &policy), Phase::Sampling);
    assert_eq!(
        target.tick(105_000, SampleResult::Active(1_000_000), 300, &policy),
        Outcome::Detected { ready_at: 105_300 }
    );
}

#[test]
fn cast_thirty_one_seconds_old_is_reset() {
    let policy = Policy::default();
    let mut target = cast_at(7, 100_000);
    assert_eq!(target.phase(131_000, &policy), Phase::TimedOut);
    assert_eq!(target.tick(131_000, SampleResult::Active(1_000_000), 300, &policy), Outcome::Reset);
    assert_eq!(target.last_cast_at, 131_000);
    assert_eq!(target.reaction_ready_at, None);
}

#[test]
fn cast_exactly_thirty_seconds_old_still_listens() {
    let policy = Policy::default();
    let mut target = cast_at(7, 100_000);
    assert_eq!(target.phase(130_000, &policy), Phase::Sampling);
    assert_eq!(target.tick(130_000, SampleResult::Inactive, 300, &policy), Outcome::Idle);
    assert_eq!(target.tick(130_001, SampleResult::Inactive, 300, &policy), Outcome::Reset);
}

#[test]
fn reaction_waits_for_its_deadline_and_preempts_reset() {
    let policy = Policy::default();
    let mut target = cast_at(7, 100_000);
    assert_eq!(
        target.tick(129_900, SampleResult::Active(40_000), 300, &policy),
        Outcome::Detected { ready_at: 130_200 }
    );
    assert_eq!(target.reaction_ready_at, Some(130_200));
    assert_eq!(target.phase(130_150, &policy), Phase::ReactionPending);
    assert_eq!(target.tick(130_150, SampleResult::Active(1_000_000), 300, &policy), Outcome::Idle);
    assert_eq!(target.tick(130_199, SampleResult::Inactive, 300, &policy), Outcome::Idle);
    assert_eq!(target.phase(130_200, &policy), Phase::Reacting);
    assert_eq!(
        target.tick(130_200, SampleResult::Inactive, 300, &policy),
        Outcome::React { duration: 30_200 }
    );
    assert_eq!(target.last_reel_at, 130_200);
    assert_eq!(target.last_cast_at, 100_000);
    assert_eq!(target.reaction_ready_at, None);
}

#[test]
fn late_tick_still_reacts() {
    let policy = Policy::default();
    let mut target = cast_at(7, 100_000);
    target.tick(106_000, SampleResult::Active(40_000), 300, &policy);
    assert_eq!(
        target.tick(200_000, SampleResult::Inactive, 300, &policy),
        Outcome::React { duration: 100_000 }
    );
}

#[test]
fn react_is_followed_by_cooldown_then_cast() {
    let policy = Policy::default();
    let mut target = cast_at(7, 100_000);
    target.tick(106_000, SampleResult::Active(40_000), 100, &policy);
    assert_eq!(
        target.tick(106_100, SampleResult::Inactive, 0, &policy),
        Outcome::React { duration: 6_100 }
    );
    assert_eq!(target.phase(107_099, &policy), Phase::Settling);
    assert_eq!(target.tick(107_099, SampleResult::Active(1_000_000), 0, &policy), Outcome::Idle);
    assert_eq!(target.phase(107_100, &policy), Phase::Idle);
    assert_eq!(target.tick(107_100, SampleResult::Inactive, 0, &policy), Outcome::Cast);
    assert_eq!(target.last_cast_at, 107_100);
}

#[test]
fn sample_at_threshold_is_no_event() {
    let policy = Policy::default();
    let mut target = cast_at(7, 100_000);
    assert_eq!(target.tick(106_000, SampleResult::Active(35_000), 300, &policy), Outcome::Idle);
    assert_eq!(target.tick(106_000, SampleResult::Active(10_000), 300, &policy), Outcome::Idle);
    assert_eq!(target.tick(106_000, SampleResult::Inactive, 300, &policy), Outcome::Idle);
    assert_eq!(target.reaction_ready_at, None);
    assert_eq!(
        target.tick(106_000, SampleResult::Active(35_001), 300, &policy),
        Outcome::Detected { ready_at: 106_300 }
    );
}

#[test]
fn clock_behind_timestamps_counts_as_no_time_passed() {
    let policy = Policy::default();
    let mut target = cast_at(7, 100_000);
    assert_eq!(target.phase(50_000, &policy), Phase::Suppressed);
    assert_eq!(target.tick(50_000, SampleResult::Active(1_000_000), 300, &policy), Outcome::Idle);
    target.reaction_ready_at = Some(40_000);
    assert_eq!(
        target.tick(50_000, SampleResult::Inactive, 300, &policy),
        Outcome::React { duration: 0 }
    );
}

#[test]
fn deadline_stops_at_the_end_of_time() {
    let policy = Policy::default();
    let mut target = cast_at(7, 100_000);
    assert_eq!(
        target.tick(u64::MAX - 10, SampleResult::Active(40_000), 300, &policy),
        Outcome::Reset
    );
    let mut other = cast_at(8, u64::MAX - 6_000);
    assert_eq!(
        other.tick(u64::MAX - 10, SampleResult::Active(40_000), 300, &policy),
        Outcome::Detected { ready_at: u64::MAX }
    );
    assert_eq!(other.tick(u64::MAX - 1, SampleResult::Inactive, 0, &policy), Outcome::Idle);
    assert_eq!(
        other.tick(u64::MAX, SampleResult::Inactive, 0, &policy),
        Outcome::React { duration: 6_000 }
    );
}

#[test]
fn outcomes_that_need_a_key_press() {
    assert!(Outcome::Cast.needs_injection());
    assert!(Outcome::Reset.needs_injection());
    assert!(Outcome::React { duration: 1 }.needs_injection());
    assert!(!Outcome::Idle.needs_injection());
    assert!(!Outcome::Detected { ready_at: 1 }.needs_injection());
}

#[test]
fn sample_event_test() {
    assert!(SampleResult::Active(36_000).is_event(35_000));
    assert!(!SampleResult::Active(35_000).is_event(35_000));
    assert!(!SampleResult::Inactive.is_event(0));
    assert!(SampleResult::Active(1).is_event(0));
}

#[test]
fn snapshot_copies_every_field() {
    let mut target = cast_at(7, 100_000);
    target.reaction_ready_at = Some(106_123);
    target.paused = true;
    let copy = target.snapshot();
    assert_eq!(copy.id, target.id);
    assert_eq!(copy.window, target.window);
    assert_eq!(copy.display_name, target.display_name);
    assert_eq!(copy.last_cast_at, 100_000);
    assert_eq!(copy.last_reel_at, 0);
    assert_eq!(copy.reaction_ready_at, Some(106_123));
    assert!(copy.paused);
    assert!(!copy.recast_pending);
}

#[test]
fn substituted_policy_changes_the_windows() {
    let mut policy = Policy::default();
    policy.suppression_ms = 200;
    policy.no_bite_timeout_ms = 1_000;
    policy.react_cooldown_ms = 0;
    policy.event_threshold = 500_000;
    assert!(policy.is_valid());
    let mut target = fresh(7, 0);
    assert_eq!(target.tick(0, SampleResult::Inactive, 0, &policy), Outcome::Cast);
    assert_eq!(target.tick(199, SampleResult::Active(600_000), 7, &policy), Outcome::Idle);
    assert_eq!(target.tick(200, SampleResult::Active(500_000), 7, &policy), Outcome::Idle);
    assert_eq!(
        target.tick(200, SampleResult::Active(500_001), 7, &policy),
        Outcome::Detected { ready_at: 207 }
    );
    assert_eq!(target.tick(207, SampleResult::Inactive, 7, &policy), Outcome::React { duration: 207 });
    assert_eq!(target.tick(207, SampleResult::Inactive, 7, &policy), Outcome::Cast);
    assert_eq!(target.tick(1_208, SampleResult::Inactive, 7, &policy), Outcome::Reset);
}

#[test]
fn replay_reports_each_tick_in_order() {
    let policy = Policy::default();
    let mut target = fresh(7, 0);
    let inputs = vec![
        TickInput { now: 500, sample: SampleResult::Active(900_000), delay: 300 },
        TickInput { now: 1_000, sample: SampleResult::Inactive, delay: 300 },
        TickInput { now: 3_000, sample: SampleResult::Active(900_000), delay: 300 },
        TickInput { now: 6_000, sample: SampleResult::Active(900_000), delay: 300 },
        TickInput { now: 6_100, sample: SampleResult::Inactive, delay: 300 },
        TickInput { now: 6_300, sample: SampleResult::Inactive, delay: 300 },
        TickInput { now: 7_000, sample: SampleResult::Inactive, delay: 300 },
        TickInput { now: 7_300, sample: SampleResult::Inactive, delay: 300 },
        TickInput { now: 37_301, sample: SampleResult::Inactive, delay: 300 },
    ];
    let outcomes = target.replay(&inputs, &policy);
    assert_eq!(
        outcomes,
        vec![
            Outcome::Idle,
            Outcome::Cast,
            Outcome::Idle,
            Outcome::Detected { ready_at: 6_300 },
            Outcome::Idle,
            Outcome::React { duration: 5_300 },
            Outcome::Idle,
            Outcome::Cast,
            Outcome::Reset,
        ]
    );
    assert_eq!(target.last_cast_at, 37_301);
    assert_eq!(target.last_reel_at, 6_300);
    assert!(fresh(7, 0).replay(&Vec::new(), &policy).is_empty());
}

#[test]
fn paused_target_is_frozen_over_a_long_run() {
    let policy = Policy::default();
    let mut target = cast_at(7, 10_000);
    target.tick(16_000, SampleResult::Active(50_000), 300, &policy);
    target.paused = true;
    let mut inputs = Vec::new();
    let mut now: u64 = 16_000;
    while now < 120_000 {
        inputs.push(TickInput { now, sample: SampleResult::Active(1_000_000), delay: 100 });
        inputs.push(TickInput { now, sample: SampleResult::Inactive, delay: 100 });
        now += 50;
    }
    let outcomes = target.replay(&inputs, &policy);
    assert_eq!(outcomes.len(), inputs.len());
    assert!(outcomes.iter().all(|outcome| *outcome == Outcome::Idle));
    assert_eq!(target.last_cast_at, 10_000);
    assert_eq!(target.last_reel_at, 0);
    assert_eq!(target.reaction_ready_at, Some(16_300));
}

#[test]
fn timestamps_never_go_back_on_a_forward_clock() {
    let policy = Policy::default();
    let mut target = fresh(7, 0);
    let mut last_cast = target.last_cast_at;
    let mut last_reel = target.last_reel_at;
    let mut now: u64 = 0;
    let mut step: u64 = 1;
    while now < 200_000 {
        let level = ((now * 7_919) % 90_000) as u32;
        let input = TickInput { now, sample: SampleResult::Active(level), delay: 100 + now % 400 };
        let outcome = target.replay(&vec![input], &policy)[0];
        assert!(target.last_cast_at >= last_cast);
        assert!(target.last_reel_at >= last_reel);
        if let Outcome::Detected { ready_at } = outcome {
            assert!(ready_at >= now);
        }
        let cast_moved = target.last_cast_at != last_cast;
        let reel_moved = target.last_reel_at != last_reel;
        assert!(!(cast_moved && reel_moved));
        last_cast = target.last_cast_at;
        last_reel = target.last_reel_at;
        step = (step * 31) % 97 + 1;
        now += step;
    }
    assert!(last_reel > 0);
}
