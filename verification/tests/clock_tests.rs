use dota_clock::clock::{compute_events, compute_recurring, tick_inputs_in_range, ClockState, DisplayItem, Urgency};
use dota_clock::events::FlatEvent;
use dota_clock::gsi::GameState;
use dota_clock::patches::v7_41::Patch741;
use dota_clock::patches::{Patch, RecurringTiming};

fn ev(time: i64, name: &'static str) -> FlatEvent {
    FlatEvent { time, name, icon_file: "x.png" }
}

fn text_of(item: &DisplayItem) -> (&str, Urgency) {
    (item.text.as_str(), item.urgency)
}

fn slot(clock: i64, timings: &[RecurringTiming], i: usize) -> Option<(String, Urgency)> {
    compute_recurring(clock, timings)[i].as_ref().map(|d| (d.text.clone(), d.urgency))
}

#[test]
fn recurring_pull_countdown() {
    let ts = Patch741.recurring_timings();
    assert_eq!(slot(12, &ts, 0), Some(("3s".to_string(), Urgency::Urgent)));
    assert_eq!(slot(15, &ts, 0), Some(("NOW!".to_string(), Urgency::Urgent)));
    assert_eq!(slot(17, &ts, 0), Some(("NOW!".to_string(), Urgency::Urgent)));
    assert_eq!(slot(18, &ts, 0), Some(("NOW!".to_string(), Urgency::Urgent)));
    assert_eq!(slot(19, &ts, 0), None);
    assert_eq!(slot(5, &ts, 0), Some(("10s".to_string(), Urgency::Soon)));
    assert_eq!(slot(8, &ts, 0), Some(("7s".to_string(), Urgency::Warning)));
    assert_eq!(slot(0, &ts, 0), Some(("15s".to_string(), Urgency::Soon)));
    // At :30 the :15 just past and the :45 ahead are equally near; the one
    // ahead wins, and it is within the 15 s warning window.
    assert_eq!(slot(30, &ts, 0), Some(("15s".to_string(), Urgency::Soon)));
    assert_eq!(slot(31, &ts, 0), Some(("14s".to_string(), Urgency::Soon)));
    assert_eq!(slot(29, &ts, 0), None);
}

#[test]
fn recurring_wraps_into_next_minute() {
    let ts = Patch741.recurring_timings();
    // 58 s into a minute: the :15 pull of the next minute is 17 s away.
    assert_eq!(slot(118, &ts, 0), None);
    let early = vec![RecurringTiming {
        name: "Early",
        icon_file: "e.png",
        targets: vec![5],
        warn_window: 15,
        active_window: 2,
    }];
    // 55 s into a minute, a :05 target of the next minute is 10 s away.
    assert_eq!(slot(175, &early, 0), Some(("10s".to_string(), Urgency::Soon)));
    assert_eq!(slot(178, &early, 0), Some(("7s".to_string(), Urgency::Warning)));
}

#[test]
fn recurring_now_window_crosses_the_minute() {
    let ts = vec![RecurringTiming {
        name: "X",
        icon_file: "stack.png",
        targets: vec![58],
        warn_window: 10,
        active_window: 4,
    }];
    let out = compute_recurring(120, &ts);
    let item = out[0].as_ref().unwrap();
    assert_eq!((item.icon_file, item.name), ("stack.png", "X"));
    assert_eq!((item.text.as_str(), item.urgency), ("NOW!", Urgency::Urgent));
    assert_eq!(slot(122, &ts, 0), Some(("NOW!".to_string(), Urgency::Urgent)));
    assert_eq!(slot(123, &ts, 0), None);
}

#[test]
fn recurring_same_every_minute() {
    let ts = Patch741.recurring_timings();
    for c in 0..60 {
        assert_eq!(slot(c, &ts, 0), slot(c + 600, &ts, 0));
        assert_eq!(slot(c, &ts, 1), slot(c + 60, &ts, 1));
    }
}

#[test]
fn recurring_any_clock() {
    let ts = Patch741.recurring_timings();
    assert_eq!(slot(i64::MIN, &ts, 0), None);
    // i64::MAX is 7 s into its minute.
    assert_eq!(slot(i64::MAX, &ts, 0), Some(("8s".to_string(), Urgency::Soon)));
}

#[test]
fn recurring_stack_windows() {
    let ts = Patch741.recurring_timings();
    assert_eq!(slot(40, &ts, 1), Some(("13s".to_string(), Urgency::Soon)));
    assert_eq!(slot(47, &ts, 1), Some(("6s".to_string(), Urgency::Warning)));
    assert_eq!(slot(49, &ts, 1), Some(("4s".to_string(), Urgency::Urgent)));
    assert_eq!(slot(53, &ts, 1), Some(("NOW!".to_string(), Urgency::Urgent)));
    assert_eq!(slot(57, &ts, 1), Some(("NOW!".to_string(), Urgency::Urgent)));
    assert_eq!(slot(58, &ts, 1), None);
    assert_eq!(slot(39, &ts, 1), None);
}

#[test]
fn recurring_hidden_before_horn() {
    let ts = Patch741.recurring_timings();
    let out = compute_recurring(-5, &ts);
    assert_eq!(out.len(), 2);
    assert!(out.iter().all(|s| s.is_none()));
}

#[test]
fn recurring_countdown_fills_the_warning_window() {
    let ts = vec![RecurringTiming {
        name: "Long",
        icon_file: "l.png",
        targets: vec![45],
        warn_window: 50,
        active_window: 3,
    }];
    // The :45 of the previous minute went by 15 s ago, which is outside its
    // 3 s window; the one 45 s ahead is within the 50 s warning window.
    assert_eq!(slot(0, &ts, 0), Some(("45s".to_string(), Urgency::Soon)));
    assert_eq!(slot(25, &ts, 0), Some(("20s".to_string(), Urgency::Warning)));
    assert_eq!(slot(47, &ts, 0), Some(("NOW!".to_string(), Urgency::Urgent)));
    assert_eq!(slot(49, &ts, 0), None);
    assert_eq!(slot(55, &ts, 0), Some(("50s".to_string(), Urgency::Soon)));
}

#[test]
fn recurring_nearer_side_wins() {
    let ts = vec![RecurringTiming {
        name: "Pair",
        icon_file: "p.png",
        targets: vec![10, 15],
        warn_window: 10,
        active_window: 3,
    }];
    // 2 s after :10 and 3 s before :15: the one just past is nearer.
    assert_eq!(slot(12, &ts, 0), Some(("NOW!".to_string(), Urgency::Urgent)));
    // 3 s after :10 and 2 s before :15: the countdown is nearer.
    assert_eq!(slot(13, &ts, 0), Some(("2s".to_string(), Urgency::Urgent)));
    let tie = vec![RecurringTiming { targets: vec![10, 14], ..ts[0].clone() }];
    assert_eq!(slot(12, &tie, 0), Some(("2s".to_string(), Urgency::Urgent)));
}

#[test]
fn recurring_without_targets() {
    let ts = vec![RecurringTiming {
        name: "None",
        icon_file: "n.png",
        targets: vec![],
        warn_window: 10,
        active_window: 2,
    }];
    assert_eq!(slot(30, &ts, 0), None);
}

#[test]
fn events_labels_and_urgency() {
    let evs = vec![
        ev(96, "gone"),
        ev(97, "past"),
        ev(100, "now"),
        ev(105, "five"),
        ev(110, "ten"),
        ev(125, "quarter"),
        ev(130, "half"),
        ev(150, "soon"),
        ev(160, "minute"),
        ev(161, "later"),
        ev(400, "edge"),
        ev(401, "beyond"),
        ev(402, "after"),
    ];
    let out = compute_events(100, &evs, 20);
    let got: Vec<_> = out.iter().map(text_of).collect();
    assert_eq!(
        got,
        vec![
            ("PAST", Urgency::Passed),
            ("NOW!", Urgency::Urgent),
            ("5s", Urgency::Urgent),
            ("10s", Urgency::Urgent),
            ("25s", Urgency::Warning),
            ("30s", Urgency::Warning),
            ("50s", Urgency::Soon),
            ("60s", Urgency::Soon),
            ("2:41", Urgency::Dimmed),
            ("6:40", Urgency::Dimmed),
        ]
    );
    assert_eq!(out[0].name, "past");
    assert_eq!(out[9].name, "edge");
}

#[test]
fn events_limited_by_max_icons() {
    let evs = vec![ev(10, "a"), ev(20, "b"), ev(30, "c")];
    let out = compute_events(0, &evs, 2);
    let names: Vec<_> = out.iter().map(|d| d.name).collect();
    assert_eq!(names, vec!["a", "b"]);
    assert!(compute_events(0, &evs, 0).is_empty());
}

#[test]
fn events_far_times_do_not_overflow() {
    let evs = vec![ev(i64::MIN, "min"), ev(5, "soon"), ev(i64::MAX, "max")];
    let out = compute_events(0, &evs, 10);
    let got: Vec<_> = out.iter().map(text_of).collect();
    assert_eq!(got, vec![("5s", Urgency::Urgent)]);
    let late = compute_events(i64::MAX - 300, &[ev(i64::MAX, "max")], 10);
    assert_eq!(text_of(&late[0]), ("153722867280912930:07", Urgency::Dimmed));
}

#[test]
fn events_before_horn_show_clock_time() {
    let evs = vec![ev(120, "Water")];
    let out = compute_events(-90, &evs, 10);
    assert_eq!(text_of(&out[0]), ("2:00", Urgency::Dimmed));
}

fn report(clock: i64, phase: &str, received: u64, sub: u64, paused: bool) -> GameState {
    let mut gs = GameState::default();
    gs.clock_time = clock;
    gs.game_state = phase.to_string();
    gs.received_at_ms = received;
    gs.subsecond_ms = sub;
    gs.paused = paused;
    gs
}

const IN_GAME: &str = "DOTA_GAMERULES_STATE_GAME_IN_PROGRESS";

#[test]
fn tick_hides_outside_game() {
    let mut c = ClockState::new();
    let gs = report(100, "DOTA_GAMERULES_STATE_POST_GAME", 5_000, 0, false);
    let f = c.tick_at(&gs, &[], &[], 10, 5_000).unwrap();
    assert!(!f.visible);
    assert!(f.recurring.is_empty() && f.events.is_empty());
    // Still hidden on the next step, even within the same second.
    assert!(!c.tick_at(&gs, &[], &[], 10, 5_000).unwrap().visible);
}

#[test]
fn tick_one_frame_per_second() {
    let mut c = ClockState::new();
    let events = vec![ev(110, "e")];
    let gs = report(100, IN_GAME, 50_000, 250, false);
    let f = c.tick_at(&gs, &events, &[], 10, 50_000).unwrap();
    assert!(f.visible);
    assert_eq!(f.events[0].text, "10s");
    // Anchor began at 49_750 ms: until 50_750 ms the clock still reads 100.
    assert!(c.tick_at(&gs, &events, &[], 10, 50_700).is_none());
    let f2 = c.tick_at(&gs, &events, &[], 10, 50_750).unwrap();
    assert_eq!(f2.events[0].text, "9s");
}

#[test]
fn tick_follows_clock_between_reports() {
    let mut c = ClockState::new();
    let events = vec![ev(120, "e")];
    let gs = report(100, IN_GAME, 10_000, 0, false);
    c.tick_at(&gs, &events, &[], 10, 10_000);
    // Five seconds later with no new report the clock reads 105.
    let f = c.tick_at(&gs, &events, &[], 10, 15_000).unwrap();
    assert_eq!(f.events[0].text, "15s");
}

#[test]
fn tick_reanchors_on_drift() {
    let mut c = ClockState::new();
    let events = vec![ev(160, "e")];
    c.tick_at(&report(100, IN_GAME, 10_000, 0, false), &events, &[], 10, 10_000);
    // A report 2 s off keeps the anchor: the clock reads 101 at 11_000 ms.
    let f = c.tick_at(&report(103, IN_GAME, 11_000, 0, false), &events, &[], 10, 11_000).unwrap();
    assert_eq!(f.events[0].text, "59s");
    // A report 3 s off re-anchors on it.
    let mut d = ClockState::new();
    d.tick_at(&report(100, IN_GAME, 10_000, 0, false), &events, &[], 10, 10_000);
    let g = d.tick_at(&report(104, IN_GAME, 11_000, 0, false), &events, &[], 10, 11_000).unwrap();
    assert_eq!(g.events[0].text, "56s");
}

#[test]
fn tick_paused_shows_report_clock() {
    let mut c = ClockState::new();
    let events = vec![ev(130, "e")];
    c.tick_at(&report(100, IN_GAME, 10_000, 0, false), &events, &[], 10, 10_000);
    let f = c.tick_at(&report(100, IN_GAME, 40_000, 0, true), &events, &[], 10, 40_000);
    // Paused at 100 after having shown 100: no new second, no frame.
    assert!(f.is_none());
    let g = c.tick_at(&report(101, IN_GAME, 41_000, 0, true), &events, &[], 10, 99_000).unwrap();
    assert_eq!(g.events[0].text, "29s");
}

#[test]
fn tick_without_report_uses_report_clock() {
    let mut c = ClockState::new();
    let gs = report(-30, "DOTA_GAMERULES_STATE_PRE_GAME", 0, 0, false);
    let f = c.tick_at(&gs, &[ev(0, "horn")], &[], 10, 1_000_000).unwrap();
    assert!(f.visible);
    assert_eq!(text_of(&f.events[0]), ("30s", Urgency::Warning));
}

#[test]
fn tick_with_wall_clock() {
    let mut c = ClockState::new();
    let gs = report(-30, "DOTA_GAMERULES_STATE_STRATEGY_TIME", 0, 0, false);
    let f = c.tick(&gs, &[ev(-20, "soon")], &[], 10).unwrap();
    assert!(f.visible);
    assert_eq!(f.events[0].text, "10s");
    assert!(c.tick(&gs, &[ev(-20, "soon")], &[], 10).is_none());
}

#[test]
fn tick_input_range_check() {
    let gs = report(100, IN_GAME, 0, 0, false);
    let ts = Patch741.recurring_timings();
    assert!(tick_inputs_in_range(&gs, &ts));
    let far = report(i64::MIN, IN_GAME, 0, 0, false);
    assert!(!tick_inputs_in_range(&far, &ts));
    let bad = vec![RecurringTiming {
        name: "b",
        icon_file: "b.png",
        targets: vec![1, i64::MIN],
        warn_window: 1,
        active_window: 1,
    }];
    assert!(!tick_inputs_in_range(&gs, &bad));
}

#[test]
fn tick_input_range_edges() {
    let edge = report(0x3FC0_0000_0000_0000, IN_GAME, 0, 0, false);
    assert!(tick_inputs_in_range(&edge, &[]));
    let past_edge = report(0x3FC0_0000_0000_0001, IN_GAME, 0, 0, false);
    assert!(!tick_inputs_in_range(&past_edge, &[]));
    let low = report(-0x3FC0_0000_0000_0000, IN_GAME, 0, 0, false);
    assert!(tick_inputs_in_range(&low, &[]));
    // Outside a game the recurring targets are not looked at.
    let bad = vec![RecurringTiming {
        name: "b",
        icon_file: "b.png",
        targets: vec![i64::MIN],
        warn_window: 1,
        active_window: 1,
    }];
    let menu = report(100, "DOTA_GAMERULES_STATE_POST_GAME", 0, 0, false);
    assert!(tick_inputs_in_range(&menu, &bad));
    let mut c = ClockState::new();
    assert!(!c.tick_at(&menu, &[], &bad, 10, 1_000).unwrap().visible);
}

#[test]
fn tick_repeated_step_is_idle() {
    let events = vec![ev(110, "e")];
    let ts = Patch741.recurring_timings();
    // A report received 5 s before the step: the first step re-anchors on
    // it, and so would the second, to the same anchor.
    let gs = report(100, IN_GAME, 10_000, 0, false);
    let mut c = ClockState::new();
    let f = c.tick_at(&gs, &events, &ts, 10, 15_000).unwrap();
    assert_eq!(f.events[0].text, "5s");
    assert!(c.tick_at(&gs, &events, &ts, 10, 15_000).is_none());
    assert!(c.tick_at(&gs, &events, &ts, 10, 15_000).is_none());
    let g = c.tick_at(&gs, &events, &ts, 10, 16_000).unwrap();
    assert_eq!(g.events[0].text, "4s");
}

#[test]
fn tick_at_far_clock_values() {
    let mut c = ClockState::new();
    let high = report(0x3FC0_0000_0000_0000, IN_GAME, 1_000, 0, false);
    assert!(c.tick_at(&high, &[], &[], 10, u64::MAX).unwrap().visible);
    let low = report(-0x3FC0_0000_0000_0000, IN_GAME, 2_000, 0, false);
    assert!(c.tick_at(&low, &[], &[], 10, u64::MAX).unwrap().visible);
}
