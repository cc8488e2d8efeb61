use dota_clock::events::{generate, EventDef, FlatEvent};
use dota_clock::patches::v7_41::Patch741;
use dota_clock::patches::{latest, stepped_times, Patch};

fn key(e: &FlatEvent) -> (i64, &'static str) {
    (e.time, e.name)
}

#[test]
fn generate_sorts_by_time() {
    let defs = vec![
        EventDef { name: "B", icon_file: "b.png", times: vec![300, 100] },
        EventDef { name: "A", icon_file: "a.png", times: vec![200] },
    ];
    let out = generate(defs);
    let keys: Vec<_> = out.iter().map(key).collect();
    assert_eq!(keys, vec![(100, "B"), (200, "A"), (300, "B")]);
    assert_eq!(out[1].icon_file, "a.png");
}

#[test]
fn generate_keeps_order_of_equal_times() {
    let defs = vec![
        EventDef { name: "X", icon_file: "x.png", times: vec![50, 10] },
        EventDef { name: "Y", icon_file: "y.png", times: vec![10] },
        EventDef { name: "Z", icon_file: "z.png", times: vec![10, 50] },
    ];
    let out = generate(defs);
    let keys: Vec<_> = out.iter().map(key).collect();
    assert_eq!(keys, vec![(10, "X"), (10, "Y"), (10, "Z"), (50, "X"), (50, "Z")]);
}

#[test]
fn generate_empty() {
    assert!(generate(Vec::new()).is_empty());
    let out = generate(vec![EventDef { name: "N", icon_file: "n.png", times: vec![] }]);
    assert!(out.is_empty());
}

#[test]
fn stepped_times_inclusive() {
    assert_eq!(stepped_times(240, 1000, 240), vec![240, 480, 720, 960]);
    assert_eq!(stepped_times(180, 1080, 180), vec![180, 360, 540, 720, 900, 1080]);
    assert_eq!(stepped_times(5, 4, 1), Vec::<i64>::new());
    assert_eq!(stepped_times(7, 7, 3), vec![7]);
    assert_eq!(stepped_times(i64::MAX - 5, i64::MAX, 4), vec![i64::MAX - 5, i64::MAX - 1]);
    assert_eq!(stepped_times(i64::MAX, i64::MAX, i64::MAX), vec![i64::MAX]);
}

#[test]
fn latest_is_741() {
    let p: Patch741 = latest();
    assert_eq!(p.version(), "7.41");
}

#[test]
fn patch_741_events_table() {
    let defs = Patch741.events();
    assert_eq!(defs.len(), 14);
    let names: Vec<_> = defs.iter().map(|d| d.name).collect();
    assert_eq!(
        names,
        vec![
            "Bounty", "Water", "Power", "Lotus", "Wisdom", "Outpost", "Night", "Day",
            "Tormentor", "Tier 2", "Tier 3", "Tier 4", "Tier 5", "Siege+"
        ]
    );
    assert_eq!(defs[0].times.len(), 45);
    assert_eq!(defs[0].times[0], 240);
    assert_eq!(*defs[0].times.last().unwrap(), 10800);
    assert_eq!(defs[1].times, vec![120, 240]);
    assert_eq!(defs[2].times[0], 360);
    assert_eq!(defs[2].times.len(), 88);
    assert_eq!(defs[3].times, vec![180, 360, 540, 720, 900, 1080]);
    assert_eq!(defs[4].times.len(), 25);
    assert_eq!(&defs[5].times[..3], &[600, 900, 1200]);
    assert_eq!(defs[5].times.len(), 35);
    assert_eq!(&defs[6].times[..2], &[300, 900]);
    assert_eq!(&defs[7].times[..2], &[600, 1200]);
    assert_eq!(defs[13].times, vec![1800, 3600]);
    assert_eq!(defs[13].icon_file, "siege_creep.png");
    assert_eq!(defs[9].icon_file, "neutral_item.png");
}

#[test]
fn patch_741_recurring_timings() {
    let rs = Patch741.recurring_timings();
    assert_eq!(rs.len(), 2);
    assert_eq!(rs[0].name, "Pull");
    assert_eq!(rs[0].targets, vec![15, 45]);
    assert_eq!((rs[0].warn_window, rs[0].active_window), (15, 3));
    assert_eq!(rs[1].name, "Stack");
    assert_eq!(rs[1].icon_file, "stack.png");
    assert_eq!(rs[1].targets, vec![53]);
    assert_eq!((rs[1].warn_window, rs[1].active_window), (13, 4));
}

#[test]
fn patch_741_flattened_starts_with_water() {
    let out = generate(Patch741.events());
    let keys: Vec<_> = out.iter().take(5).map(key).collect();
    assert_eq!(
        keys,
        vec![(120, "Water"), (180, "Lotus"), (240, "Bounty"), (240, "Water"), (300, "Night")]
    );
    assert!(out.windows(2).all(|w| w[0].time <= w[1].time));
    let total: usize = Patch741.events().iter().map(|d| d.times.len()).sum();
    assert_eq!(out.len(), total);
}

#[test]
fn patch_741_times_within_three_hours() {
    let defs = Patch741.events();
    assert!(defs.iter().all(|d| d.times.iter().all(|&t| (120..=10800).contains(&t))));
    let out = generate(defs);
    assert_eq!(out.first().unwrap().time, 120);
    assert_eq!(out.last().unwrap().time, 10800);
    assert!(Patch741
        .recurring_timings()
        .iter()
        .all(|r| r.targets.iter().all(|&t| (0..60).contains(&t))));
}
