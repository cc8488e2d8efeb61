//! Timings of game patch 7.41.

use super::{law_stepped_within, stepped, stepped_times, Patch, RecurringTiming};
use crate::events::EventDef;
use vstd::prelude::*;

verus! {

pub struct Patch741;

/// The last game-clock second that the tables cover (three hours).
pub const MAX: i64 = 10800;

impl Patch for Patch741 {
    fn version(&self) -> (v: &'static str)
        ensures
            v@ == "7.41"@,
    {
        "7.41"
    }

    fn events(&self) -> (r: Vec<EventDef>)
        ensures
            r@.len() == 14,
            r@[0].name@ == "Bounty"@ && r@[0].icon_file@ == "bounty_rune.png"@
                && r@[0].times@ == stepped(240, 10800, 240),
            r@[1].name@ == "Water"@ && r@[1].icon_file@ == "water_rune.png"@
                && r@[1].times@ == seq![120i64, 240],
            r@[2].name@ == "Power"@ && r@[2].icon_file@ == "power_rune.png"@
                && r@[2].times@ == stepped(360, 10800, 120),
            r@[3].name@ == "Lotus"@ && r@[3].icon_file@ == "lotus_pool.png"@
                && r@[3].times@ == stepped(180, 1080, 180),
            r@[4].name@ == "Wisdom"@ && r@[4].icon_file@ == "wisdom_shrine.png"@
                && r@[4].times@ == stepped(420, 10800, 420),
            r@[5].name@ == "Outpost"@ && r@[5].icon_file@ == "outpost.png"@
                && r@[5].times@ == seq![600i64] + stepped(900, 10800, 300),
            r@[6].name@ == "Night"@ && r@[6].icon_file@ == "night.png"@
                && r@[6].times@ == stepped(300, 10800, 600),
            r@[7].name@ == "Day"@ && r@[7].icon_file@ == "day.png"@
                && r@[7].times@ == stepped(600, 10800, 600),
            r@[8].name@ == "Tormentor"@ && r@[8].icon_file@ == "tormentor.png"@
                && r@[8].times@ == seq![900i64],
            r@[9].name@ == "Tier 2"@ && r@[9].icon_file@ == "neutral_item.png"@
                && r@[9].times@ == seq![900i64],
            r@[10].name@ == "Tier 3"@ && r@[10].icon_file@ == "neutral_item.png"@
                && r@[10].times@ == seq![1500i64],
            r@[11].name@ == "Tier 4"@ && r@[11].icon_file@ == "neutral_item.png"@
                && r@[11].times@ == seq![2100i64],
            r@[12].name@ == "Tier 5"@ && r@[12].icon_file@ == "neutral_item.png"@
                && r@[12].times@ == seq![3600i64],
            r@[13].name@ == "Siege+"@ && r@[13].icon_file@ == "siege_creep.png"@
                && r@[13].times@ == seq![1800i64, 3600],
            forall|i: int, j: int|
                0 <= i < r@.len() && 0 <= j < r@[i].times@.len() ==> 120 <= #[trigger] r@[i].times@[j]
                    <= MAX,
    {
        let mut outpost = vec![600];
        let mut later = stepped_times(900, MAX, 300);
        outpost.append(&mut later);
        let r = vec![
            EventDef { name: "Bounty", icon_file: "bounty_rune.png", times: stepped_times(240, MAX, 240) },
            EventDef { name: "Water", icon_file: "water_rune.png", times: vec![120, 240] },
            EventDef { name: "Power", icon_file: "power_rune.png", times: stepped_times(360, MAX, 120) },
            EventDef { name: "Lotus", icon_file: "lotus_pool.png", times: stepped_times(180, 1080, 180) },
            EventDef { name: "Wisdom", icon_file: "wisdom_shrine.png", times: stepped_times(420, MAX, 420) },
            EventDef { name: "Outpost", icon_file: "outpost.png", times: outpost },
            EventDef { name: "Night", icon_file: "night.png", times: stepped_times(300, MAX, 600) },
            EventDef { name: "Day", icon_file: "day.png", times: stepped_times(600, MAX, 600) },
            EventDef { name: "Tormentor", icon_file: "tormentor.png", times: vec![900] },
            EventDef { name: "Tier 2", icon_file: "neutral_item.png", times: vec![900] },
            EventDef { name: "Tier 3", icon_file: "neutral_item.png", times: vec![1500] },
            EventDef { name: "Tier 4", icon_file: "neutral_item.png", times: vec![2100] },
            EventDef { name: "Tier 5", icon_file: "neutral_item.png", times: vec![3600] },
            EventDef { name: "Siege+", icon_file: "siege_creep.png", times: vec![1800, 3600] },
        ];
        proof {
            assert forall|i: int, j: int|
                0 <= i < r@.len() && 0 <= j < r@[i].times@.len() implies 120 <= #[trigger] r@[i].times@[j]
                    <= MAX by {
                if i == 0 {
                    law_stepped_within(240, 10800, 240, j);
                } else if i == 2 {
                    law_stepped_within(360, 10800, 120, j);
                } else if i == 3 {
                    law_stepped_within(180, 1080, 180, j);
                } else if i == 4 {
                    law_stepped_within(420, 10800, 420, j);
                } else if i == 5 && j > 0 {
                    law_stepped_within(900, 10800, 300, j - 1);
                } else if i == 6 {
                    law_stepped_within(300, 10800, 600, j);
                } else if i == 7 {
                    law_stepped_within(600, 10800, 600, j);
                }
            }
        }
        r
    }

    fn recurring_timings(&self) -> (r: Vec<RecurringTiming>)
        ensures
            r@.len() == 2,
            r@[0].name@ == "Pull"@ && r@[0].icon_file@ == "pull.png"@
                && r@[0].targets@ == seq![15i64, 45] && r@[0].warn_window == 15
                && r@[0].active_window == 3,
            r@[1].name@ == "Stack"@ && r@[1].icon_file@ == "stack.png"@
                && r@[1].targets@ == seq![53i64] && r@[1].warn_window == 13
                && r@[1].active_window == 4,
            forall|i: int, j: int|
                0 <= i < r@.len() && 0 <= j < r@[i].targets@.len() ==> 0 <= #[trigger] r@[i].targets@[j]
                    < 60,
    {
        vec![
            RecurringTiming {
                name: "Pull",
                icon_file: "pull.png",
                targets: vec![15, 45],
                warn_window: 15,
                active_window: 3,
            },
            RecurringTiming {
                name: "Stack",
                icon_file: "stack.png",
                targets: vec![53],
                warn_window: 13,
                active_window: 4,
            },
        ]
    }
}

} // verus!
