use dota_clock::clock::{DisplayFrame, DisplayItem, Urgency};
use dota_clock::config::{default_anchor, default_icon_size, default_margin_bottom, default_margin_right, default_max_icons, Config, Corner};
use dota_clock::gsi::GameState;
use dota_clock::icons::{bytes, icon_file, icon_index, ICON_COUNT};
use dota_clock::layout::{background_color, item_origins, item_rects, text_color, urgency_css, window_origin, window_size};

#[test]
fn in_game_phases() {
    let mut gs = GameState::default();
    assert!(!gs.in_game());
    for phase in [
        "DOTA_GAMERULES_STATE_PRE_GAME",
        "DOTA_GAMERULES_STATE_GAME_IN_PROGRESS",
        "DOTA_GAMERULES_STATE_STRATEGY_TIME",
        "DOTA_GAMERULES_STATE_HERO_SELECTION",
    ] {
        gs.game_state = phase.to_string();
        assert!(gs.in_game(), "{phase}");
    }
    for phase in ["DOTA_GAMERULES_STATE_POST_GAME", "DOTA_GAMERULES_STATE_WAIT_FOR_PLAYERS_TO_LOAD", ""] {
        gs.game_state = phase.to_string();
        assert!(!gs.in_game(), "{phase}");
    }
}

#[test]
fn game_state_default_is_empty() {
    let gs = GameState::default();
    assert_eq!(gs.clock_time, 0);
    assert_eq!(gs.received_at_ms, 0);
    assert!(gs.game_state.is_empty() && !gs.paused);
}

#[test]
fn config_defaults() {
    let c = Config::default();
    assert_eq!(c.anchor, "bottom-right");
    assert_eq!((c.margin_bottom, c.margin_right, c.margin_top, c.margin_left), (10, 470, 0, 0));
    assert_eq!((c.icon_size, c.max_icons), (40, 10));
    assert_eq!(default_anchor(), "bottom-right");
    assert_eq!(default_margin_bottom(), 10);
    assert_eq!(default_margin_right(), 470);
    assert_eq!(default_icon_size(), 40);
    assert_eq!(default_max_icons(), 10);
}

#[test]
fn config_corners() {
    let mut c = Config::default();
    assert_eq!(c.corner(), Corner::BottomRight);
    for (name, corner) in [
        ("bottom-left", Corner::BottomLeft),
        ("top-right", Corner::TopRight),
        ("top-left", Corner::TopLeft),
        ("bottom-right", Corner::BottomRight),
        ("middle", Corner::BottomRight),
        ("Top-Left", Corner::BottomRight),
    ] {
        c.anchor = name.to_string();
        assert_eq!(c.corner(), corner, "{name}");
    }
    assert!(Corner::TopLeft.is_top() && Corner::TopLeft.is_left());
    assert!(!Corner::BottomRight.is_top() && !Corner::BottomRight.is_left());
    assert!(Corner::TopRight.is_top() && !Corner::TopRight.is_left());
    assert!(!Corner::BottomLeft.is_top() && Corner::BottomLeft.is_left());
}

#[test]
fn icon_names_and_indices() {
    assert_eq!(ICON_COUNT, 14);
    for i in 0..ICON_COUNT {
        assert_eq!(icon_index(icon_file(i)), i);
    }
    assert_eq!(icon_index("pull.png"), 12);
    assert_eq!(icon_index("stack.png"), 13);
    assert_eq!(icon_index("unknown.png"), 0);
    assert_eq!(icon_file(0), "bounty_rune.png");
}

#[test]
fn bytes_picks_by_name() {
    let table: Vec<Vec<u8>> = (0..ICON_COUNT as u8).map(|i| vec![i, i]).collect();
    assert_eq!(bytes(&table, "roshan.png"), &[11, 11]);
    assert_eq!(bytes(&table, "day.png"), &[7, 7]);
    assert_eq!(bytes(&table, "nothing"), &[0, 0]);
}

#[test]
fn urgency_styles_and_colours() {
    assert_eq!(urgency_css(&Urgency::Urgent), "urgent");
    assert_eq!(urgency_css(&Urgency::Warning), "warning");
    assert_eq!(urgency_css(&Urgency::Soon), "soon");
    assert_eq!(urgency_css(&Urgency::Passed), "passed");
    assert_eq!(urgency_css(&Urgency::Dimmed), "dimmed");
    assert_eq!(background_color(&Urgency::Urgent), 0x001E1EB4);
    assert_eq!(background_color(&Urgency::Warning), 0x000A648C);
    assert_eq!(background_color(&Urgency::Dimmed), 0x00140A0A);
    assert_eq!(text_color(&Urgency::Soon), 0x0044CC88);
    assert_eq!(text_color(&Urgency::Passed), 0x00666666);
}

#[test]
fn window_geometry() {
    assert_eq!(window_size(40, 12, false), (672, 100));
    assert_eq!(window_size(40, 12, true), (100, 672));
    assert_eq!(window_size(40, 2, false), (200, 100));
    assert_eq!(window_origin(Corner::BottomRight, 0, 470, 10, 0, 1920, 1080, 672, 100), (778, 970));
    assert_eq!(window_origin(Corner::TopLeft, 5, 470, 10, 7, 1920, 1080, 672, 100), (7, 5));
    assert_eq!(window_origin(Corner::BottomLeft, 5, 470, 10, 7, 1920, 1080, 672, 100), (7, 970));
    assert_eq!(window_origin(Corner::TopRight, 5, 470, 10, 7, 1920, 1080, 672, 100), (778, 5));
}

fn item(t: &str) -> DisplayItem {
    DisplayItem { icon_file: "x.png", name: "x", text: t.to_string(), urgency: Urgency::Soon }
}

#[test]
fn item_positions_skip_empty_slots() {
    let frame = DisplayFrame {
        visible: true,
        recurring: vec![None, Some(item("3s"))],
        events: vec![item("a"), item("b")],
    };
    assert_eq!(item_origins(&frame, 40, false), vec![(4, 4), (60, 4), (116, 4)]);
    assert_eq!(item_origins(&frame, 40, true), vec![(4, 4), (4, 60), (4, 116)]);
}

#[test]
fn item_positions_with_negative_size() {
    let frame = DisplayFrame { visible: true, recurring: vec![], events: vec![item("a"), item("b")] };
    assert_eq!(item_origins(&frame, -20, false), vec![(4, 4), (0, 4)]);
}

#[test]
fn item_boxes() {
    let r = item_rects(4, 4, 40);
    assert_eq!(r.background, (4, 4, 56, 84));
    assert_eq!(r.icon, (10, 6));
    assert_eq!(r.countdown, (4, 46, 56, 64));
    assert_eq!(r.name, (4, 62, 56, 80));
}
