//! The overlay's clock: it follows the game clock between reports, and turns
//! each new second into a frame of countdowns.

use crate::events::FlatEvent;
use crate::gsi::{is_in_game_phase, GameState};
use crate::patches::RecurringTiming;
use crate::text::{clock_text, decimal, format_time, seconds_text};
use vstd::prelude::*;

verus! {

/// How pressing an item is, which decides how it is drawn.
#[derive(Clone, Copy, Debug, PartialEq, Eq, Structural)]
pub enum Urgency {
    Urgent,
    Warning,
    Soon,
    Passed,
    Dimmed,
}

/// One icon of the overlay with its countdown text.
#[derive(Clone, Debug)]
pub struct DisplayItem {
    pub icon_file: &'static str,
    pub name: &'static str,
    pub text: String,
    pub urgency: Urgency,
}

/// The contents of a [`DisplayItem`].
pub struct ItemView {
    pub icon_file: Seq<char>,
    pub name: Seq<char>,
    pub text: Seq<char>,
    pub urgency: Urgency,
}

impl View for DisplayItem {
    type V = ItemView;

    open spec fn view(&self) -> ItemView {
        ItemView {
            icon_file: self.icon_file@,
            name: self.name@,
            text: self.text@,
            urgency: self.urgency,
        }
    }
}

/// What the overlay shows for one second of game clock: whether it is shown
/// at all, one slot per recurring timing, and the upcoming events.
pub struct DisplayFrame {
    pub visible: bool,
    pub recurring: Vec<Option<DisplayItem>>,
    pub events: Vec<DisplayItem>,
}

/// The contents of a [`DisplayFrame`].
pub struct FrameView {
    pub visible: bool,
    pub recurring: Seq<Option<ItemView>>,
    pub events: Seq<ItemView>,
}

pub open spec fn slot_view(o: Option<DisplayItem>) -> Option<ItemView> {
    match o {
        Some(item) => Some(item@),
        None => None,
    }
}

impl View for DisplayFrame {
    type V = FrameView;

    open spec fn view(&self) -> FrameView {
        FrameView {
            visible: self.visible,
            recurring: self.recurring@.map_values(|o: Option<DisplayItem>| slot_view(o)),
            events: self.events@.map_values(|i: DisplayItem| i@),
        }
    }
}

// ---------------------------------------------------------------------------
// Ranges of clock values for which the arithmetic fits in `i64`.

/// Game-clock values that a step of the clock handles without overflow,
/// whatever report came before and whatever the local time: within
/// 2^62 - 2^54 seconds of zero. A step compares the report's clock with the
/// clock projected from an earlier report's anchor up to `u64::MAX` ms
/// (some 1.8 * 10^16 s) later, so two such values apart and that drift must
/// fit in `i64` together; the bound is the same for every state of the clock.
pub open spec fn in_clock_range(x: int) -> bool {
    -0x3FC0_0000_0000_0000 <= x <= 0x3FC0_0000_0000_0000
}

/// Recurring targets handled without overflow: a minute either way of the
/// target stays within `i64`.
pub open spec fn target_in_range(t: int) -> bool {
    i64::MIN + 120 <= t <= i64::MAX - 60
}

pub open spec fn timings_in_range(ts: Seq<RecurringTiming>) -> bool {
    forall|i: int, j: int|
        0 <= i < ts.len() && 0 <= j < ts[i].targets@.len() ==> target_in_range(
            #[trigger] ts[i].targets@[j] as int,
        )
}

// ---------------------------------------------------------------------------
// Recurring timings.

pub open spec fn abs(x: int) -> int {
    if x < 0 {
        -x
    } else {
        x
    }
}

pub open spec fn min(a: int, b: int) -> int {
    if a <= b {
        a
    } else {
        b
    }
}

/// How far ahead, in seconds, the next occurrence lies of a target that is
/// `base` seconds ahead in this minute: in this minute, or else in the next
/// one (none for a target more than a minute behind).
pub open spec fn ahead_of(base: int) -> Option<int> {
    if 0 <= base {
        Some(base)
    } else if 0 <= base + 60 {
        Some(base + 60)
    } else {
        None
    }
}

/// How long ago, in seconds, the last occurrence went by of a target that is
/// `base` seconds ahead in this minute: in this minute, or else in the
/// previous one (none for a target a minute or more ahead).
pub open spec fn past_of(base: int) -> Option<int> {
    if base < 0 {
        Some(-base)
    } else if base < 60 {
        Some(60 - base)
    } else {
        None
    }
}

/// The lesser of two distances, either of which may be missing.
pub open spec fn least(a: Option<int>, b: Option<int>) -> Option<int> {
    match (a, b) {
        (Some(x), Some(y)) => Some(min(x, y)),
        (Some(x), None) => Some(x),
        (None, y) => y,
    }
}

/// The least of `dist(t - sec)` over the targets `t` (none when no target
/// has one).
pub open spec fn nearest_by(targets: Seq<i64>, sec: int, dist: spec_fn(int) -> Option<int>) -> Option<int>
    decreases targets.len(),
{
    if targets.len() == 0 {
        None
    } else {
        least(nearest_by(targets.drop_last(), sec, dist), dist(targets.last() - sec))
    }
}

/// Seconds from second `sec` of the minute to the next occurrence of any
/// target.
pub open spec fn nearest_ahead(targets: Seq<i64>, sec: int) -> Option<int> {
    nearest_by(targets, sec, |base: int| ahead_of(base))
}

/// Seconds since the last occurrence of any target, seen from second `sec`
/// of the minute.
pub open spec fn nearest_past(targets: Seq<i64>, sec: int) -> Option<int> {
    nearest_by(targets, sec, |base: int| past_of(base))
}

/// Whether a distance is there and at most `window`.
pub open spec fn within(d: Option<int>, window: int) -> bool {
    d matches Some(x) && x <= window
}

/// What a recurring timing shows at game clock `clock`: nothing before the
/// horn. Otherwise let `a` be the seconds to the next occurrence of a target
/// and `p` the seconds since the last one. While `p` is within
/// `active_window`, "NOW!", unless a countdown is due that is no farther
/// than `p`. A countdown is due when `a` is within `warn_window`: "NOW!" at
/// 0, urgent within `active_window`, a warning in the nearer half of the
/// window, else soon. Otherwise nothing.
pub open spec fn recurring_slot(clock: int, t: RecurringTiming) -> Option<ItemView> {
    if clock < 0 {
        None
    } else {
        let s = clock % 60;
        let ahead = nearest_ahead(t.targets@, s);
        let past = nearest_past(t.targets@, s);
        let counting = within(ahead, t.warn_window as int);
        if within(past, t.active_window as int) && !(counting && ahead->0 <= past->0) {
            Some(
                ItemView {
                    icon_file: t.icon_file@,
                    name: t.name@,
                    text: "NOW!"@,
                    urgency: Urgency::Urgent,
                },
            )
        } else if counting {
            let a = ahead->0;
            Some(
                ItemView {
                    icon_file: t.icon_file@,
                    name: t.name@,
                    text: if a == 0 {
                        "NOW!"@
                    } else {
                        decimal(a as nat) + seq!['s']
                    },
                    urgency: if a == 0 || a <= t.active_window {
                        Urgency::Urgent
                    } else if a <= t.warn_window / 2 {
                        Urgency::Warning
                    } else {
                        Urgency::Soon
                    },
                },
            )
        } else {
            None
        }
    }
}

pub open spec fn recurring_slots(clock: int, ts: Seq<RecurringTiming>) -> Seq<Option<ItemView>> {
    ts.map_values(|t: RecurringTiming| recurring_slot(clock, t))
}

fn iabs(x: i64) -> (r: i64)
    requires
        x > i64::MIN,
    ensures
        r == abs(x as int),
{
    if x < 0 {
        -x
    } else {
        x
    }
}

/// [`nearest_by`] is the least distance of any target, and that of some
/// target: no target's distance is smaller, and some target's is equal.
pub proof fn law_nearest_is_least(targets: Seq<i64>, sec: int, dist: spec_fn(int) -> Option<int>)
    ensures
        forall|j: int|
            0 <= j < targets.len() && #[trigger] dist(targets[j] - sec) is Some ==> (nearest_by(
                targets,
                sec,
                dist,
            ) matches Some(m) && m <= dist(targets[j] - sec)->0),
        nearest_by(targets, sec, dist) matches Some(m) ==> exists|j: int|
            0 <= j < targets.len() && #[trigger] dist(targets[j] - sec) == Some(m),
    decreases targets.len(),
{
    if targets.len() > 0 {
        let rest = targets.drop_last();
        let last = targets.len() - 1;
        law_nearest_is_least(rest, sec, dist);
        assert(targets[last] == targets.last());
        assert forall|j: int|
            0 <= j < targets.len() && #[trigger] dist(targets[j] - sec) is Some implies (nearest_by(
                targets,
                sec,
                dist,
            ) matches Some(m) && m <= dist(targets[j] - sec)->0) by {
            if j < last {
                assert(targets[j] == rest[j]);
            }
        }
        if nearest_by(targets, sec, dist) is Some {
            let m = nearest_by(targets, sec, dist)->0;
            if dist(targets[last] - sec) != Some(m) {
                let j = choose|j: int| 0 <= j < rest.len() && #[trigger] dist(rest[j] - sec) == Some(m);
                assert(targets[j] == rest[j]);
                assert(dist(targets[j] - sec) == Some(m));
            }
        }
    }
}

pub open spec fn opt_int(o: Option<i64>) -> Option<int> {
    match o {
        Some(x) => Some(x as int),
        None => None,
    }
}

fn least_of(a: Option<i64>, b: Option<i64>) -> (r: Option<i64>)
    ensures
        opt_int(r) == least(opt_int(a), opt_int(b)),
        r == a || r == b,
{
    match (a, b) {
        (Some(x), Some(y)) => if x <= y {
            Some(x)
        } else {
            Some(y)
        },
        (Some(x), None) => Some(x),
        (None, y) => y,
    }
}

/// Seconds to the next occurrence of a target and seconds since the last
/// one, seen from second `sec` of the minute.
fn nearest_targets(targets: &Vec<i64>, sec: i64) -> (r: (Option<i64>, Option<i64>))
    requires
        0 <= sec < 60,
        forall|j: int| 0 <= j < targets@.len() ==> target_in_range(#[trigger] targets@[j] as int),
    ensures
        opt_int(r.0) == nearest_ahead(targets@, sec as int),
        opt_int(r.1) == nearest_past(targets@, sec as int),
        r.0 matches Some(a) ==> a >= 0,
{
    let mut ahead: Option<i64> = None;
    let mut past: Option<i64> = None;
    let mut i: usize = 0;
    while i < targets.len()
        invariant
            i <= targets.len(),
            0 <= sec < 60,
            forall|j: int| 0 <= j < targets@.len() ==> target_in_range(#[trigger] targets@[j] as int),
            opt_int(ahead) == nearest_ahead(targets@.take(i as int), sec as int),
            opt_int(past) == nearest_past(targets@.take(i as int), sec as int),
            ahead matches Some(a) ==> a >= 0,
        decreases targets.len() - i,
    {
        let ghost prev = targets@.take(i as int);
        let ghost next = targets@.take(i + 1);
        let base = targets[i] - sec;
        let here_ahead: Option<i64> = if base >= 0 {
            Some(base)
        } else if base >= -60 {
            Some(base + 60)
        } else {
            None
        };
        let here_past: Option<i64> = if base < 0 {
            Some(-base)
        } else if base < 60 {
            Some(60 - base)
        } else {
            None
        };
        proof {
            assert(next.drop_last() == prev);
            assert(next.last() == targets@[i as int]);
            assert(opt_int(here_ahead) == ahead_of(base as int));
            assert(opt_int(here_past) == past_of(base as int));
        }
        ahead = least_of(ahead, here_ahead);
        past = least_of(past, here_past);
        i = i + 1;
    }
    assert(targets@.take(targets.len() as int) == targets@);
    (ahead, past)
}

fn recurring_item(clock: i64, timing: &RecurringTiming) -> (r: Option<DisplayItem>)
    requires
        forall|j: int|
            0 <= j < timing.targets@.len() ==> target_in_range(#[trigger] timing.targets@[j] as int),
    ensures
        slot_view(r) == recurring_slot(clock as int, *timing),
{
    if clock < 0 {
        return None;
    }
    let sec_in_min = clock % 60;
    let (ahead, past) = nearest_targets(&timing.targets, sec_in_min);
    proof {
        reveal_strlit("NOW!");
    }
    let counting: bool = match ahead {
        Some(a) => a <= timing.warn_window,
        None => false,
    };
    let ahead_first: bool = match (ahead, past) {
        (Some(a), Some(p)) => a <= p,
        _ => false,
    };
    let past_due: bool = match past {
        Some(p) => p <= timing.active_window,
        None => false,
    };
    if past_due && !(counting && ahead_first) {
        return Some(
            DisplayItem {
                icon_file: timing.icon_file,
                name: timing.name,
                text: String::from_str("NOW!"),
                urgency: Urgency::Urgent,
            },
        );
    }
    match ahead {
        Some(a) => {
            if a <= timing.warn_window {
                let (text, urgency) = if a == 0 {
                    (String::from_str("NOW!"), Urgency::Urgent)
                } else if a <= timing.active_window {
                    (seconds_text(a as u64), Urgency::Urgent)
                } else if a <= timing.warn_window / 2 {
                    (seconds_text(a as u64), Urgency::Warning)
                } else {
                    (seconds_text(a as u64), Urgency::Soon)
                };
                Some(DisplayItem { icon_file: timing.icon_file, name: timing.name, text, urgency })
            } else {
                None
            }
        },
        None => None,
    }
}

/// One slot per recurring timing, in order, each as [`recurring_slot`] says.
pub fn compute_recurring(clock: i64, timings: &[RecurringTiming]) -> (r: Vec<Option<DisplayItem>>)
    requires
        timings_in_range(timings@),
    ensures
        r@.map_values(|o: Option<DisplayItem>| slot_view(o)) == recurring_slots(
            clock as int,
            timings@,
        ),
{
    let mut out: Vec<Option<DisplayItem>> = Vec::new();
    let mut i: usize = 0;
    while i < timings.len()
        invariant
            i <= timings.len(),
            out.len() == i,
            timings_in_range(timings@),
            out@.map_values(|o: Option<DisplayItem>| slot_view(o)) == recurring_slots(
                clock as int,
                timings@.take(i as int),
            ),
        decreases timings.len() - i,
    {
        let timing = &timings[i];
        assert forall|j: int| 0 <= j < timing.targets@.len() implies target_in_range(
            #[trigger] timing.targets@[j] as int,
        ) by {
            assert(timings@[i as int].targets@[j] == timing.targets@[j]);
        }
        let item = recurring_item(clock, timing);
        let ghost before = out@;
        out.push(item);
        proof {
            let now = out@.map_values(|o: Option<DisplayItem>| slot_view(o));
            let want = recurring_slots(clock as int, timings@.take(i + 1));
            assert(timings@.take(i + 1) == timings@.take(i as int).push(*timing));
            assert forall|k: int| 0 <= k < i + 1 implies now[k] == want[k] by {
                if k < i {
                    assert(out@[k] == before[k]);
                    assert(before.map_values(|o: Option<DisplayItem>| slot_view(o))[k]
                        == recurring_slots(clock as int, timings@.take(i as int))[k]);
                }
            }
            assert(now =~= want);
        }
        i = i + 1;
    }
    assert(timings@.take(timings.len() as int) == timings@);
    out
}

// ---------------------------------------------------------------------------
// One-off events.

/// How an event at `e.time` shows at game clock `clock`: "PAST" when gone,
/// "NOW!" when due, a countdown within a minute (urgent up to 10 s, a
/// warning up to 30 s, soon up to 60 s), else its clock time, dimmed.
pub open spec fn event_view(clock: int, e: FlatEvent) -> ItemView {
    let diff = e.time - clock;
    ItemView {
        icon_file: e.icon_file@,
        name: e.name@,
        text: if diff < 0 {
            "PAST"@
        } else if diff == 0 {
            "NOW!"@
        } else if diff <= 60 {
            decimal(diff as nat) + seq!['s']
        } else {
            clock_text(e.time as int)
        },
        urgency: if diff < 0 {
            Urgency::Passed
        } else if diff <= 10 {
            Urgency::Urgent
        } else if diff <= 30 {
            Urgency::Warning
        } else if diff <= 60 {
            Urgency::Soon
        } else {
            Urgency::Dimmed
        },
    }
}

/// The events shown at game clock `clock`, scanning `evs` in order: those
/// more than 3 s past are skipped; the scan stops once `room` items are
/// shown or at the first event more than 300 s ahead.
pub open spec fn event_views(evs: Seq<FlatEvent>, clock: int, room: int) -> Seq<ItemView>
    decreases evs.len(),
{
    if evs.len() == 0 {
        Seq::<ItemView>::empty()
    } else {
        let e = evs[0];
        if e.time < clock - 3 {
            event_views(evs.drop_first(), clock, room)
        } else if room <= 0 {
            Seq::<ItemView>::empty()
        } else if e.time > clock + 300 {
            Seq::<ItemView>::empty()
        } else {
            seq![event_view(clock, e)] + event_views(evs.drop_first(), clock, room - 1)
        }
    }
}

fn event_item(clock: i64, ev: &FlatEvent) -> (r: DisplayItem)
    requires
        clock - 3 <= ev.time <= clock + 300,
    ensures
        r@ == event_view(clock as int, *ev),
{
    let diff = ev.time - clock;
    proof {
        reveal_strlit("PAST");
        reveal_strlit("NOW!");
    }
    let (text, urgency) = if diff < 0 {
        (String::from_str("PAST"), Urgency::Passed)
    } else if diff == 0 {
        (String::from_str("NOW!"), Urgency::Urgent)
    } else if diff <= 10 {
        (seconds_text(diff as u64), Urgency::Urgent)
    } else if diff <= 30 {
        (seconds_text(diff as u64), Urgency::Warning)
    } else if diff <= 60 {
        (seconds_text(diff as u64), Urgency::Soon)
    } else {
        (format_time(ev.time), Urgency::Dimmed)
    };
    DisplayItem { icon_file: ev.icon_file, name: ev.name, text, urgency }
}

/// The upcoming events, as [`event_views`] says.
pub fn compute_events(clock: i64, events: &[FlatEvent], max_icons: usize) -> (r: Vec<DisplayItem>)
    requires
        i64::MIN + 3 <= clock <= i64::MAX - 300,
    ensures
        r@.map_values(|i: DisplayItem| i@) == event_views(events@, clock as int, max_icons as int),
{
    let mut out: Vec<DisplayItem> = Vec::new();
    let mut i: usize = 0;
    assert(events@.skip(0) == events@);
    assert(out@.map_values(|d: DisplayItem| d@) + event_views(events@, clock as int, max_icons as int)
        =~= event_views(events@, clock as int, max_icons as int));
    while i < events.len()
        invariant_except_break
            i <= events.len(),
            i64::MIN + 3 <= clock <= i64::MAX - 300,
            out.len() <= max_icons,
            out@.map_values(|d: DisplayItem| d@) + event_views(
                events@.skip(i as int),
                clock as int,
                max_icons - out.len(),
            ) == event_views(events@, clock as int, max_icons as int),
        ensures
            out@.map_values(|d: DisplayItem| d@) == event_views(events@, clock as int, max_icons as int),
        decreases events.len() - i,
    {
        let ev = &events[i];
        let ghost rest = events@.skip(i as int);
        let ghost done = out@.map_values(|d: DisplayItem| d@);
        assert(rest[0] == *ev);
        assert(rest.drop_first() == events@.skip(i + 1));
        if ev.time < clock - 3 {
            i = i + 1;
            continue;
        }
        if out.len() >= max_icons {
            assert(done + Seq::<ItemView>::empty() == done);
            break;
        }
        if ev.time > clock + 300 {
            assert(done + Seq::<ItemView>::empty() == done);
            break;
        }
        let item = event_item(clock, ev);
        out.push(item);
        assert(out@.map_values(|d: DisplayItem| d@) == done.push(event_view(clock as int, *ev)));
        assert(done + (seq![event_view(clock as int, *ev)] + event_views(
            events@.skip(i + 1),
            clock as int,
            max_icons - out.len(),
        )) =~= done.push(event_view(clock as int, *ev)) + event_views(
            events@.skip(i + 1),
            clock as int,
            max_icons - out.len(),
        ));
        i = i + 1;
    }
    out
}


// ---------------------------------------------------------------------------
// The clock that follows the game between reports.

/// Follows the game clock between reports: an anchor pairs a game-clock
/// reading with the local time (ms) at which that second began, and the
/// clock shown is the anchor's reading plus the whole seconds elapsed since.
pub struct ClockState {
    anchor_clock: i64,
    anchor_local_ms: u64,
    last_clock: i64,
}

pub open spec fn sat_sub(a: int, b: int) -> int {
    if a >= b {
        a - b
    } else {
        0
    }
}

/// The game clock that an anchor `(clock, local_ms)` projects at local time
/// `now_ms`.
pub open spec fn projected(anchor_clock: int, anchor_local_ms: int, now_ms: int) -> int {
    anchor_clock + sat_sub(now_ms, anchor_local_ms) / 1000
}

/// A report re-anchors the clock when one has arrived and there is no
/// anchor yet, the game is paused, or the report's clock is more than 2 s
/// off what the anchor projects.
pub open spec fn reanchors(s: ClockState, gs: GameState, now_ms: int) -> bool {
    &&& gs.received_at_ms > 0
    &&& {
        ||| s.anchor_local_ms() == 0
        ||| gs.paused
        ||| abs(gs.clock_time - projected(s.anchor_clock(), s.anchor_local_ms() as int, now_ms)) > 2
    }
}

/// The anchor after reading a report: the report's clock, begun at its
/// arrival time less its sub-second part, or the old anchor.
pub open spec fn anchor_after(s: ClockState, gs: GameState, now_ms: int) -> (int, int) {
    if reanchors(s, gs, now_ms) {
        (gs.clock_time as int, sat_sub(gs.received_at_ms as int, gs.subsecond_ms as int))
    } else {
        (s.anchor_clock(), s.anchor_local_ms() as int)
    }
}

/// The clock shown: projected from the anchor while running, the report's
/// own clock while paused or without an anchor.
pub open spec fn shown_clock(anchor: (int, int), gs: GameState, now_ms: int) -> int {
    if anchor.1 > 0 && !gs.paused {
        projected(anchor.0, anchor.1, now_ms)
    } else {
        gs.clock_time as int
    }
}

/// The frame that hides the overlay.
pub open spec fn hidden_frame() -> FrameView {
    FrameView {
        visible: false,
        recurring: Seq::<Option<ItemView>>::empty(),
        events: Seq::<ItemView>::empty(),
    }
}

/// The frame shown at game clock `clock`.
pub open spec fn frame_at(
    clock: int,
    events: Seq<FlatEvent>,
    recurring: Seq<RecurringTiming>,
    max_icons: int,
) -> FrameView {
    FrameView {
        visible: true,
        recurring: recurring_slots(clock, recurring),
        events: event_views(events, clock, max_icons),
    }
}

/// One step of the clock at local time `now_ms`: the anchor moves as
/// [`anchor_after`] says; outside a game the overlay is hidden; in a game a
/// frame comes only when the shown second differs from the last one shown,
/// and that second becomes the last one shown.
pub open spec fn tick_step(
    before: ClockState,
    after: ClockState,
    gs: GameState,
    events: Seq<FlatEvent>,
    recurring: Seq<RecurringTiming>,
    max_icons: int,
    now_ms: int,
    r: Option<DisplayFrame>,
) -> bool {
    let anchor = anchor_after(before, gs, now_ms);
    let clock = shown_clock(anchor, gs, now_ms);
    &&& after.anchor_clock() == anchor.0
    &&& after.anchor_local_ms() == anchor.1
    &&& if !is_in_game_phase(gs.game_state@) {
        &&& r matches Some(f) && f@ == hidden_frame()
        &&& after.last_clock() == before.last_clock()
    } else if clock == before.last_clock() {
        &&& r is None
        &&& after.last_clock() == before.last_clock()
    } else {
        &&& r matches Some(f) && f@ == frame_at(clock, events, recurring, max_icons)
        &&& after.last_clock() == clock
    }
}

/// Reads the local wall clock: `std::time::SystemTime::now`, as milliseconds
/// since the Unix epoch (`duration_since(UNIX_EPOCH)`, `as_millis`, cut to
/// `u64`). Nothing is stated of the value, which is the time; a system clock
/// set before the epoch reads as 0.
#[verifier::external_body]
fn current_time_ms() -> u64 {
    match std::time::SystemTime::now().duration_since(std::time::UNIX_EPOCH) {
        Ok(d) => d.as_millis() as u64,
        Err(_) => 0,
    }
}

impl ClockState {
    #[verifier::type_invariant]
    spec fn anchor_in_range(self) -> bool {
        in_clock_range(self.anchor_clock as int)
    }

    /// The game-clock reading of the anchor.
    pub closed spec fn anchor_clock(self) -> int {
        self.anchor_clock as int
    }

    /// The local time (ms) at which the anchor's second began; 0 for none.
    pub closed spec fn anchor_local_ms(self) -> nat {
        self.anchor_local_ms as nat
    }

    /// The last second for which a frame was made.
    pub closed spec fn last_clock(self) -> int {
        self.last_clock as int
    }

    /// A clock with no anchor that has shown no second yet.
    pub fn new() -> (s: Self)
        ensures
            s.anchor_clock() == 0,
            s.anchor_local_ms() == 0,
            s.last_clock() == i64::MIN,
    {
        ClockState { anchor_clock: 0, anchor_local_ms: 0, last_clock: i64::MIN }
    }

    /// One step of the clock at local time `now_ms`, as [`tick_step`] says.
    pub fn tick_at(
        &mut self,
        gs: &GameState,
        events: &[FlatEvent],
        recurring: &[RecurringTiming],
        max_icons: usize,
        now_ms: u64,
    ) -> (r: Option<DisplayFrame>)
        requires
            in_clock_range(gs.clock_time as int),
            is_in_game_phase(gs.game_state@) ==> timings_in_range(recurring@),
        ensures
            tick_step(
                *old(self),
                *final(self),
                *gs,
                events@,
                recurring@,
                max_icons as int,
                now_ms as int,
                r,
            ),
    {
        proof {
            use_type_invariant(&*self);
        }
        if gs.received_at_ms > 0 {
            let elapsed_ms = now_ms.saturating_sub(self.anchor_local_ms);
            let anchored = self.anchor_local_ms > 0;
            let far = if anchored {
                let projected = self.anchor_clock + (elapsed_ms / 1000) as i64;
                iabs(gs.clock_time - projected) > 2
            } else {
                true
            };
            if far || !anchored || gs.paused {
                self.anchor_clock = gs.clock_time;
                self.anchor_local_ms = gs.received_at_ms.saturating_sub(gs.subsecond_ms);
            }
        }
        let clock = if self.anchor_local_ms > 0 && !gs.paused {
            let elapsed_ms = now_ms.saturating_sub(self.anchor_local_ms);
            self.anchor_clock + (elapsed_ms / 1000) as i64
        } else {
            gs.clock_time
        };
        if !gs.in_game() {
            let f = DisplayFrame { visible: false, recurring: Vec::new(), events: Vec::new() };
            assert(f@.recurring =~= Seq::<Option<ItemView>>::empty());
            assert(f@.events =~= Seq::<ItemView>::empty());
            return Some(f);
        }
        if clock == self.last_clock {
            return None;
        }
        self.last_clock = clock;
        let recurring_items = compute_recurring(clock, recurring);
        let event_items = compute_events(clock, events, max_icons);
        Some(DisplayFrame { visible: true, recurring: recurring_items, events: event_items })
    }

    /// One step of the clock at the current local time: for some time
    /// `now_ms` that the wall clock gave, the step is as [`tick_step`] says.
    pub fn tick(
        &mut self,
        gs: &GameState,
        events: &[FlatEvent],
        recurring: &[RecurringTiming],
        max_icons: usize,
    ) -> (r: Option<DisplayFrame>)
        requires
            in_clock_range(gs.clock_time as int),
            is_in_game_phase(gs.game_state@) ==> timings_in_range(recurring@),
        ensures
            exists|now_ms: u64|
                tick_step(
                    *old(self),
                    *final(self),
                    *gs,
                    events@,
                    recurring@,
                    max_icons as int,
                    now_ms as int,
                    r,
                ),
    {
        let now_ms = current_time_ms();
        self.tick_at(gs, events, recurring, max_icons, now_ms)
    }
}


// ---------------------------------------------------------------------------
// Laws.

/// At most `room` events are shown, however many are upcoming.
pub proof fn law_event_count_bounded(evs: Seq<FlatEvent>, clock: int, room: int)
    requires
        room >= 0,
    ensures
        event_views(evs, clock, room).len() <= room,
    decreases evs.len(),
{
    if evs.len() > 0 {
        let e = evs[0];
        if e.time < clock - 3 {
            law_event_count_bounded(evs.drop_first(), clock, room);
        } else if room > 0 && e.time <= clock + 300 {
            law_event_count_bounded(evs.drop_first(), clock, room - 1);
        }
    }
}

/// Every event shown is at most 3 s past and at most 300 s ahead: each
/// shown item is the view of such an event of the list.
pub proof fn law_shown_events_are_near(evs: Seq<FlatEvent>, clock: int, room: int, k: int)
    requires
        0 <= k < event_views(evs, clock, room).len(),
    ensures
        exists|i: int|
            0 <= i < evs.len() && clock - 3 <= #[trigger] evs[i].time <= clock + 300
                && event_views(evs, clock, room)[k] == event_view(clock, evs[i]),
    decreases evs.len(),
{
    let e = evs[0];
    let rest = evs.drop_first();
    if e.time < clock - 3 {
        law_shown_events_are_near(rest, clock, room, k);
        let i = choose|i: int|
            0 <= i < rest.len() && clock - 3 <= #[trigger] rest[i].time <= clock + 300
                && event_views(rest, clock, room)[k] == event_view(clock, rest[i]);
        assert(evs[i + 1] == rest[i]);
    } else if k == 0 {
        assert(evs[0] == e);
    } else {
        law_shown_events_are_near(rest, clock, room - 1, k - 1);
        let i = choose|i: int|
            0 <= i < rest.len() && clock - 3 <= #[trigger] rest[i].time <= clock + 300
                && event_views(rest, clock, room - 1)[k - 1] == event_view(clock, rest[i]);
        assert(evs[i + 1] == rest[i]);
    }
}

/// A recurring timing shows the same thing at the same second of every
/// minute after the horn.
pub proof fn law_recurring_per_minute(clock: int, t: RecurringTiming)
    requires
        clock >= 0,
    ensures
        recurring_slot(clock + 60, t) == recurring_slot(clock, t),
{
    assert((clock + 60) % 60 == clock % 60);
}

/// The slots of two lists of timings together are the slots of the first
/// list followed by those of the second.
pub proof fn law_recurring_slots_concat(clock: int, a: Seq<RecurringTiming>, b: Seq<RecurringTiming>)
    ensures
        recurring_slots(clock, a + b) == recurring_slots(clock, a) + recurring_slots(clock, b),
{
    assert(recurring_slots(clock, a + b) =~= recurring_slots(clock, a) + recurring_slots(clock, b));
}

/// With room for fewer icons the events shown are a prefix of those shown
/// with room for more.
pub proof fn law_fewer_icons_prefix(evs: Seq<FlatEvent>, clock: int, room: int, more: int)
    requires
        0 <= room <= more,
    ensures
        event_views(evs, clock, room).len() <= event_views(evs, clock, more).len(),
        event_views(evs, clock, room) == event_views(evs, clock, more).take(
            event_views(evs, clock, room).len() as int,
        ),
    decreases evs.len(),
{
    if evs.len() > 0 {
        let e = evs[0];
        let rest = evs.drop_first();
        if e.time < clock - 3 {
            law_fewer_icons_prefix(rest, clock, room, more);
        } else if room > 0 && e.time <= clock + 300 {
            law_fewer_icons_prefix(rest, clock, room - 1, more - 1);
            let x = event_views(rest, clock, room - 1);
            let y = event_views(rest, clock, more - 1);
            assert((seq![event_view(clock, e)] + y).take(x.len() as int + 1) =~= seq![event_view(clock, e)]
                + y.take(x.len() as int));
        } else {
            assert(event_views(evs, clock, room) =~= Seq::<ItemView>::empty());
        }
    }
}

/// Before the horn (negative game clock) no recurring timing is shown.
pub proof fn law_no_recurring_before_horn(clock: int, ts: Seq<RecurringTiming>, i: int)
    requires
        clock < 0,
        0 <= i < ts.len(),
    ensures
        recurring_slots(clock, ts)[i] is None,
{
}

/// Seconds to the next occurrence: no target is due sooner than
/// [`nearest_ahead`] says, and some target is due exactly then; there is
/// none only when no target is due at all.
pub proof fn law_nearest_ahead_is_least(targets: Seq<i64>, sec: int)
    ensures
        forall|j: int|
            0 <= j < targets.len() && #[trigger] ahead_of(targets[j] - sec) is Some ==> (nearest_ahead(
                targets,
                sec,
            ) matches Some(m) && m <= ahead_of(targets[j] - sec)->0),
        nearest_ahead(targets, sec) matches Some(m) ==> exists|j: int|
            0 <= j < targets.len() && #[trigger] ahead_of(targets[j] - sec) == Some(m),
{
    let f = |base: int| ahead_of(base);
    law_nearest_is_least(targets, sec, f);
    assert forall|j: int| 0 <= j < targets.len() implies #[trigger] ahead_of(targets[j] - sec) == f(
        targets[j] - sec,
    ) by {}
    if nearest_ahead(targets, sec) is Some {
        let m = nearest_ahead(targets, sec)->0;
        let j = choose|j: int| 0 <= j < targets.len() && #[trigger] f(targets[j] - sec) == Some(m);
        assert(ahead_of(targets[j] - sec) == Some(m));
    }
}

/// Seconds since the last occurrence: no target went by more recently
/// than [`nearest_past`] says, and some target went by exactly then; there
/// is none only when no target went by at all.
pub proof fn law_nearest_past_is_least(targets: Seq<i64>, sec: int)
    ensures
        forall|j: int|
            0 <= j < targets.len() && #[trigger] past_of(targets[j] - sec) is Some ==> (nearest_past(
                targets,
                sec,
            ) matches Some(m) && m <= past_of(targets[j] - sec)->0),
        nearest_past(targets, sec) matches Some(m) ==> exists|j: int|
            0 <= j < targets.len() && #[trigger] past_of(targets[j] - sec) == Some(m),
{
    let f = |base: int| past_of(base);
    law_nearest_is_least(targets, sec, f);
    assert forall|j: int| 0 <= j < targets.len() implies #[trigger] past_of(targets[j] - sec) == f(
        targets[j] - sec,
    ) by {}
    if nearest_past(targets, sec) is Some {
        let m = nearest_past(targets, sec)->0;
        let j = choose|j: int| 0 <= j < targets.len() && #[trigger] f(targets[j] - sec) == Some(m);
        assert(past_of(targets[j] - sec) == Some(m));
    }
}

/// After the horn, "NOW!" shows for a timing while one of its targets went
/// by `d` seconds ago with `d` within `active_window`, as long as no target
/// is due within `warn_window` seconds and within `d` seconds.
pub proof fn law_recurring_now_after_target(clock: int, t: RecurringTiming, j: int, d: int)
    requires
        clock >= 0,
        0 <= j < t.targets@.len(),
        past_of(t.targets@[j] - clock % 60) == Some(d),
        d <= t.active_window,
        forall|k: int|
            0 <= k < t.targets@.len() ==> (#[trigger] ahead_of(t.targets@[k] - clock % 60) matches Some(
                a,
            ) ==> a > d || a > t.warn_window),
    ensures
        recurring_slot(clock, t) == Some(
            ItemView { icon_file: t.icon_file@, name: t.name@, text: "NOW!"@, urgency: Urgency::Urgent },
        ),
{
    let s = clock % 60;
    law_nearest_past_is_least(t.targets@, s);
    law_nearest_ahead_is_least(t.targets@, s);
    assert(past_of(t.targets@[j] - s) is Some);
    let ahead = nearest_ahead(t.targets@, s);
    if ahead is Some {
        let k = choose|k: int| 0 <= k < t.targets@.len() && #[trigger] ahead_of(t.targets@[k] - s) == Some(ahead->0);
        assert(ahead_of(t.targets@[k] - s) matches Some(a) ==> a > d || a > t.warn_window);
    }
}

/// After the horn, a timing counts down `a` seconds to a target due in `a`
/// seconds, `a` within `warn_window`, when no target is due sooner and
/// every target that went by within `active_window` seconds did so at
/// least `a` seconds ago: "NOW!" at 0, else the seconds, urgent within
/// `active_window`, a warning within half of `warn_window`, else soon.
pub proof fn law_recurring_countdown(clock: int, t: RecurringTiming, j: int, a: int)
    requires
        clock >= 0,
        0 <= j < t.targets@.len(),
        ahead_of(t.targets@[j] - clock % 60) == Some(a),
        a <= t.warn_window,
        forall|k: int|
            0 <= k < t.targets@.len() ==> (#[trigger] ahead_of(t.targets@[k] - clock % 60) matches Some(
                b,
            ) ==> a <= b),
        forall|k: int|
            0 <= k < t.targets@.len() ==> (#[trigger] past_of(t.targets@[k] - clock % 60) matches Some(
                p,
            ) ==> p > t.active_window || a <= p),
    ensures
        recurring_slot(clock, t) == Some(
            ItemView {
                icon_file: t.icon_file@,
                name: t.name@,
                text: if a == 0 {
                    "NOW!"@
                } else {
                    decimal(a as nat) + seq!['s']
                },
                urgency: if a == 0 || a <= t.active_window {
                    Urgency::Urgent
                } else if a <= t.warn_window / 2 {
                    Urgency::Warning
                } else {
                    Urgency::Soon
                },
            },
        ),
{
    let s = clock % 60;
    law_nearest_past_is_least(t.targets@, s);
    law_nearest_ahead_is_least(t.targets@, s);
    assert(ahead_of(t.targets@[j] - s) is Some);
    let ahead = nearest_ahead(t.targets@, s);
    let k = choose|k: int| 0 <= k < t.targets@.len() && #[trigger] ahead_of(t.targets@[k] - s) == Some(ahead->0);
    assert(ahead->0 == a);
    let past = nearest_past(t.targets@, s);
    if past is Some {
        let q = choose|q: int| 0 <= q < t.targets@.len() && #[trigger] past_of(t.targets@[q] - s) == Some(past->0);
        assert(past_of(t.targets@[q] - s) matches Some(p) ==> p > t.active_window || a <= p);
    }
}

/// After the horn, a timing shows nothing while no target is due within
/// `warn_window` seconds and none went by within `active_window` seconds.
pub proof fn law_recurring_quiet(clock: int, t: RecurringTiming)
    requires
        clock >= 0,
        forall|k: int|
            0 <= k < t.targets@.len() ==> (#[trigger] ahead_of(t.targets@[k] - clock % 60) matches Some(
                a,
            ) ==> a > t.warn_window),
        forall|k: int|
            0 <= k < t.targets@.len() ==> (#[trigger] past_of(t.targets@[k] - clock % 60) matches Some(
                p,
            ) ==> p > t.active_window),
    ensures
        recurring_slot(clock, t) is None,
{
    let s = clock % 60;
    law_nearest_past_is_least(t.targets@, s);
    law_nearest_ahead_is_least(t.targets@, s);
    let ahead = nearest_ahead(t.targets@, s);
    if ahead is Some {
        let k = choose|k: int| 0 <= k < t.targets@.len() && #[trigger] ahead_of(t.targets@[k] - s) == Some(ahead->0);
        assert(ahead_of(t.targets@[k] - s) matches Some(a) ==> a > t.warn_window);
    }
    let past = nearest_past(t.targets@, s);
    if past is Some {
        let q = choose|q: int| 0 <= q < t.targets@.len() && #[trigger] past_of(t.targets@[q] - s) == Some(past->0);
        assert(past_of(t.targets@[q] - s) matches Some(p) ==> p > t.active_window);
    }
}

/// On a list that runs, as a list sorted by time does, from events more
/// than 3 s past (before `lo`), through those from 3 s past to 300 s ahead
/// (from `lo` to `hi`), to those farther ahead (from `hi` on), the events
/// shown are the first `room` of those in between, every one of them, in
/// list order, each as [`event_view`] says.
pub proof fn law_events_shown_are_the_window(
    evs: Seq<FlatEvent>,
    clock: int,
    room: int,
    lo: int,
    hi: int,
)
    requires
        0 <= lo <= hi <= evs.len(),
        room >= 0,
        forall|i: int| 0 <= i < lo ==> #[trigger] evs[i].time < clock - 3,
        forall|i: int| lo <= i < hi ==> clock - 3 <= #[trigger] evs[i].time <= clock + 300,
        forall|i: int| hi <= i < evs.len() ==> #[trigger] evs[i].time > clock + 300,
    ensures
        event_views(evs, clock, room) == evs.subrange(lo, lo + min(room, hi - lo)).map_values(
            |e: FlatEvent| event_view(clock, e),
        ),
    decreases evs.len(),
{
    if evs.len() == 0 {
        assert(evs.subrange(lo, lo + min(room, hi - lo)).map_values(|e: FlatEvent| event_view(clock, e))
            =~= Seq::<ItemView>::empty());
        return;
    }
    let rest = evs.drop_first();
    let e = evs[0];
    assert forall|i: int| 0 <= i < rest.len() implies #[trigger] rest[i] == evs[i + 1] by {}
    if lo > 0 {
        assert(e.time < clock - 3);
        assert forall|i: int| 0 <= i < lo - 1 implies #[trigger] rest[i].time < clock - 3 by {
            assert(rest[i] == evs[i + 1]);
        }
        assert forall|i: int| lo - 1 <= i < hi - 1 implies clock - 3 <= #[trigger] rest[i].time
            <= clock + 300 by {
            assert(rest[i] == evs[i + 1]);
        }
        assert forall|i: int| hi - 1 <= i < rest.len() implies #[trigger] rest[i].time > clock + 300 by {
            assert(rest[i] == evs[i + 1]);
        }
        law_events_shown_are_the_window(rest, clock, room, lo - 1, hi - 1);
        assert(evs.subrange(lo, lo + min(room, hi - lo)) =~= rest.subrange(
            lo - 1,
            lo - 1 + min(room, hi - lo),
        ));
    } else if hi == 0 || room == 0 {
        if hi == 0 {
            assert(e.time > clock + 300);
        }
        assert(evs.subrange(0, 0).map_values(|e: FlatEvent| event_view(clock, e))
            =~= Seq::<ItemView>::empty());
        if room > 0 {
            assert(e.time >= clock - 3);
        }
    } else {
        assert(clock - 3 <= e.time <= clock + 300);
        assert forall|i: int| 0 <= i < hi - 1 implies clock - 3 <= #[trigger] rest[i].time <= clock
            + 300 by {
            assert(rest[i] == evs[i + 1]);
        }
        assert forall|i: int| hi - 1 <= i < rest.len() implies #[trigger] rest[i].time > clock + 300 by {
            assert(rest[i] == evs[i + 1]);
        }
        law_events_shown_are_the_window(rest, clock, room - 1, 0, hi - 1);
        let n = min(room, hi);
        assert(min(room - 1, hi - 1) == n - 1);
        assert(evs.subrange(0, n).map_values(|e: FlatEvent| event_view(clock, e)) =~= seq![
            event_view(clock, e),
        ] + rest.subrange(0, n - 1).map_values(|e: FlatEvent| event_view(clock, e)));
    }
}

/// With an anchor and the game running, the clock shown `k` whole seconds
/// after the anchor's second began (at any local time from then until the
/// next second) is the anchor's reading plus `k`.
pub proof fn law_clock_counts_whole_seconds(anchor: (int, int), gs: GameState, now_ms: int, k: int)
    requires
        anchor.1 > 0,
        !gs.paused,
        k >= 0,
        anchor.1 + 1000 * k <= now_ms < anchor.1 + 1000 * (k + 1),
    ensures
        shown_clock(anchor, gs, now_ms) == anchor.0 + k,
{
    let e = now_ms - anchor.1;
    assert(e / 1000 == k) by (nonlinear_arith)
        requires
            1000 * k <= e < 1000 * (k + 1),
    ;
}

/// One frame per second: after a step that showed the second `c`, a step
/// that shows the same second again in a game makes no frame.
pub proof fn law_one_frame_per_second(
    s0: ClockState,
    s1: ClockState,
    s2: ClockState,
    gs1: GameState,
    gs2: GameState,
    events: Seq<FlatEvent>,
    recurring: Seq<RecurringTiming>,
    max_icons: int,
    now1: int,
    now2: int,
    r1: Option<DisplayFrame>,
    r2: Option<DisplayFrame>,
)
    requires
        tick_step(s0, s1, gs1, events, recurring, max_icons, now1, r1),
        tick_step(s1, s2, gs2, events, recurring, max_icons, now2, r2),
        r1 matches Some(f) && f.visible,
        is_in_game_phase(gs2.game_state@),
        shown_clock(anchor_after(s1, gs2, now2), gs2, now2) == shown_clock(
            anchor_after(s0, gs1, now1),
            gs1,
            now1,
        ),
    ensures
        r2 is None,
{
}

/// A step taken again with the same report, lists and local time, in a
/// game, makes no frame and leaves the clock as the first step left it.
pub proof fn law_repeated_step_is_idle(
    s0: ClockState,
    s1: ClockState,
    s2: ClockState,
    gs: GameState,
    events: Seq<FlatEvent>,
    recurring: Seq<RecurringTiming>,
    max_icons: int,
    now_ms: int,
    r1: Option<DisplayFrame>,
    r2: Option<DisplayFrame>,
)
    requires
        tick_step(s0, s1, gs, events, recurring, max_icons, now_ms, r1),
        tick_step(s1, s2, gs, events, recurring, max_icons, now_ms, r2),
        is_in_game_phase(gs.game_state@),
    ensures
        r2 is None,
        s2.anchor_clock() == s1.anchor_clock(),
        s2.anchor_local_ms() == s1.anchor_local_ms(),
        s2.last_clock() == s1.last_clock(),
{
}

/// While the game is paused the clock shown is the one that the report
/// gives.
pub proof fn law_paused_shows_report(s: ClockState, gs: GameState, now_ms: int)
    requires
        gs.paused,
    ensures
        shown_clock(anchor_after(s, gs, now_ms), gs, now_ms) == gs.clock_time,
{
}

/// Following a running game's report, the clock shown is within 2 s of the
/// reported clock, or it is the reported clock advanced by the whole
/// seconds since the reported second began (when the report re-anchored).
pub proof fn law_shown_clock_follows_report(s: ClockState, gs: GameState, now_ms: int)
    requires
        gs.received_at_ms > gs.subsecond_ms,
        !gs.paused,
    ensures
        ({
            let shown = shown_clock(anchor_after(s, gs, now_ms), gs, now_ms);
            ||| abs(shown - gs.clock_time) <= 2
            ||| shown == gs.clock_time + sat_sub(now_ms, gs.received_at_ms - gs.subsecond_ms) / 1000
        }),
{
}


/// Whether `x` is in [`in_clock_range`].
pub fn clock_value_in_range(x: i64) -> (r: bool)
    ensures
        r == in_clock_range(x as int),
{
    -0x3FC0_0000_0000_0000 <= x && x <= 0x3FC0_0000_0000_0000
}

/// Whether a recurring target is in [`target_in_range`].
pub fn target_value_in_range(t: i64) -> (r: bool)
    ensures
        r == target_in_range(t as int),
{
    i64::MIN + 120 <= t && t <= i64::MAX - 60
}

/// Whether a step of the clock can be taken on these inputs without
/// overflow: the report's clock is in [`in_clock_range`] and, in a game,
/// every recurring target in [`target_in_range`].
pub fn tick_inputs_in_range(gs: &GameState, recurring: &[RecurringTiming]) -> (r: bool)
    ensures
        r == (in_clock_range(gs.clock_time as int) && (is_in_game_phase(gs.game_state@)
            ==> timings_in_range(recurring@))),
{
    if !clock_value_in_range(gs.clock_time) {
        return false;
    }
    if !gs.in_game() {
        return true;
    }
    let mut j: usize = 0;
    while j < recurring.len()
        invariant
            j <= recurring@.len(),
            in_clock_range(gs.clock_time as int),
            is_in_game_phase(gs.game_state@),
            forall|a: int, b: int|
                0 <= a < j && 0 <= b < recurring@[a].targets@.len() ==> target_in_range(
                    #[trigger] recurring@[a].targets@[b] as int,
                ),
        decreases recurring@.len() - j,
    {
        let targets = &recurring[j].targets;
        let mut k: usize = 0;
        while k < targets.len()
            invariant
                k <= targets@.len(),
                in_clock_range(gs.clock_time as int),
                is_in_game_phase(gs.game_state@),
                j < recurring@.len(),
                *targets == recurring@[j as int].targets,
                forall|b: int| 0 <= b < k ==> target_in_range(#[trigger] targets@[b] as int),
            decreases targets@.len() - k,
        {
            if !target_value_in_range(targets[k]) {
                return false;
            }
            k = k + 1;
        }
        j = j + 1;
    }
    true
}

} // verus!
