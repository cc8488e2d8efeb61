//! How a frame is laid out on screen: style classes and colours per urgency,
//! the overlay window's size and position, and where each item is drawn.

use crate::clock::{DisplayFrame, DisplayItem, Urgency};
use crate::config::Corner;
use vstd::prelude::*;

verus! {

/// The style class that draws an item of urgency `u`.
pub open spec fn css_class(u: Urgency) -> Seq<char> {
    match u {
        Urgency::Urgent => "urgent"@,
        Urgency::Warning => "warning"@,
        Urgency::Soon => "soon"@,
        Urgency::Passed => "passed"@,
        Urgency::Dimmed => "dimmed"@,
    }
}

/// The style class that draws an item of urgency `u`.
pub fn urgency_css(u: &Urgency) -> (r: &'static str)
    ensures
        r@ == css_class(*u),
{
    match u {
        Urgency::Urgent => "urgent",
        Urgency::Warning => "warning",
        Urgency::Soon => "soon",
        Urgency::Passed => "passed",
        Urgency::Dimmed => "dimmed",
    }
}

/// The background colour (0x00BBGGRR) of an item: red when urgent, amber
/// for a warning, near-black otherwise.
pub fn background_color(u: &Urgency) -> (c: u32)
    ensures
        c == (match *u {
            Urgency::Urgent => 0x001E1EB4u32,
            Urgency::Warning => 0x000A648Cu32,
            _ => 0x00140A0Au32,
        }),
{
    match u {
        Urgency::Urgent => 0x001E1EB4,
        Urgency::Warning => 0x000A648C,
        _ => 0x00140A0A,
    }
}

/// The countdown text colour (0x00BBGGRR) of an item.
pub fn text_color(u: &Urgency) -> (c: u32)
    ensures
        c == (match *u {
            Urgency::Urgent => 0x004444FFu32,
            Urgency::Warning => 0x0000AAFFu32,
            Urgency::Soon => 0x0044CC88u32,
            Urgency::Passed => 0x00666666u32,
            Urgency::Dimmed => 0x00888888u32,
        }),
{
    match u {
        Urgency::Urgent => 0x004444FF,
        Urgency::Warning => 0x0000AAFF,
        Urgency::Soon => 0x0044CC88,
        Urgency::Passed => 0x00666666,
        Urgency::Dimmed => 0x00888888,
    }
}

/// The window's extent along the row of items: `total` items of
/// `icon_size + 16` pixels each, but at least 200. (`total` is the item
/// count taken as an `i32`.)
pub open spec fn row_extent(icon_size: int, total: int) -> int {
    let e = (icon_size + 16) * total;
    if e > 200 {
        e
    } else {
        200
    }
}

/// The size (width, height) of a window holding `total_items` items of
/// `icon_size` pixels, in a row or, when `vertical`, a column.
pub fn window_size(icon_size: i32, total_items: usize, vertical: bool) -> (r: (i32, i32))
    requires
        icon_size + 60 <= i32::MAX,
        i32::MIN <= (icon_size + 16) * (total_items as i32) <= i32::MAX,
    ensures
        vertical ==> r.0 == icon_size + 60 && r.1 == row_extent(
            icon_size as int,
            (total_items as i32) as int,
        ),
        !vertical ==> r.0 == row_extent(icon_size as int, (total_items as i32) as int) && r.1
            == icon_size + 60,
{
    let item_extent = icon_size + 16;
    let item_depth = icon_size + 60;
    let along = item_extent * (total_items as i32);
    let along = if along > 200 {
        along
    } else {
        200
    };
    if vertical {
        (item_depth, along)
    } else {
        (along, item_depth)
    }
}

/// The top-left corner of a `window_w` by `window_h` window placed in
/// `corner` of a `screen_w` by `screen_h` screen, kept the margins away
/// from the screen edges it is anchored to.
pub open spec fn window_origin_spec(
    corner: Corner,
    margin_top: int,
    margin_right: int,
    margin_bottom: int,
    margin_left: int,
    screen_w: int,
    screen_h: int,
    window_w: int,
    window_h: int,
) -> (int, int) {
    match corner {
        Corner::BottomLeft => (margin_left, screen_h - window_h - margin_bottom),
        Corner::TopRight => (screen_w - window_w - margin_right, margin_top),
        Corner::TopLeft => (margin_left, margin_top),
        Corner::BottomRight => (screen_w - window_w - margin_right, screen_h - window_h - margin_bottom),
    }
}

/// Where the window goes, as [`window_origin_spec`] says.
pub fn window_origin(
    corner: Corner,
    margin_top: i32,
    margin_right: i32,
    margin_bottom: i32,
    margin_left: i32,
    screen_w: i32,
    screen_h: i32,
    window_w: i32,
    window_h: i32,
) -> (r: (i32, i32))
    requires
        !corner.is_left() ==> i32::MIN <= screen_w - window_w <= i32::MAX && i32::MIN
            <= screen_w - window_w - margin_right <= i32::MAX,
        !corner.is_top() ==> i32::MIN <= screen_h - window_h <= i32::MAX && i32::MIN
            <= screen_h - window_h - margin_bottom <= i32::MAX,
    ensures
        (r.0 as int, r.1 as int) == window_origin_spec(
            corner,
            margin_top as int,
            margin_right as int,
            margin_bottom as int,
            margin_left as int,
            screen_w as int,
            screen_h as int,
            window_w as int,
            window_h as int,
        ),
{
    match corner {
        Corner::BottomLeft => (margin_left, screen_h - window_h - margin_bottom),
        Corner::TopRight => (screen_w - window_w - margin_right, margin_top),
        Corner::TopLeft => (margin_left, margin_top),
        Corner::BottomRight => (screen_w - window_w - margin_right, screen_h - window_h - margin_bottom),
    }
}

/// Where the parts of one item go, for an item whose top-left corner is at
/// `(x, y)`: its background box, the corner of its icon, the box of its
/// countdown text and the box of its name, boxes as (left, top, right,
/// bottom).
pub struct ItemRects {
    pub background: (i32, i32, i32, i32),
    pub icon: (i32, i32),
    pub countdown: (i32, i32, i32, i32),
    pub name: (i32, i32, i32, i32),
}

pub open spec fn fits_i32(v: int) -> bool {
    i32::MIN <= v <= i32::MAX
}

/// The boxes of an item at `(x, y)` with `icon_size` pixel icons: a
/// background `icon_size + 12` wide and `icon_size + 40` high; the icon 6
/// pixels in and 2 down; the countdown in the band from `icon_size + 2` to
/// `icon_size + 20` below the top; the name from `icon_size + 18` to
/// `icon_size + 36`.
pub fn item_rects(x: i32, y: i32, icon_size: i32) -> (r: ItemRects)
    requires
        fits_i32(x + icon_size),
        fits_i32(x + icon_size + 12),
        fits_i32(y + icon_size),
        fits_i32(y + icon_size + 40),
        fits_i32(y + icon_size + 2),
        x + 6 <= i32::MAX,
        y + 2 <= i32::MAX,
    ensures
        r.background == (x, y, (x + icon_size + 12) as i32, (y + icon_size + 40) as i32),
        r.icon == ((x + 6) as i32, (y + 2) as i32),
        r.countdown == (x, (y + icon_size + 2) as i32, (x + icon_size + 12) as i32, (y + icon_size
            + 20) as i32),
        r.name == (x, (y + icon_size + 18) as i32, (x + icon_size + 12) as i32, (y + icon_size
            + 36) as i32),
{
    let right = x + icon_size + 12;
    ItemRects {
        background: (x, y, right, y + icon_size + 40),
        icon: (x + 6, y + 2),
        countdown: (x, y + icon_size + 2, right, y + icon_size + 20),
        name: (x, y + icon_size + 18, right, y + icon_size + 36),
    }
}

/// How many items of a frame are drawn: the filled recurring slots, then
/// every event.
pub open spec fn drawn_count(slots: Seq<Option<DisplayItem>>, events: Seq<DisplayItem>) -> int {
    (filled_slots(slots).len() + events.len()) as int
}

/// The filled slots among `slots`.
pub open spec fn filled_slots(slots: Seq<Option<DisplayItem>>) -> Seq<Option<DisplayItem>> {
    slots.filter(|o: Option<DisplayItem>| o is Some)
}

/// The top-left corners at which the drawn items of a frame go, in drawing
/// order (filled recurring slots, then events): the first at (4, 4), each
/// next one `icon_size + 16` pixels further right, or further down when
/// `vertical`.
pub open spec fn item_origin(k: int, icon_size: int, vertical: bool) -> (i32, i32) {
    let step = icon_size + 16;
    if vertical {
        (4i32, (4 + k * step) as i32)
    } else {
        ((4 + k * step) as i32, 4i32)
    }
}

proof fn lemma_step_between(k: int, n: int, step: int)
    requires
        0 <= k <= n,
    ensures
        step >= 0 ==> 0 <= k * step <= n * step,
        step < 0 ==> n * step <= k * step <= 0,
{
    if step >= 0 {
        assert(0 <= k * step <= n * step) by (nonlinear_arith)
            requires
                0 <= k <= n,
                step >= 0,
        ;
    } else {
        assert(n * step <= k * step <= 0) by (nonlinear_arith)
            requires
                0 <= k <= n,
                step < 0,
        ;
    }
}

/// The positions of the drawn items of `frame`, as [`item_origin`] says.
pub fn item_origins(frame: &DisplayFrame, icon_size: i32, vertical: bool) -> (r: Vec<(i32, i32)>)
    requires
        icon_size <= i32::MAX - 16,
        i32::MIN <= 4 + drawn_count(frame.recurring@, frame.events@) * (icon_size + 16) <= i32::MAX,
    ensures
        r@.len() == drawn_count(frame.recurring@, frame.events@),
        forall|k: int| 0 <= k < r@.len() ==> #[trigger] r@[k] == item_origin(k, icon_size as int, vertical),
{
    let step = icon_size + 16;
    let mut out: Vec<(i32, i32)> = Vec::new();
    let mut x: i32 = 4;
    let mut y: i32 = 4;
    let mut i: usize = 0;
    assert(filled_slots(frame.recurring@.take(0)) =~= Seq::<Option<DisplayItem>>::empty()) by {
        reveal(Seq::filter);
    }
    while i < frame.recurring.len()
        invariant
            i <= frame.recurring@.len(),
            step == icon_size + 16,
            i32::MIN <= 4 + drawn_count(frame.recurring@, frame.events@) * step <= i32::MAX,
            out@.len() == filled_slots(frame.recurring@.take(i as int)).len(),
            out@.len() <= i,
            forall|k: int| 0 <= k < out@.len() ==> #[trigger] out@[k] == item_origin(k, icon_size as int, vertical),
            vertical ==> x == 4 && y == 4 + out@.len() * step,
            !vertical ==> y == 4 && x == 4 + out@.len() * step,
        decreases frame.recurring@.len() - i,
    {
        proof {
            reveal(Seq::filter);
            let all = frame.recurring@;
            assert(all.take(i + 1).drop_last() == all.take(i as int));
            assert(all == all.take(i + 1) + all.skip(i + 1));
            Seq::filter_distributes_over_add(
                all.take(i + 1),
                all.skip(i + 1),
                |o: Option<DisplayItem>| o is Some,
            );
            let d = drawn_count(frame.recurring@, frame.events@);
            assert(all[i as int] is Some ==> out@.len() + 1 <= d);
            if all[i as int] is Some {
                lemma_step_between(out@.len() + 1 as int, d, step as int);
            }
            assert(out@.len() * step + step == (out@.len() + 1) * step) by (nonlinear_arith);
        }
        if frame.recurring[i].is_some() {
            out.push((x, y));
            if vertical {
                y = y + step;
            } else {
                x = x + step;
            }
        }
        i = i + 1;
    }
    assert(frame.recurring@.take(frame.recurring@.len() as int) == frame.recurring@);
    let ghost slots = out@.len();
    let mut j: usize = 0;
    while j < frame.events.len()
        invariant
            j <= frame.events@.len(),
            step == icon_size + 16,
            i32::MIN <= 4 + drawn_count(frame.recurring@, frame.events@) * step <= i32::MAX,
            out@.len() == slots + j,
            slots == filled_slots(frame.recurring@).len(),
            forall|k: int| 0 <= k < out@.len() ==> #[trigger] out@[k] == item_origin(k, icon_size as int, vertical),
            vertical ==> x == 4 && y == 4 + out@.len() * step,
            !vertical ==> y == 4 && x == 4 + out@.len() * step,
        decreases frame.events@.len() - j,
    {
        proof {
            lemma_step_between(
                out@.len() + 1 as int,
                drawn_count(frame.recurring@, frame.events@),
                step as int,
            );
            assert(out@.len() * step + step == (out@.len() + 1) * step) by (nonlinear_arith);
        }
        out.push((x, y));
        if vertical {
            y = y + step;
        } else {
            x = x + step;
        }
        j = j + 1;
    }
    out
}

} // verus!
