//! The overlay's icon files, and picking an icon's image data by file name.

use crate::text::str_eq;
use vstd::prelude::*;

verus! {

/// How many icon files the overlay knows.
pub const ICON_COUNT: usize = 14;

/// The file name of icon `i`.
pub open spec fn icon_file_name(i: int) -> Seq<char> {
    if i == 0 {
        "bounty_rune.png"@
    } else if i == 1 {
        "water_rune.png"@
    } else if i == 2 {
        "power_rune.png"@
    } else if i == 3 {
        "lotus_pool.png"@
    } else if i == 4 {
        "wisdom_shrine.png"@
    } else if i == 5 {
        "outpost.png"@
    } else if i == 6 {
        "night.png"@
    } else if i == 7 {
        "day.png"@
    } else if i == 8 {
        "tormentor.png"@
    } else if i == 9 {
        "neutral_item.png"@
    } else if i == 10 {
        "siege_creep.png"@
    } else if i == 11 {
        "roshan.png"@
    } else if i == 12 {
        "pull.png"@
    } else {
        "stack.png"@
    }
}

/// The first icon from `j` on whose file name is `name`; icon 0 (the bounty
/// rune) when there is none.
pub open spec fn icon_slot_from(name: Seq<char>, j: int) -> int
    decreases 14 - j,
{
    if j >= 14 || j < 0 {
        0
    } else if name == icon_file_name(j) {
        j
    } else {
        icon_slot_from(name, j + 1)
    }
}

/// The icon whose file name is `name`, or the bounty rune's for an unknown
/// name.
pub open spec fn icon_slot(name: Seq<char>) -> int {
    icon_slot_from(name, 0)
}

/// The file name of icon `i`.
pub fn icon_file(i: usize) -> (r: &'static str)
    requires
        i < ICON_COUNT,
    ensures
        r@ == icon_file_name(i as int),
{
    if i == 0 {
        "bounty_rune.png"
    } else if i == 1 {
        "water_rune.png"
    } else if i == 2 {
        "power_rune.png"
    } else if i == 3 {
        "lotus_pool.png"
    } else if i == 4 {
        "wisdom_shrine.png"
    } else if i == 5 {
        "outpost.png"
    } else if i == 6 {
        "night.png"
    } else if i == 7 {
        "day.png"
    } else if i == 8 {
        "tormentor.png"
    } else if i == 9 {
        "neutral_item.png"
    } else if i == 10 {
        "siege_creep.png"
    } else if i == 11 {
        "roshan.png"
    } else if i == 12 {
        "pull.png"
    } else {
        "stack.png"
    }
}

/// The icon that `name` selects, as [`icon_slot`] says.
pub fn icon_index(name: &str) -> (i: usize)
    ensures
        i == icon_slot(name@),
        i < ICON_COUNT,
{
    let mut j: usize = 0;
    while j < ICON_COUNT
        invariant
            j <= ICON_COUNT,
            icon_slot(name@) == icon_slot_from(name@, j as int),
        decreases ICON_COUNT - j,
    {
        if str_eq(name, icon_file(j)) {
            return j;
        }
        j = j + 1;
    }
    0
}

/// The image data of the icon that `name` selects, from `icons`, which holds
/// the data of each icon in order.
pub fn bytes<'a>(icons: &'a [Vec<u8>], name: &str) -> (r: &'a [u8])
    requires
        icons@.len() == ICON_COUNT,
    ensures
        r@ == icons@[icon_slot(name@)]@,
{
    let i = icon_index(name);
    icons[i].as_slice()
}


proof fn lemma_icon_names_differ(i: int, k: int)
    requires
        0 <= i < ICON_COUNT,
        0 <= k < ICON_COUNT,
        i != k,
    ensures
        icon_file_name(i) != icon_file_name(k),
{
    reveal_strlit("bounty_rune.png");
    reveal_strlit("water_rune.png");
    reveal_strlit("power_rune.png");
    reveal_strlit("lotus_pool.png");
    reveal_strlit("wisdom_shrine.png");
    reveal_strlit("outpost.png");
    reveal_strlit("night.png");
    reveal_strlit("day.png");
    reveal_strlit("tormentor.png");
    reveal_strlit("neutral_item.png");
    reveal_strlit("siege_creep.png");
    reveal_strlit("roshan.png");
    reveal_strlit("pull.png");
    reveal_strlit("stack.png");
    // No two names share both their length and their first character.
    assert(icon_file_name(i).len() != icon_file_name(k).len() || icon_file_name(i)[0]
        != icon_file_name(k)[0]);
}

proof fn lemma_slot_from(i: int, j: int)
    requires
        0 <= j <= i < ICON_COUNT,
    ensures
        icon_slot_from(icon_file_name(i), j) == i,
    decreases i - j,
{
    if j < i {
        lemma_icon_names_differ(i, j);
        lemma_slot_from(i, j + 1);
    }
}

/// Each icon's file name selects that icon: the names are distinct.
pub proof fn law_icon_names_select_their_icon(i: int)
    requires
        0 <= i < ICON_COUNT,
    ensures
        icon_slot(icon_file_name(i)) == i,
{
    lemma_slot_from(i, 0);
}

} // verus!
