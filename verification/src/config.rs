//! Where the overlay sits on screen and how many icons it shows.

use crate::text::str_eq;
use vstd::prelude::*;

verus! {

/// The overlay's placement and size.
#[derive(Debug)]
pub struct Config {
    /// The screen corner: "bottom-right", "bottom-left", "top-right" or
    /// "top-left"; anything else means bottom-right.
    pub anchor: String,
    pub margin_bottom: i32,
    pub margin_right: i32,
    pub margin_top: i32,
    pub margin_left: i32,
    pub icon_size: i32,
    pub max_icons: usize,
}

pub fn default_anchor() -> (s: String)
    ensures
        s@ == "bottom-right"@,
{
    String::from_str("bottom-right")
}

pub fn default_margin_bottom() -> (m: i32)
    ensures
        m == 10,
{
    10
}

pub fn default_margin_right() -> (m: i32)
    ensures
        m == 470,
{
    470
}

pub fn default_icon_size() -> (s: i32)
    ensures
        s == 40,
{
    40
}

pub fn default_max_icons() -> (n: usize)
    ensures
        n == 10,
{
    10
}

impl Default for Config {
    /// Bottom-right corner, 10 px from the bottom and 470 px from the right,
    /// 40 px icons, at most 10 event icons.
    fn default() -> (c: Config)
        ensures
            c.anchor@ == "bottom-right"@,
            c.margin_bottom == 10,
            c.margin_right == 470,
            c.margin_top == 0,
            c.margin_left == 0,
            c.icon_size == 40,
            c.max_icons == 10,
    {
        Config {
            anchor: default_anchor(),
            margin_bottom: default_margin_bottom(),
            margin_right: default_margin_right(),
            margin_top: 0,
            margin_left: 0,
            icon_size: default_icon_size(),
            max_icons: default_max_icons(),
        }
    }
}

/// A corner of the screen.
#[derive(Clone, Copy, Debug, PartialEq, Eq, Structural)]
pub enum Corner {
    BottomRight,
    BottomLeft,
    TopRight,
    TopLeft,
}

/// The corner that an anchor name selects; unknown names select the
/// bottom-right corner.
pub open spec fn corner_of(name: Seq<char>) -> Corner {
    if name == "bottom-left"@ {
        Corner::BottomLeft
    } else if name == "top-right"@ {
        Corner::TopRight
    } else if name == "top-left"@ {
        Corner::TopLeft
    } else {
        Corner::BottomRight
    }
}

impl Corner {
    pub open spec fn spec_is_top(self) -> bool {
        self is TopRight || self is TopLeft
    }

    pub open spec fn spec_is_left(self) -> bool {
        self is BottomLeft || self is TopLeft
    }

    /// Whether the corner is on the top edge of the screen.
    #[verifier::when_used_as_spec(spec_is_top)]
    pub fn is_top(self) -> (r: bool)
        ensures
            r == self.spec_is_top(),
    {
        match self {
            Corner::TopRight | Corner::TopLeft => true,
            _ => false,
        }
    }

    /// Whether the corner is on the left edge of the screen.
    #[verifier::when_used_as_spec(spec_is_left)]
    pub fn is_left(self) -> (r: bool)
        ensures
            r == self.spec_is_left(),
    {
        match self {
            Corner::BottomLeft | Corner::TopLeft => true,
            _ => false,
        }
    }
}

impl Config {
    /// The corner that `anchor` names.
    pub fn corner(&self) -> (c: Corner)
        ensures
            c == corner_of(self.anchor@),
    {
        let name = self.anchor.as_str();
        if str_eq(name, "bottom-left") {
            Corner::BottomLeft
        } else if str_eq(name, "top-right") {
            Corner::TopRight
        } else if str_eq(name, "top-left") {
            Corner::TopLeft
        } else {
            Corner::BottomRight
        }
    }
}

} // verus!
