use vstd::prelude::*;

verus! {

/// Margins of the wallpaper grid, each a percentage of the screen's width
/// (left, right) or height (top, bottom).
#[derive(Debug, Clone, Copy, PartialEq, Eq)]
pub struct LayoutSettings {
    pub left_margin: u8,
    pub right_margin: u8,
    pub top_margin: u8,
    pub bottom_margin: u8,
}

/// `v` clamped into `[lo, hi]` (with `lo <= hi`).
pub open spec fn clamp_spec(v: u8, lo: u8, hi: u8) -> u8 {
    if v < lo {
        lo
    } else if v > hi {
        hi
    } else {
        v
    }
}

fn clamp_u8(v: u8, lo: u8, hi: u8) -> (r: u8)
    requires
        lo <= hi,
    ensures
        r == clamp_spec(v, lo, hi),
{
    if v < lo {
        lo
    } else if v > hi {
        hi
    } else {
        v
    }
}

impl LayoutSettings {
    pub const MIN_LEFT_MARGIN: u8 = 8;
    pub const MAX_LEFT_MARGIN: u8 = 32;
    pub const MIN_RIGHT_MARGIN: u8 = 1;
    pub const MAX_RIGHT_MARGIN: u8 = 12;
    pub const MIN_TOP_MARGIN: u8 = 3;
    pub const MAX_TOP_MARGIN: u8 = 18;
    pub const MIN_BOTTOM_MARGIN: u8 = 3;
    pub const MAX_BOTTOM_MARGIN: u8 = 18;

    /// The layout with each margin clamped into its supported range.
    pub open spec fn normalized_spec(self) -> Self {
        LayoutSettings {
            left_margin: clamp_spec(self.left_margin, Self::MIN_LEFT_MARGIN, Self::MAX_LEFT_MARGIN),
            right_margin: clamp_spec(
                self.right_margin,
                Self::MIN_RIGHT_MARGIN,
                Self::MAX_RIGHT_MARGIN,
            ),
            top_margin: clamp_spec(self.top_margin, Self::MIN_TOP_MARGIN, Self::MAX_TOP_MARGIN),
            bottom_margin: clamp_spec(
                self.bottom_margin,
                Self::MIN_BOTTOM_MARGIN,
                Self::MAX_BOTTOM_MARGIN,
            ),
        }
    }

    /// Every margin lies in its supported range.
    pub open spec fn in_range(self) -> bool {
        &&& Self::MIN_LEFT_MARGIN <= self.left_margin <= Self::MAX_LEFT_MARGIN
        &&& Self::MIN_RIGHT_MARGIN <= self.right_margin <= Self::MAX_RIGHT_MARGIN
        &&& Self::MIN_TOP_MARGIN <= self.top_margin <= Self::MAX_TOP_MARGIN
        &&& Self::MIN_BOTTOM_MARGIN <= self.bottom_margin <= Self::MAX_BOTTOM_MARGIN
    }

    /// The layout used when nothing was configured.
    pub open spec fn default_spec() -> Self {
        LayoutSettings { left_margin: 16, right_margin: 2, top_margin: 6, bottom_margin: 10 }
    }

    pub fn normalized(self) -> (r: Self)
        ensures
            r == self.normalized_spec(),
            r.in_range(),
    {
        LayoutSettings {
            left_margin: clamp_u8(self.left_margin, Self::MIN_LEFT_MARGIN, Self::MAX_LEFT_MARGIN),
            right_margin: clamp_u8(
                self.right_margin,
                Self::MIN_RIGHT_MARGIN,
                Self::MAX_RIGHT_MARGIN,
            ),
            top_margin: clamp_u8(self.top_margin, Self::MIN_TOP_MARGIN, Self::MAX_TOP_MARGIN),
            bottom_margin: clamp_u8(
                self.bottom_margin,
                Self::MIN_BOTTOM_MARGIN,
                Self::MAX_BOTTOM_MARGIN,
            ),
        }
    }
}

impl Default for LayoutSettings {
    fn default() -> (r: Self)
        ensures
            r == LayoutSettings::default_spec(),
    {
        LayoutSettings {
            left_margin: default_left_margin(),
            right_margin: default_right_margin(),
            top_margin: default_top_margin(),
            bottom_margin: default_bottom_margin(),
        }
    }
}

/// Default left safe zone for desktop icons, in percent of the width.
pub fn default_left_margin() -> (r: u8)
    ensures
        r == 16,
{
    16
}

/// Default right margin, in percent of the width.
pub fn default_right_margin() -> (r: u8)
    ensures
        r == 2,
{
    2
}

/// Default top margin, in percent of the height.
pub fn default_top_margin() -> (r: u8)
    ensures
        r == 6,
{
    6
}

/// Default bottom margin, in percent of the height.
pub fn default_bottom_margin() -> (r: u8)
    ensures
        r == 10,
{
    10
}

/// Normalizing is idempotent, keeps a layout that is already in range, and
/// always lands in range.
pub proof fn lemma_normalized_idempotent(layout: LayoutSettings)
    ensures
        layout.normalized_spec().in_range(),
        layout.normalized_spec().normalized_spec() == layout.normalized_spec(),
        layout.in_range() ==> layout.normalized_spec() == layout,
{
}

/// Normalizing moves each margin to the nearest value of its supported range:
/// no value of the range is closer to the one given.
pub proof fn lemma_normalized_is_nearest(layout: LayoutSettings, u: u8)
    ensures
        LayoutSettings::MIN_LEFT_MARGIN <= u <= LayoutSettings::MAX_LEFT_MARGIN ==> dist(
            layout.normalized_spec().left_margin,
            layout.left_margin,
        ) <= dist(u, layout.left_margin),
        LayoutSettings::MIN_RIGHT_MARGIN <= u <= LayoutSettings::MAX_RIGHT_MARGIN ==> dist(
            layout.normalized_spec().right_margin,
            layout.right_margin,
        ) <= dist(u, layout.right_margin),
        LayoutSettings::MIN_TOP_MARGIN <= u <= LayoutSettings::MAX_TOP_MARGIN ==> dist(
            layout.normalized_spec().top_margin,
            layout.top_margin,
        ) <= dist(u, layout.top_margin),
        LayoutSettings::MIN_BOTTOM_MARGIN <= u <= LayoutSettings::MAX_BOTTOM_MARGIN ==> dist(
            layout.normalized_spec().bottom_margin,
            layout.bottom_margin,
        ) <= dist(u, layout.bottom_margin),
{
}

/// The distance between two margin values.
pub open spec fn dist(a: u8, b: u8) -> int {
    if a >= b {
        a - b
    } else {
        b - a
    }
}

/// The default layout is already within the supported ranges.
pub proof fn lemma_default_in_range()
    ensures
        LayoutSettings::default_spec().in_range(),
        LayoutSettings::default_spec().normalized_spec() == LayoutSettings::default_spec(),
{
}

} // verus!
