use vstd::prelude::*;

use vstd::string::StringSliceAdditionalSpecFns;

use crate::date::CalendarDate;
use crate::layout::LayoutSettings;
use crate::text::push_char;
use crate::theme::{
    BuiltinTheme, CustomTheme, Palette, Theme, builtin_label, builtin_of, custom_theme_error,
    custom_theme_valid, is_hex_color, is_hex_digit, lemma_builtin_themes_valid, theme_colors,
};

verus! {

// ---------------------------------------------------------------------------
// Rectangles and hit targets
/// A screen rectangle; `right` and `bottom` are exclusive.
#[derive(Debug, Clone, Copy, Default, PartialEq, Eq, Structural)]
pub struct Rect {
    pub left: i32,
    pub top: i32,
    pub right: i32,
    pub bottom: i32,
}

/// Whether the point `(x, y)` lies in `r`.
pub open spec fn rect_contains(r: Rect, x: int, y: int) -> bool {
    r.left <= x < r.right && r.top <= y < r.bottom
}

impl Rect {
    pub fn new(left: i32, top: i32, right: i32, bottom: i32) -> (r: Self)
        ensures
            r == (Rect { left, top, right, bottom }),
    {
        Self { left, top, right, bottom }
    }

    pub fn width(self) -> (r: i32)
        requires
            i32::MIN <= self.right - self.left <= i32::MAX,
        ensures
            r == self.right - self.left,
    {
        self.right - self.left
    }

    pub fn height(self) -> (r: i32)
        requires
            i32::MIN <= self.bottom - self.top <= i32::MAX,
        ensures
            r == self.bottom - self.top,
    {
        self.bottom - self.top
    }

    pub fn contains(self, x: i32, y: i32) -> (r: bool)
        ensures
            r == rect_contains(self, x as int, y as int),
    {
        x >= self.left && x < self.right && y >= self.top && y < self.bottom
    }
}

/// The four margins of the layout, in the order of their sliders.
#[derive(Debug, Clone, Copy, PartialEq, Eq, Structural)]
pub enum MarginField {
    Left,
    Right,
    Top,
    Bottom,
}

/// The supported range of a margin.
pub open spec fn margin_range(f: MarginField) -> (u8, u8) {
    match f {
        MarginField::Left => (LayoutSettings::MIN_LEFT_MARGIN, LayoutSettings::MAX_LEFT_MARGIN),
        MarginField::Right => (LayoutSettings::MIN_RIGHT_MARGIN, LayoutSettings::MAX_RIGHT_MARGIN),
        MarginField::Top => (LayoutSettings::MIN_TOP_MARGIN, LayoutSettings::MAX_TOP_MARGIN),
        MarginField::Bottom => (LayoutSettings::MIN_BOTTOM_MARGIN, LayoutSettings::MAX_BOTTOM_MARGIN),
    }
}

/// The value of a margin in a layout.
pub open spec fn margin_value(f: MarginField, l: LayoutSettings) -> u8 {
    match f {
        MarginField::Left => l.left_margin,
        MarginField::Right => l.right_margin,
        MarginField::Top => l.top_margin,
        MarginField::Bottom => l.bottom_margin,
    }
}

/// A layout with one margin replaced.
pub open spec fn with_margin(f: MarginField, l: LayoutSettings, v: u8) -> LayoutSettings {
    match f {
        MarginField::Left => LayoutSettings { left_margin: v, ..l },
        MarginField::Right => LayoutSettings { right_margin: v, ..l },
        MarginField::Top => LayoutSettings { top_margin: v, ..l },
        MarginField::Bottom => LayoutSettings { bottom_margin: v, ..l },
    }
}

impl MarginField {
    /// Every margin with its slider label.
    pub const ALL: [(Self, &'static str); 4] = [
        (Self::Left, "左侧安全区"),
        (Self::Right, "右侧边距"),
        (Self::Top, "上边距"),
        (Self::Bottom, "下边距"),
    ];

    /// The supported range of this margin, as (minimum, maximum).
    pub fn range(self) -> (r: (u8, u8))
        ensures
            r == margin_range(self),
            r.0 < r.1,
    {
        match self {
            Self::Left => (LayoutSettings::MIN_LEFT_MARGIN, LayoutSettings::MAX_LEFT_MARGIN),
            Self::Right => (LayoutSettings::MIN_RIGHT_MARGIN, LayoutSettings::MAX_RIGHT_MARGIN),
            Self::Top => (LayoutSettings::MIN_TOP_MARGIN, LayoutSettings::MAX_TOP_MARGIN),
            Self::Bottom => (LayoutSettings::MIN_BOTTOM_MARGIN, LayoutSettings::MAX_BOTTOM_MARGIN),
        }
    }

    /// This margin's value in `layout`.
    pub fn value(self, layout: LayoutSettings) -> (r: u8)
        ensures
            r == margin_value(self, layout),
    {
        match self {
            Self::Left => layout.left_margin,
            Self::Right => layout.right_margin,
            Self::Top => layout.top_margin,
            Self::Bottom => layout.bottom_margin,
        }
    }

    /// Sets this margin in `layout` to `value`, leaving the others.
    pub fn set(self, layout: &mut LayoutSettings, value: u8)
        ensures
            *final(layout) == with_margin(self, *old(layout), value),
    {
        match self {
            Self::Left => layout.left_margin = value,
            Self::Right => layout.right_margin = value,
            Self::Top => layout.top_margin = value,
            Self::Bottom => layout.bottom_margin = value,
        }
    }
}

/// The eleven palette colors, in editor order.
#[derive(Debug, Clone, Copy, PartialEq, Eq, Structural)]
pub enum PaletteField {
    Paper,
    Gutter,
    Card,
    CurrentCard,
    Ink,
    Soft,
    Muted,
    Accent,
    AccentSoft,
    Line,
    Footer,
}

/// The position of a palette field in the palette's view.
pub open spec fn field_index(f: PaletteField) -> int {
    match f {
        PaletteField::Paper => 0,
        PaletteField::Gutter => 1,
        PaletteField::Card => 2,
        PaletteField::CurrentCard => 3,
        PaletteField::Ink => 4,
        PaletteField::Soft => 5,
        PaletteField::Muted => 6,
        PaletteField::Accent => 7,
        PaletteField::AccentSoft => 8,
        PaletteField::Line => 9,
        PaletteField::Footer => 10,
    }
}

impl PaletteField {
    /// Every palette field with its editor label.
    pub const ALL: [(Self, &'static str); 11] = [
        (Self::Paper, "主背景"),
        (Self::Gutter, "图标区"),
        (Self::Card, "月卡"),
        (Self::CurrentCard, "当月卡"),
        (Self::Ink, "正文"),
        (Self::Soft, "辅助文字"),
        (Self::Muted, "次级文字"),
        (Self::Accent, "今日高亮"),
        (Self::AccentSoft, "周末"),
        (Self::Line, "分隔线"),
        (Self::Footer, "页脚"),
    ];

    /// This field's color in `palette`.
    pub fn color(self, palette: &Palette) -> (r: &str)
        ensures
            r@ == palette@[field_index(self)],
    {
        match self {
            Self::Paper => palette.paper.as_str(),
            Self::Gutter => palette.gutter.as_str(),
            Self::Card => palette.card.as_str(),
            Self::CurrentCard => palette.current_card.as_str(),
            Self::Ink => palette.ink.as_str(),
            Self::Soft => palette.soft.as_str(),
            Self::Muted => palette.muted.as_str(),
            Self::Accent => palette.accent.as_str(),
            Self::AccentSoft => palette.accent_soft.as_str(),
            Self::Line => palette.line.as_str(),
            Self::Footer => palette.footer.as_str(),
        }
    }

    /// Replaces this field's color in `palette`, leaving the others.
    pub fn set_color(self, palette: &mut Palette, value: String)
        ensures
            final(palette)@ == old(palette)@.update(field_index(self), value@),
    {
        match self {
            Self::Paper => palette.paper = value,
            Self::Gutter => palette.gutter = value,
            Self::Card => palette.card = value,
            Self::CurrentCard => palette.current_card = value,
            Self::Ink => palette.ink = value,
            Self::Soft => palette.soft = value,
            Self::Muted => palette.muted = value,
            Self::Accent => palette.accent = value,
            Self::AccentSoft => palette.accent_soft = value,
            Self::Line => palette.line = value,
            Self::Footer => palette.footer = value,
        }
        assert(final(palette)@ =~= old(palette)@.update(field_index(self), value@));
    }
}

/// What a click on the settings window does.
#[derive(Debug, Clone, Copy, PartialEq, Eq, Structural)]
pub enum Action {
    Dark,
    Light,
    Custom,
    AdjustMargin(MarginField),
    Edit(PaletteField),
    Import,
    Export,
    Apply,
    PreviousYear,
    NextYear,
    Close,
}

/// A clickable area of the settings window.
#[derive(Debug, Clone, Copy, PartialEq, Eq, Structural)]
pub struct HitTarget {
    pub rect: Rect,
    pub action: Action,
}

/// The margin slider under `(x, y)` among the first `n` targets, the topmost
/// (last drawn) first.
pub open spec fn margin_target_spec(hits: Seq<HitTarget>, n: int, x: int, y: int) -> Option<(MarginField, Rect)>
    decreases n,
{
    if n <= 0 {
        None
    } else if hits[n - 1].action is AdjustMargin && rect_contains(hits[n - 1].rect, x, y) {
        Some((hits[n - 1].action->AdjustMargin_0, hits[n - 1].rect))
    } else {
        margin_target_spec(hits, n - 1, x, y)
    }
}

/// The row of the slider of margin `f` among the first `n` targets, the last drawn first.
pub open spec fn margin_row_spec(hits: Seq<HitTarget>, n: int, f: MarginField) -> Option<Rect>
    decreases n,
{
    if n <= 0 {
        None
    } else if hits[n - 1].action == Action::AdjustMargin(f) {
        Some(hits[n - 1].rect)
    } else {
        margin_row_spec(hits, n - 1, f)
    }
}

/// The margin slider under the pointer, with its row.
pub fn margin_target_at(hits: &[HitTarget], x: i32, y: i32) -> (r: Option<(MarginField, Rect)>)
    ensures
        r == margin_target_spec(hits@, hits@.len() as int, x as int, y as int),
{
    let mut n: usize = hits.len();
    while n > 0
        invariant
            n <= hits@.len(),
            margin_target_spec(hits@, hits@.len() as int, x as int, y as int) == margin_target_spec(
                hits@,
                n as int,
                x as int,
                y as int,
            ),
        decreases n,
    {
        let target = hits[n - 1];
        match target.action {
            Action::AdjustMargin(field) => {
                if target.rect.contains(x, y) {
                    return Some((field, target.rect));
                }
            },
            _ => {},
        }
        n = n - 1;
    }
    None
}

/// The row of the slider of margin `field`.
pub fn margin_row(hits: &[HitTarget], field: MarginField) -> (r: Option<Rect>)
    ensures
        r == margin_row_spec(hits@, hits@.len() as int, field),
{
    let mut n: usize = hits.len();
    while n > 0
        invariant
            n <= hits@.len(),
            margin_row_spec(hits@, hits@.len() as int, field) == margin_row_spec(hits@, n as int, field),
        decreases n,
    {
        let target = hits[n - 1];
        match target.action {
            Action::AdjustMargin(candidate) => {
                if candidate == field {
                    return Some(target.rect);
                }
            },
            _ => {},
        }
        n = n - 1;
    }
    None
}

/// The action of the topmost (last drawn) target under `(x, y)` among the first `n`.
pub open spec fn action_at_spec(hits: Seq<HitTarget>, n: int, x: int, y: int) -> Option<Action>
    decreases n,
{
    if n <= 0 {
        None
    } else if rect_contains(hits[n - 1].rect, x, y) {
        Some(hits[n - 1].action)
    } else {
        action_at_spec(hits, n - 1, x, y)
    }
}

/// The action of the topmost target under the pointer.
pub fn action_at(hits: &[HitTarget], x: i32, y: i32) -> (r: Option<Action>)
    ensures
        r == action_at_spec(hits@, hits@.len() as int, x as int, y as int),
{
    let mut n: usize = hits.len();
    while n > 0
        invariant
            n <= hits@.len(),
            action_at_spec(hits@, hits@.len() as int, x as int, y as int) == action_at_spec(
                hits@,
                n as int,
                x as int,
                y as int,
            ),
        decreases n,
    {
        let target = hits[n - 1];
        if target.rect.contains(x, y) {
            return Some(target.action);
        }
        n = n - 1;
    }
    None
}

/// What releasing the pointer does.
#[derive(Debug, Clone, Copy, PartialEq, Eq, Structural)]
pub enum PointerRelease {
    /// A slider drag ends: release the pointer capture and, when the slider's
    /// row is still drawn, set the margin from the pointer one last time.
    EndDrag(MarginField, Option<Rect>),
    /// A click on a target.
    Click(Action),
    /// The pointer was released over nothing.
    Nothing,
}

/// Which margin slider, if any, is being dragged.
#[derive(Debug, Clone, Copy, PartialEq, Eq, Structural)]
pub struct DragState {
    pub active_margin: Option<MarginField>,
}

impl DragState {
    /// No slider is being dragged.
    pub fn new() -> (r: Self)
        ensures
            r.active_margin is None,
    {
        DragState { active_margin: None }
    }

    /// The pointer goes down at `(x, y)`: over a margin slider, that slider's
    /// drag starts and the slider and its row are returned, so that the window
    /// captures the pointer and sets the margin from it.
    pub fn pointer_down(&mut self, hits: &[HitTarget], x: i32, y: i32) -> (r: Option<(MarginField, Rect)>)
        ensures
            r == margin_target_spec(hits@, hits@.len() as int, x as int, y as int),
            final(self).active_margin == (match r {
                Some(p) => Some(p.0),
                None => old(self).active_margin,
            }),
    {
        let r = margin_target_at(hits, x, y);
        match r {
            Some((field, _)) => {
                self.active_margin = Some(field);
            },
            None => {},
        }
        r
    }

    /// The pointer moves: while a slider is dragged, that slider and its row,
    /// so that the window sets the margin from the pointer.
    pub fn pointer_move(&self, hits: &[HitTarget]) -> (r: Option<(MarginField, Rect)>)
        ensures
            r == (match self.active_margin {
                Some(f) => match margin_row_spec(hits@, hits@.len() as int, f) {
                    Some(row) => Some((f, row)),
                    None => None,
                },
                None => None,
            }),
    {
        match self.active_margin {
            Some(field) => match margin_row(hits, field) {
                Some(row) => Some((field, row)),
                None => None,
            },
            None => None,
        }
    }

    /// The pointer is released at `(x, y)`: a drag ends, or else the target
    /// under the pointer is clicked.
    pub fn pointer_up(&mut self, hits: &[HitTarget], x: i32, y: i32) -> (r: PointerRelease)
        ensures
            final(self).active_margin is None,
            r == (match old(self).active_margin {
                Some(f) => PointerRelease::EndDrag(f, margin_row_spec(hits@, hits@.len() as int, f)),
                None => match action_at_spec(hits@, hits@.len() as int, x as int, y as int) {
                    Some(a) => PointerRelease::Click(a),
                    None => PointerRelease::Nothing,
                },
            }),
    {
        match self.active_margin {
            Some(field) => {
                self.active_margin = None;
                PointerRelease::EndDrag(field, margin_row(hits, field))
            },
            None => match action_at(hits, x, y) {
                Some(action) => PointerRelease::Click(action),
                None => PointerRelease::Nothing,
            },
        }
    }
}

/// A slider that the pointer goes down on is the one that a move then drags:
/// while its row is drawn, moves keep adjusting that same margin on that row.
pub proof fn lemma_drag_follows_the_pressed_slider(
    hits: Seq<HitTarget>,
    x: int,
    y: int,
    f: MarginField,
    row: Rect,
)
    requires
        margin_target_spec(hits, hits.len() as int, x, y) == Some((f, row)),
        forall|i: int, j: int|
            0 <= i < j < hits.len() && hits[i].action is AdjustMargin ==> hits[i].action
                != hits[j].action,
    ensures
        margin_row_spec(hits, hits.len() as int, f) == Some(row),
{
    let k = lemma_margin_target_index(hits, hits.len() as int, x, y);
    lemma_margin_row_from(hits, hits.len() as int, k, f);
}

/// The slider found under the pointer is a drawn margin slider that contains
/// the pointer, and one is found whenever a margin slider contains it; the
/// same holds of the click search for any target, and the row found for a
/// margin is the rectangle of a slider of that margin.
pub proof fn lemma_hit_tests_find_what_is_under_the_pointer(
    hits: Seq<HitTarget>,
    n: int,
    x: int,
    y: int,
    f: MarginField,
)
    requires
        0 <= n <= hits.len(),
    ensures
        margin_target_spec(hits, n, x, y) matches Some(p) ==> rect_contains(p.1, x, y) && exists|
            i: int,
        | 0 <= i < n && #[trigger] hits[i].action == Action::AdjustMargin(p.0) && hits[i].rect == p.1,
        (exists|i: int|
            0 <= i < n && #[trigger] hits[i].action is AdjustMargin && rect_contains(hits[i].rect, x, y))
            ==> margin_target_spec(hits, n, x, y) is Some,
        action_at_spec(hits, n, x, y) matches Some(a) ==> exists|i: int|
            0 <= i < n && #[trigger] hits[i].action == a && rect_contains(hits[i].rect, x, y),
        (exists|i: int| 0 <= i < n && #[trigger] rect_contains(hits[i].rect, x, y)) ==> action_at_spec(
            hits,
            n,
            x,
            y,
        ) is Some,
        margin_row_spec(hits, n, f) matches Some(r) ==> exists|i: int|
            0 <= i < n && #[trigger] hits[i].action == Action::AdjustMargin(f) && hits[i].rect == r,
        (exists|i: int| 0 <= i < n && #[trigger] hits[i].action == Action::AdjustMargin(f))
            ==> margin_row_spec(hits, n, f) is Some,
    decreases n,
{
    if n > 0 {
        lemma_hit_tests_find_what_is_under_the_pointer(hits, n - 1, x, y, f);
        let k = n - 1;
        match margin_target_spec(hits, n, x, y) {
            Some(p) => {
                if hits[k].action is AdjustMargin && rect_contains(hits[k].rect, x, y) {
                    assert(hits[k].action == Action::AdjustMargin(p.0));
                }
            },
            None => {},
        }
        if exists|i: int|
            0 <= i < n && #[trigger] hits[i].action is AdjustMargin && rect_contains(hits[i].rect, x, y) {
            let i = choose|i: int|
                0 <= i < n && #[trigger] hits[i].action is AdjustMargin && rect_contains(hits[i].rect, x, y);
            if i < k {
                assert(exists|j: int|
                    0 <= j < n - 1 && #[trigger] hits[j].action is AdjustMargin && rect_contains(
                        hits[j].rect,
                        x,
                        y,
                    ));
            }
        }
        match action_at_spec(hits, n, x, y) {
            Some(a) => {
                if rect_contains(hits[k].rect, x, y) {
                    assert(hits[k].action == a);
                }
            },
            None => {},
        }
        if exists|i: int| 0 <= i < n && #[trigger] rect_contains(hits[i].rect, x, y) {
            let i = choose|i: int| 0 <= i < n && #[trigger] rect_contains(hits[i].rect, x, y);
            if i < k {
                assert(exists|j: int| 0 <= j < n - 1 && #[trigger] rect_contains(hits[j].rect, x, y));
            }
        }
        if exists|i: int| 0 <= i < n && #[trigger] hits[i].action == Action::AdjustMargin(f) {
            let i = choose|i: int| 0 <= i < n && #[trigger] hits[i].action == Action::AdjustMargin(f);
            if i < k {
                assert(exists|j: int| 0 <= j < n - 1 && #[trigger] hits[j].action == Action::AdjustMargin(f));
            }
        }
    }
}

/// The target that the slider search finds: a margin slider under the pointer.
proof fn lemma_margin_target_index(hits: Seq<HitTarget>, n: int, x: int, y: int) -> (k: int)
    requires
        0 <= n <= hits.len(),
        margin_target_spec(hits, n, x, y) is Some,
    ensures
        0 <= k < n,
        hits[k].action is AdjustMargin,
        margin_target_spec(hits, n, x, y) == Some((hits[k].action->AdjustMargin_0, hits[k].rect)),
    decreases n,
{
    if hits[n - 1].action is AdjustMargin && rect_contains(hits[n - 1].rect, x, y) {
        n - 1
    } else {
        lemma_margin_target_index(hits, n - 1, x, y)
    }
}

/// The row search finds the one slider of margin `f`, drawn at `k`.
proof fn lemma_margin_row_from(hits: Seq<HitTarget>, m: int, k: int, f: MarginField)
    requires
        0 <= k < m <= hits.len(),
        hits[k].action == Action::AdjustMargin(f),
        forall|i: int, j: int|
            0 <= i < j < hits.len() && hits[i].action is AdjustMargin ==> hits[i].action
                != hits[j].action,
    ensures
        margin_row_spec(hits, m, f) == Some(hits[k].rect),
    decreases m,
{
    if m - 1 != k {
        assert(hits[k].action != hits[m - 1].action);
        lemma_margin_row_from(hits, m - 1, k, f);
    }
}

/// What the settings panel's targets do, in the order they are drawn: the
/// dark, light and custom buttons, the four margin sliders, the eleven color
/// rows, import, export, apply, close, and the previous and next year.
pub open spec fn panel_actions_spec() -> Seq<Action> {
    seq![
        Action::Dark,
        Action::Light,
        Action::Custom,
        Action::AdjustMargin(MarginField::Left),
        Action::AdjustMargin(MarginField::Right),
        Action::AdjustMargin(MarginField::Top),
        Action::AdjustMargin(MarginField::Bottom),
        Action::Edit(PaletteField::Paper),
        Action::Edit(PaletteField::Gutter),
        Action::Edit(PaletteField::Card),
        Action::Edit(PaletteField::CurrentCard),
        Action::Edit(PaletteField::Ink),
        Action::Edit(PaletteField::Soft),
        Action::Edit(PaletteField::Muted),
        Action::Edit(PaletteField::Accent),
        Action::Edit(PaletteField::AccentSoft),
        Action::Edit(PaletteField::Line),
        Action::Edit(PaletteField::Footer),
        Action::Import,
        Action::Export,
        Action::Apply,
        Action::Close,
        Action::PreviousYear,
        Action::NextYear,
    ]
}

/// The actions of the settings panel's targets, in drawing order (the window
/// pairs each with the rectangle it draws for it).
pub fn panel_actions() -> (r: Vec<Action>)
    ensures
        r@ == panel_actions_spec(),
{
    let mut r: Vec<Action> = Vec::new();
    r.push(Action::Dark);
    r.push(Action::Light);
    r.push(Action::Custom);
    let margins = MarginField::ALL;
    let mut i: usize = 0;
    while i < 4
        invariant
            margins == MarginField::ALL,
            i <= 4,
            r@ == panel_actions_spec().take(3 + i as int),
        decreases 4 - i,
    {
        r.push(Action::AdjustMargin(margins[i].0));
        i = i + 1;
        assert(r@ =~= panel_actions_spec().take(3 + i as int));
    }
    let fields = PaletteField::ALL;
    let mut j: usize = 0;
    while j < 11
        invariant
            fields == PaletteField::ALL,
            j <= 11,
            r@ == panel_actions_spec().take(7 + j as int),
        decreases 11 - j,
    {
        r.push(Action::Edit(fields[j].0));
        j = j + 1;
        assert(r@ =~= panel_actions_spec().take(7 + j as int));
    }
    r.push(Action::Import);
    r.push(Action::Export);
    r.push(Action::Apply);
    r.push(Action::Close);
    r.push(Action::PreviousYear);
    r.push(Action::NextYear);
    assert(r@ =~= panel_actions_spec());
    r
}

/// No two targets of the panel do the same thing; in particular each margin
/// slider is drawn once, so a drag on the panel follows the slider pressed.
pub proof fn lemma_panel_actions_distinct(hits: Seq<HitTarget>)
    requires
        hits.len() == panel_actions_spec().len(),
        forall|i: int| 0 <= i < hits.len() ==> #[trigger] hits[i].action == panel_actions_spec()[i],
    ensures
        forall|i: int, j: int|
            0 <= i < j < panel_actions_spec().len() ==> panel_actions_spec()[i]
                != panel_actions_spec()[j],
        forall|i: int, j: int|
            0 <= i < j < hits.len() && hits[i].action is AdjustMargin ==> hits[i].action
                != hits[j].action,
{
    let a = panel_actions_spec();
    assert forall|i: int, j: int| 0 <= i < j < a.len() implies a[i] != a[j] by {
        assert(a.len() == 24);
    }
    assert forall|i: int, j: int|
        0 <= i < j < hits.len() && hits[i].action is AdjustMargin implies hits[i].action
            != hits[j].action by {
        assert(hits[i].action == a[i]);
        assert(hits[j].action == a[j]);
    }
}

// ---------------------------------------------------------------------------
// Slider arithmetic
/// The margin value of a slider for a pointer at `pointer_x`: the pointer's
/// offset along the track (clamped to it) scaled to the margin's range and rounded.
pub open spec fn slider_value(f: MarginField, track: Rect, pointer_x: int) -> int {
    let width = track.right - track.left;
    let span = if width - 1 > 1 { width - 1 } else { 1 };
    let raw = pointer_x - track.left;
    let offset = if raw < 0 { 0 } else if raw > span { span } else { raw };
    let lo = margin_range(f).0 as int;
    let hi = margin_range(f).1 as int;
    lo + ((hi - lo) * offset + span / 2) / span
}

proof fn lemma_slider_bounds(range: int, offset: int, span: int)
    requires
        0 <= range <= 255,
        1 <= span,
        0 <= offset <= span,
    ensures
        0 <= (range * offset + span / 2) / span <= range,
{
    assert(range * offset <= range * span) by (nonlinear_arith)
        requires
            0 <= range,
            offset <= span,
    ;
    assert(0 <= range * offset) by (nonlinear_arith)
        requires
            0 <= range,
            0 <= offset,
    ;
    assert((range * offset + span / 2) / span <= range) by (nonlinear_arith)
        requires
            range * offset <= range * span,
            1 <= span,
            0 <= span / 2 < span,
    ;
    assert(0 <= (range * offset + span / 2) / span) by (nonlinear_arith)
        requires
            0 <= range * offset,
            1 <= span,
            0 <= span / 2,
    ;
}

/// The left end of a slider's track gives the margin's minimum, the right end
/// its maximum, and moving the pointer right never lowers the value.
pub proof fn lemma_slider_ends_and_order(f: MarginField, track: Rect, x1: int, x2: int)
    ensures
        slider_value(f, track, track.left as int) == margin_range(f).0,
        slider_value(
            f,
            track,
            track.left + (if track.right - track.left - 1 > 1 { track.right - track.left - 1 } else { 1 }),
        ) == margin_range(f).1,
        x1 <= x2 ==> slider_value(f, track, x1) <= slider_value(f, track, x2),
        margin_range(f).0 <= slider_value(f, track, x1) <= margin_range(f).1,
{
    let width = track.right - track.left;
    let span: int = if width - 1 > 1 { width - 1 } else { 1 };
    let lo = margin_range(f).0 as int;
    let hi = margin_range(f).1 as int;
    let range = hi - lo;
    assert(0 <= range <= 255);
    assert((range * 0 + span / 2) / span == 0) by (nonlinear_arith)
        requires
            span >= 1,
    ;
    assert((range * span + span / 2) / span == range) by (nonlinear_arith)
        requires
            span >= 1,
            range >= 0,
    ;
    let raw1 = x1 - track.left;
    let raw2 = x2 - track.left;
    let o1: int = if raw1 < 0 { 0 } else if raw1 > span { span } else { raw1 };
    let o2: int = if raw2 < 0 { 0 } else if raw2 > span { span } else { raw2 };
    lemma_slider_bounds(range, o1, span);
    if x1 <= x2 {
        assert(o1 <= o2);
        assert((range * o1 + span / 2) / span <= (range * o2 + span / 2) / span) by (nonlinear_arith)
            requires
                0 <= o1 <= o2,
                range >= 0,
                span >= 1,
        ;
    }
}

/// The margin value for a pointer at `pointer_x` on the slider track `track`.
pub fn margin_value_on_track(field: MarginField, track: Rect, pointer_x: i32) -> (r: u8)
    requires
        i32::MIN <= track.right - track.left <= i32::MAX,
        i32::MIN <= pointer_x - track.left <= i32::MAX,
    ensures
        r == slider_value(field, track, pointer_x as int),
        margin_range(field).0 <= r <= margin_range(field).1,
{
    let width: i64 = track.right as i64 - track.left as i64;
    let span: i64 = if width - 1 > 1 {
        width - 1
    } else {
        1
    };
    let raw: i64 = pointer_x as i64 - track.left as i64;
    let offset: i64 = if raw < 0 {
        0
    } else if raw > span {
        span
    } else {
        raw
    };
    let (minimum, maximum) = field.range();
    let range: i64 = (maximum - minimum) as i64;
    proof {
        lemma_slider_bounds(range as int, offset as int, span as int);
        assert(range * offset <= 255 * span) by (nonlinear_arith)
            requires
                0 <= range <= 255,
                0 <= offset <= span,
        ;
    }
    let value: i64 = minimum as i64 + (range * offset + span / 2) / span;
    value as u8
}

/// `value` clamped into the range of margin `f`.
pub open spec fn clamped_margin(f: MarginField, value: u8) -> u8 {
    let (lo, hi) = margin_range(f);
    if value < lo {
        lo
    } else if value > hi {
        hi
    } else {
        value
    }
}

/// Where the handle of a margin slider sits for `value`: the value is first
/// clamped into the margin's range, then placed proportionally along the track.
pub open spec fn handle_position(f: MarginField, track: Rect, value: u8) -> (u8, int) {
    let (lo, hi) = margin_range(f);
    let clamped = clamped_margin(f, value);
    let width = track.right - track.left;
    let usable = (if width > 1 { width } else { 1 }) - 1;
    (clamped, track.left + usable * (clamped - lo) / (hi - lo))
}

/// The product that placing a slider handle computes in 32-bit arithmetic.
pub open spec fn handle_product(f: MarginField, track: Rect, value: u8) -> int {
    let lo = margin_range(f).0;
    let clamped = clamped_margin(f, value);
    let width = track.right - track.left;
    ((if width > 1 { width } else { 1 }) - 1) * (clamped - lo)
}

/// The value shown on a margin slider and the x position of its handle.
pub fn margin_handle(field: MarginField, track: Rect, value: u8) -> (r: (u8, i32))
    requires
        i32::MIN <= track.right - track.left <= i32::MAX,
        handle_product(field, track, value) <= i32::MAX,
    ensures
        r.0 == handle_position(field, track, value).0,
        r.1 == handle_position(field, track, value).1,
{
    let (minimum, maximum) = field.range();
    let clamped = if value < minimum {
        minimum
    } else if value > maximum {
        maximum
    } else {
        value
    };
    let span: i32 = (maximum - minimum) as i32;
    let offset: i32 = (clamped - minimum) as i32;
    let width = track.right - track.left;
    let usable: i32 = (if width > 1 {
        width
    } else {
        1
    }) - 1;
    proof {
        assert((usable * offset) / (span as int) <= usable) by (nonlinear_arith)
            requires
                0 <= usable,
                0 <= offset <= span,
                span >= 1,
        ;
        assert(0 <= (usable * offset) / (span as int)) by (nonlinear_arith)
            requires
                0 <= usable,
                0 <= offset,
                span >= 1,
        ;
    }
    let product = usable * offset;
    let quotient = product / span;
    assert(quotient <= usable);
    assert(quotient == 0 || quotient < track.right - track.left);
    let x = track.left + quotient;
    (clamped, x)
}

// ---------------------------------------------------------------------------
// Window messages
/// A 16-bit value read as a signed 16-bit integer.
pub open spec fn sign_extend16(v: int) -> int {
    if v >= 0x8000 {
        v - 0x10000
    } else {
        v
    }
}

/// The pointer position packed in a mouse message's `lParam`: the low and
/// the high 16 bits of its low 32 bits, each as a signed coordinate.
pub fn mouse_position(l_param: isize) -> (r: (i32, i32))
    ensures
        r.0 == sign_extend16(((l_param as u32) % 0x10000) as int),
        r.1 == sign_extend16(((l_param as u32) / 0x10000) as int),
{
    let u: u32 = l_param as u32;
    let lo: u32 = u & 0xFFFF;
    let hi: u32 = (u >> 16) & 0xFFFF;
    assert(lo == u % 0x10000) by (bit_vector)
        requires
            lo == u & 0xFFFF,
    ;
    assert(hi == u / 0x10000) by (bit_vector)
        requires
            hi == (u >> 16) & 0xFFFF,
    ;
    let x: i32 = (lo as i16) as i32;
    let y: i32 = (hi as i16) as i32;
    assert(x == sign_extend16(lo as int)) by (bit_vector)
        requires
            lo < 0x10000,
            x == (lo as i16) as i32,
    ;
    assert(y == sign_extend16(hi as int)) by (bit_vector)
        requires
            hi < 0x10000,
            y == (hi as i16) as i32,
    ;
    (x, y)
}

/// Notification code of an edit control whose text changed.
pub const EN_CHANGE: usize = 0x0300;

/// Control identifiers of the red, green and blue fields of the color dialog.
pub const COLOR_RED: i32 = 706;
pub const COLOR_GREEN: i32 = 707;
pub const COLOR_BLUE: i32 = 708;

/// Whether a command's `wParam` says that the red, green or blue field of the
/// color dialog changed: control id in the low 16 bits, notification in the next 16.
pub open spec fn component_changed_spec(w: int) -> bool {
    let control = w % 0x10000;
    let notification = (w / 0x10000) % 0x10000;
    notification == 0x300 && (control == 706 || control == 707 || control == 708)
}

pub fn color_component_changed(w_param: usize) -> (r: bool)
    ensures
        r == component_changed_spec(w_param as int),
{
    let c: usize = w_param & 0xFFFF;
    let n: usize = (w_param >> 16) & 0xFFFF;
    assert(c == w_param % 0x10000) by (bit_vector)
        requires
            c == w_param & 0xFFFF,
    ;
    assert(n == (w_param / 0x10000) % 0x10000) by (bit_vector)
        requires
            n == (w_param >> 16) & 0xFFFF,
    ;
    let control = c as i32;
    let notification = n;
    notification == EN_CHANGE && (control == COLOR_RED || control == COLOR_GREEN || control
        == COLOR_BLUE)
}

// ---------------------------------------------------------------------------
// Colors
/// The color picked in the color dialog's red, green and blue fields; `None`
/// when a field could not be read as a number or holds more than 255.
pub open spec fn color_from_channels_spec(red: Option<u32>, green: Option<u32>, blue: Option<u32>) -> Option<int> {
    match (red, green, blue) {
        (Some(r), Some(g), Some(b)) => if r <= 255 && g <= 255 && b <= 255 {
            Some(colorref(r as int, g as int, b as int))
        } else {
            None
        },
        _ => None,
    }
}

/// The COLORREF of three channel readings, if all are valid.
pub fn color_from_channels(red: Option<u32>, green: Option<u32>, blue: Option<u32>) -> (r: Option<u32>)
    ensures
        match color_from_channels_spec(red, green, blue) {
            Some(v) => r == Some(v as u32),
            None => r is None,
        },
{
    match (red, green, blue) {
        (Some(r), Some(g), Some(b)) => {
            if r <= 255 && g <= 255 && b <= 255 {
                Some(rgb(r as u8, g as u8, b as u8))
            } else {
                None
            }
        },
        _ => None,
    }
}

/// A Windows COLORREF: red in the low byte, then green, then blue.
pub open spec fn colorref(r: int, g: int, b: int) -> int {
    r + g * 0x100 + b * 0x10000
}

pub fn rgb(red: u8, green: u8, blue: u8) -> (r: u32)
    ensures
        r == colorref(red as int, green as int, blue as int),
{
    let r = (red as u32) | ((green as u32) << 8) | ((blue as u32) << 16);
    assert(r == (red as u32) + (green as u32) * 0x100 + (blue as u32) * 0x10000) by (bit_vector)
        requires
            r == (red as u32) | ((green as u32) << 8) | ((blue as u32) << 16),
    ;
    r
}

/// The value of an ASCII hexadecimal digit byte, if it is one.
pub open spec fn hex_byte_value(b: u8) -> Option<int> {
    if 0x30 <= b <= 0x39 {
        Some(b - 0x30)
    } else if 0x61 <= b <= 0x66 {
        Some(b - 0x61 + 10)
    } else if 0x41 <= b <= 0x46 {
        Some(b - 0x41 + 10)
    } else {
        None
    }
}

/// The value of a two-byte text read as a base-16 `u8` (std's
/// `u8::from_str_radix(.., 16)`): an optional '+' and then digits.
pub open spec fn hex_pair_value(b0: u8, b1: u8) -> Option<int> {
    if b0 == 0x2B {
        hex_byte_value(b1)
    } else {
        match (hex_byte_value(b0), hex_byte_value(b1)) {
            (Some(h), Some(l)) => Some(h * 16 + l),
            _ => None,
        }
    }
}

/// A parsed channel, or 0 when it could not be read.
pub open spec fn channel_or_zero(v: Option<int>) -> int {
    match v {
        Some(x) => x,
        None => 0,
    }
}

/// The COLORREF of the bytes of `#RRGGBB` text; a channel that does not read
/// as hexadecimal counts as 0.
pub open spec fn colorref_of_bytes(b: Seq<u8>) -> int {
    colorref(
        channel_or_zero(hex_pair_value(b[1], b[2])),
        channel_or_zero(hex_pair_value(b[3], b[4])),
        channel_or_zero(hex_pair_value(b[5], b[6])),
    )
}

fn hex_byte(b: u8) -> (r: Option<u8>)
    ensures
        match hex_byte_value(b) {
            Some(v) => r == Some(v as u8),
            None => r is None,
        },
{
    if 0x30 <= b && b <= 0x39 {
        Some(b - 0x30)
    } else if 0x61 <= b && b <= 0x66 {
        Some(b - 0x61 + 10)
    } else if 0x41 <= b && b <= 0x46 {
        Some(b - 0x41 + 10)
    } else {
        None
    }
}

fn hex_pair(b0: u8, b1: u8) -> (r: u8)
    ensures
        r == channel_or_zero(hex_pair_value(b0, b1)),
{
    if b0 == 0x2B {
        match hex_byte(b1) {
            Some(v) => v,
            None => 0,
        }
    } else {
        match (hex_byte(b0), hex_byte(b1)) {
            (Some(h), Some(l)) => h * 16 + l,
            _ => 0,
        }
    }
}

/// Whether UTF-8 text `b` can be cut into the slices `1..3`, `3..5` and
/// `5..7` that hold the red, green and blue digits of `#RRGGBB`.
pub open spec fn splits_into_channels(b: Seq<u8>) -> bool {
    &&& b.len() >= 7
    &&& vstd::utf8::is_char_boundary(b, 1)
    &&& vstd::utf8::is_char_boundary(b, 3)
    &&& vstd::utf8::is_char_boundary(b, 5)
    &&& vstd::utf8::is_char_boundary(b, 7)
}

/// The COLORREF of a `#RRGGBB` color text.
pub fn colorref_from_hex(value: &str) -> (r: u32)
    requires
        splits_into_channels(value.spec_bytes()),
    ensures
        r == colorref_of_bytes(value.spec_bytes()),
{
    let bytes = value.as_bytes();
    let red = hex_pair(bytes[1], bytes[2]);
    let green = hex_pair(bytes[3], bytes[4]);
    let blue = hex_pair(bytes[5], bytes[6]);
    rgb(red, green, blue)
}

/// The upper-case hexadecimal digit of a value below 16.
pub open spec fn upper_hex_digit(v: int) -> char {
    if v < 10 {
        (('0' as int) + v) as char
    } else {
        (('A' as int) + v - 10) as char
    }
}

/// `#RRGGBB` text of a COLORREF, with upper-case digits.
pub open spec fn hex_text(v: int) -> Seq<char> {
    let r = v % 0x100;
    let g = (v / 0x100) % 0x100;
    let b = (v / 0x10000) % 0x100;
    seq![
        '#',
        upper_hex_digit(r / 16),
        upper_hex_digit(r % 16),
        upper_hex_digit(g / 16),
        upper_hex_digit(g % 16),
        upper_hex_digit(b / 16),
        upper_hex_digit(b % 16),
    ]
}

fn hex_digit_upper(v: u32) -> (c: char)
    requires
        v < 16,
    ensures
        c == upper_hex_digit(v as int),
{
    if v < 10 {
        ((48 + v) as u8) as char
    } else {
        ((55 + v) as u8) as char
    }
}

/// The `#RRGGBB` text of a COLORREF (the byte above blue is ignored).
pub fn hex_from_colorref(value: u32) -> (r: String)
    ensures
        r@ == hex_text(value as int),
{
    let red: u32 = value & 0xFF;
    let green: u32 = (value >> 8) & 0xFF;
    let blue: u32 = (value >> 16) & 0xFF;
    assert(red == value % 0x100 && green == (value / 0x100) % 0x100 && blue == (value / 0x10000)
        % 0x100) by (bit_vector)
        requires
            red == value & 0xFF,
            green == (value >> 8) & 0xFF,
            blue == (value >> 16) & 0xFF,
    ;
    let mut s = String::new();
    push_char(&mut s, '#');
    push_char(&mut s, hex_digit_upper(red / 16));
    push_char(&mut s, hex_digit_upper(red % 16));
    push_char(&mut s, hex_digit_upper(green / 16));
    push_char(&mut s, hex_digit_upper(green % 16));
    push_char(&mut s, hex_digit_upper(blue / 16));
    push_char(&mut s, hex_digit_upper(blue % 16));
    assert(s@ =~= hex_text(value as int));
    s
}

/// Whether `out` is the Windows BGRA form of the whole RGBA pixels of `data`:
/// red and blue swapped, every pixel opaque (a trailing partial pixel dropped).
pub open spec fn bgra_of_rgba(data: Seq<u8>, out: Seq<u8>) -> bool {
    &&& out.len() == data.len() / 4 * 4
    &&& forall|p: int|
        0 <= p < data.len() / 4 ==> {
            &&& #[trigger] out[4 * p] == data[4 * p + 2]
            &&& out[4 * p + 1] == data[4 * p + 1]
            &&& out[4 * p + 2] == data[4 * p]
            &&& out[4 * p + 3] == 255
        }
}

/// The preview's RGBA pixels in the BGRA order of a Windows bitmap, opaque.
pub fn bgra_from_rgba(data: &[u8]) -> (out: Vec<u8>)
    ensures
        bgra_of_rgba(data@, out@),
{
    let pixels: usize = data.len() / 4;
    assert(4 * pixels <= data@.len());
    let mut out: Vec<u8> = Vec::new();
    let mut p: usize = 0;
    while p < pixels
        invariant
            pixels == data@.len() / 4,
            4 * pixels <= data@.len(),
            data@.len() <= usize::MAX,
            p <= pixels,
            out@.len() == 4 * p,
            forall|q: int|
                0 <= q < p ==> {
                    &&& #[trigger] out@[4 * q] == data@[4 * q + 2]
                    &&& out@[4 * q + 1] == data@[4 * q + 1]
                    &&& out@[4 * q + 2] == data@[4 * q]
                    &&& out@[4 * q + 3] == 255
                },
        decreases pixels - p,
    {
        let base = 4 * p;
        let ghost before = out@;
        out.push(data[base + 2]);
        out.push(data[base + 1]);
        out.push(data[base]);
        out.push(255);
        assert forall|q: int| 0 <= q < p + 1 implies {
            &&& #[trigger] out@[4 * q] == data@[4 * q + 2]
            &&& out@[4 * q + 1] == data@[4 * q + 1]
            &&& out@[4 * q + 2] == data@[4 * q]
            &&& out@[4 * q + 3] == 255
        } by {
            if q < p {
                assert(out@[4 * q] == before[4 * q]);
                assert(out@[4 * q + 1] == before[4 * q + 1]);
                assert(out@[4 * q + 2] == before[4 * q + 2]);
                assert(out@[4 * q + 3] == before[4 * q + 3]);
            }
        }
        p = p + 1;
    }
    out
}

/// ASCII upper-casing of one character.
pub open spec fn ascii_upper(c: char) -> char {
    if 'a' <= c && c <= 'z' {
        ((c as u32) - 32) as char
    } else {
        c
    }
}

/// Reading a `#RRGGBB` color and writing it back gives the same color with
/// upper-case digits.
pub proof fn lemma_hex_color_roundtrip(s: &str)
    requires
        is_hex_color(s@),
    ensures
        hex_text(colorref_of_bytes(s.spec_bytes())) == s@.map_values(|c: char| ascii_upper(c)),
{
    let c = s@;
    let b = s.spec_bytes();
    lemma_hex_color_bytes(s);
    let r = lemma_hex_channel(c[1], c[2]);
    let g = lemma_hex_channel(c[3], c[4]);
    let bl = lemma_hex_channel(c[5], c[6]);
    assert(channel_or_zero(hex_pair_value(b[1], b[2])) == r);
    assert(channel_or_zero(hex_pair_value(b[3], b[4])) == g);
    assert(channel_or_zero(hex_pair_value(b[5], b[6])) == bl);
    lemma_colorref_channels(r, g, bl);
    let v = colorref(r, g, bl);
    let t = hex_text(v);
    let u = c.map_values(|ch: char| ascii_upper(ch));
    assert(t.len() == 7 && u.len() == 7);
    assert(t[0] == u[0]);
    assert(t =~= u);
}

/// The bytes of a `#RRGGBB` color are its characters.
proof fn lemma_hex_color_bytes(s: &str)
    requires
        is_hex_color(s@),
    ensures
        s.spec_bytes().len() == 7,
        forall|i: int| 0 <= i < 7 ==> #[trigger] s.spec_bytes()[i] == s@[i] as u8,
{
    broadcast use vstd::string::is_ascii_spec_bytes;

    assert(vstd::string::is_ascii(s)) by {
        assert forall|i: int| 0 <= i < s@.len() implies '\0' <= #[trigger] s@[i] <= '\u{7f}' by {
            if i > 0 {
                assert(is_hex_digit(s@[i]));
            }
        }
    }
    assert(s.spec_bytes() =~= Seq::new(s@.len(), |i| s@.index(i) as u8));
}

/// Two hexadecimal digit characters read as one channel, whose digits written
/// back are the characters upper-cased.
proof fn lemma_hex_channel(hi: char, lo: char) -> (v: int)
    requires
        is_hex_digit(hi),
        is_hex_digit(lo),
    ensures
        hex_pair_value(hi as u8, lo as u8) == Some(v),
        0 <= v < 256,
        upper_hex_digit(v / 16) == ascii_upper(hi),
        upper_hex_digit(v % 16) == ascii_upper(lo),
{
    lemma_hex_digit_bytes(hi);
    lemma_hex_digit_bytes(lo);
    let h = hex_byte_value(hi as u8)->0;
    let l = hex_byte_value(lo as u8)->0;
    let v = h * 16 + l;
    assert(v / 16 == h && v % 16 == l);
    v
}

/// The three channels of a COLORREF read back from it.
proof fn lemma_colorref_channels(r: int, g: int, b: int)
    requires
        0 <= r < 256,
        0 <= g < 256,
        0 <= b < 256,
    ensures
        colorref(r, g, b) % 0x100 == r,
        (colorref(r, g, b) / 0x100) % 0x100 == g,
        (colorref(r, g, b) / 0x10000) % 0x100 == b,
{
    let v = colorref(r, g, b);
    assert(v % 0x100 == r && (v / 0x100) % 0x100 == g && (v / 0x10000) % 0x100 == b) by (
    nonlinear_arith)
        requires
            v == r + g * 0x100 + b * 0x10000,
            0 <= r < 256,
            0 <= g < 256,
            0 <= b < 256,
    ;
}

/// A hexadecimal digit character is its ASCII byte, and writing back the
/// value of that byte gives the digit upper-cased.
proof fn lemma_hex_digit_bytes(c: char)
    requires
        is_hex_digit(c),
    ensures
        hex_byte_value(c as u8) is Some,
        c as u8 != 0x2B,
        0 <= hex_byte_value(c as u8)->0 < 16,
        upper_hex_digit(hex_byte_value(c as u8)->0) == ascii_upper(c),
{
}

/// Every color that validation accepts can be cut into its three channels
/// without splitting a character, so reading it as a COLORREF never fails.
pub proof fn lemma_hex_color_splits(c: Seq<char>)
    requires
        is_hex_color(c),
    ensures
        splits_into_channels(vstd::utf8::encode_utf8(c)),
{
    assert(vstd::utf8::is_ascii_chars(c)) by {
        assert forall|i: int| 0 <= i < c.len() implies '\0' <= #[trigger] c[i] <= '\u{7f}' by {
            if i > 0 {
                assert(is_hex_digit(c[i]));
            }
        }
    }
    vstd::utf8::is_ascii_chars_encode_utf8(c);
    vstd::utf8::encode_utf8_valid_utf8(c);
    let b = vstd::utf8::encode_utf8(c);
    assert(is_hex_digit(c[1]) && is_hex_digit(c[3]) && is_hex_digit(c[5]));
    assert(b[1] == c[1] as u8 && b[3] == c[3] as u8 && b[5] == c[5] as u8);
    vstd::utf8::is_char_boundary_iff_is_leading_byte(b, 1);
    vstd::utf8::is_char_boundary_iff_is_leading_byte(b, 3);
    vstd::utf8::is_char_boundary_iff_is_leading_byte(b, 5);
    vstd::utf8::is_char_boundary_start_end_of_seq(b);
}

/// The COLORREF of a `#RRGGBB` color fits in 24 bits.
proof fn lemma_colorref_of_hex_below(s: &str)
    requires
        is_hex_color(s@),
    ensures
        colorref_of_bytes(s.spec_bytes()) < 0x1000000,
{
    let c = s@;
    let b = s.spec_bytes();
    lemma_hex_color_bytes(s);
    let r = lemma_hex_channel(c[1], c[2]);
    let g = lemma_hex_channel(c[3], c[4]);
    let bl = lemma_hex_channel(c[5], c[6]);
    assert(channel_or_zero(hex_pair_value(b[1], b[2])) == r);
    assert(channel_or_zero(hex_pair_value(b[3], b[4])) == g);
    assert(channel_or_zero(hex_pair_value(b[5], b[6])) == bl);
}

/// Writing a COLORREF as `#RRGGBB` and reading it back gives its low 24 bits.
pub proof fn lemma_colorref_roundtrip(v: u32, s: &str)
    requires
        s@ == hex_text(v as int),
    ensures
        colorref_of_bytes(s.spec_bytes()) == (v as int) % 0x1000000,
{
    lemma_hex_text_is_color(v as int);
    lemma_hex_color_bytes(s);
    let b = s.spec_bytes();
    let red = (v as int) % 0x100;
    let green = ((v as int) / 0x100) % 0x100;
    let blue = ((v as int) / 0x10000) % 0x100;
    lemma_upper_digits_read_back(red);
    lemma_upper_digits_read_back(green);
    lemma_upper_digits_read_back(blue);
    assert(hex_pair_value(b[1], b[2]) == Some(red));
    assert(hex_pair_value(b[3], b[4]) == Some(green));
    assert(hex_pair_value(b[5], b[6]) == Some(blue));
    assert(red + green * 0x100 + blue * 0x10000 == (v as int) % 0x1000000) by (nonlinear_arith)
        requires
            red == (v as int) % 0x100,
            green == ((v as int) / 0x100) % 0x100,
            blue == ((v as int) / 0x10000) % 0x100,
            0 <= v,
    ;
}

/// The two upper-case digits of a byte value read back as that value.
proof fn lemma_upper_digits_read_back(x: int)
    requires
        0 <= x < 256,
    ensures
        hex_pair_value(upper_hex_digit(x / 16) as u8, upper_hex_digit(x % 16) as u8) == Some(x),
{
}

/// The text of a COLORREF is always a valid `#RRGGBB` color.
pub proof fn lemma_hex_text_is_color(v: int)
    requires
        v >= 0,
    ensures
        is_hex_color(hex_text(v)),
{
    let t = hex_text(v);
    assert forall|i: int| 1 <= i < 7 implies is_hex_digit(#[trigger] t[i]) by {}
}

// ---------------------------------------------------------------------------
// The settings window's state
/// What the settings window shows and has changed, apart from its drawing resources.
pub struct SettingsState {
    /// The year shown in the preview.
    pub year: i32,
    pub today: CalendarDate,
    pub theme: Theme,
    /// The last custom theme, kept while a built-in theme is shown.
    pub saved_custom_theme: Option<CustomTheme>,
    pub layout: LayoutSettings,
    /// The line under the preview.
    pub status: String,
    /// Whether there are changes not yet applied to the desktop.
    pub dirty: bool,
}

/// What the color dialog restores when it is cancelled.
pub struct SettingsSnapshot {
    pub theme: Theme,
    pub saved_custom_theme: Option<CustomTheme>,
    pub status: String,
    pub dirty: bool,
}

/// Every custom theme the state holds passes validation.
pub open spec fn themes_valid(theme: Theme, saved: Option<CustomTheme>) -> bool {
    &&& (theme matches Theme::Custom(c) ==> custom_theme_valid(*c))
    &&& (saved matches Some(t) ==> custom_theme_valid(t))
}

/// The state after remembering the shown custom theme, if one is shown.
pub open spec fn remember_spec(a: SettingsState) -> SettingsState {
    match a.theme {
        Theme::Custom(c) => SettingsState { saved_custom_theme: Some(*c), ..a },
        _ => a,
    }
}

/// `b` differs from `a` at most in theme, saved theme, status and the dirty flag.
pub open spec fn same_frame(a: SettingsState, b: SettingsState) -> bool {
    b.year == a.year && b.today == a.today && b.layout == a.layout
}

/// `b` is `a` once a custom theme is shown: the shown custom theme, else the
/// saved one, else the shown built-in palette named "自定义主题".
pub open spec fn ensure_custom_rel(a: SettingsState, b: SettingsState) -> bool {
    &&& same_frame(a, b)
    &&& b.saved_custom_theme == a.saved_custom_theme
    &&& b.status == a.status
    &&& b.dirty == a.dirty
    &&& b.theme is Custom
    &&& (a.theme is Custom ==> b.theme == a.theme)
    &&& (!(a.theme is Custom) && a.saved_custom_theme is Some ==> b.theme == Theme::Custom(
        Box::new(a.saved_custom_theme->0),
    ))
    &&& (!(a.theme is Custom) && a.saved_custom_theme is None ==> (b.theme matches Theme::Custom(
        c,
    ) && c.name@ == "自定义主题"@ && c.palette@ == theme_colors(a.theme)))
}

/// `t` is the custom theme that `ensure_custom_rel` shows for `a`, with the
/// color of palette field `field` replaced by the `#RRGGBB` text of `color`.
pub open spec fn previewed_theme(a: SettingsState, t: Theme, field: PaletteField, color: u32) -> bool {
    exists|m: SettingsState|
        ensure_custom_rel(a, m) && (#[trigger] m.theme matches Theme::Custom(c0)
            && t matches Theme::Custom(c1) && c1.name == c0.name
            && c1.palette@ == c0.palette@.update(field_index(field), hex_text(color as int)))
}

/// `b` is `a` with `color` previewed for palette field `field`, the change pending.
pub open spec fn preview_color_rel(a: SettingsState, b: SettingsState, field: PaletteField, color: u32) -> bool {
    &&& same_frame(a, b)
    &&& b.saved_custom_theme == a.saved_custom_theme
    &&& previewed_theme(a, b.theme, field, color)
    &&& b.dirty
    &&& b.status@ == "配色预览中，尚未应用到桌面。"@
}

/// `b` is `a` once the color dialog of `e` is closed with `selected` (`None`
/// when cancelled): the state from before the dialog comes back when nothing
/// new was chosen; otherwise the chosen color is previewed and its custom
/// theme remembered.
pub open spec fn finish_color_edit_rel(a: SettingsState, b: SettingsState, e: ColorEdit, selected: Option<u32>) -> bool {
    &&& same_frame(a, b)
    &&& (selected is None || selected == Some(e.initial)) ==> (b.theme == e.before.theme
        && b.saved_custom_theme == e.before.saved_custom_theme && b.status == e.before.status
        && b.dirty == e.before.dirty)
    &&& match selected {
        Some(c) => c != e.initial ==> (previewed_theme(a, b.theme, e.field, c) && (b.theme matches Theme::Custom(t)
            && b.saved_custom_theme == Some(*t)) && b.dirty && b.status@ == "配色预览已更新，尚未应用到桌面。"@),
        None => true,
    }
}

/// `b` is `a` with `theme` selected: the shown custom theme is remembered
/// first, and the change is pending.
pub open spec fn select_rel(a: SettingsState, b: SettingsState, theme: Theme) -> bool {
    let m = remember_spec(a);
    &&& same_frame(a, b)
    &&& b.theme == theme
    &&& b.saved_custom_theme == m.saved_custom_theme
    &&& b.dirty
    &&& b.status@ == "主题已更新，尚未应用到桌面。"@
}

/// The preview year `offset` years from `year`, kept within 1900 to 2100.
pub open spec fn shifted_year(year: int, offset: int) -> int {
    let target = year + offset;
    if target < 1900 {
        1900
    } else if target > 2100 {
        2100
    } else {
        target
    }
}

/// `b` is `a` after the custom theme is entered from the "自定义" button:
/// the custom theme that `ensure_custom_rel` shows is shown and remembered,
/// and the change is pending.
pub open spec fn enter_custom_rel(a: SettingsState, b: SettingsState) -> bool {
    &&& ensure_custom_rel(
        a,
        (SettingsState {
            saved_custom_theme: a.saved_custom_theme,
            status: a.status,
            dirty: a.dirty,
            ..b
        }),
    )
    &&& (b.theme matches Theme::Custom(c) && b.saved_custom_theme == Some(*c))
    &&& b.dirty
    &&& b.status@ == "已进入自定义主题。"@
}

/// `b` is `a` after margin `f` was set to `v`; `changed` tells whether the
/// margin had another value, in which case the layout is brought back into
/// range and the change is pending.
pub open spec fn set_margin_rel(a: SettingsState, b: SettingsState, f: MarginField, v: u8, changed: bool) -> bool {
    &&& changed == (margin_value(f, a.layout) != v)
    &&& !changed ==> b == a
    &&& changed ==> {
        &&& b.layout == with_margin(f, a.layout, v).normalized_spec()
        &&& b.dirty
        &&& b.status@ == "版式边距预览中，尚未应用到桌面。"@
        &&& b.year == a.year
        &&& b.today == a.today
        &&& b.theme == a.theme
        &&& b.saved_custom_theme == a.saved_custom_theme
    }
}

/// `b` is `a` with the preview year moved by `offset` within 1900 to 2100;
/// nothing changes when the year stays the same.
pub open spec fn change_year_rel(a: SettingsState, b: SettingsState, offset: int) -> bool {
    let y = shifted_year(a.year as int, offset);
    if y == a.year {
        b == a
    } else {
        &&& b.year == y
        &&& b.status@ == "仅切换预览年份；桌面始终生成当前年份。"@
        &&& b.today == a.today
        &&& b.theme == a.theme
        &&& b.saved_custom_theme == a.saved_custom_theme
        &&& b.layout == a.layout
        &&& b.dirty == a.dirty
    }
}

/// What the settings window must do after a click, beyond what the click
/// changed in its state.
#[derive(Debug, Clone, Copy, PartialEq, Eq, Structural)]
pub enum WindowEffect {
    /// Repaint the window.
    Repaint,
    /// Render the preview again, then repaint.
    RefreshPreview,
    /// Open the color dialog for a palette field.
    EditColor(PaletteField),
    /// Ask for a theme file and import it.
    ImportTheme,
    /// Ask for a file and export the current theme to it.
    ExportTheme,
    /// Apply the theme and the layout to the desktop.
    Apply,
    /// Close the window.
    Close,
}

/// The effect of a step that changed the preview year or not.
pub open spec fn year_effect(a: SettingsState, b: SettingsState) -> WindowEffect {
    if b.year != a.year {
        WindowEffect::RefreshPreview
    } else {
        WindowEffect::Repaint
    }
}

/// `b` and `e` are the state and the effect after a click on `action` in state `a`.
pub open spec fn activate_rel(a: SettingsState, b: SettingsState, action: Action, e: WindowEffect) -> bool {
    match action {
        Action::Dark => select_rel(a, b, Theme::Dark) && e == WindowEffect::RefreshPreview,
        Action::Light => select_rel(a, b, Theme::Light) && e == WindowEffect::RefreshPreview,
        Action::Custom => enter_custom_rel(a, b) && e == WindowEffect::RefreshPreview,
        Action::AdjustMargin(_) => b == a && e == WindowEffect::Repaint,
        Action::Edit(f) => b == a && e == WindowEffect::EditColor(f),
        Action::Import => b == a && e == WindowEffect::ImportTheme,
        Action::Export => b == a && e == WindowEffect::ExportTheme,
        Action::Apply => b == a && e == WindowEffect::Apply,
        Action::PreviousYear => change_year_rel(a, b, -1) && e == year_effect(a, b),
        Action::NextYear => change_year_rel(a, b, 1) && e == year_effect(a, b),
        Action::Close => b == a && e == WindowEffect::Close,
    }
}

/// Moving the preview year never leaves 1900 to 2100, and moving back and
/// forth by one inside the range returns to the same year.
pub proof fn lemma_preview_year_in_range(year: int, offset: int)
    ensures
        1900 <= shifted_year(year, offset) <= 2100,
        1900 < year <= 2100 ==> shifted_year(shifted_year(year, -1), 1) == year,
        1900 <= year < 2100 ==> shifted_year(shifted_year(year, 1), -1) == year,
{
}

impl SettingsState {
    /// The state of a newly opened settings window.
    pub fn new(
        year: i32,
        theme: Theme,
        today: CalendarDate,
        saved_custom_theme: Option<CustomTheme>,
        layout: LayoutSettings,
    ) -> (r: Self)
        ensures
            r.year == year,
            r.today == today,
            r.theme == theme,
            r.saved_custom_theme == saved_custom_theme,
            r.layout == layout.normalized_spec(),
            r.status@ == "选择主题或颜色，然后应用到桌面。"@,
            !r.dirty,
    {
        SettingsState {
            year,
            today,
            theme,
            saved_custom_theme,
            layout: layout.normalized(),
            status: "选择主题或颜色，然后应用到桌面。".to_owned(),
            dirty: false,
        }
    }

    /// The name shown for the current theme.
    pub fn theme_name(&self) -> (r: &str)
        ensures
            self.theme matches Theme::Custom(c) ==> r@ == c.name@,
            builtin_of(self.theme) matches Some(b) ==> r@ == builtin_label(b),
    {
        match &self.theme {
            Theme::Dark => "深色",
            Theme::Light => "浅色",
            Theme::Moonlit => "月海",
            Theme::Pine => "松烟",
            Theme::Cinnabar => "朱砂",
            Theme::Mist => "雾蓝",
            Theme::Custom(theme) => theme.name.as_str(),
        }
    }

    /// Shows a custom theme: the current one if it is custom, else the saved
    /// custom theme, else a copy of the current built-in palette.
    pub fn ensure_custom(&mut self)
        ensures
            ensure_custom_rel(*old(self), *final(self)),
            themes_valid(old(self).theme, old(self).saved_custom_theme) ==> themes_valid(
                final(self).theme,
                final(self).saved_custom_theme,
            ),
    {
        if !matches!(self.theme, Theme::Custom(_)) {
            let mut custom = match &self.saved_custom_theme {
                Some(t) => t.duplicate(),
                None => self.theme.exportable(),
            };
            if self.saved_custom_theme.is_none() {
                custom.name = "自定义主题".to_owned();
                proof {
                    lemma_builtin_themes_valid(builtin_of(self.theme)->0);
                    reveal_strlit("自定义主题");
                    assert(!crate::theme::is_white_space(custom.name@[0]));
                }
            }
            self.theme = Theme::Custom(Box::new(custom));
        }
    }

    /// Remembers the shown custom theme, so that it comes back after a built-in one.
    pub fn remember_custom_theme(&mut self)
        ensures
            *final(self) == remember_spec(*old(self)),
            themes_valid(old(self).theme, old(self).saved_custom_theme) ==> themes_valid(
                final(self).theme,
                final(self).saved_custom_theme,
            ),
    {
        if let Some(theme) = self.theme.custom_theme() {
            self.saved_custom_theme = Some(theme.duplicate());
        }
    }

    /// Shows `theme`, remembering the custom theme shown before.
    pub fn select_theme(&mut self, theme: Theme)
        ensures
            select_rel(*old(self), *final(self), theme),
            themes_valid(old(self).theme, old(self).saved_custom_theme) && themes_valid(theme, None)
                ==> themes_valid(final(self).theme, final(self).saved_custom_theme),
    {
        self.remember_custom_theme();
        self.theme = theme;
        self.dirty = true;
        self.status = "主题已更新，尚未应用到桌面。".to_owned();
    }

    /// Enters the custom theme and remembers it (the "自定义" button).
    pub fn enter_custom(&mut self)
        ensures
            themes_valid(old(self).theme, old(self).saved_custom_theme) ==> themes_valid(
                final(self).theme,
                final(self).saved_custom_theme,
            ),
            enter_custom_rel(*old(self), *final(self)),
    {
        self.ensure_custom();
        self.remember_custom_theme();
        self.dirty = true;
        self.status = "已进入自定义主题。".to_owned();
    }

    /// Previews `color` for palette `field` in the custom theme (entering it first).
    pub fn preview_color(&mut self, field: PaletteField, color: u32)
        ensures
            themes_valid(old(self).theme, old(self).saved_custom_theme) ==> themes_valid(
                final(self).theme,
                final(self).saved_custom_theme,
            ),
            preview_color_rel(*old(self), *final(self), field, color),
    {
        self.ensure_custom();
        let ghost mid = *self;
        let mut custom = match &self.theme {
            Theme::Custom(c) => c.duplicate(),
            _ => {
                return;
            },
        };
        proof {
            lemma_hex_text_is_color(color as int);
        }
        field.set_color(&mut custom.palette, hex_from_colorref(color));
        self.theme = Theme::Custom(Box::new(custom));
        self.dirty = true;
        self.status = "配色预览中，尚未应用到桌面。".to_owned();
        assert(ensure_custom_rel(*old(self), mid));
    }

    /// Sets margin `field` to `value` (then brings the layout into range);
    /// returns whether the layout changed, so that the preview must be redrawn.
    pub fn set_margin(&mut self, field: MarginField, value: u8) -> (changed: bool)
        ensures
            set_margin_rel(*old(self), *final(self), field, value, changed),
    {
        if field.value(self.layout) == value {
            return false;
        }
        field.set(&mut self.layout, value);
        self.layout = self.layout.normalized();
        self.dirty = true;
        self.status = "版式边距预览中，尚未应用到桌面。".to_owned();
        true
    }

    /// Moves the preview by `offset` years within 1900 to 2100; returns whether the year changed.
    pub fn change_year(&mut self, offset: i32) -> (changed: bool)
        ensures
            changed == (shifted_year(old(self).year as int, offset as int) != old(self).year),
            change_year_rel(*old(self), *final(self), offset as int),
    {
        let target: i64 = self.year as i64 + offset as i64;
        let year: i32 = if target < 1900 {
            1900
        } else if target > 2100 {
            2100
        } else {
            target as i32
        };
        if year == self.year {
            return false;
        }
        self.year = year;
        self.status = "仅切换预览年份；桌面始终生成当前年份。".to_owned();
        true
    }

    /// Sets margin `field` from a pointer at `pointer_x` on its slider track;
    /// returns whether the layout changed.
    pub fn set_margin_from_position(&mut self, field: MarginField, track: Rect, pointer_x: i32) -> (changed: bool)
        requires
            i32::MIN <= track.right - track.left <= i32::MAX,
            i32::MIN <= pointer_x - track.left <= i32::MAX,
        ensures
            set_margin_rel(
                *old(self),
                *final(self),
                field,
                slider_value(field, track, pointer_x as int) as u8,
                changed,
            ),
    {
        let value = margin_value_on_track(field, track, pointer_x);
        self.set_margin(field, value)
    }

    /// Handles a click on `action`: updates the state and tells the window
    /// what it must do next.
    pub fn activate(&mut self, action: Action) -> (effect: WindowEffect)
        ensures
            themes_valid(old(self).theme, old(self).saved_custom_theme) ==> themes_valid(
                final(self).theme,
                final(self).saved_custom_theme,
            ),
            activate_rel(*old(self), *final(self), action, effect),
    {
        match action {
            Action::Dark => {
                self.select_theme(Theme::Dark);
                WindowEffect::RefreshPreview
            },
            Action::Light => {
                self.select_theme(Theme::Light);
                WindowEffect::RefreshPreview
            },
            Action::Custom => {
                self.enter_custom();
                WindowEffect::RefreshPreview
            },
            Action::AdjustMargin(_) => WindowEffect::Repaint,
            Action::Edit(field) => WindowEffect::EditColor(field),
            Action::Import => WindowEffect::ImportTheme,
            Action::Export => WindowEffect::ExportTheme,
            Action::Apply => WindowEffect::Apply,
            Action::PreviousYear => {
                if self.change_year(-1) {
                    WindowEffect::RefreshPreview
                } else {
                    WindowEffect::Repaint
                }
            },
            Action::NextYear => {
                if self.change_year(1) {
                    WindowEffect::RefreshPreview
                } else {
                    WindowEffect::Repaint
                }
            },
            Action::Close => WindowEffect::Close,
        }
    }

    /// Reports a failed operation in the status line.
    pub fn fail(&mut self, message: &str)
        ensures
            final(self).status@ == "操作失败："@ + message@,
            same_frame(*old(self), *final(self)),
            final(self).theme == old(self).theme,
            final(self).saved_custom_theme == old(self).saved_custom_theme,
            final(self).dirty == old(self).dirty,
    {
        let mut status = "操作失败：".to_owned();
        crate::text::append_str(&mut status, message);
        self.status = status;
    }

    /// Reports in the status line that the theme was exported to `path`.
    pub fn theme_exported(&mut self, path: &str)
        ensures
            final(self).status@ == "已导出："@ + path@,
            same_frame(*old(self), *final(self)),
            final(self).theme == old(self).theme,
            final(self).saved_custom_theme == old(self).saved_custom_theme,
            final(self).dirty == old(self).dirty,
    {
        let mut status = "已导出：".to_owned();
        crate::text::append_str(&mut status, path);
        self.status = status;
    }

    /// Reports that the preview could not be rendered, in the status line.
    pub fn preview_failed(&mut self, message: &str)
        ensures
            final(self).status@ == "预览生成失败："@ + message@,
            same_frame(*old(self), *final(self)),
            final(self).theme == old(self).theme,
            final(self).saved_custom_theme == old(self).saved_custom_theme,
            final(self).dirty == old(self).dirty,
    {
        let mut status = "预览生成失败：".to_owned();
        crate::text::append_str(&mut status, message);
        self.status = status;
    }

    /// The color the color dialog starts from for `field`: that of the shown
    /// theme, as a COLORREF.
    pub fn initial_color(&self, field: PaletteField) -> (r: u32)
        requires
            splits_into_channels(
                vstd::utf8::encode_utf8(theme_colors(self.theme)[field_index(field)]),
            ),
        ensures
            r == colorref_of_bytes(
                vstd::utf8::encode_utf8(theme_colors(self.theme)[field_index(field)]),
            ),
            is_hex_color(theme_colors(self.theme)[field_index(field)]) ==> r < 0x1000000 && hex_text(
                r as int,
            ) == theme_colors(self.theme)[field_index(field)].map_values(|c: char| ascii_upper(c)),
    {
        let exported = self.theme.exportable();
        let color = field.color(&exported.palette);
        proof {
            if is_hex_color(color@) {
                lemma_hex_color_roundtrip(color);
                lemma_colorref_of_hex_below(color);
            }
        }
        colorref_from_hex(color)
    }

    /// A copy of what the color dialog may change.
    pub fn snapshot(&self) -> (r: SettingsSnapshot)
        ensures
            r.theme == self.theme,
            r.saved_custom_theme == self.saved_custom_theme,
            r.status == self.status,
            r.dirty == self.dirty,
    {
        SettingsSnapshot {
            theme: duplicate_theme(&self.theme),
            saved_custom_theme: match &self.saved_custom_theme {
                Some(t) => Some(t.duplicate()),
                None => None,
            },
            status: self.status.clone(),
            dirty: self.dirty,
        }
    }

    /// Puts back what the color dialog changed.
    pub fn restore(&mut self, snapshot: SettingsSnapshot)
        ensures
            same_frame(*old(self), *final(self)),
            final(self).theme == snapshot.theme,
            final(self).saved_custom_theme == snapshot.saved_custom_theme,
            final(self).status == snapshot.status,
            final(self).dirty == snapshot.dirty,
    {
        self.theme = snapshot.theme;
        self.saved_custom_theme = snapshot.saved_custom_theme;
        self.status = snapshot.status;
        self.dirty = snapshot.dirty;
    }

    /// Ends the color edit `edit`: the dialog's choice `selected` (`None` when
    /// cancelled) either restores the state from before the dialog or
    /// previews the new color and remembers the custom theme.
    pub fn finish_color_edit(&mut self, edit: ColorEdit, selected: Option<u32>)
        ensures
            themes_valid(old(self).theme, old(self).saved_custom_theme) && themes_valid(
                edit.before.theme,
                edit.before.saved_custom_theme,
            ) ==> themes_valid(final(self).theme, final(self).saved_custom_theme),
            finish_color_edit_rel(*old(self), *final(self), edit, selected),
    {
        match selected {
            Some(color) => {
                if color == edit.initial {
                    self.restore(edit.before);
                } else {
                    self.preview_color(edit.field, color);
                    self.remember_custom_theme();
                    self.status = "配色预览已更新，尚未应用到桌面。".to_owned();
                }
            },
            None => {
                self.restore(edit.before);
            },
        }
    }

    /// Shows an imported custom theme once it passes validation.
    pub fn import_theme(&mut self, theme: CustomTheme) -> (r: Result<(), String>)
        ensures
            themes_valid(old(self).theme, old(self).saved_custom_theme) ==> themes_valid(
                final(self).theme,
                final(self).saved_custom_theme,
            ),
            r is Ok <==> custom_theme_valid(theme),
            r matches Err(e) ==> *final(self) == *old(self) && custom_theme_error(theme.name@, theme.palette@) == Some(e@),
            r is Ok ==> same_frame(*old(self), *final(self)) && final(self).theme == Theme::Custom(Box::new(theme))
                && final(self).saved_custom_theme == Some(theme) && final(self).dirty
                && final(self).status@ == "已导入主题，尚未应用到桌面。"@,
    {
        match Theme::custom(theme) {
            Ok(t) => {
                self.theme = t;
            },
            Err(e) => {
                return Err(e);
            },
        }
        self.remember_custom_theme();
        self.dirty = true;
        self.status = "已导入主题，尚未应用到桌面。".to_owned();
        Ok(())
    }

    /// Records that the settings were applied to the desktop.
    pub fn mark_applied(&mut self)
        ensures
            same_frame(*old(self), *final(self)),
            final(self).theme == old(self).theme,
            final(self).saved_custom_theme == old(self).saved_custom_theme,
            !final(self).dirty,
            final(self).status@ == "已应用到桌面；后续自动更新会沿用此主题。"@,
    {
        self.dirty = false;
        self.status = "已应用到桌面；后续自动更新会沿用此主题。".to_owned();
    }
}

/// A theme button of the settings window.
pub struct ThemeButton {
    pub label: String,
    pub action: Action,
    /// Whether the button shows the current theme.
    pub selected: bool,
}

/// Color of the status line while changes are pending.
pub open spec fn pending_status_color() -> int {
    colorref(223, 137, 102)
}

/// Color of the status line when everything is applied.
pub open spec fn settled_status_color() -> int {
    colorref(157, 171, 160)
}

/// The percentage shown beside a margin slider: the value clamped into the
/// margin's range, followed by '%'.
pub open spec fn margin_percent_text(f: MarginField, value: u8) -> Seq<char> {
    crate::text::decimal(clamped_margin(f, value) as nat) + "%"@
}

/// The percentage shown beside the slider of margin `field` set to `value`.
pub fn margin_percent(field: MarginField, value: u8) -> (r: String)
    ensures
        r@ == margin_percent_text(field, value),
{
    let (minimum, maximum) = field.range();
    let clamped = if value < minimum {
        minimum
    } else if value > maximum {
        maximum
    } else {
        value
    };
    let mut text = crate::text::decimal_string(clamped as u64);
    crate::text::append_str(&mut text, "%");
    text
}

impl SettingsState {
    /// The heading above the preview: the year and "年全年日历".
    pub fn title(&self) -> (r: String)
        ensures
            r@ == crate::text::signed_decimal(self.year as int) + " 年全年日历"@,
    {
        let mut text = crate::text::signed_decimal_string(self.year as i64);
        crate::text::append_str(&mut text, " 年全年日历");
        text
    }

    /// The dark, light and custom buttons, the one of the shown theme selected.
    pub fn theme_buttons(&self) -> (r: Vec<ThemeButton>)
        ensures
            r@.len() == 3,
            r@[0].label@ == "深色"@ && r@[0].action == Action::Dark && r@[0].selected == (self.theme
                == Theme::Dark),
            r@[1].label@ == "浅色"@ && r@[1].action == Action::Light && r@[1].selected == (self.theme
                == Theme::Light),
            r@[2].label@ == "自定义"@ && r@[2].action == Action::Custom && r@[2].selected
                == (self.theme is Custom),
    {
        let dark = match self.theme {
            Theme::Dark => true,
            _ => false,
        };
        let light = match self.theme {
            Theme::Light => true,
            _ => false,
        };
        let custom = match self.theme {
            Theme::Custom(_) => true,
            _ => false,
        };
        let mut buttons: Vec<ThemeButton> = Vec::new();
        buttons.push(ThemeButton { label: "深色".to_owned(), action: Action::Dark, selected: dark });
        buttons.push(ThemeButton { label: "浅色".to_owned(), action: Action::Light, selected: light });
        buttons.push(
            ThemeButton { label: "自定义".to_owned(), action: Action::Custom, selected: custom },
        );
        buttons
    }

    /// The color of the status line: the accent while changes are pending.
    pub fn status_color(&self) -> (r: u32)
        ensures
            r == (if self.dirty {
                pending_status_color()
            } else {
                settled_status_color()
            }),
    {
        if self.dirty {
            rgb(223, 137, 102)
        } else {
            rgb(157, 171, 160)
        }
    }
}

/// An open color dialog for one palette field: what to restore when it is
/// cancelled and which color was previewed last.
pub struct ColorEdit {
    pub field: PaletteField,
    /// The window's theme, saved theme, status and dirty flag when the dialog opened.
    pub before: SettingsSnapshot,
    /// The color the dialog opened with.
    pub initial: u32,
    /// The color previewed last (at first the initial one).
    pub last_color: u32,
}

impl SettingsState {
    /// Opens a color edit of `field`: starts from the shown color and keeps
    /// what a cancel restores.
    pub fn begin_color_edit(&self, field: PaletteField) -> (r: ColorEdit)
        requires
            splits_into_channels(
                vstd::utf8::encode_utf8(theme_colors(self.theme)[field_index(field)]),
            ),
        ensures
            r.field == field,
            r.initial == colorref_of_bytes(
                vstd::utf8::encode_utf8(theme_colors(self.theme)[field_index(field)]),
            ),
            r.last_color == r.initial,
            r.before.theme == self.theme,
            r.before.saved_custom_theme == self.saved_custom_theme,
            r.before.status == self.status,
            r.before.dirty == self.dirty,
    {
        let initial = self.initial_color(field);
        ColorEdit { field, before: self.snapshot(), initial, last_color: initial }
    }
}

impl ColorEdit {
    /// The dialog's red, green or blue field changed and now reads `picked`
    /// (`None` when it does not read as a color): a new color is previewed in
    /// `state`; returns whether the preview must be redrawn.
    pub fn dialog_changed(&mut self, state: &mut SettingsState, picked: Option<u32>) -> (redraw: bool)
        ensures
            redraw == (picked matches Some(c) && c != old(self).last_color),
            redraw ==> final(self).last_color == picked->0 && preview_color_rel(
                *old(state),
                *final(state),
                old(self).field,
                picked->0,
            ),
            !redraw ==> *final(state) == *old(state) && final(self).last_color == old(self).last_color,
            final(self).field == old(self).field,
            final(self).initial == old(self).initial,
            final(self).before == old(self).before,
            themes_valid(old(state).theme, old(state).saved_custom_theme) ==> themes_valid(
                final(state).theme,
                final(state).saved_custom_theme,
            ),
    {
        match picked {
            Some(color) => {
                if color == self.last_color {
                    return false;
                }
                self.last_color = color;
                state.preview_color(self.field, color);
                true
            },
            None => false,
        }
    }
}

/// Cancelling a color edit, whatever was previewed while the dialog was open,
/// brings back the theme, the saved custom theme, the status line and the
/// pending flag from when it opened; so does confirming the color it opened with.
pub proof fn lemma_cancelled_color_edit_restores(
    opened: SettingsState,
    edit: ColorEdit,
    closing: SettingsState,
    closed: SettingsState,
    selected: Option<u32>,
)
    requires
        edit.before.theme == opened.theme,
        edit.before.saved_custom_theme == opened.saved_custom_theme,
        edit.before.status == opened.status,
        edit.before.dirty == opened.dirty,
        finish_color_edit_rel(closing, closed, edit, selected),
        selected is None || selected == Some(edit.initial),
    ensures
        closed.theme == opened.theme,
        closed.saved_custom_theme == opened.saved_custom_theme,
        closed.status == opened.status,
        closed.dirty == opened.dirty,
{
}

/// A copy of a theme.
pub fn duplicate_theme(theme: &Theme) -> (r: Theme)
    ensures
        r == *theme,
{
    match theme {
        Theme::Dark => Theme::Dark,
        Theme::Light => Theme::Light,
        Theme::Moonlit => Theme::Moonlit,
        Theme::Pine => Theme::Pine,
        Theme::Cinnabar => Theme::Cinnabar,
        Theme::Mist => Theme::Mist,
        Theme::Custom(c) => Theme::Custom(Box::new(c.duplicate())),
    }
}

/// Switching from a custom theme to a built-in one and back to custom shows
/// the same custom theme again.
pub proof fn lemma_custom_theme_comes_back(
    s0: SettingsState,
    s1: SettingsState,
    s2: SettingsState,
    b: BuiltinTheme,
)
    requires
        s0.theme is Custom,
        select_rel(s0, s1, crate::theme::builtin_theme(b)),
        ensure_custom_rel(s1, s2),
    ensures
        s2.theme == s0.theme,
{
}

} // verus!
