use vstd::prelude::*;

use crate::text::{append_str, chars_of, str_eq};

verus! {

/// The six built-in color themes.
#[derive(Debug, Clone, Copy, PartialEq, Eq, Structural)]
pub enum BuiltinTheme {
    Dark,
    Light,
    Moonlit,
    Pine,
    Cinnabar,
    Mist,
}

/// The theme of a wallpaper: one of the built-in palettes or a custom one.
#[derive(Debug, Clone, PartialEq, Eq)]
pub enum Theme {
    Dark,
    Light,
    Moonlit,
    Pine,
    Cinnabar,
    Mist,
    Custom(Box<CustomTheme>),
}

/// A named palette that a user can import, export and edit.
#[derive(Debug, Clone, PartialEq, Eq)]
pub struct CustomTheme {
    pub name: String,
    pub palette: Palette,
}

/// The eleven colors of a wallpaper, each meant to be `#RRGGBB`.
#[derive(Debug, Clone, PartialEq, Eq)]
pub struct Palette {
    pub paper: String,
    pub gutter: String,
    pub card: String,
    pub current_card: String,
    pub ink: String,
    pub soft: String,
    pub muted: String,
    pub accent: String,
    pub accent_soft: String,
    pub line: String,
    pub footer: String,
}

impl View for Palette {
    /// The colors in field order: paper, gutter, card, currentCard, ink,
    /// soft, muted, accent, accentSoft, line, footer.
    type V = Seq<Seq<char>>;

    open spec fn view(&self) -> Seq<Seq<char>> {
        seq![
            self.paper@,
            self.gutter@,
            self.card@,
            self.current_card@,
            self.ink@,
            self.soft@,
            self.muted@,
            self.accent@,
            self.accent_soft@,
            self.line@,
            self.footer@,
        ]
    }
}

// ---------------------------------------------------------------------------
// Specifications
/// The identifier of a built-in theme, as used on the command line and in settings.
pub open spec fn builtin_id(b: BuiltinTheme) -> Seq<char> {
    match b {
        BuiltinTheme::Dark => "dark"@,
        BuiltinTheme::Light => "light"@,
        BuiltinTheme::Moonlit => "moonlit"@,
        BuiltinTheme::Pine => "pine"@,
        BuiltinTheme::Cinnabar => "cinnabar"@,
        BuiltinTheme::Mist => "mist"@,
    }
}

/// The display label of a built-in theme.
pub open spec fn builtin_label(b: BuiltinTheme) -> Seq<char> {
    match b {
        BuiltinTheme::Dark => "深色"@,
        BuiltinTheme::Light => "浅色"@,
        BuiltinTheme::Moonlit => "月海"@,
        BuiltinTheme::Pine => "松烟"@,
        BuiltinTheme::Cinnabar => "朱砂"@,
        BuiltinTheme::Mist => "雾蓝"@,
    }
}

/// The theme value of a built-in theme.
pub open spec fn builtin_theme(b: BuiltinTheme) -> Theme {
    match b {
        BuiltinTheme::Dark => Theme::Dark,
        BuiltinTheme::Light => Theme::Light,
        BuiltinTheme::Moonlit => Theme::Moonlit,
        BuiltinTheme::Pine => Theme::Pine,
        BuiltinTheme::Cinnabar => Theme::Cinnabar,
        BuiltinTheme::Mist => Theme::Mist,
    }
}

/// The built-in theme a theme is, if it is not custom.
pub open spec fn builtin_of(t: Theme) -> Option<BuiltinTheme> {
    match t {
        Theme::Dark => Some(BuiltinTheme::Dark),
        Theme::Light => Some(BuiltinTheme::Light),
        Theme::Moonlit => Some(BuiltinTheme::Moonlit),
        Theme::Pine => Some(BuiltinTheme::Pine),
        Theme::Cinnabar => Some(BuiltinTheme::Cinnabar),
        Theme::Mist => Some(BuiltinTheme::Mist),
        Theme::Custom(_) => None,
    }
}

/// The theme named by an identifier; `None` for an unknown identifier.
pub open spec fn parse_theme_spec(s: Seq<char>) -> Option<Theme> {
    if s == "dark"@ {
        Some(Theme::Dark)
    } else if s == "light"@ {
        Some(Theme::Light)
    } else if s == "moonlit"@ {
        Some(Theme::Moonlit)
    } else if s == "pine"@ {
        Some(Theme::Pine)
    } else if s == "cinnabar"@ {
        Some(Theme::Cinnabar)
    } else if s == "mist"@ {
        Some(Theme::Mist)
    } else {
        None
    }
}

/// The identifier under which a theme is remembered.
pub open spec fn theme_id(t: Theme) -> Seq<char> {
    match builtin_of(t) {
        Some(b) => builtin_id(b),
        None => "custom"@,
    }
}

/// The name given to a built-in theme when it is exported.
pub open spec fn export_name(b: BuiltinTheme) -> Seq<char> {
    match b {
        BuiltinTheme::Dark => "深色基础"@,
        BuiltinTheme::Light => "浅色基础"@,
        BuiltinTheme::Moonlit => "月海"@,
        BuiltinTheme::Pine => "松烟"@,
        BuiltinTheme::Cinnabar => "朱砂"@,
        BuiltinTheme::Mist => "雾蓝"@,
    }
}

/// The colors of a built-in theme, in palette field order.
pub open spec fn builtin_colors(b: BuiltinTheme) -> Seq<Seq<char>> {
    match b {
        BuiltinTheme::Dark => seq![
            "#19211C"@, "#1F2420"@, "#1E2822"@, "#28362D"@, "#F1EADF"@, "#9FAAA1"@,
            "#78857C"@, "#DF6B54"@, "#E3A294"@, "#536057"@, "#909A91"@,
        ],
        BuiltinTheme::Light => seq![
            "#F4EEE3"@, "#E8DFD0"@, "#FBF7EF"@, "#FFF9EF"@, "#282B27"@, "#68716A"@,
            "#858C84"@, "#B0523E"@, "#8E3D30"@, "#CFC6B8"@, "#707870"@,
        ],
        BuiltinTheme::Moonlit => seq![
            "#172127"@, "#202A2D"@, "#1C2B30"@, "#29434A"@, "#EAF1ED"@, "#A8BCBA"@,
            "#74898A"@, "#E0A05A"@, "#C8A279"@, "#536B6E"@, "#92A4A3"@,
        ],
        BuiltinTheme::Pine => seq![
            "#18211C"@, "#243029"@, "#223027"@, "#2D4133"@, "#F0EBDD"@, "#AAB6A4"@,
            "#7E8D7C"@, "#D98A61"@, "#B9C493"@, "#566858"@, "#97A398"@,
        ],
        BuiltinTheme::Cinnabar => seq![
            "#3A2723"@, "#4A2F29"@, "#4A302A"@, "#5E3930"@, "#F8EADD"@, "#D7B7A4"@,
            "#AE887A"@, "#E58B68"@, "#EAB19C"@, "#7C5148"@, "#C5A08F"@,
        ],
        BuiltinTheme::Mist => seq![
            "#E7ECEF"@, "#D9E1E5"@, "#F5F7F6"@, "#FFF6E7"@, "#29363B"@, "#66777D"@,
            "#87979D"@, "#C76B4F"@, "#6D8791"@, "#B7C4C9"@, "#738187"@,
        ],
    }
}

/// The colors a theme paints with.
pub open spec fn theme_colors(t: Theme) -> Seq<Seq<char>> {
    match t {
        Theme::Custom(c) => c.palette@,
        _ => builtin_colors(builtin_of(t)->0),
    }
}

/// The name under which each palette color appears in theme files.
pub open spec fn palette_field_name(i: int) -> Seq<char> {
    seq![
        "paper"@, "gutter"@, "card"@, "currentCard"@, "ink"@, "soft"@, "muted"@, "accent"@,
        "accentSoft"@, "line"@, "footer"@,
    ][i]
}

/// Whether `c` is an ASCII hexadecimal digit.
pub open spec fn is_hex_digit(c: char) -> bool {
    ('0' <= c && c <= '9') || ('a' <= c && c <= 'f') || ('A' <= c && c <= 'F')
}

/// Whether `s` is a color of the form `#RRGGBB`.
pub open spec fn is_hex_color(s: Seq<char>) -> bool {
    &&& s.len() == 7
    &&& s[0] == '#'
    &&& forall|i: int| 1 <= i < 7 ==> is_hex_digit(#[trigger] s[i])
}

/// Whether `c` has the Unicode `White_Space` property (what `char::is_whitespace` tests).
pub open spec fn is_white_space(c: char) -> bool {
    let u = c as u32;
    ||| 0x09 <= u <= 0x0D
    ||| u == 0x20
    ||| u == 0x85
    ||| u == 0xA0
    ||| u == 0x1680
    ||| 0x2000 <= u <= 0x200A
    ||| u == 0x2028
    ||| u == 0x2029
    ||| u == 0x202F
    ||| u == 0x205F
    ||| u == 0x3000
}

/// Whether `s` is empty once whitespace is trimmed from both ends.
pub open spec fn is_blank(s: Seq<char>) -> bool {
    forall|i: int| 0 <= i < s.len() ==> is_white_space(#[trigger] s[i])
}

/// Whether a theme name is acceptable: not blank and at most 48 characters.
pub open spec fn name_ok(s: Seq<char>) -> bool {
    !is_blank(s) && s.len() <= 48
}

/// The message for a theme name that is blank or too long.
pub open spec fn name_error() -> Seq<char> {
    "主题名称应为 1-48 个字符"@
}

/// The message for a color `name` that is not `#RRGGBB`.
pub open spec fn color_error(name: Seq<char>) -> Seq<char> {
    name + " 必须是 #RRGGBB 格式"@
}

/// Index of the first color of `colors` that is not `#RRGGBB`, searching from `i`.
pub open spec fn first_bad_color_from(colors: Seq<Seq<char>>, i: int) -> Option<int>
    decreases colors.len() - i,
{
    if i < 0 || i >= colors.len() {
        None
    } else if !is_hex_color(colors[i]) {
        Some(i)
    } else {
        first_bad_color_from(colors, i + 1)
    }
}

/// The error of validating a palette's colors, `None` when all are `#RRGGBB`.
pub open spec fn palette_error(colors: Seq<Seq<char>>) -> Option<Seq<char>> {
    match first_bad_color_from(colors, 0) {
        Some(i) => Some(color_error(palette_field_name(i))),
        None => None,
    }
}

/// The error of validating a custom theme, `None` when it is valid.
pub open spec fn custom_theme_error(name: Seq<char>, colors: Seq<Seq<char>>) -> Option<Seq<char>> {
    if !name_ok(name) {
        Some(name_error())
    } else {
        palette_error(colors)
    }
}

/// All colors of `colors` are `#RRGGBB`.
pub open spec fn all_hex_colors(colors: Seq<Seq<char>>) -> bool {
    forall|i: int| 0 <= i < colors.len() ==> is_hex_color(#[trigger] colors[i])
}

/// A custom theme that validation accepts.
pub open spec fn custom_theme_valid(t: CustomTheme) -> bool {
    name_ok(t.name@) && all_hex_colors(t.palette@)
}

proof fn lemma_first_bad_color(colors: Seq<Seq<char>>, i: int)
    requires
        0 <= i <= colors.len(),
    ensures
        first_bad_color_from(colors, i) is None <==> (forall|j: int|
            i <= j < colors.len() ==> is_hex_color(#[trigger] colors[j])),
        first_bad_color_from(colors, i) matches Some(k) ==> i <= k < colors.len(),
    decreases colors.len() - i,
{
    if i < colors.len() {
        lemma_first_bad_color(colors, i + 1);
    }
}

/// The error is absent exactly for valid themes.
pub proof fn lemma_custom_theme_error_iff_invalid(t: CustomTheme)
    ensures
        custom_theme_error(t.name@, t.palette@) is None <==> custom_theme_valid(t),
{
    lemma_first_bad_color(t.palette@, 0);
}

/// Every built-in theme exports as a valid custom theme: its export name is
/// acceptable and each of its colors is `#RRGGBB`.
pub proof fn lemma_builtin_themes_valid(b: BuiltinTheme)
    ensures
        all_hex_colors(builtin_colors(b)),
        name_ok(export_name(b)),
{
    match b {
        BuiltinTheme::Dark => {
            reveal_strlit("#19211C");
            reveal_strlit("#1F2420");
            reveal_strlit("#1E2822");
            reveal_strlit("#28362D");
            reveal_strlit("#F1EADF");
            reveal_strlit("#9FAAA1");
            reveal_strlit("#78857C");
            reveal_strlit("#DF6B54");
            reveal_strlit("#E3A294");
            reveal_strlit("#536057");
            reveal_strlit("#909A91");
            reveal_strlit("深色基础");
            assert(!is_white_space(export_name(b)[0]));
            assert(all_hex_colors(builtin_colors(b)));
        },
        BuiltinTheme::Light => {
            reveal_strlit("#F4EEE3");
            reveal_strlit("#E8DFD0");
            reveal_strlit("#FBF7EF");
            reveal_strlit("#FFF9EF");
            reveal_strlit("#282B27");
            reveal_strlit("#68716A");
            reveal_strlit("#858C84");
            reveal_strlit("#B0523E");
            reveal_strlit("#8E3D30");
            reveal_strlit("#CFC6B8");
            reveal_strlit("#707870");
            reveal_strlit("浅色基础");
            assert(!is_white_space(export_name(b)[0]));
            assert(all_hex_colors(builtin_colors(b)));
        },
        BuiltinTheme::Moonlit => {
            reveal_strlit("#172127");
            reveal_strlit("#202A2D");
            reveal_strlit("#1C2B30");
            reveal_strlit("#29434A");
            reveal_strlit("#EAF1ED");
            reveal_strlit("#A8BCBA");
            reveal_strlit("#74898A");
            reveal_strlit("#E0A05A");
            reveal_strlit("#C8A279");
            reveal_strlit("#536B6E");
            reveal_strlit("#92A4A3");
            reveal_strlit("月海");
            assert(!is_white_space(export_name(b)[0]));
            assert(all_hex_colors(builtin_colors(b)));
        },
        BuiltinTheme::Pine => {
            reveal_strlit("#18211C");
            reveal_strlit("#243029");
            reveal_strlit("#223027");
            reveal_strlit("#2D4133");
            reveal_strlit("#F0EBDD");
            reveal_strlit("#AAB6A4");
            reveal_strlit("#7E8D7C");
            reveal_strlit("#D98A61");
            reveal_strlit("#B9C493");
            reveal_strlit("#566858");
            reveal_strlit("#97A398");
            reveal_strlit("松烟");
            assert(!is_white_space(export_name(b)[0]));
            assert(all_hex_colors(builtin_colors(b)));
        },
        BuiltinTheme::Cinnabar => {
            reveal_strlit("#3A2723");
            reveal_strlit("#4A2F29");
            reveal_strlit("#4A302A");
            reveal_strlit("#5E3930");
            reveal_strlit("#F8EADD");
            reveal_strlit("#D7B7A4");
            reveal_strlit("#AE887A");
            reveal_strlit("#E58B68");
            reveal_strlit("#EAB19C");
            reveal_strlit("#7C5148");
            reveal_strlit("#C5A08F");
            reveal_strlit("朱砂");
            assert(!is_white_space(export_name(b)[0]));
            assert(all_hex_colors(builtin_colors(b)));
        },
        BuiltinTheme::Mist => {
            reveal_strlit("#E7ECEF");
            reveal_strlit("#D9E1E5");
            reveal_strlit("#F5F7F6");
            reveal_strlit("#FFF6E7");
            reveal_strlit("#29363B");
            reveal_strlit("#66777D");
            reveal_strlit("#87979D");
            reveal_strlit("#C76B4F");
            reveal_strlit("#6D8791");
            reveal_strlit("#B7C4C9");
            reveal_strlit("#738187");
            reveal_strlit("雾蓝");
            assert(!is_white_space(export_name(b)[0]));
            assert(all_hex_colors(builtin_colors(b)));
        },
    }
}

/// Reading the identifier of a built-in theme gives that theme back, and the
/// theme knows which built-in theme it is.
pub proof fn lemma_builtin_id_roundtrip(b: BuiltinTheme)
    ensures
        parse_theme_spec(builtin_id(b)) == Some(builtin_theme(b)),
        builtin_of(builtin_theme(b)) == Some(b),
        theme_id(builtin_theme(b)) == builtin_id(b),
{
    reveal_strlit("dark");
    reveal_strlit("light");
    reveal_strlit("moonlit");
    reveal_strlit("pine");
    reveal_strlit("cinnabar");
    reveal_strlit("mist");
    let ids = seq!["dark"@, "light"@, "moonlit"@, "pine"@, "cinnabar"@, "mist"@];
    assert forall|i: int, j: int| 0 <= i < j < 6 implies ids[i] != ids[j] by {
        if ids[i].len() == ids[j].len() {
            assert(ids[i][0] != ids[j][0]);
        }
    }
    assert(ids[0] == "dark"@ && ids[1] == "light"@ && ids[2] == "moonlit"@ && ids[3] == "pine"@
        && ids[4] == "cinnabar"@ && ids[5] == "mist"@);
}

/// A theme read from an identifier is remembered under that same identifier.
pub proof fn lemma_parse_as_str_roundtrip(s: Seq<char>)
    ensures
        parse_theme_spec(s) matches Some(t) ==> theme_id(t) == s && builtin_of(t) is Some,
{
}

/// The menu of built-in themes lists each theme once, with its label.
pub proof fn lemma_all_lists_every_theme(b: BuiltinTheme)
    ensures
        exists|i: int| 0 <= i < 6 && #[trigger] BuiltinTheme::ALL@[i].0 == b && BuiltinTheme::ALL@[i].1@ == builtin_label(b),
        forall|i: int, j: int| 0 <= i < j < 6 ==> BuiltinTheme::ALL@[i].0 != BuiltinTheme::ALL@[j].0,
{
    match b {
        BuiltinTheme::Dark => assert(BuiltinTheme::ALL@[0].0 == b),
        BuiltinTheme::Light => assert(BuiltinTheme::ALL@[1].0 == b),
        BuiltinTheme::Moonlit => assert(BuiltinTheme::ALL@[2].0 == b),
        BuiltinTheme::Pine => assert(BuiltinTheme::ALL@[3].0 == b),
        BuiltinTheme::Cinnabar => assert(BuiltinTheme::ALL@[4].0 == b),
        BuiltinTheme::Mist => assert(BuiltinTheme::ALL@[5].0 == b),
    }
}

// ---------------------------------------------------------------------------
// Built-in themes
impl BuiltinTheme {
    /// Every built-in theme with its display label, in menu order.
    pub const ALL: [(Self, &'static str); 6] = [
        (Self::Dark, "深色"),
        (Self::Light, "浅色"),
        (Self::Moonlit, "月海"),
        (Self::Pine, "松烟"),
        (Self::Cinnabar, "朱砂"),
        (Self::Mist, "雾蓝"),
    ];

    /// The identifier of this theme.
    pub fn id(self) -> (r: &'static str)
        ensures
            r@ == builtin_id(self),
    {
        match self {
            Self::Dark => "dark",
            Self::Light => "light",
            Self::Moonlit => "moonlit",
            Self::Pine => "pine",
            Self::Cinnabar => "cinnabar",
            Self::Mist => "mist",
        }
    }

    /// The theme value of this built-in theme.
    pub fn theme(self) -> (r: Theme)
        ensures
            r == builtin_theme(self),
    {
        match self {
            Self::Dark => Theme::Dark,
            Self::Light => Theme::Light,
            Self::Moonlit => Theme::Moonlit,
            Self::Pine => Theme::Pine,
            Self::Cinnabar => Theme::Cinnabar,
            Self::Mist => Theme::Mist,
        }
    }
}

// ---------------------------------------------------------------------------
// Themes
impl Theme {
    /// The built-in theme whose identifier is `value`, if any.
    pub fn parse(value: &str) -> (r: Option<Self>)
        ensures
            r == parse_theme_spec(value@),
    {
        let all = BuiltinTheme::ALL;
        let mut i: usize = 0;
        while i < 6
            invariant
                all == BuiltinTheme::ALL,
                i <= 6,
                forall|j: int| 0 <= j < i ==> builtin_id(#[trigger] all[j].0) != value@,
            decreases 6 - i,
        {
            let (preset, _) = all[i];
            if str_eq(preset.id(), value) {
                let r = preset.theme();
                assert(Some(r) == parse_theme_spec(value@)) by {
                    assert(builtin_id(all[0].0) == "dark"@);
                    assert(builtin_id(all[1].0) == "light"@);
                    assert(builtin_id(all[2].0) == "moonlit"@);
                    assert(builtin_id(all[3].0) == "pine"@);
                    assert(builtin_id(all[4].0) == "cinnabar"@);
                }
                return Some(r);
            }
            i = i + 1;
        }
        assert(builtin_id(all[0].0) != value@);
        assert(builtin_id(all[1].0) != value@);
        assert(builtin_id(all[2].0) != value@);
        assert(builtin_id(all[3].0) != value@);
        assert(builtin_id(all[4].0) != value@);
        assert(builtin_id(all[5].0) != value@);
        None
    }

    /// The theme value of a built-in theme.
    pub fn from_builtin(preset: BuiltinTheme) -> (r: Self)
        ensures
            r == builtin_theme(preset),
    {
        preset.theme()
    }

    /// The built-in theme this is, or `None` for a custom theme.
    pub fn builtin(&self) -> (r: Option<BuiltinTheme>)
        ensures
            r == builtin_of(*self),
    {
        match self {
            Self::Dark => Some(BuiltinTheme::Dark),
            Self::Light => Some(BuiltinTheme::Light),
            Self::Moonlit => Some(BuiltinTheme::Moonlit),
            Self::Pine => Some(BuiltinTheme::Pine),
            Self::Cinnabar => Some(BuiltinTheme::Cinnabar),
            Self::Mist => Some(BuiltinTheme::Mist),
            Self::Custom(_) => None,
        }
    }

    /// A custom theme, after checking its name and colors.
    pub fn custom(theme: CustomTheme) -> (r: Result<Self, String>)
        ensures
            r is Ok <==> custom_theme_valid(theme),
            r matches Ok(t) ==> t == Theme::Custom(Box::new(theme)),
            r matches Err(e) ==> Some(e@) == custom_theme_error(theme.name@, theme.palette@),
    {
        proof {
            lemma_custom_theme_error_iff_invalid(theme);
        }
        match theme.validate() {
            Ok(()) => Ok(Self::Custom(Box::new(theme))),
            Err(e) => Err(e),
        }
    }

    /// The identifier under which this theme is remembered ("custom" for custom themes).
    pub fn as_str(&self) -> (r: &'static str)
        ensures
            r@ == theme_id(*self),
    {
        match self {
            Self::Dark => "dark",
            Self::Light => "light",
            Self::Moonlit => "moonlit",
            Self::Pine => "pine",
            Self::Cinnabar => "cinnabar",
            Self::Mist => "mist",
            Self::Custom(_) => "custom",
        }
    }

    /// The custom theme inside, if this is one.
    pub fn custom_theme(&self) -> (r: Option<&CustomTheme>)
        ensures
            r is Some <==> self is Custom,
            self matches Theme::Custom(c) ==> r == Some(&**c),
    {
        match self {
            Self::Custom(theme) => Some(&**theme),
            Self::Dark | Self::Light | Self::Moonlit | Self::Pine | Self::Cinnabar | Self::Mist => {
                None
            },
        }
    }

    /// This theme as a custom theme that can be saved to a file: a built-in
    /// theme under its export name, a custom theme as it is.
    pub fn exportable(&self) -> (r: CustomTheme)
        ensures
            self matches Theme::Custom(c) ==> r == *c,
            builtin_of(*self) matches Some(b) ==> r.name@ == export_name(b) && r.palette@
                == builtin_colors(b),
    {
        match self {
            Self::Dark => CustomTheme { name: "深色基础".to_owned(), palette: self.palette() },
            Self::Light => CustomTheme { name: "浅色基础".to_owned(), palette: self.palette() },
            Self::Moonlit => CustomTheme { name: "月海".to_owned(), palette: self.palette() },
            Self::Pine => CustomTheme { name: "松烟".to_owned(), palette: self.palette() },
            Self::Cinnabar => CustomTheme { name: "朱砂".to_owned(), palette: self.palette() },
            Self::Mist => CustomTheme { name: "雾蓝".to_owned(), palette: self.palette() },
            Self::Custom(theme) => theme.duplicate(),
        }
    }

    /// The colors this theme paints with.
    pub fn palette(&self) -> (r: Palette)
        ensures
            r@ == theme_colors(*self),
            self matches Theme::Custom(c) ==> r == c.palette,
    {
        match self {
            Self::Dark => Palette::from_strs(
                ["#19211C", "#1F2420", "#1E2822", "#28362D", "#F1EADF", "#9FAAA1",
                "#78857C", "#DF6B54", "#E3A294", "#536057", "#909A91"],
            ),
            Self::Light => Palette::from_strs(
                ["#F4EEE3", "#E8DFD0", "#FBF7EF", "#FFF9EF", "#282B27", "#68716A",
                "#858C84", "#B0523E", "#8E3D30", "#CFC6B8", "#707870"],
            ),
            Self::Moonlit => Palette::from_strs(
                ["#172127", "#202A2D", "#1C2B30", "#29434A", "#EAF1ED", "#A8BCBA",
                "#74898A", "#E0A05A", "#C8A279", "#536B6E", "#92A4A3"],
            ),
            Self::Pine => Palette::from_strs(
                ["#18211C", "#243029", "#223027", "#2D4133", "#F0EBDD", "#AAB6A4",
                "#7E8D7C", "#D98A61", "#B9C493", "#566858", "#97A398"],
            ),
            Self::Cinnabar => Palette::from_strs(
                ["#3A2723", "#4A2F29", "#4A302A", "#5E3930", "#F8EADD", "#D7B7A4",
                "#AE887A", "#E58B68", "#EAB19C", "#7C5148", "#C5A08F"],
            ),
            Self::Mist => Palette::from_strs(
                ["#E7ECEF", "#D9E1E5", "#F5F7F6", "#FFF6E7", "#29363B", "#66777D",
                "#87979D", "#C76B4F", "#6D8791", "#B7C4C9", "#738187"],
            ),
            Self::Custom(theme) => theme.palette.duplicate(),
        }
    }
}

// ---------------------------------------------------------------------------
// Custom themes and palettes
impl CustomTheme {
    /// Checks the name (1 to 48 characters, not only whitespace) and then every color.
    pub fn validate(&self) -> (r: Result<(), String>)
        ensures
            r is Ok <==> custom_theme_error(self.name@, self.palette@) is None,
            r matches Err(e) ==> custom_theme_error(self.name@, self.palette@) == Some(e@),
    {
        if is_blank_str(&self.name) || self.name.unicode_len() > 48 {
            return Err("主题名称应为 1-48 个字符".to_owned());
        }
        self.palette.validate()
    }

    /// A copy with the same name and colors.
    pub fn duplicate(&self) -> (r: Self)
        ensures
            r == *self,
    {
        CustomTheme { name: self.name.clone(), palette: self.palette.duplicate() }
    }
}

impl Palette {
    /// A palette from eleven colors in field order.
    pub fn from_strs(colors: [&str; 11]) -> (r: Self)
        ensures
            r@ == Seq::new(11, |i: int| colors@[i]@),
    {
        let r = Palette {
            paper: colors[0].to_owned(),
            gutter: colors[1].to_owned(),
            card: colors[2].to_owned(),
            current_card: colors[3].to_owned(),
            ink: colors[4].to_owned(),
            soft: colors[5].to_owned(),
            muted: colors[6].to_owned(),
            accent: colors[7].to_owned(),
            accent_soft: colors[8].to_owned(),
            line: colors[9].to_owned(),
            footer: colors[10].to_owned(),
        };
        assert(r@ =~= Seq::new(11, |i: int| colors@[i]@));
        r
    }

    /// A copy with the same colors.
    pub fn duplicate(&self) -> (r: Self)
        ensures
            r == *self,
    {
        Palette {
            paper: self.paper.clone(),
            gutter: self.gutter.clone(),
            card: self.card.clone(),
            current_card: self.current_card.clone(),
            ink: self.ink.clone(),
            soft: self.soft.clone(),
            muted: self.muted.clone(),
            accent: self.accent.clone(),
            accent_soft: self.accent_soft.clone(),
            line: self.line.clone(),
            footer: self.footer.clone(),
        }
    }

    /// Checks that every color is `#RRGGBB`, reporting the first that is not.
    pub fn validate(&self) -> (r: Result<(), String>)
        ensures
            r is Ok <==> palette_error(self@) is None,
            r matches Err(e) ==> palette_error(self@) == Some(e@),
    {
        let fields: [(&str, &String); 11] = [
            ("paper", &self.paper),
            ("gutter", &self.gutter),
            ("card", &self.card),
            ("currentCard", &self.current_card),
            ("ink", &self.ink),
            ("soft", &self.soft),
            ("muted", &self.muted),
            ("accent", &self.accent),
            ("accentSoft", &self.accent_soft),
            ("line", &self.line),
            ("footer", &self.footer),
        ];
        let ghost colors = self@;
        assert forall|j: int| 0 <= j < 11 implies #[trigger] fields@[j].1@ == colors[j]
            && fields@[j].0@ == palette_field_name(j) by {
            assert(colors.len() == 11);
        }
        let mut i: usize = 0;
        while i < 11
            invariant
                colors == self@,
                colors.len() == 11,
                i <= 11,
                forall|j: int| 0 <= j < 11 ==> #[trigger] fields@[j].1@ == colors[j]
                    && fields@[j].0@ == palette_field_name(j),
                first_bad_color_from(colors, 0) == first_bad_color_from(colors, i as int),
            decreases 11 - i,
        {
            let (name, color) = fields[i];
            match validate_hex_color(name, color.as_str()) {
                Ok(()) => {},
                Err(e) => {
                    return Err(e);
                },
            }
            i = i + 1;
        }
        Ok(())
    }
}

/// The name given to a custom theme whose file leaves the name out.
pub fn default_custom_name() -> (r: String)
    ensures
        r@ == "未命名主题"@,
{
    "未命名主题".to_owned()
}

/// Whether `c` has the Unicode `White_Space` property.
pub fn is_white_space_char(c: char) -> (r: bool)
    ensures
        r == is_white_space(c),
{
    let u = c as u32;
    (0x09 <= u && u <= 0x0D) || u == 0x20 || u == 0x85 || u == 0xA0 || u == 0x1680 || (0x2000
        <= u && u <= 0x200A) || u == 0x2028 || u == 0x2029 || u == 0x202F || u == 0x205F || u
        == 0x3000
}

/// Whether `s` holds only whitespace (is empty once trimmed).
pub fn is_blank_str(s: &str) -> (r: bool)
    ensures
        r == is_blank(s@),
{
    let v = chars_of(s);
    let mut i: usize = 0;
    while i < v.len()
        invariant
            v@ == s@,
            i <= v@.len(),
            forall|j: int| 0 <= j < i ==> is_white_space(#[trigger] v@[j]),
        decreases v.len() - i,
    {
        if !is_white_space_char(v[i]) {
            return false;
        }
        i = i + 1;
    }
    true
}

/// Whether `c` is an ASCII hexadecimal digit.
pub fn is_hex_digit_char(c: char) -> (r: bool)
    ensures
        r == is_hex_digit(c),
{
    ('0' <= c && c <= '9') || ('a' <= c && c <= 'f') || ('A' <= c && c <= 'F')
}

/// Checks that `color` is `#RRGGBB`; the error names the color `name`.
pub fn validate_hex_color(name: &str, color: &str) -> (r: Result<(), String>)
    ensures
        r is Ok <==> is_hex_color(color@),
        r matches Err(e) ==> e@ == color_error(name@),
{
    let v = chars_of(color);
    let mut ok = v.len() == 7 && v[0] == '#';
    if ok {
        let mut i: usize = 1;
        while i < 7
            invariant
                v@ == color@,
                v@.len() == 7,
                v@[0] == '#',
                1 <= i <= 7,
                ok == (forall|j: int| 1 <= j < i ==> is_hex_digit(#[trigger] v@[j])),
            decreases 7 - i,
        {
            ok = ok && is_hex_digit_char(v[i]);
            i = i + 1;
        }
    }
    if !ok {
        let mut e = name.to_owned();
        append_str(&mut e, " 必须是 #RRGGBB 格式");
        return Err(e);
    }
    Ok(())
}

} // verus!
