use yuexu::layout::LayoutSettings;
use yuexu::theme::{validate_hex_color, BuiltinTheme, CustomTheme, Palette, Theme};

fn sample_palette() -> Palette {
    Palette {
        paper: "#112128".to_owned(),
        gutter: "#0B151A".to_owned(),
        card: "#162B33".to_owned(),
        current_card: "#203D47".to_owned(),
        ink: "#E5F1F0".to_owned(),
        soft: "#A5B8B6".to_owned(),
        muted: "#718B8B".to_owned(),
        accent: "#E2835C".to_owned(),
        accent_soft: "#F2B38A".to_owned(),
        line: "#48646A".to_owned(),
        footer: "#91AAA9".to_owned(),
    }
}

#[test]
fn accepts_only_supported_themes() {
    assert_eq!(Theme::parse("dark"), Some(Theme::Dark));
    assert_eq!(Theme::parse("light"), Some(Theme::Light));
    assert_eq!(Theme::parse("moonlit"), Some(Theme::Moonlit));
    assert_eq!(Theme::parse("pine"), Some(Theme::Pine));
    assert_eq!(Theme::parse("cinnabar"), Some(Theme::Cinnabar));
    assert_eq!(Theme::parse("mist"), Some(Theme::Mist));
    assert_eq!(Theme::parse("forest"), None);
}

#[test]
fn round_trips_all_builtin_theme_ids() {
    for (preset, _) in BuiltinTheme::ALL {
        assert_eq!(
            Theme::parse(preset.id()).and_then(|theme| theme.builtin()),
            Some(preset)
        );
    }
}

#[test]
fn clamps_layout_margins_to_supported_ranges() {
    assert_eq!(
        LayoutSettings {
            left_margin: 0,
            right_margin: 255,
            top_margin: 0,
            bottom_margin: 255,
        }
        .normalized(),
        LayoutSettings {
            left_margin: LayoutSettings::MIN_LEFT_MARGIN,
            right_margin: LayoutSettings::MAX_RIGHT_MARGIN,
            top_margin: LayoutSettings::MIN_TOP_MARGIN,
            bottom_margin: LayoutSettings::MAX_BOTTOM_MARGIN,
        }
    );
}

#[test]
fn rejects_unsafe_custom_color_values() {
    let mut palette = Theme::Dark.palette();
    palette.paper = "url(javascript:alert(1))".to_owned();
    assert!(Theme::custom(CustomTheme {
        name: "无效主题".to_owned(),
        palette,
    })
    .is_err());
}

#[test]
fn accepts_a_valid_custom_palette() {
    let custom = CustomTheme {
        name: "雨夜青".to_owned(),
        palette: sample_palette(),
    };
    let theme = Theme::custom(custom.clone()).unwrap();
    assert_eq!(theme, Theme::Custom(Box::new(custom.clone())));
    assert_eq!(theme.as_str(), "custom");
    assert_eq!(theme.builtin(), None);
    assert_eq!(theme.custom_theme(), Some(&custom));
    assert_eq!(theme.palette().paper, "#112128");
    assert_eq!(theme.exportable(), custom);
}

#[test]
fn reports_the_first_bad_color_by_its_file_name() {
    let mut palette = sample_palette();
    palette.current_card = "#12345".to_owned();
    palette.line = "red".to_owned();
    let error = Theme::custom(CustomTheme { name: "x".to_owned(), palette }).unwrap_err();
    assert_eq!(error, "currentCard 必须是 #RRGGBB 格式");
}

#[test]
fn rejects_blank_and_overlong_names() {
    let blank = CustomTheme { name: " \t\u{3000}".to_owned(), palette: sample_palette() };
    assert_eq!(Theme::custom(blank).unwrap_err(), "主题名称应为 1-48 个字符");
    let long = CustomTheme { name: "月".repeat(49), palette: sample_palette() };
    assert_eq!(long.validate().unwrap_err(), "主题名称应为 1-48 个字符");
    let just_fits = CustomTheme { name: "月".repeat(48), palette: sample_palette() };
    assert!(just_fits.validate().is_ok());
}

#[test]
fn hex_colors_need_exactly_six_hex_digits() {
    assert!(validate_hex_color("ink", "#abcDEF").is_ok());
    assert!(validate_hex_color("ink", "#abcDEG").is_err());
    assert!(validate_hex_color("ink", "abcdef1").is_err());
    assert!(validate_hex_color("ink", "#abcdef0").is_err());
    assert!(validate_hex_color("ink", "#ＡＢＣＤＥＦ").is_err());
    assert_eq!(validate_hex_color("ink", "").unwrap_err(), "ink 必须是 #RRGGBB 格式");
}

#[test]
fn every_builtin_theme_exports_as_a_valid_custom_theme() {
    for (preset, _) in BuiltinTheme::ALL {
        let theme = Theme::from_builtin(preset);
        assert_eq!(theme.builtin(), Some(preset));
        assert_eq!(theme.as_str(), preset.id());
        let exported = theme.exportable();
        assert!(exported.validate().is_ok());
        assert_eq!(Theme::custom(exported.clone()).unwrap().palette(), theme.palette());
    }
    assert_eq!(Theme::Dark.exportable().name, "深色基础");
    assert_eq!(Theme::Light.exportable().name, "浅色基础");
    assert_eq!(Theme::Mist.exportable().palette.accent, "#C76B4F");
}

#[test]
fn default_layout_and_custom_name() {
    let layout = LayoutSettings::default();
    assert_eq!(
        layout,
        LayoutSettings { left_margin: 16, right_margin: 2, top_margin: 6, bottom_margin: 10 }
    );
    assert_eq!(layout.normalized(), layout);
    assert_eq!(yuexu::theme::default_custom_name(), "未命名主题");
}

#[test]
fn normalizing_twice_changes_nothing_more() {
    let once = LayoutSettings { left_margin: 40, right_margin: 0, top_margin: 10, bottom_margin: 2 }
        .normalized();
    assert_eq!(
        once,
        LayoutSettings { left_margin: 32, right_margin: 1, top_margin: 10, bottom_margin: 3 }
    );
    assert_eq!(once.normalized(), once);
}
