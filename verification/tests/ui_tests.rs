use yuexu::date::CalendarDate;
use yuexu::layout::LayoutSettings;
use yuexu::theme::{CustomTheme, Theme};
use yuexu::ui::{
    color_component_changed, colorref_from_hex, hex_from_colorref, margin_row, margin_target_at,
    margin_value_on_track, mouse_position, rgb, Action, HitTarget, MarginField, PaletteField, Rect,
    SettingsState, WindowEffect, action_at, DragState, PointerRelease, color_from_channels,
    margin_handle, margin_percent, bgra_from_rgba,
};

fn day() -> CalendarDate {
    CalendarDate::from_ymd_opt(2026, 8, 5).unwrap()
}

#[test]
fn preserves_rgb_when_converting_between_windows_and_hex_colors() {
    let source = "#12ABCD";
    assert_eq!(hex_from_colorref(colorref_from_hex(source)), source);
}

#[test]
fn converts_colors_exactly() {
    assert_eq!(rgb(18, 171, 205), 18 + 171 * 256 + 205 * 65536);
    assert_eq!(colorref_from_hex("#12abcd"), rgb(0x12, 0xAB, 0xCD));
    assert_eq!(hex_from_colorref(colorref_from_hex("#12abcd")), "#12ABCD");
    assert_eq!(colorref_from_hex("#+F0000"), rgb(15, 0, 0));
    assert_eq!(colorref_from_hex("#zz00ff"), rgb(0, 0, 255));
    assert_eq!(hex_from_colorref(0xFF00_00FF), "#FF0000");
}

#[test]
fn restores_saved_custom_theme_after_switching_back_from_builtin_theme() {
    let saved = CustomTheme {
        name: "雾青".to_owned(),
        palette: Theme::Light.exportable().palette,
    };
    let mut state = SettingsState::new(
        2026,
        Theme::Dark,
        day(),
        Some(saved),
        LayoutSettings::default(),
    );

    state.ensure_custom();

    assert_eq!(state.theme_name(), "雾青");
}

#[test]
fn color_preview_stays_pending_until_apply() {
    let mut state = SettingsState::new(2026, Theme::Dark, day(), None, LayoutSettings::default());

    state.preview_color(PaletteField::Accent, rgb(18, 171, 205));

    assert!(matches!(&state.theme, Theme::Custom(_)));
    assert!(state.dirty);
    assert_eq!(state.status, "配色预览中，尚未应用到桌面。");
    let custom = state.theme.custom_theme().unwrap();
    assert_eq!(custom.name, "自定义主题");
    assert_eq!(custom.palette.accent, "#12ABCD");
    assert_eq!(custom.palette.paper, "#19211C");
}

#[test]
fn switching_back_to_custom_restores_the_edited_theme() {
    let mut state = SettingsState::new(2026, Theme::Dark, day(), None, LayoutSettings::default());
    state.preview_color(PaletteField::Paper, rgb(1, 2, 3));
    let edited = state.theme.clone();
    state.select_theme(Theme::Light);
    assert_eq!(state.theme, Theme::Light);
    assert_eq!(state.theme_name(), "浅色");
    state.enter_custom();
    assert_eq!(state.theme, edited);
    assert_eq!(state.status, "已进入自定义主题。");
}

#[test]
fn cancelling_a_color_edit_restores_everything() {
    let mut state = SettingsState::new(2026, Theme::Pine, day(), None, LayoutSettings::default());
    let mut edit = state.begin_color_edit(PaletteField::Ink);
    assert_eq!(edit.initial, rgb(0xF0, 0xEB, 0xDD));
    assert!(edit.dialog_changed(&mut state, Some(rgb(9, 9, 9))));
    assert_eq!(state.theme.custom_theme().unwrap().palette.ink, "#090909");
    assert!(state.dirty);
    state.finish_color_edit(edit, None);
    assert_eq!(state.theme, Theme::Pine);
    assert!(!state.dirty);
    assert_eq!(state.status, "选择主题或颜色，然后应用到桌面。");

    let edit = state.begin_color_edit(PaletteField::Ink);
    let initial = edit.initial;
    state.finish_color_edit(edit, Some(initial));
    assert_eq!(state.theme, Theme::Pine);

    let edit = state.begin_color_edit(PaletteField::Ink);
    state.finish_color_edit(edit, Some(rgb(2, 2, 2)));
    assert_eq!(state.theme.custom_theme().unwrap().palette.ink, "#020202");
    assert_eq!(state.theme.custom_theme().unwrap().palette.paper, "#18211C");
    assert_eq!(state.saved_custom_theme.as_ref(), state.theme.custom_theme());
    assert_eq!(state.status, "配色预览已更新，尚未应用到桌面。");
}

#[test]
fn previews_only_new_colors_from_the_dialog() {
    let mut state = SettingsState::new(2026, Theme::Dark, day(), None, LayoutSettings::default());
    let mut edit = state.begin_color_edit(PaletteField::Accent);
    assert!(!edit.dialog_changed(&mut state, Some(edit.initial)));
    assert_eq!(state.theme, Theme::Dark);
    assert!(!edit.dialog_changed(&mut state, None));
    assert!(edit.dialog_changed(&mut state, Some(rgb(1, 2, 3))));
    assert_eq!(edit.last_color, rgb(1, 2, 3));
    assert!(!edit.dialog_changed(&mut state, Some(rgb(1, 2, 3))));
    assert_eq!(state.theme.custom_theme().unwrap().palette.accent, "#010203");
    assert_eq!(state.status, "配色预览中，尚未应用到桌面。");
}

#[test]
fn imports_only_valid_themes() {
    let mut state = SettingsState::new(2026, Theme::Dark, day(), None, LayoutSettings::default());
    let mut bad = Theme::Dark.exportable();
    bad.palette.line = "#GGGGGG".to_owned();
    assert_eq!(state.import_theme(bad).unwrap_err(), "line 必须是 #RRGGBB 格式");
    assert_eq!(state.theme, Theme::Dark);
    let good = Theme::Mist.exportable();
    state.import_theme(good.clone()).unwrap();
    assert_eq!(state.theme, Theme::Custom(Box::new(good)));
    state.mark_applied();
    assert!(!state.dirty);
}

#[test]
fn keeps_the_preview_year_in_range() {
    let mut state = SettingsState::new(2100, Theme::Dark, day(), None, LayoutSettings::default());
    assert!(!state.change_year(1));
    assert_eq!(state.year, 2100);
    assert!(state.change_year(-1));
    assert_eq!(state.year, 2099);
    assert!(state.change_year(i32::MIN));
    assert_eq!(state.year, 1900);
}

#[test]
fn sets_margins_within_their_ranges() {
    let mut state = SettingsState::new(2026, Theme::Dark, day(), None, LayoutSettings::default());
    assert!(!state.set_margin(MarginField::Left, 16));
    assert!(state.set_margin(MarginField::Left, 99));
    assert_eq!(state.layout.left_margin, 32);
    assert!(state.dirty);
}

#[test]
fn maps_margin_pointer_positions_to_the_slider_range() {
    // The slider track of a 280×34 row at scale 1.
    let track = Rect::new(112, 15, 269, 20);

    assert_eq!(
        margin_value_on_track(MarginField::Left, track, track.left),
        LayoutSettings::MIN_LEFT_MARGIN
    );
    assert_eq!(
        margin_value_on_track(MarginField::Left, track, track.right),
        LayoutSettings::MAX_LEFT_MARGIN
    );
    assert_eq!(margin_value_on_track(MarginField::Right, track, -1000), 1);
    assert_eq!(margin_value_on_track(MarginField::Left, track, 112 + 78), 20);
}

#[test]
fn finds_margin_sliders_under_the_pointer() {
    let hits = [
        HitTarget { rect: Rect::new(0, 0, 100, 20), action: Action::AdjustMargin(MarginField::Left) },
        HitTarget { rect: Rect::new(0, 10, 100, 30), action: Action::AdjustMargin(MarginField::Top) },
        HitTarget { rect: Rect::new(0, 40, 100, 60), action: Action::Apply },
    ];
    assert_eq!(margin_target_at(&hits, 5, 15), Some((MarginField::Top, Rect::new(0, 10, 100, 30))));
    assert_eq!(margin_target_at(&hits, 5, 5), Some((MarginField::Left, Rect::new(0, 0, 100, 20))));
    assert_eq!(margin_target_at(&hits, 5, 50), None);
    assert_eq!(margin_row(&hits, MarginField::Left), Some(Rect::new(0, 0, 100, 20)));
    assert_eq!(margin_row(&hits, MarginField::Bottom), None);
    assert!(Rect::new(0, 0, 10, 10).contains(9, 0));
    assert!(!Rect::new(0, 0, 10, 10).contains(10, 0));
    assert_eq!(Rect::new(3, 4, 10, 20).width(), 7);
    assert_eq!(Rect::new(3, 4, 10, 20).height(), 16);
}

#[test]
fn decodes_window_message_parameters() {
    assert_eq!(mouse_position(0x0014_000A), (10, 20));
    assert_eq!(mouse_position(0xFFFF_FFFEu32 as i32 as isize), (-2, -1));
    assert!(color_component_changed((0x0300 << 16) | 706));
    assert!(color_component_changed((0x0300 << 16) | 708));
    assert!(!color_component_changed((0x0300 << 16) | 709));
    assert!(!color_component_changed((0x0301 << 16) | 707));
}

#[test]
fn reads_palette_fields() {
    let mut palette = Theme::Dark.palette();
    assert_eq!(PaletteField::Accent.color(&palette), "#DF6B54");
    PaletteField::Footer.set_color(&mut palette, "#000000".to_owned());
    assert_eq!(palette.footer, "#000000");
    assert_eq!(PaletteField::ALL.len(), 11);
    assert_eq!(MarginField::ALL[0].1, "左侧安全区");
    assert_eq!(MarginField::Bottom.range(), (3, 18));
    let mut layout = LayoutSettings::default();
    MarginField::Top.set(&mut layout, 9);
    assert_eq!(MarginField::Top.value(layout), 9);
}

#[test]
fn dispatches_clicks_to_state_changes_and_effects() {
    let mut state = SettingsState::new(2026, Theme::Dark, day(), None, LayoutSettings::default());

    assert_eq!(state.activate(Action::Light), WindowEffect::RefreshPreview);
    assert_eq!(state.theme, Theme::Light);
    assert!(state.dirty);
    assert_eq!(state.status, "主题已更新，尚未应用到桌面。");

    assert_eq!(state.activate(Action::Custom), WindowEffect::RefreshPreview);
    assert_eq!(state.theme_name(), "自定义主题");
    assert_eq!(state.status, "已进入自定义主题。");
    assert_eq!(state.saved_custom_theme.as_ref(), state.theme.custom_theme());
    assert_eq!(
        state.theme.custom_theme().unwrap().palette,
        Theme::Light.palette()
    );

    assert_eq!(state.activate(Action::NextYear), WindowEffect::RefreshPreview);
    assert_eq!(state.year, 2027);
    assert_eq!(state.activate(Action::PreviousYear), WindowEffect::RefreshPreview);
    assert_eq!(state.year, 2026);

    assert_eq!(state.activate(Action::Edit(PaletteField::Ink)), WindowEffect::EditColor(PaletteField::Ink));
    assert_eq!(state.activate(Action::Import), WindowEffect::ImportTheme);
    assert_eq!(state.activate(Action::Export), WindowEffect::ExportTheme);
    assert_eq!(state.activate(Action::Apply), WindowEffect::Apply);
    assert_eq!(state.activate(Action::AdjustMargin(MarginField::Top)), WindowEffect::Repaint);
    assert_eq!(state.activate(Action::Close), WindowEffect::Close);
    assert_eq!(state.year, 2026);
    assert_eq!(state.status, "仅切换预览年份；桌面始终生成当前年份。");
}

#[test]
fn year_buttons_stop_at_the_supported_range() {
    let mut state = SettingsState::new(1900, Theme::Pine, day(), None, LayoutSettings::default());
    assert_eq!(state.activate(Action::PreviousYear), WindowEffect::Repaint);
    assert_eq!(state.year, 1900);
    assert_eq!(state.status, "选择主题或颜色，然后应用到桌面。");
}

#[test]
fn reports_failures_in_the_status_line() {
    let mut state = SettingsState::new(2026, Theme::Dark, day(), None, LayoutSettings::default());
    state.fail("写入设置失败");
    assert_eq!(state.status, "操作失败：写入设置失败");
    state.preview_failed("字体缺失");
    assert_eq!(state.status, "预览生成失败：字体缺失");
    state.theme_exported("D:\\themes\\pine.json");
    assert_eq!(state.status, "已导出：D:\\themes\\pine.json");
    assert!(!state.dirty);
    assert_eq!(state.theme, Theme::Dark);
}

#[test]
fn sets_margins_from_the_pointer_position() {
    let track = Rect::new(112, 15, 269, 20);
    let mut state = SettingsState::new(2026, Theme::Dark, day(), None, LayoutSettings::default());
    assert!(state.set_margin_from_position(MarginField::Left, track, 112 + 78));
    assert_eq!(state.layout.left_margin, 20);
    assert!(state.dirty);
    assert_eq!(state.status, "版式边距预览中，尚未应用到桌面。");
    assert!(!state.set_margin_from_position(MarginField::Left, track, 112 + 78));
    assert!(state.set_margin_from_position(MarginField::Top, track, 10_000));
    assert_eq!(state.layout.top_margin, 18);
}

#[test]
fn starts_the_color_dialog_from_the_shown_color() {
    let mut state = SettingsState::new(2026, Theme::Dark, day(), None, LayoutSettings::default());
    assert_eq!(state.initial_color(PaletteField::Accent), rgb(0xDF, 0x6B, 0x54));
    state.preview_color(PaletteField::Accent, rgb(0x12, 0xAB, 0xCD));
    assert_eq!(state.initial_color(PaletteField::Accent), rgb(0x12, 0xAB, 0xCD));
    assert_eq!(state.initial_color(PaletteField::Paper), rgb(0x19, 0x21, 0x1C));
}

fn slider_hits() -> [HitTarget; 4] {
    [
        HitTarget { rect: Rect::new(0, 0, 300, 40), action: Action::Dark },
        HitTarget { rect: Rect::new(0, 50, 300, 80), action: Action::AdjustMargin(MarginField::Left) },
        HitTarget { rect: Rect::new(0, 90, 300, 120), action: Action::AdjustMargin(MarginField::Top) },
        HitTarget { rect: Rect::new(200, 0, 300, 20), action: Action::Apply },
    ]
}

#[test]
fn clicks_reach_the_topmost_target() {
    let hits = slider_hits();
    assert_eq!(action_at(&hits, 250, 10), Some(Action::Apply));
    assert_eq!(action_at(&hits, 100, 10), Some(Action::Dark));
    assert_eq!(action_at(&hits, 100, 45), None);
}

#[test]
fn drags_the_slider_that_was_pressed() {
    let hits = slider_hits();
    let mut drag = DragState::new();
    assert_eq!(drag.pointer_move(&hits), None);
    assert_eq!(drag.pointer_down(&hits, 10, 60), Some((MarginField::Left, Rect::new(0, 50, 300, 80))));
    assert_eq!(drag.active_margin, Some(MarginField::Left));
    assert_eq!(drag.pointer_move(&hits), Some((MarginField::Left, Rect::new(0, 50, 300, 80))));
    assert_eq!(
        drag.pointer_up(&hits, 500, 500),
        PointerRelease::EndDrag(MarginField::Left, Some(Rect::new(0, 50, 300, 80)))
    );
    assert_eq!(drag.active_margin, None);
    assert_eq!(drag.pointer_down(&hits, 10, 10), None);
    assert_eq!(drag.active_margin, None);
    assert_eq!(drag.pointer_up(&hits, 10, 10), PointerRelease::Click(Action::Dark));
    assert_eq!(drag.pointer_up(&hits, 10, 45), PointerRelease::Nothing);
}

#[test]
fn reads_dialog_channels_only_when_all_are_bytes() {
    assert_eq!(color_from_channels(Some(18), Some(171), Some(205)), Some(rgb(18, 171, 205)));
    assert_eq!(color_from_channels(Some(255), Some(0), Some(0)), Some(0xFF));
    assert_eq!(color_from_channels(Some(256), Some(0), Some(0)), None);
    assert_eq!(color_from_channels(Some(1), None, Some(0)), None);
    assert_eq!(color_from_channels(Some(1), Some(2), Some(300)), None);
}

#[test]
fn places_slider_handles_proportionally() {
    let track = Rect::new(112, 15, 269, 20);
    assert_eq!(margin_handle(MarginField::Left, track, 8), (8, 112));
    assert_eq!(margin_handle(MarginField::Left, track, 32), (32, 112 + 156));
    assert_eq!(margin_handle(MarginField::Left, track, 20), (20, 112 + 78));
    assert_eq!(margin_handle(MarginField::Left, track, 0), (8, 112));
    assert_eq!(margin_handle(MarginField::Right, track, 200), (12, 112 + 156));
    assert_eq!(margin_handle(MarginField::Top, Rect::new(10, 0, 10, 5), 18), (18, 10));
}

#[test]
fn describes_the_settings_panel() {
    let mut state = SettingsState::new(2026, Theme::Light, day(), None, LayoutSettings::default());
    assert_eq!(state.title(), "2026 年全年日历");
    let buttons = state.theme_buttons();
    assert_eq!(buttons.len(), 3);
    assert_eq!(buttons[0].label, "深色");
    assert!(!buttons[0].selected);
    assert_eq!(buttons[1].action, Action::Light);
    assert!(buttons[1].selected);
    assert!(!buttons[2].selected);
    assert_eq!(state.status_color(), rgb(157, 171, 160));

    state.enter_custom();
    let buttons = state.theme_buttons();
    assert!(!buttons[1].selected);
    assert!(buttons[2].selected);
    assert_eq!(buttons[2].label, "自定义");
    assert_eq!(state.status_color(), rgb(223, 137, 102));

    state.select_theme(Theme::Mist);
    assert!(state.theme_buttons().iter().all(|button| !button.selected));
}

#[test]
fn shows_margins_as_clamped_percentages() {
    assert_eq!(margin_percent(MarginField::Left, 16), "16%");
    assert_eq!(margin_percent(MarginField::Left, 2), "8%");
    assert_eq!(margin_percent(MarginField::Right, 200), "12%");
    assert_eq!(margin_percent(MarginField::Top, 3), "3%");
}

#[test]
fn converts_preview_pixels_to_opaque_bgra() {
    let rgba = [1u8, 2, 3, 4, 10, 20, 30, 0, 7, 8];
    assert_eq!(bgra_from_rgba(&rgba), vec![3, 2, 1, 255, 30, 20, 10, 255]);
    assert!(bgra_from_rgba(&[]).is_empty());
}

#[test]
fn lists_the_panel_targets_in_drawing_order() {
    let actions = yuexu::ui::panel_actions();
    assert_eq!(actions.len(), 24);
    assert_eq!(&actions[..3], &[Action::Dark, Action::Light, Action::Custom]);
    assert_eq!(actions[3], Action::AdjustMargin(MarginField::Left));
    assert_eq!(actions[6], Action::AdjustMargin(MarginField::Bottom));
    assert_eq!(actions[7], Action::Edit(PaletteField::Paper));
    assert_eq!(actions[17], Action::Edit(PaletteField::Footer));
    assert_eq!(
        &actions[18..],
        &[Action::Import, Action::Export, Action::Apply, Action::Close, Action::PreviousYear, Action::NextYear]
    );
    for i in 0..actions.len() {
        for j in i + 1..actions.len() {
            assert_ne!(actions[i], actions[j]);
        }
    }
}
