use yuexu::cli::{
    check_render_request, check_year, command, parse_bool, parse_i32, parse_u32, resolve_theme,
    CliOptions, Command,
};
use yuexu::date::CalendarDate;
use yuexu::text::{decimal_string, parse_u32_value};
use yuexu::theme::{CustomTheme, Theme};

fn today() -> CalendarDate {
    CalendarDate::from_ymd_opt(2026, 8, 4).unwrap()
}

fn args(list: &[&str]) -> Vec<String> {
    list.iter().map(|s| s.to_string()).collect()
}

/// Reads a command line on a 2560×1440 display.
fn parse_cli(list: &Vec<String>, today: CalendarDate) -> Result<CliOptions, String> {
    yuexu::cli::parse_cli(list, today, 2560, 1440)
}

#[test]
fn parses_update_options() {
    assert!(parse_bool("true").unwrap());
    assert!(!parse_bool("false").unwrap());
    assert!(parse_bool("yes").is_err());
}

#[test]
fn parses_bool_digits() {
    assert!(parse_bool("1").unwrap());
    assert!(!parse_bool("0").unwrap());
    assert_eq!(parse_bool("TRUE").unwrap_err(), "--set-wallpaper 仅支持 true 或 false");
}

#[test]
fn parses_integers_like_std() {
    assert_eq!(parse_u32("宽度", "1920"), Ok(1920));
    assert_eq!(parse_u32("宽度", "+7"), Ok(7));
    assert_eq!(parse_u32("宽度", "4294967295"), Ok(u32::MAX));
    assert_eq!(parse_u32("宽度", "4294967296").unwrap_err(), "宽度必须是正整数");
    assert!(parse_u32("宽度", "-1").is_err());
    assert!(parse_u32("宽度", "").is_err());
    assert!(parse_u32("宽度", "+").is_err());
    assert!(parse_u32("宽度", " 1").is_err());
    assert_eq!(parse_i32("年份", "-2147483648"), Ok(i32::MIN));
    assert_eq!(parse_i32("年份", "2147483647"), Ok(i32::MAX));
    assert_eq!(parse_i32("年份", "2147483648").unwrap_err(), "年份必须是整数");
    assert!(parse_i32("年份", "-").is_err());
    assert_eq!(parse_i32("年份", "-0"), Ok(0));
    for n in [0u32, 9, 10, 2026, 4000000000] {
        assert_eq!(parse_u32_value(&decimal_string(n as u64)), Some(n));
    }
}

#[test]
fn no_arguments_means_update() {
    let o = parse_cli(&args(&[]), today()).unwrap();
    assert!(o.update && !o.preview && !o.quiet);
    assert_eq!((o.width, o.height, o.year), (2560, 1440, 2026));
    assert!(o.set_wallpaper);
}

#[test]
fn reads_flags_and_values() {
    let o = parse_cli(
        &args(&[
            "--UPDATE",
            "--quiet",
            "--width=1920",
            "--height",
            "1080",
            "--year=2030",
            "--theme",
            "light",
            "--today=2026-01-02",
            "--output",
            "out.png",
            "--set-wallpaper=false",
        ]),
        today(),
    )
    .unwrap();
    assert!(o.update && o.quiet && !o.preview);
    assert_eq!((o.width, o.height, o.year), (1920, 1080, 2030));
    assert_eq!(o.requested_theme.as_deref(), Some("light"));
    assert_eq!(o.today, CalendarDate::from_ymd_opt(2026, 1, 2).unwrap());
    assert_eq!(o.output.as_deref(), Some("out.png"));
    assert!(!o.set_wallpaper);
}

#[test]
fn version_alone_does_not_update() {
    let o = parse_cli(&args(&["--version"]), today()).unwrap();
    assert!(o.show_version && !o.update);
    let o = parse_cli(&args(&["--quiet"]), today()).unwrap();
    assert!(o.update);
}

#[test]
fn rejects_bad_command_lines() {
    assert_eq!(
        parse_cli(&args(&["--preview", "--update"]), today()).unwrap_err(),
        "--preview 与 --update 不能同时使用"
    );
    assert_eq!(parse_cli(&args(&["--width"]), today()).unwrap_err(), "参数缺少取值");
    assert_eq!(parse_cli(&args(&["--bogus"]), today()).unwrap_err(), "未知参数：--bogus");
    assert_eq!(parse_cli(&args(&["--width=abc"]), today()).unwrap_err(), "宽度必须是正整数");
    assert_eq!(parse_cli(&args(&["--WIDTH=5"]), today()).unwrap_err(), "未知参数：--WIDTH=5");
    assert_eq!(
        parse_cli(&args(&["--today", "2026/8/4"]), today()).unwrap_err(),
        "当天日期格式应为 YYYY-MM-DD"
    );
}

#[test]
fn resolves_requested_then_saved_theme() {
    assert_eq!(resolve_theme(Some("mist"), "dark", None), Ok(Theme::Mist));
    assert_eq!(resolve_theme(Some("forest"), "dark", None).unwrap_err(), "主题仅支持 dark 或 light");
    assert_eq!(resolve_theme(None, "cinnabar", None), Ok(Theme::Cinnabar));
    assert_eq!(resolve_theme(None, "", None), Ok(Theme::Dark));
    assert_eq!(resolve_theme(None, "custom", None), Ok(Theme::Dark));
}

#[test]
fn checks_render_requests() {
    assert!(check_render_request(800, 600, 1900).is_ok());
    assert_eq!(check_render_request(799, 600, 2026).unwrap_err(), "壁纸尺寸至少需要 800×600");
    assert_eq!(check_render_request(800, 599, 3000).unwrap_err(), "壁纸尺寸至少需要 800×600");
    assert_eq!(check_render_request(1920, 1080, 2101).unwrap_err(), "日历年份仅支持 1900-2100");
    assert!(check_render_request(1920, 1080, 1899).is_err());
}

#[test]
fn picks_the_command_by_precedence() {
    let run = |list: &[&str]| command(&parse_cli(&args(list), today()).unwrap());
    assert_eq!(run(&[]), Command::Update);
    assert_eq!(run(&["--quiet"]), Command::Update);
    assert_eq!(run(&["--preview"]), Command::Preview);
    assert_eq!(run(&["--version", "--preview"]), Command::ShowVersion);
    assert_eq!(run(&["--version"]), Command::ShowVersion);
    assert_eq!(run(&["--export-theme", "a.json", "--preview"]), Command::ExportTheme);
    assert_eq!(run(&["--theme-file", "a.json"]), Command::ImportTheme);
    assert_eq!(run(&["--version", "--theme-file=a.json"]), Command::ShowVersion);
    assert_eq!(run(&["--update", "--theme", "mist"]), Command::Update);
}

#[test]
fn remembers_the_chosen_theme_for_the_next_run() {
    let chosen = resolve_theme(Some("pine"), "dark", None).unwrap();
    assert_eq!(resolve_theme(None, chosen.as_str(), None), Ok(chosen));
    assert_eq!(resolve_theme(None, "forest", None), Ok(Theme::Dark));
    let imported = Theme::Mist.exportable();
    let theme = Theme::custom(imported.clone()).unwrap();
    assert_eq!(theme.as_str(), "custom");
    assert_eq!(resolve_theme(None, theme.as_str(), Some(imported.clone())), Ok(theme));
    assert_eq!(resolve_theme(None, "mist", Some(imported.clone())), Ok(Theme::Mist));
    let broken = CustomTheme { name: " ".to_owned(), palette: imported.palette };
    assert_eq!(resolve_theme(None, "custom", Some(broken)), Ok(Theme::Dark));
}

#[test]
fn accepts_theme_export_and_import_options() {
    let o = parse_cli(&args(&["--export-theme", "my-theme.json"]), today()).unwrap();
    assert_eq!(o.export_theme.as_deref(), Some("my-theme.json"));
    assert_eq!(command(&o), Command::ExportTheme);
    let o = parse_cli(&args(&["--theme-file", "my-theme.json"]), today()).unwrap();
    assert_eq!(o.theme_file.as_deref(), Some("my-theme.json"));
    assert_eq!(command(&o), Command::ImportTheme);
    let o = parse_cli(&args(&["--theme-file=t.json", "--quiet"]), today()).unwrap();
    assert_eq!(o.theme_file.as_deref(), Some("t.json"));
    assert!(o.quiet);
    assert_eq!(parse_cli(&args(&["--export-theme"]), today()).unwrap_err(), "参数缺少取值");
}

#[test]
fn the_wallpaper_follows_the_display() {
    let o = yuexu::cli::parse_cli(&args(&["--update", "--quiet"]), today(), 1920, 1200).unwrap();
    assert!(o.update && o.quiet);
    assert_eq!((o.width, o.height), (1920, 1200));
    let o = yuexu::cli::parse_cli(&args(&["--width=1024"]), today(), 1920, 1200).unwrap();
    assert_eq!((o.width, o.height), (1024, 1200));
}

#[test]
fn links_are_not_arguments() {
    assert_eq!(
        parse_cli(&args(&["yuexu://theme/light"]), today()).unwrap_err(),
        "未知参数：yuexu://theme/light"
    );
    assert!(check_year(2026).is_ok());
    assert_eq!(check_year(1899).unwrap_err(), "日历年份仅支持 1900-2100");
}
