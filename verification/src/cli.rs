use vstd::prelude::*;

use crate::date::{CalendarDate, date_format_error, parse_date, parsed_iso_date};
use crate::text::{
    append_str, ascii_lower, eq_ignore_ascii_case, eq_ignore_ascii_case_spec, has_prefix,
    parse_i32_value, parse_signed_spec, parse_u32_value, parse_unsigned_spec, str_eq, strip_prefix,
};
use crate::theme::{CustomTheme, Theme, custom_theme_valid, parse_theme_spec, theme_id};

verus! {

/// What the command line asks for.
#[derive(Debug)]
pub struct CliOptions {
    pub update: bool,
    pub preview: bool,
    pub quiet: bool,
    pub show_version: bool,
    pub width: u32,
    pub height: u32,
    pub year: i32,
    pub requested_theme: Option<String>,
    pub today: CalendarDate,
    pub output: Option<String>,
    pub set_wallpaper: bool,
    /// Where to export the current theme as a template, if asked.
    pub export_theme: Option<String>,
    /// A theme file to import and apply, if given.
    pub theme_file: Option<String>,
}

/// The command-line options with strings as character sequences.
pub struct CliView {
    pub update: bool,
    pub preview: bool,
    pub quiet: bool,
    pub show_version: bool,
    pub width: u32,
    pub height: u32,
    pub year: i32,
    pub requested_theme: Option<Seq<char>>,
    pub today: CalendarDate,
    pub output: Option<Seq<char>>,
    pub set_wallpaper: bool,
    pub export_theme: Option<Seq<char>>,
    pub theme_file: Option<Seq<char>>,
}

/// The characters of an optional string.
pub open spec fn opt_view(s: Option<String>) -> Option<Seq<char>> {
    match s {
        Some(v) => Some(v@),
        None => None,
    }
}

impl View for CliOptions {
    type V = CliView;

    open spec fn view(&self) -> CliView {
        CliView {
            update: self.update,
            preview: self.preview,
            quiet: self.quiet,
            show_version: self.show_version,
            width: self.width,
            height: self.height,
            year: self.year,
            requested_theme: opt_view(self.requested_theme),
            today: self.today,
            output: opt_view(self.output),
            set_wallpaper: self.set_wallpaper,
            export_theme: opt_view(self.export_theme),
            theme_file: opt_view(self.theme_file),
        }
    }
}

/// The options that take a value, either as `--name=value` or as `--name value`.
#[derive(Clone, Copy, PartialEq, Eq, Structural)]
pub enum ValueOption {
    Width,
    Height,
    Year,
    Theme,
    Today,
    Output,
    SetWallpaper,
    ExportTheme,
    ThemeFile,
}

// ---------------------------------------------------------------------------
// Specifications
/// The options before any argument is read: the wallpaper has the size of
/// the primary display and shows the year of `today`.
pub open spec fn default_cli(today: CalendarDate, display_width: u32, display_height: u32) -> CliView {
    CliView {
        update: false,
        preview: false,
        quiet: false,
        show_version: false,
        width: display_width,
        height: display_height,
        year: today.year,
        requested_theme: None,
        today,
        output: None,
        set_wallpaper: true,
        export_theme: None,
        theme_file: None,
    }
}

/// The spelling of a value option (as a whole argument).
pub open spec fn option_name(k: ValueOption) -> Seq<char> {
    match k {
        ValueOption::Width => "--width"@,
        ValueOption::Height => "--height"@,
        ValueOption::Year => "--year"@,
        ValueOption::Theme => "--theme"@,
        ValueOption::Today => "--today"@,
        ValueOption::Output => "--output"@,
        ValueOption::SetWallpaper => "--set-wallpaper"@,
        ValueOption::ExportTheme => "--export-theme"@,
        ValueOption::ThemeFile => "--theme-file"@,
    }
}

/// The value option whose `--name=` prefix begins `a`, trying them in order.
pub open spec fn prefixed_option(a: Seq<char>) -> Option<ValueOption> {
    if has_prefix(a, "--width="@) {
        Some(ValueOption::Width)
    } else if has_prefix(a, "--height="@) {
        Some(ValueOption::Height)
    } else if has_prefix(a, "--year="@) {
        Some(ValueOption::Year)
    } else if has_prefix(a, "--theme="@) {
        Some(ValueOption::Theme)
    } else if has_prefix(a, "--today="@) {
        Some(ValueOption::Today)
    } else if has_prefix(a, "--output="@) {
        Some(ValueOption::Output)
    } else if has_prefix(a, "--set-wallpaper="@) {
        Some(ValueOption::SetWallpaper)
    } else if has_prefix(a, "--export-theme="@) {
        Some(ValueOption::ExportTheme)
    } else if has_prefix(a, "--theme-file="@) {
        Some(ValueOption::ThemeFile)
    } else {
        None
    }
}

/// The value option that `a` names exactly.
pub open spec fn named_option(a: Seq<char>) -> Option<ValueOption> {
    if a == "--width"@ {
        Some(ValueOption::Width)
    } else if a == "--height"@ {
        Some(ValueOption::Height)
    } else if a == "--year"@ {
        Some(ValueOption::Year)
    } else if a == "--theme"@ {
        Some(ValueOption::Theme)
    } else if a == "--today"@ {
        Some(ValueOption::Today)
    } else if a == "--output"@ {
        Some(ValueOption::Output)
    } else if a == "--set-wallpaper"@ {
        Some(ValueOption::SetWallpaper)
    } else if a == "--export-theme"@ {
        Some(ValueOption::ExportTheme)
    } else if a == "--theme-file"@ {
        Some(ValueOption::ThemeFile)
    } else {
        None
    }
}

/// The message for a value that is not a non-negative 32-bit integer.
pub open spec fn u32_error(label: Seq<char>) -> Seq<char> {
    label + "必须是正整数"@
}

/// The message for a value that is not a 32-bit integer.
pub open spec fn i32_error(label: Seq<char>) -> Seq<char> {
    label + "必须是整数"@
}

/// The message for a `--set-wallpaper` value other than true/false/1/0.
pub open spec fn bool_error() -> Seq<char> {
    "--set-wallpaper 仅支持 true 或 false"@
}

/// The truth value written as "true"/"1" or "false"/"0".
pub open spec fn parse_bool_spec(s: Seq<char>) -> Option<bool> {
    if s == "true"@ || s == "1"@ {
        Some(true)
    } else if s == "false"@ || s == "0"@ {
        Some(false)
    } else {
        None
    }
}

/// The options after value option `k` is given `v`, or the message for a bad value.
pub open spec fn apply_value_spec(k: ValueOption, v: Seq<char>, o: CliView) -> Result<CliView, Seq<char>> {
    match k {
        ValueOption::Width => match parse_unsigned_spec(v, u32::MAX as int) {
            Some(x) => Ok(CliView { width: x as u32, ..o }),
            None => Err(u32_error("宽度"@)),
        },
        ValueOption::Height => match parse_unsigned_spec(v, u32::MAX as int) {
            Some(x) => Ok(CliView { height: x as u32, ..o }),
            None => Err(u32_error("高度"@)),
        },
        ValueOption::Year => match parse_signed_spec(v, i32::MIN as int, i32::MAX as int) {
            Some(x) => Ok(CliView { year: x as i32, ..o }),
            None => Err(i32_error("年份"@)),
        },
        ValueOption::Theme => Ok(CliView { requested_theme: Some(v), ..o }),
        ValueOption::Today => match parsed_iso_date(v) {
            Some(t) => Ok(
                CliView {
                    today: CalendarDate { year: t.0 as i32, month: t.1 as u32, day: t.2 as u32 },
                    ..o
                },
            ),
            None => Err(date_format_error()),
        },
        ValueOption::Output => Ok(CliView { output: Some(v), ..o }),
        ValueOption::SetWallpaper => match parse_bool_spec(v) {
            Some(b) => Ok(CliView { set_wallpaper: b, ..o }),
            None => Err(bool_error()),
        },
        ValueOption::ExportTheme => Ok(CliView { export_theme: Some(v), ..o }),
        ValueOption::ThemeFile => Ok(CliView { theme_file: Some(v), ..o }),
    }
}

/// Reading the argument at `i`: how many arguments it uses and the options
/// after it, or the message that stops the reading.
pub open spec fn cli_step(args: Seq<Seq<char>>, i: int, o: CliView) -> Result<(int, CliView), Seq<char>> {
    let a = args[i];
    if eq_ignore_ascii_case_spec(a, "--update"@) {
        Ok((1, CliView { update: true, ..o }))
    } else if eq_ignore_ascii_case_spec(a, "--preview"@) {
        Ok((1, CliView { preview: true, ..o }))
    } else if eq_ignore_ascii_case_spec(a, "--quiet"@) {
        Ok((1, CliView { quiet: true, ..o }))
    } else if eq_ignore_ascii_case_spec(a, "--version"@) {
        Ok((1, CliView { show_version: true, ..o }))
    } else if prefixed_option(a) is Some {
        let k = prefixed_option(a)->0;
        match apply_value_spec(k, a.skip(option_name(k).len() as int + 1), o) {
            Ok(o2) => Ok((1, o2)),
            Err(e) => Err(e),
        }
    } else if named_option(a) is Some {
        if i + 1 >= args.len() {
            Err("参数缺少取值"@)
        } else {
            match apply_value_spec(named_option(a)->0, args[i + 1], o) {
                Ok(o2) => Ok((2, o2)),
                Err(e) => Err(e),
            }
        }
    } else {
        Err("未知参数："@ + a)
    }
}

/// Reading the arguments from `i` on.
pub open spec fn cli_from(args: Seq<Seq<char>>, i: int, o: CliView) -> Result<CliView, Seq<char>>
    decreases args.len() - i,
{
    if i < 0 || i >= args.len() {
        Ok(o)
    } else {
        match cli_step(args, i, o) {
            Ok((n, o2)) => if n >= 1 {
                cli_from(args, i + n, o2)
            } else {
                Ok(o2)
            },
            Err(e) => Err(e),
        }
    }
}

/// What the whole command line asks for: with no arguments an update; after
/// reading all arguments, an error when both preview and update are asked,
/// and an update when none of preview, version and update is.
pub open spec fn parse_cli_spec(
    args: Seq<Seq<char>>,
    today: CalendarDate,
    display_width: u32,
    display_height: u32,
) -> Result<CliView, Seq<char>> {
    let d = default_cli(today, display_width, display_height);
    if args.len() == 0 {
        Ok(CliView { update: true, ..d })
    } else {
        match cli_from(args, 0, d) {
            Err(e) => Err(e),
            Ok(o) => if o.preview && o.update {
                Err("--preview 与 --update 不能同时使用"@)
            } else if !o.preview && !o.show_version && !o.update {
                Ok(CliView { update: true, ..o })
            } else {
                Ok(o)
            },
        }
    }
}

/// The characters of each argument.
pub open spec fn args_view(args: Seq<String>) -> Seq<Seq<char>> {
    args.map_values(|s: String| s@)
}

// ---------------------------------------------------------------------------
// Values
/// Reads a non-negative 32-bit integer; the error names the value `label`.
pub fn parse_u32(label: &str, value: &str) -> (r: Result<u32, String>)
    ensures
        r matches Ok(x) ==> parse_unsigned_spec(value@, u32::MAX as int) == Some(x as int),
        r is Err ==> parse_unsigned_spec(value@, u32::MAX as int) is None,
        r matches Err(e) ==> e@ == u32_error(label@),
{
    match parse_u32_value(value) {
        Some(x) => Ok(x),
        None => {
            let mut e = label.to_owned();
            append_str(&mut e, "必须是正整数");
            Err(e)
        },
    }
}

/// Reads a 32-bit integer; the error names the value `label`.
pub fn parse_i32(label: &str, value: &str) -> (r: Result<i32, String>)
    ensures
        r matches Ok(x) ==> parse_signed_spec(value@, i32::MIN as int, i32::MAX as int) == Some(
            x as int,
        ),
        r is Err ==> parse_signed_spec(value@, i32::MIN as int, i32::MAX as int) is None,
        r matches Err(e) ==> e@ == i32_error(label@),
{
    match parse_i32_value(value) {
        Some(x) => Ok(x),
        None => {
            let mut e = label.to_owned();
            append_str(&mut e, "必须是整数");
            Err(e)
        },
    }
}

/// Reads "true"/"1" or "false"/"0".
pub fn parse_bool(value: &str) -> (r: Result<bool, String>)
    ensures
        r matches Ok(b) ==> parse_bool_spec(value@) == Some(b),
        r is Err ==> parse_bool_spec(value@) is None,
        r matches Err(e) ==> e@ == bool_error(),
{
    if str_eq(value, "true") || str_eq(value, "1") {
        Ok(true)
    } else if str_eq(value, "false") || str_eq(value, "0") {
        Ok(false)
    } else {
        Err("--set-wallpaper 仅支持 true 或 false".to_owned())
    }
}

/// Gives value option `k` the value `v`.
fn apply_value(k: ValueOption, v: &str, o: &mut CliOptions) -> (r: Result<(), String>)
    ensures
        match apply_value_spec(k, v@, old(o)@) {
            Ok(o2) => r is Ok && final(o)@ == o2,
            Err(e) => r matches Err(e2) && e2@ == e,
        },
{
    match k {
        ValueOption::Width => match parse_u32("宽度", v) {
            Ok(x) => {
                o.width = x;
                Ok(())
            },
            Err(e) => Err(e),
        },
        ValueOption::Height => match parse_u32("高度", v) {
            Ok(x) => {
                o.height = x;
                Ok(())
            },
            Err(e) => Err(e),
        },
        ValueOption::Year => match parse_i32("年份", v) {
            Ok(x) => {
                o.year = x;
                Ok(())
            },
            Err(e) => Err(e),
        },
        ValueOption::Theme => {
            o.requested_theme = Some(v.to_owned());
            Ok(())
        },
        ValueOption::Today => match parse_date(v) {
            Ok(d) => {
                o.today = d;
                Ok(())
            },
            Err(e) => Err(e),
        },
        ValueOption::ExportTheme => {
            o.export_theme = Some(v.to_owned());
            Ok(())
        },
        ValueOption::ThemeFile => {
            o.theme_file = Some(v.to_owned());
            Ok(())
        },
        ValueOption::Output => {
            o.output = Some(v.to_owned());
            Ok(())
        },
        ValueOption::SetWallpaper => match parse_bool(v) {
            Ok(b) => {
                o.set_wallpaper = b;
                Ok(())
            },
            Err(e) => Err(e),
        },
    }
}

/// The value option whose `--name=` prefix begins `a`, with the value after it.
fn match_prefixed(a: &str) -> (r: Option<(ValueOption, &str)>)
    ensures
        match prefixed_option(a@) {
            Some(k) => r matches Some(p) && p.0 == k && p.1@ == a@.skip(option_name(k).len() as int + 1),
            None => r is None,
        },
{
    proof {
        reveal_strlit("--width=");
        reveal_strlit("--height=");
        reveal_strlit("--year=");
        reveal_strlit("--theme=");
        reveal_strlit("--today=");
        reveal_strlit("--output=");
        reveal_strlit("--set-wallpaper=");
        reveal_strlit("--width");
        reveal_strlit("--height");
        reveal_strlit("--year");
        reveal_strlit("--theme");
        reveal_strlit("--today");
        reveal_strlit("--output");
        reveal_strlit("--set-wallpaper");
        reveal_strlit("--export-theme=");
        reveal_strlit("--theme-file=");
        reveal_strlit("--export-theme");
        reveal_strlit("--theme-file");
    }
    if let Some(v) = strip_prefix(a, "--width=") {
        return Some((ValueOption::Width, v));
    }
    if let Some(v) = strip_prefix(a, "--height=") {
        return Some((ValueOption::Height, v));
    }
    if let Some(v) = strip_prefix(a, "--year=") {
        return Some((ValueOption::Year, v));
    }
    if let Some(v) = strip_prefix(a, "--theme=") {
        return Some((ValueOption::Theme, v));
    }
    if let Some(v) = strip_prefix(a, "--today=") {
        return Some((ValueOption::Today, v));
    }
    if let Some(v) = strip_prefix(a, "--output=") {
        return Some((ValueOption::Output, v));
    }
    if let Some(v) = strip_prefix(a, "--set-wallpaper=") {
        return Some((ValueOption::SetWallpaper, v));
    }
    if let Some(v) = strip_prefix(a, "--export-theme=") {
        return Some((ValueOption::ExportTheme, v));
    }
    if let Some(v) = strip_prefix(a, "--theme-file=") {
        return Some((ValueOption::ThemeFile, v));
    }
    None
}

/// The value option that `a` names exactly.
fn match_named(a: &str) -> (r: Option<ValueOption>)
    ensures
        r == named_option(a@),
{
    if str_eq(a, "--width") {
        Some(ValueOption::Width)
    } else if str_eq(a, "--height") {
        Some(ValueOption::Height)
    } else if str_eq(a, "--year") {
        Some(ValueOption::Year)
    } else if str_eq(a, "--theme") {
        Some(ValueOption::Theme)
    } else if str_eq(a, "--today") {
        Some(ValueOption::Today)
    } else if str_eq(a, "--output") {
        Some(ValueOption::Output)
    } else if str_eq(a, "--set-wallpaper") {
        Some(ValueOption::SetWallpaper)
    } else if str_eq(a, "--export-theme") {
        Some(ValueOption::ExportTheme)
    } else if str_eq(a, "--theme-file") {
        Some(ValueOption::ThemeFile)
    } else {
        None
    }
}

/// Reads the command-line arguments (without the program name); `today` is
/// the local date, which also gives the default year, and the wallpaper
/// takes the primary display's size `display_width`×`display_height`
/// unless the arguments give another.
pub fn parse_cli(args: &Vec<String>, today: CalendarDate, display_width: u32, display_height: u32) -> (r: Result<CliOptions, String>)
    ensures
        match parse_cli_spec(args_view(args@), today, display_width, display_height) {
            Ok(o) => r matches Ok(x) && x@ == o,
            Err(e) => r matches Err(x) && x@ == e,
        },
{
    let ghost av = args_view(args@);
    let mut options = CliOptions {
        update: false,
        preview: false,
        quiet: false,
        show_version: false,
        width: display_width,
        height: display_height,
        year: today.year,
        requested_theme: None,
        today,
        output: None,
        set_wallpaper: true,
        export_theme: None,
        theme_file: None,
    };
    if args.len() == 0 {
        options.update = true;
        return Ok(options);
    }
    let mut index: usize = 0;
    while index < args.len()
        invariant
            av == args_view(args@),
            av.len() == args@.len(),
            av.len() > 0,
            index <= args@.len(),
            cli_from(av, 0, default_cli(today, display_width, display_height)) == cli_from(av, index as int, options@),
        decreases args.len() - index,
    {
        let argument = args[index].as_str();
        assert(argument@ == av[index as int]);
        let ghost before = options@;
        if eq_ignore_ascii_case(argument, "--update") {
            options.update = true;
        } else if eq_ignore_ascii_case(argument, "--preview") {
            options.preview = true;
        } else if eq_ignore_ascii_case(argument, "--quiet") {
            options.quiet = true;
        } else if eq_ignore_ascii_case(argument, "--version") {
            options.show_version = true;
        } else if let Some((k, value)) = match_prefixed(argument) {
            match apply_value(k, value, &mut options) {
                Ok(()) => {},
                Err(e) => {
                    return Err(e);
                },
            }
        } else if let Some(k) = match_named(argument) {
            index = index + 1;
            if index >= args.len() {
                return Err("参数缺少取值".to_owned());
            }
            let value = args[index].as_str();
            assert(value@ == av[index as int]);
            match apply_value(k, value, &mut options) {
                Ok(()) => {},
                Err(e) => {
                    return Err(e);
                },
            }
        } else {
            let mut e = "未知参数：".to_owned();
            append_str(&mut e, argument);
            return Err(e);
        }
        index = index + 1;
    }
    if options.preview && options.update {
        return Err("--preview 与 --update 不能同时使用".to_owned());
    }
    if !options.preview && !options.show_version && !options.update {
        options.update = true;
    }
    Ok(options)
}

/// A command line that is accepted never asks for both a preview and an
/// update, and always asks for at least one of an update, a preview or the version.
pub proof fn lemma_accepted_cli_has_one_mode(args: Seq<Seq<char>>, today: CalendarDate, w: u32, h: u32)
    ensures
        parse_cli_spec(args, today, w, h) matches Ok(o) ==> !(o.preview && o.update) && (o.update
            || o.preview || o.show_version),
{
}

/// Without arguments the program updates the wallpaper of the current year at
/// the size of the primary display and sets it as the desktop background;
/// `--update --quiet` does the same, quietly.
pub proof fn lemma_no_arguments_update(today: CalendarDate, w: u32, h: u32)
    ensures
        parse_cli_spec(Seq::empty(), today, w, h) == Ok::<CliView, Seq<char>>(
            CliView { update: true, ..default_cli(today, w, h) },
        ),
        parse_cli_spec(seq!["--update"@, "--quiet"@], today, w, h) == Ok::<CliView, Seq<char>>(
            CliView { update: true, quiet: true, ..default_cli(today, w, h) },
        ),
        default_cli(today, w, h).width == w && default_cli(today, w, h).height == h,
        default_cli(today, w, h).year == today.year && default_cli(today, w, h).set_wallpaper,
{
    reveal_strlit("--update");
    reveal_strlit("--quiet");
    reveal_strlit("--preview");
    reveal_strlit("--version");
    let args = seq!["--update"@, "--quiet"@];
    let d = default_cli(today, w, h);
    assert(eq_ignore_ascii_case_spec(args[0], "--update"@));
    assert(!eq_ignore_ascii_case_spec(args[1], "--update"@)) by {
        assert(ascii_lower(args[1][2]) != ascii_lower("--update"@[2]));
    }
    assert(!eq_ignore_ascii_case_spec(args[1], "--preview"@)) by {
        assert(args[1].len() != "--preview"@.len());
    }
    assert(eq_ignore_ascii_case_spec(args[1], "--quiet"@));
    let o1 = CliView { update: true, ..d };
    assert(cli_step(args, 0, d) == Ok::<(int, CliView), Seq<char>>((1, o1)));
    assert(cli_step(args, 1, o1) == Ok::<(int, CliView), Seq<char>>((1, CliView { quiet: true, ..o1 })));
    assert(cli_from(args, 2, CliView { quiet: true, ..o1 }) == Ok::<CliView, Seq<char>>(CliView { quiet: true, ..o1 }));
    assert(cli_from(args, 1, o1) == Ok::<CliView, Seq<char>>(CliView { quiet: true, ..o1 }));
}

/// `--export-theme <file>` asks to export the current theme as a template to
/// `<file>`, and `--theme-file <file>` to import and apply the theme in `<file>`.
pub proof fn lemma_theme_file_options(today: CalendarDate, w: u32, h: u32, file: Seq<char>)
    ensures
        parse_cli_spec(seq!["--export-theme"@, file], today, w, h) matches Ok(o) && o.export_theme
            == Some(file) && command_spec(o) == Command::ExportTheme,
        parse_cli_spec(seq!["--theme-file"@, file], today, w, h) matches Ok(o) && o.theme_file
            == Some(file) && command_spec(o) == Command::ImportTheme,
{
    reveal_strlit("--update");
    reveal_strlit("--preview");
    reveal_strlit("--quiet");
    reveal_strlit("--version");
    reveal_strlit("--width=");
    reveal_strlit("--height=");
    reveal_strlit("--year=");
    reveal_strlit("--theme=");
    reveal_strlit("--today=");
    reveal_strlit("--output=");
    reveal_strlit("--set-wallpaper=");
    reveal_strlit("--export-theme=");
    reveal_strlit("--theme-file=");
    reveal_strlit("--width");
    reveal_strlit("--height");
    reveal_strlit("--year");
    reveal_strlit("--theme");
    reveal_strlit("--today");
    reveal_strlit("--output");
    reveal_strlit("--set-wallpaper");
    reveal_strlit("--export-theme");
    reveal_strlit("--theme-file");
    let d = default_cli(today, w, h);
    let e = seq!["--export-theme"@, file];
    assert(!eq_ignore_ascii_case_spec(e[0], "--update"@));
    assert(!eq_ignore_ascii_case_spec(e[0], "--preview"@));
    assert(!eq_ignore_ascii_case_spec(e[0], "--quiet"@));
    assert(!eq_ignore_ascii_case_spec(e[0], "--version"@));
    assert(prefixed_option(e[0]) is None) by {
        assert(!has_prefix(e[0], "--export-theme="@));
        assert(!has_prefix(e[0], "--width="@)) by { assert(e[0][2] != "--width="@[2]); }
        assert(!has_prefix(e[0], "--height="@)) by { assert(e[0][2] != "--height="@[2]); }
        assert(!has_prefix(e[0], "--year="@)) by { assert(e[0][2] != "--year="@[2]); }
        assert(!has_prefix(e[0], "--theme="@)) by { assert(e[0][2] != "--theme="@[2]); }
        assert(!has_prefix(e[0], "--today="@)) by { assert(e[0][2] != "--today="@[2]); }
        assert(!has_prefix(e[0], "--output="@)) by { assert(e[0][2] != "--output="@[2]); }
        assert(!has_prefix(e[0], "--set-wallpaper="@)) by { assert(e[0][2] != "--set-wallpaper="@[2]); }
        assert(!has_prefix(e[0], "--theme-file="@)) by { assert(e[0][2] != "--theme-file="@[2]); }
    }
    assert(named_option(e[0]) == Some(ValueOption::ExportTheme));
    let oe = CliView { export_theme: Some(file), ..d };
    assert(cli_step(e, 0, d) == Ok::<(int, CliView), Seq<char>>((2, oe)));
    assert(cli_from(e, 2, oe) == Ok::<CliView, Seq<char>>(oe));
    assert(cli_from(e, 0, d) == Ok::<CliView, Seq<char>>(oe));
    let t = seq!["--theme-file"@, file];
    assert(!eq_ignore_ascii_case_spec(t[0], "--update"@));
    assert(!eq_ignore_ascii_case_spec(t[0], "--preview"@));
    assert(!eq_ignore_ascii_case_spec(t[0], "--quiet"@));
    assert(!eq_ignore_ascii_case_spec(t[0], "--version"@));
    assert(prefixed_option(t[0]) is None) by {
        assert(!has_prefix(t[0], "--theme-file="@));
        assert(!has_prefix(t[0], "--width="@)) by { assert(t[0][2] != "--width="@[2]); }
        assert(!has_prefix(t[0], "--height="@)) by { assert(t[0][2] != "--height="@[2]); }
        assert(!has_prefix(t[0], "--year="@)) by { assert(t[0][2] != "--year="@[2]); }
        assert(!has_prefix(t[0], "--theme="@)) by { assert(t[0][7] != "--theme="@[7]); }
        assert(!has_prefix(t[0], "--today="@)) by { assert(t[0][3] != "--today="@[3]); }
        assert(!has_prefix(t[0], "--output="@)) by { assert(t[0][2] != "--output="@[2]); }
        assert(!has_prefix(t[0], "--set-wallpaper="@)) by { assert(t[0][2] != "--set-wallpaper="@[2]); }
        assert(!has_prefix(t[0], "--export-theme="@)) by { assert(t[0][2] != "--export-theme="@[2]); }
    }
    assert(named_option(t[0]) == Some(ValueOption::ThemeFile));
    let ot = CliView { theme_file: Some(file), ..d };
    assert(cli_step(t, 0, d) == Ok::<(int, CliView), Seq<char>>((2, ot)));
    assert(cli_from(t, 2, ot) == Ok::<CliView, Seq<char>>(ot));
    assert(cli_from(t, 0, d) == Ok::<CliView, Seq<char>>(ot));
}

/// Each value option is named by its own spelling: `--width` selects the
/// width, `--height` the height, and so on for every option.
pub proof fn lemma_option_names(k: ValueOption)
    ensures
        named_option(option_name(k)) == Some(k),
        named_option("--width"@) == Some(ValueOption::Width),
        named_option("--height"@) == Some(ValueOption::Height),
        named_option("--year"@) == Some(ValueOption::Year),
        named_option("--theme"@) == Some(ValueOption::Theme),
        named_option("--today"@) == Some(ValueOption::Today),
        named_option("--output"@) == Some(ValueOption::Output),
        named_option("--set-wallpaper"@) == Some(ValueOption::SetWallpaper),
        named_option("--export-theme"@) == Some(ValueOption::ExportTheme),
        named_option("--theme-file"@) == Some(ValueOption::ThemeFile),
{
    reveal_strlit("--width");
    reveal_strlit("--height");
    reveal_strlit("--year");
    reveal_strlit("--theme");
    reveal_strlit("--today");
    reveal_strlit("--output");
    reveal_strlit("--set-wallpaper");
    reveal_strlit("--export-theme");
    reveal_strlit("--theme-file");
    let w = "--width"@;
    let h = "--height"@;
    let y = "--year"@;
    let t = "--theme"@;
    let d = "--today"@;
    let o = "--output"@;
    let s = "--set-wallpaper"@;
    let e = "--export-theme"@;
    let f = "--theme-file"@;
    assert(h != w) by { assert(h.len() != w.len()); }
    assert(y != w && y != h) by { assert(y.len() != w.len() && y.len() != h.len()); }
    assert(t != w && t != h && t != y) by {
        assert(t[2] != w[2] && t.len() != h.len() && t.len() != y.len());
    }
    assert(d != w && d != h && d != y && d != t) by {
        assert(d[2] != w[2] && d.len() != h.len() && d.len() != y.len() && d[3] != t[3]);
    }
    assert(o != w && o != h && o != y && o != t && o != d) by {
        assert(o[2] != w[2] && o[2] != h[2] && o.len() != y.len() && o.len() != t.len() && o.len() != d.len());
    }
    assert(s != w && s != h && s != y && s != t && s != d && s != o) by {
        assert(s.len() != w.len() && s.len() != h.len() && s.len() != y.len() && s.len() != t.len()
            && s.len() != d.len() && s.len() != o.len());
    }
    assert(e != w && e != h && e != y && e != t && e != d && e != o && e != s) by {
        assert(e.len() != w.len() && e.len() != h.len() && e.len() != y.len() && e.len() != t.len()
            && e.len() != d.len() && e.len() != o.len() && e.len() != s.len());
    }
    assert(f != w && f != h && f != y && f != t && f != d && f != o && f != s && f != e) by {
        assert(f.len() != w.len() && f.len() != h.len() && f.len() != y.len() && f.len() != t.len()
            && f.len() != d.len() && f.len() != o.len() && f.len() != s.len() && f.len() != e.len());
    }
}

/// `--width N` and `--width=N` set the width to `N` and leave the height at
/// the display's; `--height N` and `--height=N` set the height and leave the
/// width.
pub proof fn lemma_size_options(v: Seq<char>, today: CalendarDate, w: u32, h: u32)
    requires
        parse_unsigned_spec(v, u32::MAX as int) is Some,
    ensures
        parse_cli_spec(seq!["--width"@, v], today, w, h) matches Ok(o) && o.width as int
            == parse_unsigned_spec(v, u32::MAX as int)->0 && o.height == h && o.update,
        parse_cli_spec(seq!["--width="@ + v], today, w, h) == parse_cli_spec(
            seq!["--width"@, v],
            today,
            w,
            h,
        ),
        parse_cli_spec(seq!["--height"@, v], today, w, h) matches Ok(o) && o.height as int
            == parse_unsigned_spec(v, u32::MAX as int)->0 && o.width == w && o.update,
        parse_cli_spec(seq!["--height="@ + v], today, w, h) == parse_cli_spec(
            seq!["--height"@, v],
            today,
            w,
            h,
        ),
{
    reveal_strlit("--update");
    reveal_strlit("--preview");
    reveal_strlit("--quiet");
    reveal_strlit("--version");
    reveal_strlit("--width=");
    reveal_strlit("--height=");
    reveal_strlit("--year=");
    reveal_strlit("--theme=");
    reveal_strlit("--today=");
    reveal_strlit("--output=");
    reveal_strlit("--set-wallpaper=");
    reveal_strlit("--export-theme=");
    reveal_strlit("--theme-file=");
    reveal_strlit("--width");
    reveal_strlit("--height");
    reveal_strlit("--year");
    reveal_strlit("--theme");
    reveal_strlit("--today");
    reveal_strlit("--output");
    reveal_strlit("--set-wallpaper");
    reveal_strlit("--export-theme");
    reveal_strlit("--theme-file");
    lemma_option_names(ValueOption::Width);
    lemma_option_names(ValueOption::Height);
    let d = default_cli(today, w, h);
    let n = parse_unsigned_spec(v, u32::MAX as int)->0;
    let ow = CliView { width: n as u32, ..d };
    let oh = CliView { height: n as u32, ..d };
    assert(v.len() >= 1);
    // --width N
    let a1 = seq!["--width"@, v];
    let x = a1[0];
    assert(!eq_ignore_ascii_case_spec(x, "--update"@)) by {
        if x.len() == "--update"@.len() {
            assert(ascii_lower(x[2]) != ascii_lower("--update"@[2]));
        }
    }
    assert(!eq_ignore_ascii_case_spec(x, "--preview"@)) by {
        if x.len() == "--preview"@.len() {
            assert(ascii_lower(x[2]) != ascii_lower("--preview"@[2]));
        }
    }
    assert(!eq_ignore_ascii_case_spec(x, "--quiet"@)) by {
        if x.len() == "--quiet"@.len() {
            assert(ascii_lower(x[2]) != ascii_lower("--quiet"@[2]));
        }
    }
    assert(!eq_ignore_ascii_case_spec(x, "--version"@)) by {
        if x.len() == "--version"@.len() {
            assert(ascii_lower(x[2]) != ascii_lower("--version"@[2]));
        }
    }
    assert(!has_prefix(x, "--width="@)) by {
        if "--width="@.len() <= x.len() {
            assert(x.take("--width="@.len() as int)[2] != "--width="@[2]);
        }
    }
    assert(!has_prefix(x, "--height="@)) by {
        if "--height="@.len() <= x.len() {
            assert(x.take("--height="@.len() as int)[2] != "--height="@[2]);
        }
    }
    assert(!has_prefix(x, "--year="@)) by {
        if "--year="@.len() <= x.len() {
            assert(x.take("--year="@.len() as int)[2] != "--year="@[2]);
        }
    }
    assert(!has_prefix(x, "--theme="@)) by {
        if "--theme="@.len() <= x.len() {
            assert(x.take("--theme="@.len() as int)[2] != "--theme="@[2]);
        }
    }
    assert(!has_prefix(x, "--today="@)) by {
        if "--today="@.len() <= x.len() {
            assert(x.take("--today="@.len() as int)[2] != "--today="@[2]);
        }
    }
    assert(!has_prefix(x, "--output="@)) by {
        if "--output="@.len() <= x.len() {
            assert(x.take("--output="@.len() as int)[2] != "--output="@[2]);
        }
    }
    assert(!has_prefix(x, "--set-wallpaper="@)) by {
        if "--set-wallpaper="@.len() <= x.len() {
            assert(x.take("--set-wallpaper="@.len() as int)[2] != "--set-wallpaper="@[2]);
        }
    }
    assert(!has_prefix(x, "--export-theme="@)) by {
        if "--export-theme="@.len() <= x.len() {
            assert(x.take("--export-theme="@.len() as int)[2] != "--export-theme="@[2]);
        }
    }
    assert(!has_prefix(x, "--theme-file="@)) by {
        if "--theme-file="@.len() <= x.len() {
            assert(x.take("--theme-file="@.len() as int)[2] != "--theme-file="@[2]);
        }
    }
    assert(cli_step(a1, 0, d) == Ok::<(int, CliView), Seq<char>>((2, ow)));
    assert(cli_from(a1, 2, ow) == Ok::<CliView, Seq<char>>(ow));
    assert(cli_from(a1, 0, d) == Ok::<CliView, Seq<char>>(ow));
    // --width=N
    let a2 = seq!["--width="@ + v];
    let y = a2[0];
    assert(y.len() >= 9);
    assert(y[2] == 'w');
    assert(!eq_ignore_ascii_case_spec(y, "--update"@)) by {
        if y.len() == "--update"@.len() {
            assert(ascii_lower(y[2]) != ascii_lower("--update"@[2]));
        }
    }
    assert(!eq_ignore_ascii_case_spec(y, "--preview"@)) by {
        if y.len() == "--preview"@.len() {
            assert(ascii_lower(y[2]) != ascii_lower("--preview"@[2]));
        }
    }
    assert(!eq_ignore_ascii_case_spec(y, "--quiet"@)) by {
        if y.len() == "--quiet"@.len() {
            assert(ascii_lower(y[2]) != ascii_lower("--quiet"@[2]));
        }
    }
    assert(!eq_ignore_ascii_case_spec(y, "--version"@)) by {
        if y.len() == "--version"@.len() {
            assert(ascii_lower(y[2]) != ascii_lower("--version"@[2]));
        }
    }
    assert(y.take(8) =~= "--width="@);
    assert(y.skip(8) =~= v);
    assert(cli_step(a2, 0, d) == Ok::<(int, CliView), Seq<char>>((1, ow)));
    assert(cli_from(a2, 1, ow) == Ok::<CliView, Seq<char>>(ow));
    assert(cli_from(a2, 0, d) == Ok::<CliView, Seq<char>>(ow));
    // --height N
    let a3 = seq!["--height"@, v];
    let z = a3[0];
    assert(!eq_ignore_ascii_case_spec(z, "--update"@)) by {
        if z.len() == "--update"@.len() {
            assert(ascii_lower(z[2]) != ascii_lower("--update"@[2]));
        }
    }
    assert(!eq_ignore_ascii_case_spec(z, "--preview"@)) by {
        if z.len() == "--preview"@.len() {
            assert(ascii_lower(z[2]) != ascii_lower("--preview"@[2]));
        }
    }
    assert(!eq_ignore_ascii_case_spec(z, "--quiet"@)) by {
        if z.len() == "--quiet"@.len() {
            assert(ascii_lower(z[2]) != ascii_lower("--quiet"@[2]));
        }
    }
    assert(!eq_ignore_ascii_case_spec(z, "--version"@)) by {
        if z.len() == "--version"@.len() {
            assert(ascii_lower(z[2]) != ascii_lower("--version"@[2]));
        }
    }
    assert(!has_prefix(z, "--width="@)) by {
        if "--width="@.len() <= z.len() {
            assert(z.take("--width="@.len() as int)[2] != "--width="@[2]);
        }
    }
    assert(!has_prefix(z, "--height="@)) by {
        if "--height="@.len() <= z.len() {
            assert(z.take("--height="@.len() as int)[2] != "--height="@[2]);
        }
    }
    assert(!has_prefix(z, "--year="@)) by {
        if "--year="@.len() <= z.len() {
            assert(z.take("--year="@.len() as int)[2] != "--year="@[2]);
        }
    }
    assert(!has_prefix(z, "--theme="@)) by {
        if "--theme="@.len() <= z.len() {
            assert(z.take("--theme="@.len() as int)[2] != "--theme="@[2]);
        }
    }
    assert(!has_prefix(z, "--today="@)) by {
        if "--today="@.len() <= z.len() {
            assert(z.take("--today="@.len() as int)[2] != "--today="@[2]);
        }
    }
    assert(!has_prefix(z, "--output="@)) by {
        if "--output="@.len() <= z.len() {
            assert(z.take("--output="@.len() as int)[2] != "--output="@[2]);
        }
    }
    assert(!has_prefix(z, "--set-wallpaper="@)) by {
        if "--set-wallpaper="@.len() <= z.len() {
            assert(z.take("--set-wallpaper="@.len() as int)[2] != "--set-wallpaper="@[2]);
        }
    }
    assert(!has_prefix(z, "--export-theme="@)) by {
        if "--export-theme="@.len() <= z.len() {
            assert(z.take("--export-theme="@.len() as int)[2] != "--export-theme="@[2]);
        }
    }
    assert(!has_prefix(z, "--theme-file="@)) by {
        if "--theme-file="@.len() <= z.len() {
            assert(z.take("--theme-file="@.len() as int)[2] != "--theme-file="@[2]);
        }
    }
    assert(cli_step(a3, 0, d) == Ok::<(int, CliView), Seq<char>>((2, oh)));
    assert(cli_from(a3, 2, oh) == Ok::<CliView, Seq<char>>(oh));
    assert(cli_from(a3, 0, d) == Ok::<CliView, Seq<char>>(oh));
    // --height=N
    let a4 = seq!["--height="@ + v];
    let u = a4[0];
    assert(u.len() >= 10);
    assert(u[2] == 'h');
    assert(!eq_ignore_ascii_case_spec(u, "--update"@)) by {
        if u.len() == "--update"@.len() {
            assert(ascii_lower(u[2]) != ascii_lower("--update"@[2]));
        }
    }
    assert(!eq_ignore_ascii_case_spec(u, "--preview"@)) by {
        if u.len() == "--preview"@.len() {
            assert(ascii_lower(u[2]) != ascii_lower("--preview"@[2]));
        }
    }
    assert(!eq_ignore_ascii_case_spec(u, "--quiet"@)) by {
        if u.len() == "--quiet"@.len() {
            assert(ascii_lower(u[2]) != ascii_lower("--quiet"@[2]));
        }
    }
    assert(!eq_ignore_ascii_case_spec(u, "--version"@)) by {
        if u.len() == "--version"@.len() {
            assert(ascii_lower(u[2]) != ascii_lower("--version"@[2]));
        }
    }
    assert(!has_prefix(u, "--width="@)) by {
        if "--width="@.len() <= u.len() {
            assert(u.take("--width="@.len() as int)[2] != "--width="@[2]);
        }
    }
    assert(!has_prefix(u, "--year="@)) by {
        if "--year="@.len() <= u.len() {
            assert(u.take("--year="@.len() as int)[2] != "--year="@[2]);
        }
    }
    assert(!has_prefix(u, "--today="@)) by {
        if "--today="@.len() <= u.len() {
            assert(u.take("--today="@.len() as int)[2] != "--today="@[2]);
        }
    }
    assert(!has_prefix(u, "--output="@)) by {
        if "--output="@.len() <= u.len() {
            assert(u.take("--output="@.len() as int)[2] != "--output="@[2]);
        }
    }
    assert(!has_prefix(u, "--set-wallpaper="@)) by {
        if "--set-wallpaper="@.len() <= u.len() {
            assert(u.take("--set-wallpaper="@.len() as int)[2] != "--set-wallpaper="@[2]);
        }
    }
    assert(!has_prefix(u, "--export-theme="@)) by {
        if "--export-theme="@.len() <= u.len() {
            assert(u.take("--export-theme="@.len() as int)[2] != "--export-theme="@[2]);
        }
    }
    assert(!has_prefix(u, "--theme="@)) by {
        assert(u.take(8)[2] != "--theme="@[2]);
    }
    assert(!has_prefix(u, "--theme-file="@)) by {
        if "--theme-file="@.len() <= u.len() {
            assert(u.take(13)[2] != "--theme-file="@[2]);
        }
    }
    assert(u.take(9) =~= "--height="@);
    assert(u.skip(9) =~= v);
    assert(cli_step(a4, 0, d) == Ok::<(int, CliView), Seq<char>>((1, oh)));
    assert(cli_from(a4, 1, oh) == Ok::<CliView, Seq<char>>(oh));
    assert(cli_from(a4, 0, d) == Ok::<CliView, Seq<char>>(oh));
}

/// `--name=value` selects the option that `--name` spells and gives it
/// exactly the text after the '='.
pub proof fn lemma_prefixed_options(k: ValueOption, v: Seq<char>)
    ensures
        prefixed_option(option_name(k) + "="@ + v) == Some(k),
        (option_name(k) + "="@ + v).skip(option_name(k).len() as int + 1) == v,
{
    reveal_strlit("--width");
    reveal_strlit("--width=");
    reveal_strlit("--height");
    reveal_strlit("--height=");
    reveal_strlit("--year");
    reveal_strlit("--year=");
    reveal_strlit("--theme");
    reveal_strlit("--theme=");
    reveal_strlit("--today");
    reveal_strlit("--today=");
    reveal_strlit("--output");
    reveal_strlit("--output=");
    reveal_strlit("--set-wallpaper");
    reveal_strlit("--set-wallpaper=");
    reveal_strlit("--export-theme");
    reveal_strlit("--export-theme=");
    reveal_strlit("--theme-file");
    reveal_strlit("--theme-file=");
    reveal_strlit("=");
    match k {
        ValueOption::Width => {
            let a = option_name(k) + "="@ + v;
            assert(option_name(k) + "="@ =~= "--width="@);
            assert(a =~= "--width="@ + v);
            assert(a.take(8) =~= "--width="@);
            assert(a.skip(8) =~= v);
        },
        ValueOption::Height => {
            let a = option_name(k) + "="@ + v;
            assert(option_name(k) + "="@ =~= "--height="@);
            assert(a =~= "--height="@ + v);
            assert(a.take(9) =~= "--height="@);
            assert(a.skip(9) =~= v);
            assert(!has_prefix(a, "--width="@)) by {
                if "--width="@.len() <= a.len() {
                    assert(a.take(8)[2] != "--width="@[2]);
                }
            }
        },
        ValueOption::Year => {
            let a = option_name(k) + "="@ + v;
            assert(option_name(k) + "="@ =~= "--year="@);
            assert(a =~= "--year="@ + v);
            assert(a.take(7) =~= "--year="@);
            assert(a.skip(7) =~= v);
            assert(!has_prefix(a, "--width="@)) by {
                if "--width="@.len() <= a.len() {
                    assert(a.take(8)[2] != "--width="@[2]);
                }
            }
            assert(!has_prefix(a, "--height="@)) by {
                if "--height="@.len() <= a.len() {
                    assert(a.take(9)[2] != "--height="@[2]);
                }
            }
        },
        ValueOption::Theme => {
            let a = option_name(k) + "="@ + v;
            assert(option_name(k) + "="@ =~= "--theme="@);
            assert(a =~= "--theme="@ + v);
            assert(a.take(8) =~= "--theme="@);
            assert(a.skip(8) =~= v);
            assert(!has_prefix(a, "--width="@)) by {
                if "--width="@.len() <= a.len() {
                    assert(a.take(8)[2] != "--width="@[2]);
                }
            }
            assert(!has_prefix(a, "--height="@)) by {
                if "--height="@.len() <= a.len() {
                    assert(a.take(9)[2] != "--height="@[2]);
                }
            }
            assert(!has_prefix(a, "--year="@)) by {
                if "--year="@.len() <= a.len() {
                    assert(a.take(7)[2] != "--year="@[2]);
                }
            }
        },
        ValueOption::Today => {
            let a = option_name(k) + "="@ + v;
            assert(option_name(k) + "="@ =~= "--today="@);
            assert(a =~= "--today="@ + v);
            assert(a.take(8) =~= "--today="@);
            assert(a.skip(8) =~= v);
            assert(!has_prefix(a, "--width="@)) by {
                if "--width="@.len() <= a.len() {
                    assert(a.take(8)[2] != "--width="@[2]);
                }
            }
            assert(!has_prefix(a, "--height="@)) by {
                if "--height="@.len() <= a.len() {
                    assert(a.take(9)[2] != "--height="@[2]);
                }
            }
            assert(!has_prefix(a, "--year="@)) by {
                if "--year="@.len() <= a.len() {
                    assert(a.take(7)[2] != "--year="@[2]);
                }
            }
            assert(!has_prefix(a, "--theme="@)) by {
                if "--theme="@.len() <= a.len() {
                    assert(a.take(8)[3] != "--theme="@[3]);
                }
            }
        },
        ValueOption::Output => {
            let a = option_name(k) + "="@ + v;
            assert(option_name(k) + "="@ =~= "--output="@);
            assert(a =~= "--output="@ + v);
            assert(a.take(9) =~= "--output="@);
            assert(a.skip(9) =~= v);
            assert(!has_prefix(a, "--width="@)) by {
                if "--width="@.len() <= a.len() {
                    assert(a.take(8)[2] != "--width="@[2]);
                }
            }
            assert(!has_prefix(a, "--height="@)) by {
                if "--height="@.len() <= a.len() {
                    assert(a.take(9)[2] != "--height="@[2]);
                }
            }
            assert(!has_prefix(a, "--year="@)) by {
                if "--year="@.len() <= a.len() {
                    assert(a.take(7)[2] != "--year="@[2]);
                }
            }
            assert(!has_prefix(a, "--theme="@)) by {
                if "--theme="@.len() <= a.len() {
                    assert(a.take(8)[2] != "--theme="@[2]);
                }
            }
            assert(!has_prefix(a, "--today="@)) by {
                if "--today="@.len() <= a.len() {
                    assert(a.take(8)[2] != "--today="@[2]);
                }
            }
        },
        ValueOption::SetWallpaper => {
            let a = option_name(k) + "="@ + v;
            assert(option_name(k) + "="@ =~= "--set-wallpaper="@);
            assert(a =~= "--set-wallpaper="@ + v);
            assert(a.take(16) =~= "--set-wallpaper="@);
            assert(a.skip(16) =~= v);
            assert(!has_prefix(a, "--width="@)) by {
                if "--width="@.len() <= a.len() {
                    assert(a.take(8)[2] != "--width="@[2]);
                }
            }
            assert(!has_prefix(a, "--height="@)) by {
                if "--height="@.len() <= a.len() {
                    assert(a.take(9)[2] != "--height="@[2]);
                }
            }
            assert(!has_prefix(a, "--year="@)) by {
                if "--year="@.len() <= a.len() {
                    assert(a.take(7)[2] != "--year="@[2]);
                }
            }
            assert(!has_prefix(a, "--theme="@)) by {
                if "--theme="@.len() <= a.len() {
                    assert(a.take(8)[2] != "--theme="@[2]);
                }
            }
            assert(!has_prefix(a, "--today="@)) by {
                if "--today="@.len() <= a.len() {
                    assert(a.take(8)[2] != "--today="@[2]);
                }
            }
            assert(!has_prefix(a, "--output="@)) by {
                if "--output="@.len() <= a.len() {
                    assert(a.take(9)[2] != "--output="@[2]);
                }
            }
        },
        ValueOption::ExportTheme => {
            let a = option_name(k) + "="@ + v;
            assert(option_name(k) + "="@ =~= "--export-theme="@);
            assert(a =~= "--export-theme="@ + v);
            assert(a.take(15) =~= "--export-theme="@);
            assert(a.skip(15) =~= v);
            assert(!has_prefix(a, "--width="@)) by {
                if "--width="@.len() <= a.len() {
                    assert(a.take(8)[2] != "--width="@[2]);
                }
            }
            assert(!has_prefix(a, "--height="@)) by {
                if "--height="@.len() <= a.len() {
                    assert(a.take(9)[2] != "--height="@[2]);
                }
            }
            assert(!has_prefix(a, "--year="@)) by {
                if "--year="@.len() <= a.len() {
                    assert(a.take(7)[2] != "--year="@[2]);
                }
            }
            assert(!has_prefix(a, "--theme="@)) by {
                if "--theme="@.len() <= a.len() {
                    assert(a.take(8)[2] != "--theme="@[2]);
                }
            }
            assert(!has_prefix(a, "--today="@)) by {
                if "--today="@.len() <= a.len() {
                    assert(a.take(8)[2] != "--today="@[2]);
                }
            }
            assert(!has_prefix(a, "--output="@)) by {
                if "--output="@.len() <= a.len() {
                    assert(a.take(9)[2] != "--output="@[2]);
                }
            }
            assert(!has_prefix(a, "--set-wallpaper="@)) by {
                if "--set-wallpaper="@.len() <= a.len() {
                    assert(a.take(16)[2] != "--set-wallpaper="@[2]);
                }
            }
        },
        ValueOption::ThemeFile => {
            let a = option_name(k) + "="@ + v;
            assert(option_name(k) + "="@ =~= "--theme-file="@);
            assert(a =~= "--theme-file="@ + v);
            assert(a.take(13) =~= "--theme-file="@);
            assert(a.skip(13) =~= v);
            assert(!has_prefix(a, "--width="@)) by {
                if "--width="@.len() <= a.len() {
                    assert(a.take(8)[2] != "--width="@[2]);
                }
            }
            assert(!has_prefix(a, "--height="@)) by {
                if "--height="@.len() <= a.len() {
                    assert(a.take(9)[2] != "--height="@[2]);
                }
            }
            assert(!has_prefix(a, "--year="@)) by {
                if "--year="@.len() <= a.len() {
                    assert(a.take(7)[2] != "--year="@[2]);
                }
            }
            assert(!has_prefix(a, "--theme="@)) by {
                if "--theme="@.len() <= a.len() {
                    assert(a.take(8)[7] != "--theme="@[7]);
                }
            }
            assert(!has_prefix(a, "--today="@)) by {
                if "--today="@.len() <= a.len() {
                    assert(a.take(8)[3] != "--today="@[3]);
                }
            }
            assert(!has_prefix(a, "--output="@)) by {
                if "--output="@.len() <= a.len() {
                    assert(a.take(9)[2] != "--output="@[2]);
                }
            }
            assert(!has_prefix(a, "--set-wallpaper="@)) by {
                if "--set-wallpaper="@.len() <= a.len() {
                    assert(a.take(16)[2] != "--set-wallpaper="@[2]);
                }
            }
            assert(!has_prefix(a, "--export-theme="@)) by {
                if "--export-theme="@.len() <= a.len() {
                    assert(a.take(15)[2] != "--export-theme="@[2]);
                }
            }
        },
    }
}

/// Each value option sets its own field from its value and leaves every
/// other option as it was; a value that does not read is an error.
pub proof fn lemma_value_option_sets_its_field(k: ValueOption, v: Seq<char>, o: CliView)
    ensures
        apply_value_spec(k, v, o) matches Ok(o2) ==> match k {
            ValueOption::Width => o2 == CliView { width: o2.width, ..o } && Some(o2.width as int)
                == parse_unsigned_spec(v, u32::MAX as int),
            ValueOption::Height => o2 == CliView { height: o2.height, ..o } && Some(o2.height as int)
                == parse_unsigned_spec(v, u32::MAX as int),
            ValueOption::Year => o2 == CliView { year: o2.year, ..o } && Some(o2.year as int)
                == parse_signed_spec(v, i32::MIN as int, i32::MAX as int),
            ValueOption::Theme => o2 == CliView { requested_theme: Some(v), ..o },
            ValueOption::Today => o2 == CliView { today: o2.today, ..o } && (parsed_iso_date(v) matches Some(
                t,
            ) && o2.today == (CalendarDate { year: t.0 as i32, month: t.1 as u32, day: t.2 as u32 })),
            ValueOption::Output => o2 == CliView { output: Some(v), ..o },
            ValueOption::SetWallpaper => o2 == CliView { set_wallpaper: o2.set_wallpaper, ..o }
                && ((v == "true"@ || v == "1"@) ==> o2.set_wallpaper) && ((v == "false"@ || v
                == "0"@) ==> !o2.set_wallpaper),
            ValueOption::ExportTheme => o2 == CliView { export_theme: Some(v), ..o },
            ValueOption::ThemeFile => o2 == CliView { theme_file: Some(v), ..o },
        },
        apply_value_spec(k, v, o) is Err <==> match k {
            ValueOption::Width | ValueOption::Height => parse_unsigned_spec(v, u32::MAX as int) is None,
            ValueOption::Year => parse_signed_spec(v, i32::MIN as int, i32::MAX as int) is None,
            ValueOption::Today => parsed_iso_date(v) is None,
            ValueOption::SetWallpaper => !(v == "true"@ || v == "1"@ || v == "false"@ || v == "0"@),
            _ => false,
        },
{
    crate::text::lemma_parse_bounds(v, i32::MIN as int, i32::MAX as int);
    crate::text::lemma_parse_bounds(v, 0, u32::MAX as int);
    match k {
        ValueOption::SetWallpaper => {
            reveal_strlit("true");
            reveal_strlit("1");
            reveal_strlit("false");
            reveal_strlit("0");
            assert("0"@ != "1"@) by {
                assert("0"@[0] != "1"@[0]);
            }
            assert("false"@ != "true"@) by {
                assert("false"@.len() != "true"@.len());
            }
            assert("false"@ != "1"@) by {
                assert("false"@.len() != "1"@.len());
            }
            assert("0"@ != "true"@) by {
                assert("0"@.len() != "true"@.len());
            }
        },
        _ => {},
    }
}

/// What the program does with the options it read, in order of precedence.
#[derive(Debug, Clone, Copy, PartialEq, Eq, Structural)]
pub enum Command {
    /// Print the version.
    ShowVersion,
    /// Export the current theme as a template to the given file.
    ExportTheme,
    /// Import the given theme file, remember it and apply it.
    ImportTheme,
    /// Open the preview.
    Preview,
    /// Render the wallpaper.
    Update,
    /// Print how to use the program.
    Usage,
}

/// The command that options ask for: the version first, then an export, then
/// an import, then a preview, then an update.
pub open spec fn command_spec(o: CliView) -> Command {
    if o.show_version {
        Command::ShowVersion
    } else if o.export_theme is Some {
        Command::ExportTheme
    } else if o.theme_file is Some {
        Command::ImportTheme
    } else if o.preview {
        Command::Preview
    } else if o.update {
        Command::Update
    } else {
        Command::Usage
    }
}

/// The command that `options` ask for.
pub fn command(options: &CliOptions) -> (r: Command)
    ensures
        r == command_spec(options@),
{
    if options.show_version {
        Command::ShowVersion
    } else if options.export_theme.is_some() {
        Command::ExportTheme
    } else if options.theme_file.is_some() {
        Command::ImportTheme
    } else if options.preview {
        Command::Preview
    } else if options.update {
        Command::Update
    } else {
        Command::Usage
    }
}

/// A command line that is accepted always asks for something to do: the
/// usage text is never the answer to it.
pub proof fn lemma_accepted_cli_never_usage(args: Seq<Seq<char>>, today: CalendarDate, w: u32, h: u32)
    ensures
        parse_cli_spec(args, today, w, h) matches Ok(o) ==> command_spec(o) != Command::Usage,
{
    lemma_accepted_cli_has_one_mode(args, today, w, h);
}

// ---------------------------------------------------------------------------
// Themes and render requests
/// The message for an unknown requested theme.
pub open spec fn theme_request_error() -> Seq<char> {
    "主题仅支持 dark 或 light"@
}

/// Whether the settings name the custom theme and hold a valid one.
pub open spec fn custom_saved(saved: Seq<char>, saved_custom: Option<CustomTheme>) -> bool {
    saved == "custom"@ && match saved_custom {
        Some(c) => custom_theme_valid(c),
        None => false,
    }
}

/// The theme to use: the requested one (an unknown request is an error), or
/// else the saved one: the saved custom theme when "custom" is saved and that
/// theme is valid, a built-in theme by its identifier, dark otherwise.
pub open spec fn resolve_theme_spec(
    requested: Option<Seq<char>>,
    saved: Seq<char>,
    saved_custom: Option<CustomTheme>,
) -> Result<Theme, Seq<char>> {
    match requested {
        Some(v) => match parse_theme_spec(v) {
            Some(t) => Ok(t),
            None => Err(theme_request_error()),
        },
        None => if custom_saved(saved, saved_custom) {
            Ok(Theme::Custom(Box::new(saved_custom->0)))
        } else {
            match parse_theme_spec(saved) {
                Some(t) => Ok(t),
                None => Ok(Theme::Dark),
            }
        },
    }
}

/// Chooses the theme from the requested identifier, if any, and else from the
/// identifier and custom theme saved in the settings.
pub fn resolve_theme(requested: Option<&str>, saved: &str, saved_custom: Option<CustomTheme>) -> (r: Result<Theme, String>)
    ensures
        match resolve_theme_spec(
            match requested {
                Some(v) => Some(v@),
                None => None,
            },
            saved@,
            saved_custom,
        ) {
            Ok(t) => r == Ok::<Theme, String>(t),
            Err(e) => r matches Err(x) && x@ == e,
        },
{
    match requested {
        Some(value) => match Theme::parse(value) {
            Some(theme) => Ok(theme),
            None => Err("主题仅支持 dark 或 light".to_owned()),
        },
        None => {
            if str_eq(saved, "custom") {
                if let Some(custom) = saved_custom {
                    if let Ok(theme) = Theme::custom(custom) {
                        return Ok(theme);
                    }
                }
            }
            match Theme::parse(saved) {
                Some(theme) => Ok(theme),
                None => Ok(Theme::Dark),
            }
        },
    }
}

/// A built-in theme chosen on the command line is saved under its identifier,
/// which gives the same theme on the next run; an imported custom theme,
/// saved as "custom" with the theme itself, comes back too; when nothing
/// usable is saved, the theme is dark.
pub proof fn lemma_chosen_theme_is_remembered(
    requested: Seq<char>,
    saved: Seq<char>,
    saved_custom: Option<CustomTheme>,
    imported: CustomTheme,
)
    ensures
        resolve_theme_spec(Some(requested), saved, saved_custom) matches Ok(t) ==> resolve_theme_spec(
            None,
            theme_id(t),
            saved_custom,
        ) == Ok::<Theme, Seq<char>>(t),
        custom_theme_valid(imported) ==> resolve_theme_spec(None, "custom"@, Some(imported)) == Ok::<
            Theme,
            Seq<char>,
        >(Theme::Custom(Box::new(imported))),
        parse_theme_spec(saved) is None && !custom_saved(saved, saved_custom) ==> resolve_theme_spec(None, saved, saved_custom) == Ok::<
            Theme,
            Seq<char>,
        >(Theme::Dark),
{
    crate::theme::lemma_parse_as_str_roundtrip(requested);
    reveal_strlit("custom");
    reveal_strlit("dark");
    reveal_strlit("light");
    reveal_strlit("moonlit");
    reveal_strlit("pine");
    reveal_strlit("cinnabar");
    reveal_strlit("mist");
    if parse_theme_spec(requested) is Some {
        assert(requested != "custom"@) by {
            if requested == "custom"@ {
                assert(requested.len() == 6);
            }
        }
    }
}

/// A requested theme decides alone: what is saved is not looked at, the
/// identifier of a built-in theme gives that theme, and any other request is
/// refused with the same message.
pub proof fn lemma_request_decides_theme(
    v: Seq<char>,
    b: crate::theme::BuiltinTheme,
    saved: Seq<char>,
    saved_custom: Option<CustomTheme>,
    other_saved: Seq<char>,
    other_custom: Option<CustomTheme>,
)
    ensures
        resolve_theme_spec(Some(v), saved, saved_custom) == resolve_theme_spec(
            Some(v),
            other_saved,
            other_custom,
        ),
        resolve_theme_spec(Some(crate::theme::builtin_id(b)), saved, saved_custom) == Ok::<
            Theme,
            Seq<char>,
        >(crate::theme::builtin_theme(b)),
        resolve_theme_spec(Some(v), saved, saved_custom) matches Ok(t) ==> crate::theme::builtin_of(t)
            is Some && crate::theme::builtin_id(crate::theme::builtin_of(t)->0) == v,
        resolve_theme_spec(Some(v), saved, saved_custom) is Err ==> resolve_theme_spec(
            Some(v),
            saved,
            saved_custom,
        ) == Err::<Theme, Seq<char>>(theme_request_error()),
{
    crate::theme::lemma_builtin_id_roundtrip(b);
    crate::theme::lemma_parse_as_str_roundtrip(v);
}

/// A year the calendar supports.
pub open spec fn year_supported(year: int) -> bool {
    1900 <= year <= 2100
}

/// The message for a wallpaper smaller than 800×600.
pub open spec fn size_error() -> Seq<char> {
    "壁纸尺寸至少需要 800×600"@
}

/// The message for a year outside 1900-2100.
pub open spec fn year_error() -> Seq<char> {
    "日历年份仅支持 1900-2100"@
}

/// Checks a wallpaper request: at least 800×600 pixels, a year from 1900 to 2100.
pub fn check_render_request(width: u32, height: u32, year: i32) -> (r: Result<(), String>)
    ensures
        (width < 800 || height < 600) ==> (r matches Err(e) && e@ == size_error()),
        !(width < 800 || height < 600) && !year_supported(year as int) ==> (r matches Err(e)
            && e@ == year_error()),
        r is Ok <==> !(width < 800 || height < 600) && year_supported(year as int),
{
    if width < 800 || height < 600 {
        return Err("壁纸尺寸至少需要 800×600".to_owned());
    }
    check_year(year)
}

/// Checks that a year is from 1900 to 2100.
pub fn check_year(year: i32) -> (r: Result<(), String>)
    ensures
        r is Ok <==> year_supported(year as int),
        r matches Err(e) ==> e@ == year_error(),
{
    if year < 1900 || year > 2100 {
        return Err("日历年份仅支持 1900-2100".to_owned());
    }
    Ok(())
}

} // verus!
