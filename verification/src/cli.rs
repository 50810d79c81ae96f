//! The command line: what the first argument asks for, the texts printed for
//! it, and where the program installs its own desktop entry and icon.
use vstd::prelude::*;
use crate::locations::data_dir;
use crate::paths::{join, join_exec};
use crate::system::SystemExec;
use crate::text::{
    chars_of, ends_with, ends_with_exec, eq_exec, opt_view, owned, skip_vec, string_of, string_views, trim,
    trim_exec,
};

verus! {

/// What the command line asks for.
pub enum Command {
    /// No argument: open the dashboard.
    Gui,
    /// `update`: look for a newer release and install it.
    Update,
    /// `-v` or `--version`.
    Version,
    /// `-h` or `--help`.
    Help,
    /// A package file to preselect for installation.
    Install(String),
    /// An argument that is none of these.
    Unknown(String),
}

/// What the command line asks for, by view.
pub enum CommandView {
    Gui,
    Update,
    Version,
    Help,
    Install(Seq<char>),
    Unknown(Seq<char>),
}

impl Command {
    pub open spec fn view(self) -> CommandView {
        match self {
            Command::Gui => CommandView::Gui,
            Command::Update => CommandView::Update,
            Command::Version => CommandView::Version,
            Command::Help => CommandView::Help,
            Command::Install(s) => CommandView::Install(s@),
            Command::Unknown(s) => CommandView::Unknown(s@),
        }
    }
}

/// The argument names a package file by its extension (`.deb`, `.AppImage`
/// or `.zip`, case counting).
pub open spec fn names_package(arg: Seq<char>) -> bool {
    ends_with(arg, ".deb"@) || ends_with(arg, ".AppImage"@) || ends_with(arg, ".zip"@)
}

/// What the first argument `arg` asks for; `exists` is whether a file is at
/// the path `arg`, which only counts where the name is no package file's.
pub open spec fn spec_classify(arg: Seq<char>, exists: bool) -> CommandView {
    if arg == "update"@ {
        CommandView::Update
    } else if arg == "-v"@ || arg == "--version"@ {
        CommandView::Version
    } else if arg == "-h"@ || arg == "--help"@ {
        CommandView::Help
    } else if names_package(arg) || exists {
        CommandView::Install(arg)
    } else {
        CommandView::Unknown(arg)
    }
}

fn is(a: &[char], lit: &str) -> (r: bool)
    ensures
        r == (a@ == lit@),
{
    eq_exec(a, &chars_of(lit))
}

/// Whether `arg` names a package file by its extension.
pub fn is_package_name(arg: &str) -> (r: bool)
    ensures
        r == names_package(arg@),
{
    let a = chars_of(arg);
    ends_with_exec(&a, &chars_of(".deb")) || ends_with_exec(&a, &chars_of(".AppImage"))
        || ends_with_exec(&a, &chars_of(".zip"))
}

/// What the first argument `arg` asks for, given whether a file is at that
/// path.
pub fn classify_arg(arg: &str, exists: bool) -> (r: Command)
    ensures
        r.view() == spec_classify(arg@, exists),
{
    let a = chars_of(arg);
    if is(&a, "update") {
        Command::Update
    } else if is(&a, "-v") || is(&a, "--version") {
        Command::Version
    } else if is(&a, "-h") || is(&a, "--help") {
        Command::Help
    } else if is_package_name(arg) || exists {
        Command::Install(owned(arg))
    } else {
        Command::Unknown(owned(arg))
    }
}

/// What the command line `args` (the program's name first) asks for.  Only
/// the first argument counts; whether a file exists at it is asked of the
/// file system where its name does not settle it.
pub fn parse_args(args: &Vec<String>) -> (r: Command)
    ensures
        args.len() <= 1 ==> r.view() == CommandView::Gui,
        args.len() > 1 ==> exists|e: bool| r.view() == spec_classify(args@[1]@, e),
        args.len() > 1 && names_package(args@[1]@) ==> r.view() == spec_classify(args@[1]@, false),
{
    if args.len() <= 1 {
        return Command::Gui;
    }
    let arg = args[1].as_str();
    let exists = if is_package_name(arg) {
        false
    } else {
        SystemExec::file_exists(arg)
    };
    classify_arg(arg, exists)
}

/// The lines printed for `--help`.
pub fn help_lines() -> (r: Vec<String>)
    ensures
        string_views(r@) == seq![
            "App Pro - Production-grade Linux System Utility"@,
            "\nUsage:"@,
            "  app-pro                    Launch the GTK4 GUI Dashboard"@,
            "  app-pro update             Check for updates and install them"@,
            "  app-pro <file.deb>         Pre-select a package file to install"@,
            "  app-pro -v, --version      Show App Pro version"@,
            "  app-pro -h, --help         Show help information"@,
        ],
{
    let mut r: Vec<String> = Vec::new();
    r.push(owned("App Pro - Production-grade Linux System Utility"));
    r.push(owned("\nUsage:"));
    r.push(owned("  app-pro                    Launch the GTK4 GUI Dashboard"));
    r.push(owned("  app-pro update             Check for updates and install them"));
    r.push(owned("  app-pro <file.deb>         Pre-select a package file to install"));
    r.push(owned("  app-pro -v, --version      Show App Pro version"));
    r.push(owned("  app-pro -h, --help         Show help information"));
    assert(string_views(r@) =~= seq![
        "App Pro - Production-grade Linux System Utility"@,
        "\nUsage:"@,
        "  app-pro                    Launch the GTK4 GUI Dashboard"@,
        "  app-pro update             Check for updates and install them"@,
        "  app-pro <file.deb>         Pre-select a package file to install"@,
        "  app-pro -v, --version      Show App Pro version"@,
        "  app-pro -h, --help         Show help information"@,
    ]);
    r
}

/// The line printed for `--version`.
pub fn version_line(version: &str) -> (r: String)
    ensures
        r@ == "App Pro Version: "@ + version@,
{
    let mut v = chars_of("App Pro Version: ");
    crate::text::push_str(&mut v, version);
    string_of(&v)
}

// ---------------------------------------------------------------------------
// The version this program reports

/// The version that `git describe` names (trimmed, without a leading `v`)
/// where it succeeded (`described` holds what it printed), else `fallback`.
pub open spec fn spec_version_from_describe(described: Option<Seq<char>>, fallback: Seq<char>) -> Seq<char> {
    match described {
        Some(out) => {
            let t = trim(out);
            if t.len() > 0 && t[0] == 'v' {
                t.skip(1)
            } else {
                t
            }
        },
        None => fallback,
    }
}

/// The version to report, from what a successful `git describe --tags
/// --always --dirty` printed (`None` where it did not succeed).
pub fn version_from_describe(described: Option<&str>, fallback: &str) -> (r: String)
    ensures
        r@ == spec_version_from_describe(
            match described {
                Some(s) => Some(s@),
                None => None,
            },
            fallback@,
        ),
{
    match described {
        Some(out) => {
            let t = trim_exec(&chars_of(out));
            if t.len() > 0 && t[0] == 'v' {
                string_of(&skip_vec(&t, 1))
            } else {
                string_of(&t)
            }
        },
        None => owned(fallback),
    }
}

// ---------------------------------------------------------------------------
// The program's own desktop entry and icon

/// The desktop entry that makes this program appear among the applications.
pub const SELF_DESKTOP_ENTRY: &'static str = "[Desktop Entry]
Name=App Pro
Comment=Linux system utility: install, manage, clean, monitor
Exec=/usr/local/bin/app-pro
Icon=app-pro
Terminal=false
Type=Application
Categories=Utility;System;GTK;
StartupNotify=true
StartupWMClass=app-pro
";

/// The program's icon, as SVG.
pub const SELF_ICON_SVG: &'static str = "<svg xmlns=\"http://www.w3.org/2000/svg\" viewBox=\"0 0 512 512\" width=\"512\" height=\"512\">
  <defs>
    <linearGradient id=\"bg\" x1=\"0%\" y1=\"0%\" x2=\"100%\" y2=\"100%\">
      <stop offset=\"0%\" stop-color=\"#2ecc71\"/>
      <stop offset=\"100%\" stop-color=\"#27ae60\"/>
    </linearGradient>
  </defs>
  <rect width=\"512\" height=\"512\" rx=\"96\" fill=\"url(#bg)\"/>
  <g transform=\"translate(96, 120)\">
    <rect x=\"0\" y=\"40\" width=\"320\" height=\"240\" rx=\"24\" fill=\"none\" stroke=\"white\" stroke-width=\"20\" opacity=\".9\"/>
    <rect x=\"40\" y=\"0\" width=\"240\" height=\"80\" rx=\"16\" fill=\"white\" opacity=\".2\"/>
    <line x1=\"160\" y1=\"80\" x2=\"160\" y2=\"280\" stroke=\"white\" stroke-width=\"12\" opacity=\".7\"/>
    <line x1=\"40\" y1=\"160\" x2=\"280\" y2=\"160\" stroke=\"white\" stroke-width=\"12\" opacity=\".7\"/>
  </g>
  <text x=\"256\" y=\"440\" font-family=\"system-ui,-apple-system,sans-serif\" font-size=\"96\" font-weight=\"800\" fill=\"white\" text-anchor=\"middle\" opacity=\".95\">AP</text>
</svg>";

/// Where the desktop entry and the icon go: for each, the system-wide path,
/// tried first, and the user's, under the data directory (`~/.local/share`
/// where there is none).
pub open spec fn spec_integration_paths(data: Option<Seq<char>>) -> Seq<(Seq<char>, Seq<char>)> {
    let base = match data {
        Some(d) => d,
        None => "~/.local/share"@,
    };
    seq![
        ("/usr/share/applications/app-pro.desktop"@, join(base, "applications/app-pro.desktop"@)),
        ("/usr/share/icons/hicolor/scalable/apps/app-pro.svg"@, join(base, "icons/hicolor/scalable/apps/app-pro.svg"@)),
    ]
}

pub open spec fn pair_views(v: Seq<(String, String)>) -> Seq<(Seq<char>, Seq<char>)> {
    v.map_values(|p: (String, String)| (p.0@, p.1@))
}

/// Where the desktop entry and the icon go, given the user's data directory.
pub fn integration_paths_in(data: Option<String>) -> (r: Vec<(String, String)>)
    ensures
        pair_views(r@) == spec_integration_paths(opt_view(data)),
{
    let base = match &data {
        Some(d) => chars_of(d.as_str()),
        None => chars_of("~/.local/share"),
    };
    let mut r: Vec<(String, String)> = Vec::new();
    r.push(
        (
            owned("/usr/share/applications/app-pro.desktop"),
            string_of(&join_exec(&base, &chars_of("applications/app-pro.desktop"))),
        ),
    );
    r.push(
        (
            owned("/usr/share/icons/hicolor/scalable/apps/app-pro.svg"),
            string_of(&join_exec(&base, &chars_of("icons/hicolor/scalable/apps/app-pro.svg"))),
        ),
    );
    assert(pair_views(r@) =~= spec_integration_paths(opt_view(data)));
    r
}

/// Where the desktop entry and the icon go; the user's data directory is
/// asked of the system.
pub fn integration_paths() -> (r: Vec<(String, String)>)
    ensures
        exists|d: Option<Seq<char>>| pair_views(r@) == spec_integration_paths(d),
{
    let data = data_dir();
    let ghost d = opt_view(data);
    let r = integration_paths_in(data);
    assert(pair_views(r@) == spec_integration_paths(d));
    r
}

} // verus!
