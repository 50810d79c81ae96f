//! Recognising an installed application: its name as a package file gives it,
//! whether the package manager or a desktop entry knows it, and the commands
//! that start it.
use vstd::prelude::*;
use crate::installer::deb::{query_view, spec_deb_info, DebInstaller};
use crate::installer::appimage::{spec_extract_name, AppImageInstaller};
use crate::locations::{data_dir, spec_desktop_path};
use crate::paths::{
    extension, extension_exec, file_name, file_name_exec, file_stem, file_stem_exec, join,
    join_exec, path_extension,
};
use crate::system::ExecResult;
use crate::text::{
    chars_of, concat_vec, contains_exec, contains_seq, has_pair, lemma_pair_concat, lemma_pair_contains, lemma_remove_absent_pair, lemma_remove_percent_pair, lemma_trim_pairs, ends_with, ends_with_exec, eq_exec, find_char, find_char_exec, lines, lines_exec, lowercase, occurs_at_exec, opt_view, owned, replace_all, replace_all_exec, skip_vec, slice_vec, spec_lowercase, starts_with, starts_with_exec, string_of, string_views, trim, trim_exec, views, words, words_exec,
};

verus! {

// ---------------------------------------------------------------------------
// ASCII case-insensitive comparison

/// The code of `c`, with an ASCII capital letter taken to its small letter.
pub open spec fn ascii_fold(c: char) -> u32 {
    let n = c as u32;
    if 65 <= n && n <= 90 {
        (n + 32) as u32
    } else {
        n
    }
}

/// `str::eq_ignore_ascii_case`: equal once ASCII letters are put in one case.
pub open spec fn eq_ignore_ascii_case(a: Seq<char>, b: Seq<char>) -> bool {
    a.len() == b.len() && forall|i: int| 0 <= i < a.len() ==> #[trigger] ascii_fold(a[i]) == ascii_fold(b[i])
}

fn ascii_fold_exec(c: char) -> (r: u32)
    ensures
        r == ascii_fold(c),
{
    let n = c as u32;
    if 65 <= n && n <= 90 {
        n + 32
    } else {
        n
    }
}

/// Whether `a` and `b` are equal but for the case of ASCII letters.
pub fn eq_ignore_ascii_case_exec(a: &[char], b: &[char]) -> (r: bool)
    ensures
        r == eq_ignore_ascii_case(a@, b@),
{
    if a.len() != b.len() {
        return false;
    }
    let mut i: usize = 0;
    while i < a.len()
        invariant
            i <= a.len(),
            a.len() == b.len(),
            forall|j: int| 0 <= j < i ==> #[trigger] ascii_fold(a@[j]) == ascii_fold(b@[j]),
        decreases a.len() - i,
    {
        if ascii_fold_exec(a[i]) != ascii_fold_exec(b[i]) {
            return false;
        }
        i = i + 1;
    }
    true
}


// ---------------------------------------------------------------------------
// `key=value` lines of a desktop entry

/// `str::trim_start_matches` with a text pattern: `s` with every leading copy
/// of `p` removed.
pub open spec fn trim_start_matches(s: Seq<char>, p: Seq<char>) -> Seq<char>
    decreases s.len(),
{
    if p.len() > 0 && starts_with(s, p) {
        trim_start_matches(s.skip(p.len() as int), p)
    } else {
        s
    }
}

/// `v` with every leading copy of `p` removed.
pub fn trim_start_matches_exec(v: &[char], p: &[char]) -> (r: Vec<char>)
    ensures
        r@ == trim_start_matches(v@, p@),
{
    if p.len() == 0 {
        return slice_vec(v, 0, v.len());
    }
    let mut i: usize = 0;
    assert(v@.skip(0) =~= v@);
    loop
        invariant
            i <= v.len(),
            p.len() > 0,
            trim_start_matches(v@, p@) == trim_start_matches(v@.skip(i as int), p@),
        decreases v.len() - i,
    {
        let found = occurs_at_exec(v, p, i);
        assert(found == starts_with(v@.skip(i as int), p@)) by {
            if i + p@.len() <= v@.len() {
                assert(v@.skip(i as int).take(p@.len() as int) =~= v@.subrange(i as int, i + p@.len()));
            }
        }
        if !found {
            return skip_vec(v, i);
        }
        assert(v@.skip(i as int).skip(p@.len() as int) =~= v@.skip(i + p@.len()));
        i = i + p.len();
    }
}

/// The value that the line `l` gives to `key` (which ends in `=`): the
/// trimmed line without its leading copies of `key`, where it starts with one.
pub open spec fn line_value(l: Seq<char>, key: Seq<char>) -> Option<Seq<char>> {
    let t = trim(l);
    if starts_with(t, key) {
        Some(trim_start_matches(t, key))
    } else {
        None
    }
}

/// The value that the last line of `ls` giving `key` gives it.
pub open spec fn last_value(ls: Seq<Seq<char>>, key: Seq<char>) -> Option<Seq<char>>
    decreases ls.len(),
{
    if ls.len() == 0 {
        None
    } else {
        match line_value(ls.last(), key) {
            Some(v) => Some(v),
            None => last_value(ls.drop_last(), key),
        }
    }
}

/// The value of `key` in an entry's text, or nothing where it is not read or
/// has no such line.
pub open spec fn entry_value(content: Option<Seq<char>>, key: Seq<char>) -> Seq<char> {
    match content {
        Some(c) => match last_value(lines(c), key) {
            Some(v) => v,
            None => Seq::<char>::empty(),
        },
        None => Seq::<char>::empty(),
    }
}

/// The program that an `Exec=` command line starts: the text between its
/// quotes where it starts with `"` (the rest of the line where no quote
/// closes it), else its first word.
pub open spec fn exec_program(cmd: Seq<char>) -> Seq<char> {
    if cmd.len() > 0 && cmd[0] == '"' {
        match find_char(cmd.skip(1), '"') {
            Some(e) => cmd.subrange(1, e + 1),
            None => cmd,
        }
    } else {
        let ws = words(cmd);
        if ws.len() > 0 {
            ws[0]
        } else {
            Seq::<char>::empty()
        }
    }
}

/// The file name of the program an `Exec=` command line starts, or nothing.
pub open spec fn exec_name(cmd: Seq<char>) -> Seq<char> {
    match file_name(exec_program(cmd)) {
        Some(n) => n,
        None => Seq::<char>::empty(),
    }
}

/// The values of `Name=` and `Exec=` in the text of a desktop entry.
fn scan_entry(content: &str) -> (r: (Vec<char>, Vec<char>))
    ensures
        r.0@ == entry_value(Some(content@), "Name="@),
        r.1@ == entry_value(Some(content@), "Exec="@),
{
    let ls = lines_exec(&chars_of(content));
    let ghost lv = views(ls@);
    let name_key = chars_of("Name=");
    let exec_key = chars_of("Exec=");
    let mut name: Option<Vec<char>> = None;
    let mut exec: Option<Vec<char>> = None;
    let mut i: usize = 0;
    while i < ls.len()
        invariant
            i <= ls.len(),
            lv == views(ls@),
            lv == lines(content@),
            name_key@ == "Name="@,
            exec_key@ == "Exec="@,
            opt_vec_view(name) == last_value(lv.take(i as int), "Name="@),
            opt_vec_view(exec) == last_value(lv.take(i as int), "Exec="@),
        decreases ls.len() - i,
    {
        assert(lv.take(i + 1).drop_last() =~= lv.take(i as int));
        assert(lv.take(i + 1).last() == ls@[i as int]@);
        let t = trim_exec(&ls[i]);
        if starts_with_exec(&t, &name_key) {
            name = Some(trim_start_matches_exec(&t, &name_key));
        }
        if starts_with_exec(&t, &exec_key) {
            exec = Some(trim_start_matches_exec(&t, &exec_key));
        }
        i = i + 1;
    }
    assert(lv.take(ls.len() as int) =~= lv);
    let n = match name {
        Some(v) => v,
        None => Vec::new(),
    };
    let e = match exec {
        Some(v) => v,
        None => Vec::new(),
    };
    (n, e)
}

pub open spec fn opt_vec_view(o: Option<Vec<char>>) -> Option<Seq<char>> {
    match o {
        Some(v) => Some(v@),
        None => None,
    }
}

/// The program that the command line `cmd` starts.
fn exec_program_exec(cmd: &[char]) -> (r: Vec<char>)
    ensures
        r@ == exec_program(cmd@),
{
    if cmd.len() > 0 && cmd[0] == '"' {
        let rest = skip_vec(cmd, 1);
        proof {
            crate::text::lemma_find_char(rest@, '"');
        }
        match find_char_exec(&rest, '"') {
            Some(e) => slice_vec(cmd, 1, e + 1),
            None => slice_vec(cmd, 0, cmd.len()),
        }
    } else {
        let ws = words_exec(cmd);
        if ws.len() > 0 {
            assert(views(ws@)[0] == ws@[0]@);
            ws[0].clone()
        } else {
            Vec::new()
        }
    }
}

/// The file name of the program that the command line `cmd` starts.
fn exec_name_exec(cmd: &[char]) -> (r: Vec<char>)
    ensures
        r@ == exec_name(cmd@),
{
    match file_name_exec(&exec_program_exec(cmd)) {
        Some(n) => n,
        None => Vec::new(),
    }
}

// ---------------------------------------------------------------------------
// Finding an application's desktop entry

/// A file found in a directory of desktop entries: its path, and its text
/// where it could be read.
pub struct DesktopFile {
    pub path: String,
    pub content: Option<String>,
}

/// The path names a desktop entry: its extension is `desktop`.
pub open spec fn is_desktop_path(path: Seq<char>) -> bool {
    path_extension(path) == Some("desktop"@)
}

/// The stem of the file name of `path`, or nothing.
pub open spec fn path_stem(path: Seq<char>) -> Seq<char> {
    match file_name(path) {
        Some(n) => file_stem(n),
        None => Seq::<char>::empty(),
    }
}

/// The desktop entry at `path` with text `content` belongs to `app`: its
/// file stem is the name (or the name with the `app-pro-` prefix this
/// program gives its own entries), ignoring ASCII case; or else its `Name=`
/// is the name, or the program its `Exec=` starts is called by the name or
/// begins with it.
pub open spec fn entry_matches(path: Seq<char>, content: Option<Seq<char>>, app: Seq<char>) -> bool {
    let stem = path_stem(path);
    let program = exec_name(entry_value(content, "Exec="@));
    &&& is_desktop_path(path)
    &&& {
        ||| eq_ignore_ascii_case(stem, app)
        ||| eq_ignore_ascii_case(stem, "app-pro-"@ + app)
        ||| eq_ignore_ascii_case(entry_value(content, "Name="@), app)
        ||| eq_ignore_ascii_case(program, app)
        ||| starts_with(program, app)
    }
}

pub open spec fn file_matches(f: DesktopFile, app: Seq<char>) -> bool {
    entry_matches(f.path@, opt_view(f.content), app)
}

/// The positions in `fs` of the entries that belong to `app`, in order.
pub open spec fn matching(fs: Seq<DesktopFile>, app: Seq<char>) -> Seq<int>
    decreases fs.len(),
{
    if fs.len() == 0 {
        Seq::<int>::empty()
    } else {
        let r = matching(fs.drop_last(), app);
        if file_matches(fs.last(), app) {
            r.push(fs.len() - 1)
        } else {
            r
        }
    }
}

/// Whether the desktop entry `f` belongs to `app_name`.
pub fn desktop_file_matches(f: &DesktopFile, app_name: &str) -> (r: bool)
    ensures
        r == file_matches(*f, app_name@),
{
    let path = chars_of(f.path.as_str());
    let is_desktop = match file_name_exec(&path) {
        Some(n) => match extension_exec(&n) {
            Some(e) => eq_exec(&e, &chars_of("desktop")),
            None => false,
        },
        None => false,
    };
    if !is_desktop {
        return false;
    }
    let stem = match file_name_exec(&path) {
        Some(n) => file_stem_exec(&n),
        None => Vec::new(),
    };
    let app = chars_of(app_name);
    let prefixed = concat_vec(&chars_of("app-pro-"), &app);
    let (name, exec) = match &f.content {
        Some(c) => scan_entry(c.as_str()),
        None => (Vec::new(), Vec::new()),
    };
    let program = exec_name_exec(&exec);
    eq_ignore_ascii_case_exec(&stem, &app) || eq_ignore_ascii_case_exec(&stem, &prefixed)
        || eq_ignore_ascii_case_exec(&name, &app) || eq_ignore_ascii_case_exec(&program, &app)
        || starts_with_exec(&program, &app)
}

/// The positions in `files` of the desktop entries that belong to
/// `app_name`, in the order the files come.
pub fn matching_entries(files: &Vec<DesktopFile>, app_name: &str) -> (r: Vec<usize>)
    ensures
        r@.map_values(|i: usize| i as int) == matching(files@, app_name@),
{
    let mut r: Vec<usize> = Vec::new();
    let mut i: usize = 0;
    while i < files.len()
        invariant
            i <= files.len(),
            r@.map_values(|k: usize| k as int) == matching(files@.take(i as int), app_name@),
        decreases files.len() - i,
    {
        assert(files@.take(i + 1).drop_last() =~= files@.take(i as int));
        assert(files@.take(i + 1).last() == files@[i as int]);
        if desktop_file_matches(&files[i], app_name) {
            let ghost before = r@;
            r.push(i);
            assert(r@.map_values(|k: usize| k as int) =~= before.map_values(|k: usize| k as int).push(i as int));
        }
        i = i + 1;
    }
    assert(files@.take(files.len() as int) =~= files@);
    r
}

// ---------------------------------------------------------------------------
// Whether an application is installed

/// The extension of the file at `path`, or nothing.
pub open spec fn extension_or_empty(path: Seq<char>) -> Seq<char> {
    match path_extension(path) {
        Some(e) => e,
        None => Seq::<char>::empty(),
    }
}

/// The file at `path` is a Debian package: its extension, in lower case, is
/// `deb`.
pub open spec fn spec_is_deb_package(path: Seq<char>) -> bool {
    spec_lowercase(extension_or_empty(path)) == "deb"@
}

/// The lower-case extension of the file at `path`.
fn lower_extension(path: &str) -> (r: Vec<char>)
    ensures
        r@ == spec_lowercase(extension_or_empty(path@)),
{
    let p = chars_of(path);
    let e = match file_name_exec(&p) {
        Some(n) => match extension_exec(&n) {
            Some(e) => e,
            None => Vec::new(),
        },
        None => Vec::new(),
    };
    let s = string_of(&e);
    chars_of(lowercase(s.as_str()).as_str())
}

/// Whether the file at `path` is a Debian package, so that the package
/// manager is asked about it.
pub fn is_deb_package(path: &str) -> (r: bool)
    ensures
        r == spec_is_deb_package(path@),
{
    eq_exec(&lower_extension(path), &chars_of("deb"))
}

/// The arguments of `dpkg-query` that print the state of the package `name`.
pub fn dpkg_query_args(name: &str) -> (r: Vec<String>)
    ensures
        string_views(r@) == seq!["-W"@, "-f=${Status}"@, name@],
{
    let mut r: Vec<String> = Vec::new();
    r.push(owned("-W"));
    r.push(owned("-f=${Status}"));
    r.push(owned(name));
    assert(string_views(r@) =~= seq!["-W"@, "-f=${Status}"@, name@]);
    r
}

/// What `dpkg-query` printed says the package is installed.
pub open spec fn spec_dpkg_says_installed(status: Option<Seq<char>>) -> bool {
    match status {
        Some(s) => contains_seq(s, "install ok installed"@),
        None => false,
    }
}

pub open spec fn opt_str(o: Option<&str>) -> Option<Seq<char>> {
    match o {
        Some(s) => Some(s@),
        None => None,
    }
}

/// Whether the application `app_name`, whose package file is `file_path`, is
/// installed: for a Debian package, what `dpkg-query` printed about it
/// (`dpkg_status`, `None` where it did not run) says so; or one of the
/// desktop entries found (`files`) belongs to it.
pub fn is_app_installed(app_name: &str, file_path: &str, dpkg_status: Option<&str>, files: &Vec<DesktopFile>) -> (r: bool)
    ensures
        r == ((spec_is_deb_package(file_path@) && spec_dpkg_says_installed(opt_str(dpkg_status)))
            || matching(files@, app_name@).len() > 0),
{
    if is_deb_package(file_path) {
        match dpkg_status {
            Some(s) => {
                if contains_exec(&chars_of(s), &chars_of("install ok installed")) {
                    return true;
                }
            },
            None => {},
        }
    }
    let m = matching_entries(files, app_name);
    assert(m@.map_values(|i: usize| i as int).len() == m@.len());
    m.len() > 0
}

// ---------------------------------------------------------------------------
// Starting an application

/// A command to run: the program and its arguments.
pub struct LaunchCommand {
    pub program: String,
    pub args: Vec<String>,
}

pub open spec fn command_view(c: LaunchCommand) -> (Seq<char>, Seq<Seq<char>>) {
    (c.program@, string_views(c.args@))
}

/// The `Exec=` command line without the field codes of the desktop entry
/// specification (`%U %u %F %f %i %c %k`), removed in that order.
pub open spec fn without_field_codes(cmd: Seq<char>) -> Seq<char> {
    let a = replace_all(cmd, "%U"@, ""@);
    let b = replace_all(a, "%u"@, ""@);
    let c = replace_all(b, "%F"@, ""@);
    let d = replace_all(c, "%f"@, ""@);
    let e = replace_all(d, "%i"@, ""@);
    let f = replace_all(e, "%c"@, ""@);
    replace_all(f, "%k"@, ""@)
}

/// The shell line that starts `cmd` in the background, detached from this
/// program.
pub open spec fn background_line(cmd: Seq<char>) -> Seq<char> {
    "nohup "@ + trim(without_field_codes(cmd)) + " >/dev/null 2>&1 &"@
}

/// The commands that start the application of the desktop entry at `path`,
/// to be tried in order until one starts: its `Exec=` line through the shell
/// (where it has one), then `gtk-launch` with the entry's stem, then
/// `xdg-open` on the entry.
pub open spec fn spec_launch_commands(path: Seq<char>, content: Option<Seq<char>>) -> Seq<(Seq<char>, Seq<Seq<char>>)> {
    let cmd = entry_value(content, "Exec="@);
    let fallbacks = seq![
        ("gtk-launch"@, seq![path_stem(path)]),
        ("xdg-open"@, seq![path]),
    ];
    if cmd.len() > 0 {
        seq![("sh"@, seq!["-c"@, background_line(cmd)])] + fallbacks
    } else {
        fallbacks
    }
}

fn strip_code(v: &[char], code: &str) -> (r: Vec<char>)
    requires
        code@.len() > 0,
    ensures
        r@ == replace_all(v@, code@, ""@),
{
    proof {
        reveal_strlit("");
    }
    let empty: Vec<char> = Vec::new();
    assert(empty@ == ""@);
    replace_all_exec(v, &chars_of(code), &empty)
}

fn command(program: &str, args: Vec<String>) -> (r: LaunchCommand)
    ensures
        r.program@ == program@,
        r.args@ == args@,
{
    LaunchCommand { program: owned(program), args }
}

/// The commands that start the application of the desktop entry `f`, in the
/// order they are tried.
pub fn launch_commands(f: &DesktopFile) -> (r: Vec<LaunchCommand>)
    ensures
        r@.map_values(|c: LaunchCommand| command_view(c)) == spec_launch_commands(f.path@, opt_view(f.content)),
{
    proof {
        reveal_strlit("%U");
        reveal_strlit("%u");
        reveal_strlit("%F");
        reveal_strlit("%f");
        reveal_strlit("%i");
        reveal_strlit("%c");
        reveal_strlit("%k");
    }
    let path = chars_of(f.path.as_str());
    let stem = match file_name_exec(&path) {
        Some(n) => file_stem_exec(&n),
        None => Vec::new(),
    };
    let exec = match &f.content {
        Some(c) => scan_entry(c.as_str()).1,
        None => Vec::new(),
    };
    let mut r: Vec<LaunchCommand> = Vec::new();
    if exec.len() > 0 {
        let a = strip_code(&exec, "%U");
        let b = strip_code(&a, "%u");
        let c = strip_code(&b, "%F");
        let d = strip_code(&c, "%f");
        let e = strip_code(&d, "%i");
        let g = strip_code(&e, "%c");
        let h = strip_code(&g, "%k");
        assert(h@ == without_field_codes(exec@));
        let cleaned = trim_exec(&h);
        let line = concat_vec(&chars_of("nohup "), &cleaned);
        let line = concat_vec(&line, &chars_of(" >/dev/null 2>&1 &"));
        assert(line@ == background_line(exec@));
        let mut args: Vec<String> = Vec::new();
        args.push(owned("-c"));
        args.push(string_of(&line));
        assert(string_views(args@) =~= seq!["-c"@, background_line(exec@)]);
        r.push(command("sh", args));
    }
    let mut a1: Vec<String> = Vec::new();
    a1.push(string_of(&stem));
    r.push(command("gtk-launch", a1));
    let mut a2: Vec<String> = Vec::new();
    a2.push(owned(f.path.as_str()));
    r.push(command("xdg-open", a2));
    assert(string_views(a1@) =~= seq![path_stem(f.path@)]);
    assert(string_views(a2@) =~= seq![f.path@]);
    assert(r@.map_values(|c: LaunchCommand| command_view(c)) =~= spec_launch_commands(f.path@, opt_view(f.content)));
    r
}

// ---------------------------------------------------------------------------
// Where desktop entries are looked for

/// The directories searched for desktop entries, in order: the system's,
/// then `applications` under the user's data directory (nothing where there
/// is none), then `.local/share/applications` under `HOME` (relative where
/// `HOME` is not set).
pub open spec fn spec_application_dirs(data: Option<Seq<char>>, home: Option<Seq<char>>) -> Seq<Seq<char>> {
    let user_data = match data {
        Some(d) => join(d, "applications"@),
        None => Seq::<char>::empty(),
    };
    let home_dir = match home {
        Some(h) => h,
        None => Seq::<char>::empty(),
    };
    seq!["/usr/share/applications"@, user_data, join(home_dir, ".local/share/applications"@)]
}

/// The directories searched for desktop entries, given the user's data
/// directory and `HOME`.
pub fn application_dirs_in(data: Option<String>, home: Option<String>) -> (r: Vec<String>)
    ensures
        string_views(r@) == spec_application_dirs(opt_view(data), opt_view(home)),
{
    let user_data = match &data {
        Some(d) => string_of(&join_exec(&chars_of(d.as_str()), &chars_of("applications"))),
        None => String::new(),
    };
    let home_dir = match &home {
        Some(h) => chars_of(h.as_str()),
        None => Vec::new(),
    };
    let local = string_of(&join_exec(&home_dir, &chars_of(".local/share/applications")));
    let mut r: Vec<String> = Vec::new();
    r.push(owned("/usr/share/applications"));
    r.push(user_data);
    r.push(local);
    assert(string_views(r@) =~= spec_application_dirs(opt_view(data), opt_view(home)));
    r
}

/// The directories searched for desktop entries, given `HOME`; the user's
/// data directory is asked of the system.
pub fn application_dirs(home: Option<String>) -> (r: Vec<String>)
    ensures
        exists|d: Option<Seq<char>>| string_views(r@) == spec_application_dirs(d, opt_view(home)),
{
    let data = data_dir();
    let r = application_dirs_in(data, home);
    assert(string_views(r@) == spec_application_dirs(opt_view(data), opt_view(home)));
    r
}

// ---------------------------------------------------------------------------
// The name a package file stands for

/// The file name of `path`, or `unknown`.
pub open spec fn name_or_unknown(path: Seq<char>) -> Seq<char> {
    match file_name(path) {
        Some(n) => n,
        None => "unknown"@,
    }
}

/// The application name the package file at `path` stands for: for a Debian
/// package the package name (`query` is what `dpkg-deb` gave); for an
/// AppImage the cleaned file name; for a zip archive the file name without
/// `.zip`; otherwise the file's stem.  Extensions are compared in lower case.
pub open spec fn spec_app_name_from_path(path: Seq<char>, query: Option<(bool, Seq<char>)>) -> Seq<char> {
    let ext = spec_lowercase(extension_or_empty(path));
    if ext == "deb"@ {
        spec_deb_info(path, query).0
    } else if ext == "appimage"@ {
        spec_extract_name(name_or_unknown(path))
    } else if ext == "zip"@ {
        let n = name_or_unknown(path);
        if ends_with(n, ".zip"@) {
            n.take(n.len() - 4)
        } else {
            n
        }
    } else {
        match file_name(path) {
            Some(n) => file_stem(n),
            None => "unknown"@,
        }
    }
}

/// The application name the package file at `path` stands for, given what
/// `dpkg-deb` printed about it (`None` where it was not run).
pub fn get_app_name_from_path(path: &str, deb_query: Option<ExecResult>) -> (r: String)
    ensures
        r@ == spec_app_name_from_path(path@, query_view(deb_query)),
{
    proof {
        reveal_strlit(".zip");
    }
    let ext = lower_extension(path);
    let p = chars_of(path);
    if eq_exec(&ext, &chars_of("deb")) {
        return DebInstaller::get_deb_info(path, deb_query).0;
    }
    let name = match file_name_exec(&p) {
        Some(n) => n,
        None => chars_of("unknown"),
    };
    if eq_exec(&ext, &chars_of("appimage")) {
        AppImageInstaller::extract_name(string_of(&name).as_str())
    } else if eq_exec(&ext, &chars_of("zip")) {
        if ends_with_exec(&name, &chars_of(".zip")) {
            string_of(&slice_vec(&name, 0, name.len() - 4))
        } else {
            string_of(&name)
        }
    } else {
        match file_name_exec(&p) {
            Some(n) => string_of(&file_stem_exec(&n)),
            None => owned("unknown"),
        }
    }
}

// ---------------------------------------------------------------------------
// Choosing a package file to install

pub open spec fn spec_file_icon(path: Seq<char>) -> Seq<char> {
    let ext = spec_lowercase(extension_or_empty(path));
    if ext == "deb"@ {
        "📦"@
    } else if ext == "appimage"@ {
        "⚡"@
    } else if ext == "zip"@ {
        "🗜️"@
    } else {
        "📄"@
    }
}

/// The icon shown for the package file at `path`, by its lower-case
/// extension.
pub fn file_icon(path: &str) -> (r: &'static str)
    ensures
        r@ == spec_file_icon(path@),
{
    let ext = lower_extension(path);
    if eq_exec(&ext, &chars_of("deb")) {
        "📦"
    } else if eq_exec(&ext, &chars_of("appimage")) {
        "⚡"
    } else if eq_exec(&ext, &chars_of("zip")) {
        "🗜️"
    } else {
        "📄"
    }
}

/// The name is this program's own (`app-pro`, `app_pro` or `apppro`, in any
/// ASCII case): it cannot install itself while it runs.
pub open spec fn spec_is_self_name(name: Seq<char>) -> bool {
    eq_ignore_ascii_case(name, "app-pro"@) || eq_ignore_ascii_case(name, "app_pro"@)
        || eq_ignore_ascii_case(name, "apppro"@)
}

/// Whether `name` is this program's own.
pub fn is_self_name(name: &str) -> (r: bool)
    ensures
        r == spec_is_self_name(name@),
{
    let n = chars_of(name);
    eq_ignore_ascii_case_exec(&n, &chars_of("app-pro")) || eq_ignore_ascii_case_exec(&n, &chars_of("app_pro"))
        || eq_ignore_ascii_case_exec(&n, &chars_of("apppro"))
}

/// How the install page offers a chosen package file.
pub struct FileOffer {
    pub install_enabled: bool,
    pub install_label: String,
    pub show_open: bool,
    pub status: String,
}

/// How the install page offers the package of application `app_name`:
/// refused where it is this program itself, offered again where it is
/// already installed (`installed`), else offered for installation.
pub open spec fn spec_file_offer(app_name: Seq<char>, installed: bool) -> (bool, Seq<char>, bool, Seq<char>) {
    if spec_is_self_name(app_name) {
        (false, "Install"@, false, "App Pro is already running and cannot install itself."@)
    } else if installed {
        (true, "Reinstall"@, true, "Application is already installed."@)
    } else {
        (true, "Install"@, false, Seq::<char>::empty())
    }
}

/// How the install page offers the package of application `app_name`,
/// given whether it is installed already (which is only asked where the
/// name is not this program's).
pub fn file_offer(app_name: &str, installed: bool) -> (r: FileOffer)
    ensures
        (r.install_enabled, r.install_label@, r.show_open, r.status@) == spec_file_offer(app_name@, installed),
{
    if is_self_name(app_name) {
        FileOffer {
            install_enabled: false,
            install_label: owned("Install"),
            show_open: false,
            status: owned("App Pro is already running and cannot install itself."),
        }
    } else if installed {
        FileOffer {
            install_enabled: true,
            install_label: owned("Reinstall"),
            show_open: true,
            status: owned("Application is already installed."),
        }
    } else {
        FileOffer {
            install_enabled: true,
            install_label: owned("Install"),
            show_open: false,
            status: String::new(),
        }
    }
}

/// What the install page says after the Open button: that no application is
/// known (the name is empty, and nothing was started), or whether starting
/// it worked.
pub fn launch_message(app_name: &str, launched: bool) -> (r: String)
    ensures
        r@ == if app_name@.len() == 0 {
            "App name not found."@
        } else if launched {
            "Launched "@ + app_name@
        } else {
            "Could not launch "@ + app_name@
        },
{
    if app_name.unicode_len() == 0 {
        return owned("App name not found.");
    }
    let mut v = if launched {
        chars_of("Launched ")
    } else {
        chars_of("Could not launch ")
    };
    crate::text::push_str(&mut v, app_name);
    string_of(&v)
}

// ---------------------------------------------------------------------------
// What this tool installs, it finds again

/// The desktop entry that this tool writes for an application it installs
/// (at `spec_desktop_path`) belongs to that application, whatever the
/// entry's text and the home directory: the lookup of installed
/// applications finds it.  The name must not hold a `/`, which would put the
/// entry in another directory.
pub proof fn lemma_own_entry_belongs(home: Option<Seq<char>>, name: Seq<char>, content: Option<Seq<char>>)
    requires
        forall|i: int| 0 <= i < name.len() ==> name[i] != '/',
    ensures
        entry_matches(spec_desktop_path(home, name), content, name),
{
    reveal_strlit("app-pro-");
    reveal_strlit(".desktop");
    reveal_strlit("desktop");
    let stem = "app-pro-"@ + name;
    let f = "app-pro-"@ + name + ".desktop"@;
    assert(f =~= stem + seq!['.'] + "desktop"@);
    assert forall|i: int| 0 <= i < f.len() implies f[i] != '/' by {
        if i >= 8 && i < 8 + name.len() {
            assert(f[i] == name[i - 8]);
        }
    }
    assert(f.len() > 2);
    let dir = join(join(join(crate::locations::or_tmp(home), ".local"@), "share"@), "applications"@);
    crate::paths::lemma_file_name_of_join(dir, f);
    crate::paths::lemma_stem_and_extension(stem, "desktop"@);
    assert(path_stem(spec_desktop_path(home, name)) == stem);
    assert(eq_ignore_ascii_case(stem, "app-pro-"@ + name));
}


// ---------------------------------------------------------------------------
// Field codes never reach the shell

/// The letters of the field codes of the desktop entry specification that a
/// launch removes (`%U %u %F %f %i %c %k`).
pub open spec fn is_code_letter(y: char) -> bool {
    y == 'U' || y == 'u' || y == 'F' || y == 'f' || y == 'i' || y == 'c' || y == 'k'
}

proof fn lemma_no_percent(lit: Seq<char>)
    requires
        forall|i: int| 0 <= i < lit.len() ==> lit[i] != '%',
    ensures
        forall|y: char| !has_pair(lit, '%', y),
{
    assert forall|y: char| !has_pair(lit, '%', y) by {
        if has_pair(lit, '%', y) {
            let i = choose|i: int| 0 <= i && i + 1 < lit.len() && #[trigger] lit[i] == '%' && lit[i + 1] == y;
            assert(lit[i] != '%');
        }
    }
}

proof fn lemma_code_literals()
    ensures
        "%U"@ == seq!['%', 'U'],
        "%u"@ == seq!['%', 'u'],
        "%F"@ == seq!['%', 'F'],
        "%f"@ == seq!['%', 'f'],
        "%i"@ == seq!['%', 'i'],
        "%c"@ == seq!['%', 'c'],
        "%k"@ == seq!['%', 'k'],
        ""@ == Seq::<char>::empty(),
{
    reveal_strlit("%U");
    reveal_strlit("%u");
    reveal_strlit("%F");
    reveal_strlit("%f");
    reveal_strlit("%i");
    reveal_strlit("%c");
    reveal_strlit("%k");
    reveal_strlit("");
    assert("%U"@ =~= seq!['%', 'U']);
    assert("%u"@ =~= seq!['%', 'u']);
    assert("%F"@ =~= seq!['%', 'F']);
    assert("%f"@ =~= seq!['%', 'f']);
    assert("%i"@ =~= seq!['%', 'i']);
    assert("%c"@ =~= seq!['%', 'c']);
    assert("%k"@ =~= seq!['%', 'k']);
    assert(""@ =~= Seq::<char>::empty());
}

proof fn lemma_background_pairs(cmd: Seq<char>, y: char)
    requires
        y != ' ',
        has_pair(background_line(cmd), '%', y),
    ensures
        has_pair(without_field_codes(cmd), '%', y),
{
    reveal_strlit("nohup ");
    reveal_strlit(" >/dev/null 2>&1 &");
    let pre = "nohup "@;
    let post = " >/dev/null 2>&1 &"@;
    assert(pre =~= seq!['n', 'o', 'h', 'u', 'p', ' ']);
    assert(post =~= seq![' ', '>', '/', 'd', 'e', 'v', '/', 'n', 'u', 'l', 'l', ' ', '2', '>', '&', '1', ' ', '&']);
    lemma_no_percent(pre);
    lemma_no_percent(post);
    let w = trim(without_field_codes(cmd));
    lemma_pair_concat(pre + w, post, '%', y);
    if has_pair(pre + w, '%', y) {
        lemma_pair_concat(pre, w, '%', y);
        lemma_trim_pairs(without_field_codes(cmd), '%', y);
    }
}

/// Whenever an entry's command line holds no `%%` (the escape of a literal
/// `%`), the shell line that launches it holds none of the field codes
/// `%U %u %F %f %i %c %k`: they are never handed to the program as file
/// names.  (With `%%`, removing one code can bring another together, as in
/// `%%FU`.)
pub proof fn lemma_launch_line_has_no_field_codes(path: Seq<char>, content: Option<Seq<char>>, y: char)
    requires
        entry_value(content, "Exec="@).len() > 0,
        !contains_seq(entry_value(content, "Exec="@), "%%"@),
        is_code_letter(y),
    ensures
        spec_launch_commands(path, content).len() == 3,
        spec_launch_commands(path, content)[0].0 == "sh"@,
        spec_launch_commands(path, content)[0].1.len() == 2,
        !contains_seq(spec_launch_commands(path, content)[0].1[1], seq!['%', y]),
{
    let cmd = entry_value(content, "Exec="@);
    reveal_strlit("%%");
    assert("%%"@ =~= seq!['%', '%']);
    lemma_pair_contains(cmd, '%', '%');
    lemma_code_literals();
    let a = replace_all(cmd, "%U"@, ""@);
    let b = replace_all(a, "%u"@, ""@);
    let c = replace_all(b, "%F"@, ""@);
    let d = replace_all(c, "%f"@, ""@);
    let e = replace_all(d, "%i"@, ""@);
    let f = replace_all(e, "%c"@, ""@);
    let g = replace_all(f, "%k"@, ""@);
    assert(g == without_field_codes(cmd));
    lemma_remove_percent_pair(cmd, 'U', '%');
    lemma_remove_percent_pair(cmd, 'U', y);
    lemma_remove_percent_pair(a, 'u', '%');
    lemma_remove_percent_pair(a, 'u', y);
    lemma_remove_percent_pair(b, 'F', '%');
    lemma_remove_percent_pair(b, 'F', y);
    lemma_remove_percent_pair(c, 'f', '%');
    lemma_remove_percent_pair(c, 'f', y);
    lemma_remove_percent_pair(d, 'i', '%');
    lemma_remove_percent_pair(d, 'i', y);
    lemma_remove_percent_pair(e, 'c', '%');
    lemma_remove_percent_pair(e, 'c', y);
    lemma_remove_percent_pair(f, 'k', '%');
    lemma_remove_percent_pair(f, 'k', y);
    assert(!has_pair(g, '%', y));
    let line = spec_launch_commands(path, content)[0].1[1];
    assert(line == background_line(cmd));
    if has_pair(line, '%', y) {
        lemma_background_pairs(cmd, y);
    }
    lemma_pair_contains(line, '%', y);
}

/// A command line with no field code is launched as it stands, only
/// trimmed: `sh -c "nohup <command> >/dev/null 2>&1 &"`.
pub proof fn lemma_launch_line_keeps_plain_commands(path: Seq<char>, content: Option<Seq<char>>)
    requires
        entry_value(content, "Exec="@).len() > 0,
        forall|y: char| is_code_letter(y) ==> !contains_seq(entry_value(content, "Exec="@), seq!['%', y]),
    ensures
        spec_launch_commands(path, content)[0] == ("sh"@, seq![
            "-c"@,
            "nohup "@ + trim(entry_value(content, "Exec="@)) + " >/dev/null 2>&1 &"@,
        ]),
{
    let cmd = entry_value(content, "Exec="@);
    lemma_code_literals();
    assert forall|y: char| is_code_letter(y) implies !has_pair(cmd, '%', y) by {
        lemma_pair_contains(cmd, '%', y);
    }
    assert(is_code_letter('U') && is_code_letter('u') && is_code_letter('F') && is_code_letter('f'));
    assert(is_code_letter('i') && is_code_letter('c') && is_code_letter('k'));
    lemma_remove_absent_pair(cmd, 'U');
    lemma_remove_absent_pair(cmd, 'u');
    lemma_remove_absent_pair(cmd, 'F');
    lemma_remove_absent_pair(cmd, 'f');
    lemma_remove_absent_pair(cmd, 'i');
    lemma_remove_absent_pair(cmd, 'c');
    lemma_remove_absent_pair(cmd, 'k');
    assert(without_field_codes(cmd) == cmd);
}

} // verus!
