//! What the dashboard's pages decide and show: which page a tab opens, which
//! processes the search shows and which one a kill request names, which
//! cleaner a cache row runs, and how an installed application is listed.
use vstd::prelude::*;
use crate::cleaner::CleanupResult;
use crate::db::AppEntry;
use crate::manager::processes::{process_matches, spec_process_matches, ProcessInfo};
use crate::text::{
    chars_of, concat_vec, decimal_chars, decimal_string, eq_exec, parse_u32, parse_u32_exec, push_str, string_of,
};

verus! {

// ---------------------------------------------------------------------------
// Pages

/// The pages of the dashboard, in the order of their tabs.
pub enum Page {
    Install,
    InstalledApps,
    RunningProcesses,
    Cleaner,
    SystemInfo,
}

impl Page {
    /// The page the tab at `index` opens; a position past the last tab opens
    /// the install page.
    pub open spec fn spec_at_tab(index: usize) -> Page {
        if index == 1 {
            Page::InstalledApps
        } else if index == 2 {
            Page::RunningProcesses
        } else if index == 3 {
            Page::Cleaner
        } else if index == 4 {
            Page::SystemInfo
        } else {
            Page::Install
        }
    }

    /// The page the tab at `index` opens.
    pub fn at_tab(index: usize) -> (p: Page)
        ensures
            p == Page::spec_at_tab(index),
    {
        if index == 1 {
            Page::InstalledApps
        } else if index == 2 {
            Page::RunningProcesses
        } else if index == 3 {
            Page::Cleaner
        } else if index == 4 {
            Page::SystemInfo
        } else {
            Page::Install
        }
    }

    pub open spec fn spec_name(self) -> Seq<char> {
        match self {
            Page::Install => "install"@,
            Page::InstalledApps => "installed"@,
            Page::RunningProcesses => "processes"@,
            Page::Cleaner => "cleaner"@,
            Page::SystemInfo => "info"@,
        }
    }

    /// The name under which the page's view is kept.
    pub fn name(&self) -> (s: &'static str)
        ensures
            s@ == self.spec_name(),
    {
        match self {
            Page::Install => "install",
            Page::InstalledApps => "installed",
            Page::RunningProcesses => "processes",
            Page::Cleaner => "cleaner",
            Page::SystemInfo => "info",
        }
    }

    pub open spec fn spec_title(self) -> Seq<char> {
        match self {
            Page::Install => "Install"@,
            Page::InstalledApps => "Installed"@,
            Page::RunningProcesses => "Processes"@,
            Page::Cleaner => "Cleaner"@,
            Page::SystemInfo => "System Info"@,
        }
    }

    /// The label of the page's tab.
    pub fn title(&self) -> (s: &'static str)
        ensures
            s@ == self.spec_title(),
    {
        match self {
            Page::Install => "Install",
            Page::InstalledApps => "Installed",
            Page::RunningProcesses => "Processes",
            Page::Cleaner => "Cleaner",
            Page::SystemInfo => "System Info",
        }
    }
}

// ---------------------------------------------------------------------------
// The processes page

/// The processes that the search text `query` shows, in order.
pub fn filter_processes(procs: Vec<ProcessInfo>, query: &str) -> (r: Vec<ProcessInfo>)
    ensures
        r@ == procs@.filter(|p: ProcessInfo| spec_process_matches(query@, p.name@, p.pid, p.ports@)),
{
    let ghost orig = procs@;
    let ghost pred = |p: ProcessInfo| spec_process_matches(query@, p.name@, p.pid, p.ports@);
    let mut rest = procs;
    let mut out: Vec<ProcessInfo> = Vec::new();
    let ghost mut i: int = 0;
    assert(orig.skip(0) =~= orig);
    while rest.len() > 0
        invariant
            0 <= i <= orig.len(),
            rest@ == orig.skip(i),
            out@ == orig.take(i).filter(pred),
            pred == (|p: ProcessInfo| spec_process_matches(query@, p.name@, p.pid, p.ports@)),
        decreases rest@.len(),
    {
        let x = rest.remove(0);
        assert(x == orig[i]);
        let keep = process_matches(query, &x);
        if keep {
            out.push(x);
        }
        proof {
            assert(orig.take(i + 1).drop_last() =~= orig.take(i));
            assert(orig.take(i + 1).last() == x);
            assert(pred(x) == keep);
            assert(out@ == orig.take(i + 1).filter(pred)) by {
                reveal_with_fuel(Seq::<_>::filter, 1);
            }
            i = i + 1;
            assert(rest@ =~= orig.skip(i));
        }
    }
    assert(orig.take(i) =~= orig);
    out
}

/// The status line under the process list: how many are shown, repeated as
/// the filtered count while a search is on.
pub open spec fn spec_process_status(count: usize, searching: bool) -> Seq<char> {
    let n = decimal_string(count as nat);
    if searching {
        "Total processes: "@ + n + " (filtered: "@ + n + ")"@
    } else {
        "Total processes: "@ + n
    }
}

/// The status line under the process list.
pub fn process_status(count: usize, searching: bool) -> (r: String)
    ensures
        r@ == spec_process_status(count, searching),
{
    let n = decimal_chars(count as u64);
    let mut v = chars_of("Total processes: ");
    v = concat_vec(&v, &n);
    if searching {
        push_str(&mut v, " (filtered: ");
        v = concat_vec(&v, &n);
        push_str(&mut v, ")");
    }
    string_of(&v)
}

/// What pressing a kill button asks for.
pub enum KillRequest {
    /// No row is selected: the user is told to select one.
    NoSelection,
    /// The selected row names no process (it is the header): nothing happens.
    NotAProcess,
    /// The process with this id is to be ended.
    Process(u32),
}

/// What pressing a kill button asks for, given the text of the selected
/// row's id column (`None` where no row is selected).
pub fn kill_request(selected_id_text: Option<&str>) -> (r: KillRequest)
    ensures
        match selected_id_text {
            None => r is NoSelection,
            Some(t) => match parse_u32(t@) {
                Some(pid) => r == KillRequest::Process(pid),
                None => r is NotAProcess,
            },
        },
{
    match selected_id_text {
        None => KillRequest::NoSelection,
        Some(t) => match parse_u32_exec(&chars_of(t)) {
            Some(pid) => KillRequest::Process(pid),
            None => KillRequest::NotAProcess,
        },
    }
}

// ---------------------------------------------------------------------------
// The cleaner page

/// The caches that have a cleaner of their own.
pub enum CacheKind {
    UserCache,
    AptCache,
    Thumbnails,
}

pub open spec fn spec_cache_kind(label: Seq<char>) -> Option<CacheKind> {
    if label == "User Cache"@ {
        Some(CacheKind::UserCache)
    } else if label == "APT Cache"@ {
        Some(CacheKind::AptCache)
    } else if label == "Thumbnails"@ {
        Some(CacheKind::Thumbnails)
    } else {
        None
    }
}

/// The cleaner that the row labelled `label` runs, if it has one.
pub fn cache_kind(label: &str) -> (r: Option<CacheKind>)
    ensures
        r == spec_cache_kind(label@),
{
    let l = chars_of(label);
    if eq_exec(&l, &chars_of("User Cache")) {
        Some(CacheKind::UserCache)
    } else if eq_exec(&l, &chars_of("APT Cache")) {
        Some(CacheKind::AptCache)
    } else if eq_exec(&l, &chars_of("Thumbnails")) {
        Some(CacheKind::Thumbnails)
    } else {
        None
    }
}

/// The space that the cleanups `rs` freed together.
pub open spec fn sum_freed(rs: Seq<CleanupResult>) -> nat
    decreases rs.len(),
{
    if rs.len() == 0 {
        0
    } else {
        sum_freed(rs.drop_last()) + rs.last().bytes_freed as nat
    }
}

proof fn lemma_sum_freed_prefix(rs: Seq<CleanupResult>, i: int)
    requires
        0 <= i <= rs.len(),
    ensures
        sum_freed(rs.take(i)) <= sum_freed(rs),
    decreases rs.len() - i,
{
    if i < rs.len() {
        lemma_sum_freed_prefix(rs, i + 1);
        assert(rs.take(i + 1).drop_last() =~= rs.take(i));
    } else {
        assert(rs.take(i) =~= rs);
    }
}

/// The space that the cleanups `results` freed together.
pub fn total_freed(results: &Vec<CleanupResult>) -> (r: u64)
    requires
        sum_freed(results@) <= u64::MAX,
    ensures
        r == sum_freed(results@),
{
    let mut total: u64 = 0;
    let mut i: usize = 0;
    while i < results.len()
        invariant
            i <= results.len(),
            sum_freed(results@) <= u64::MAX,
            total == sum_freed(results@.take(i as int)),
        decreases results.len() - i,
    {
        assert(results@.take(i + 1).drop_last() =~= results@.take(i as int));
        proof {
            lemma_sum_freed_prefix(results@, i + 1);
        }
        total = total + results[i].bytes_freed;
        i = i + 1;
    }
    assert(results@.take(results.len() as int) =~= results@);
    total
}

// ---------------------------------------------------------------------------
// The installed applications page

pub open spec fn spec_install_type_icon(tag: Seq<char>) -> Seq<char> {
    if tag == "deb"@ || tag == "flatpak"@ {
        "📦"@
    } else if tag == "appimage"@ {
        "🖥️"@
    } else if tag == "zip"@ {
        "📁"@
    } else {
        "❓"@
    }
}

/// The icon shown beside an application installed as `tag`.
pub fn install_type_icon(tag: &str) -> (r: &'static str)
    ensures
        r@ == spec_install_type_icon(tag@),
{
    let t = chars_of(tag);
    if eq_exec(&t, &chars_of("deb")) || eq_exec(&t, &chars_of("flatpak")) {
        "📦"
    } else if eq_exec(&t, &chars_of("appimage")) {
        "🖥️"
    } else if eq_exec(&t, &chars_of("zip")) {
        "📁"
    } else {
        "❓"
    }
}

/// What `str::to_uppercase` gives for `s`.
pub uninterp spec fn spec_uppercase(s: Seq<char>) -> Seq<char>;

/// `s` in upper case.
///
/// Calls `str::to_uppercase`; the result is taken to depend on `s` alone, as
/// std's fixed Unicode tables make it.  Nothing else is claimed of it.
#[verifier::external_body]
fn uppercase(s: &str) -> (r: String)
    ensures
        r@ == spec_uppercase(s@),
{
    s.to_uppercase()
}

/// The line under an installed application's name: its kind in capitals, its
/// version (`v1.0` where none is known) and when it was installed.
pub open spec fn spec_app_meta(app: AppEntry) -> Seq<char> {
    let version = match app.version {
        Some(v) => v@,
        None => "v1.0"@,
    };
    spec_uppercase(app.install_type@) + "  |  "@ + version + "  |  "@ + app.installed_at@
}

/// The line under an installed application's name.
pub fn app_meta(app: &AppEntry) -> (r: String)
    ensures
        r@ == spec_app_meta(*app),
{
    let mut v = chars_of(uppercase(app.install_type.as_str()).as_str());
    push_str(&mut v, "  |  ");
    match &app.version {
        Some(ver) => push_str(&mut v, ver.as_str()),
        None => push_str(&mut v, "v1.0"),
    }
    push_str(&mut v, "  |  ");
    push_str(&mut v, app.installed_at.as_str());
    string_of(&v)
}

/// The status line under the list of installed applications: nothing where
/// there are none, else their number.
pub fn installed_status(count: usize) -> (r: String)
    ensures
        r@ == if count == 0 {
            Seq::<char>::empty()
        } else {
            "Total: "@ + decimal_string(count as nat) + " applications"@
        },
{
    if count == 0 {
        return String::new();
    }
    let mut v = chars_of("Total: ");
    v = concat_vec(&v, &decimal_chars(count as u64));
    push_str(&mut v, " applications");
    string_of(&v)
}

} // verus!
