//! Reading desktop entries (`.desktop` files) and listing the applications
//! they describe.
use vstd::prelude::*;
use crate::paths::{extension_exec, file_name_exec, path_extension};
use crate::text::{
    lemma_seq_lt_irreflexive, lemma_seq_lt_total, lemma_seq_lt_transitive, lowercase, seq_lt, seq_lt_exec, spec_lowercase, chars_of, eq_exec, lines, lines_exec, list_contains, opt_string_of, opt_view, starts_with, starts_with_exec, skip_vec, string_of, string_views, trim, trim_exec, views,
};

verus! {

/// Where a listed application comes from.
#[derive(Debug, Clone, Copy, PartialEq, Eq, Structural)]
pub enum AppOrigin {
    System,
    User,
    AppPro,
}

impl AppOrigin {
    pub open spec fn spec_label(self) -> Seq<char> {
        match self {
            AppOrigin::System => "System"@,
            AppOrigin::User => "User"@,
            AppOrigin::AppPro => "App Pro"@,
        }
    }

    /// The label shown for this origin.
    pub fn as_str(&self) -> (s: &'static str)
        ensures
            s@ == self.spec_label(),
    {
        match self {
            AppOrigin::System => "System",
            AppOrigin::User => "User",
            AppOrigin::AppPro => "App Pro",
        }
    }
}

/// An application as a desktop entry describes it.
pub struct DesktopAppInfo {
    pub name: String,
    pub exec_cmd: String,
    pub icon: Option<String>,
    pub comment: Option<String>,
    pub categories: Option<String>,
    pub desktop_path: String,
    pub is_app_pro: bool,
    pub origin: AppOrigin,
}

/// The content of a `DesktopAppInfo`, as character sequences.
pub struct DesktopAppView {
    pub name: Seq<char>,
    pub exec_cmd: Seq<char>,
    pub icon: Option<Seq<char>>,
    pub comment: Option<Seq<char>>,
    pub categories: Option<Seq<char>>,
    pub desktop_path: Seq<char>,
    pub is_app_pro: bool,
    pub origin: AppOrigin,
}

impl View for DesktopAppInfo {
    type V = DesktopAppView;

    open spec fn view(&self) -> DesktopAppView {
        DesktopAppView {
            name: self.name@,
            exec_cmd: self.exec_cmd@,
            icon: opt_view(self.icon),
            comment: opt_view(self.comment),
            categories: opt_view(self.categories),
            desktop_path: self.desktop_path@,
            is_app_pro: self.is_app_pro,
            origin: self.origin,
        }
    }
}

/// The lines of a desktop entry, each trimmed of surrounding whitespace.
pub open spec fn entry_lines(content: Seq<char>) -> Seq<Seq<char>> {
    lines(content).map_values(|l: Seq<char>| trim(l))
}

/// The value that the last line beginning with `key` gives it (the rest of
/// that line); later lines override earlier ones.
pub open spec fn key_value(ls: Seq<Seq<char>>, key: Seq<char>) -> Option<Seq<char>>
    decreases ls.len(),
{
    if ls.len() == 0 {
        None
    } else if starts_with(ls.last(), key) {
        Some(ls.last().skip(key.len() as int))
    } else {
        key_value(ls.drop_last(), key)
    }
}

/// A boolean key is set when its value, trimmed, is `true`.
pub open spec fn key_flag(ls: Seq<Seq<char>>, key: Seq<char>) -> bool {
    match key_value(ls, key) {
        Some(v) => trim(v) == "true"@,
        None => false,
    }
}

/// What a desktop entry at `path` with text `content` describes, given the
/// names and desktop-file paths of the applications this tool installed.
///
/// Only files with the `desktop` extension count; an entry needs a `Name`,
/// and one marked `NoDisplay=true` is hidden.  An entry belongs to this tool
/// when it says so (`X-AppPro-Managed=true`), or when its name or its path is
/// among those given.
pub open spec fn spec_desktop_entry(
    path: Seq<char>,
    content: Seq<char>,
    pro_names: Seq<Seq<char>>,
    pro_paths: Seq<Seq<char>>,
) -> Option<DesktopAppView> {
    let ls = entry_lines(content);
    if path_extension(path) != Some("desktop"@) {
        None
    } else if key_value(ls, "Name="@) is None {
        None
    } else if key_flag(ls, "NoDisplay="@) {
        None
    } else {
        let name = key_value(ls, "Name="@)->Some_0;
        let is_app_pro = key_flag(ls, "X-AppPro-Managed="@) || pro_names.contains(name)
            || pro_paths.contains(path);
        Some(
            DesktopAppView {
                name,
                exec_cmd: match key_value(ls, "Exec="@) {
                    Some(e) => e,
                    None => Seq::<char>::empty(),
                },
                icon: key_value(ls, "Icon="@),
                comment: key_value(ls, "Comment="@),
                categories: key_value(ls, "Categories="@),
                desktop_path: path,
                is_app_pro,
                origin: if is_app_pro {
                    AppOrigin::AppPro
                } else {
                    AppOrigin::System
                },
            },
        )
    }
}

/// The value the last line beginning with `key` gives it.
pub fn key_value_exec(ls: &Vec<Vec<char>>, key: &[char]) -> (r: Option<Vec<char>>)
    ensures
        match r {
            Some(v) => key_value(views(ls@), key@) == Some(v@),
            None => key_value(views(ls@), key@) is None,
        },
{
    let ghost lv = views(ls@);
    let mut found: Option<Vec<char>> = None;
    let mut i: usize = 0;
    while i < ls.len()
        invariant
            i <= ls.len(),
            lv == views(ls@),
            match found {
                Some(v) => key_value(lv.take(i as int), key@) == Some(v@),
                None => key_value(lv.take(i as int), key@) is None,
            },
        decreases ls.len() - i,
    {
        assert(lv.take(i + 1).drop_last() =~= lv.take(i as int));
        assert(lv.take(i + 1).last() == ls@[i as int]@);
        if starts_with_exec(&ls[i], key) {
            found = Some(skip_vec(&ls[i], key.len()));
        }
        i = i + 1;
    }
    assert(lv.take(ls.len() as int) =~= lv);
    found
}

fn key_flag_exec(ls: &Vec<Vec<char>>, key: &[char]) -> (r: bool)
    ensures
        r == key_flag(views(ls@), key@),
{
    match key_value_exec(ls, key) {
        Some(v) => eq_exec(&trim_exec(&v), &chars_of("true")),
        None => false,
    }
}

/// The application that the desktop entry at `path`, with text `content`,
/// describes, if it is one to list.
pub fn parse_desktop_file(
    path: &str,
    content: &str,
    pro_names: &Vec<String>,
    pro_paths: &Vec<String>,
) -> (r: Option<DesktopAppInfo>)
    ensures
        match r {
            Some(info) => spec_desktop_entry(path@, content@, string_views(pro_names@), string_views(pro_paths@))
                == Some(info@),
            None => spec_desktop_entry(path@, content@, string_views(pro_names@), string_views(pro_paths@)) is None,
        },
{
    let p = chars_of(path);
    let ext = match file_name_exec(&p) {
        Some(n) => extension_exec(&n),
        None => None,
    };
    let is_desktop = match &ext {
        Some(e) => eq_exec(e, &chars_of("desktop")),
        None => false,
    };
    if !is_desktop {
        return None;
    }
    let raw = lines_exec(&chars_of(content));
    let ghost rv = views(raw@);
    let mut ls: Vec<Vec<char>> = Vec::new();
    let mut i: usize = 0;
    while i < raw.len()
        invariant
            i <= raw.len(),
            rv == views(raw@),
            views(ls@) == rv.take(i as int).map_values(|l: Seq<char>| trim(l)),
        decreases raw.len() - i,
    {
        let t = trim_exec(&raw[i]);
        let ghost old_ls = ls@;
        ls.push(t);
        proof {
            crate::text::lemma_views_push(old_ls, t);
        }
        i = i + 1;
        assert(views(ls@) =~= rv.take(i as int).map_values(|l: Seq<char>| trim(l)));
    }
    assert(rv.take(raw.len() as int) =~= rv);
    let ghost lv = views(ls@);
    assert(lv == entry_lines(content@));
    let name = match key_value_exec(&ls, &chars_of("Name=")) {
        Some(n) => n,
        None => return None,
    };
    if key_flag_exec(&ls, &chars_of("NoDisplay=")) {
        return None;
    }
    let exec_v = match key_value_exec(&ls, &chars_of("Exec=")) {
        Some(e) => e,
        None => Vec::new(),
    };
    let icon = key_value_exec(&ls, &chars_of("Icon="));
    let comment = key_value_exec(&ls, &chars_of("Comment="));
    let categories = key_value_exec(&ls, &chars_of("Categories="));
    let is_app_pro = key_flag_exec(&ls, &chars_of("X-AppPro-Managed=")) || list_contains(pro_names, &name)
        || list_contains(pro_paths, &p);
    let origin = if is_app_pro {
        AppOrigin::AppPro
    } else {
        AppOrigin::System
    };
    let info = DesktopAppInfo {
        name: string_of(&name),
        exec_cmd: string_of(&exec_v),
        icon: opt_string_of(&icon),
        comment: opt_string_of(&comment),
        categories: opt_string_of(&categories),
        desktop_path: string_of(&p),
        is_app_pro,
        origin,
    };
    assert(info@ == spec_desktop_entry(path@, content@, string_views(pro_names@), string_views(pro_paths@))->Some_0);
    Some(info)
}

/// `i` is the last line of `ls` that begins with `key`.
pub open spec fn last_line_with(ls: Seq<Seq<char>>, key: Seq<char>, i: int) -> bool {
    &&& 0 <= i < ls.len()
    &&& starts_with(ls[i], key)
    &&& forall|j: int| i < j < ls.len() ==> !starts_with(#[trigger] ls[j], key)
}

proof fn lemma_key_value_cases(ls: Seq<Seq<char>>, key: Seq<char>)
    ensures
        match key_value(ls, key) {
            None => forall|j: int| 0 <= j < ls.len() ==> !starts_with(#[trigger] ls[j], key),
            Some(v) => exists|i: int| last_line_with(ls, key, i) && v == ls[i].skip(key.len() as int),
        },
    decreases ls.len(),
{
    if ls.len() > 0 {
        let p = ls.drop_last();
        lemma_key_value_cases(p, key);
        if starts_with(ls.last(), key) {
            assert(last_line_with(ls, key, ls.len() - 1));
        } else {
            match key_value(p, key) {
                None => {
                    assert forall|j: int| 0 <= j < ls.len() implies !starts_with(#[trigger] ls[j], key) by {
                        if j < ls.len() - 1 {
                            assert(ls[j] == p[j]);
                        }
                    }
                },
                Some(v) => {
                    let i = choose|i: int| last_line_with(p, key, i) && v == p[i].skip(key.len() as int);
                    assert forall|j: int| i < j < ls.len() implies !starts_with(#[trigger] ls[j], key) by {
                        if j < ls.len() - 1 {
                            assert(ls[j] == p[j]);
                        }
                    }
                    assert(ls[i] == p[i]);
                    assert(last_line_with(ls, key, i));
                },
            }
        }
    }
}

proof fn lemma_key_value_at(ls: Seq<Seq<char>>, key: Seq<char>, i: int)
    requires
        last_line_with(ls, key, i),
    ensures
        key_value(ls, key) == Some(ls[i].skip(key.len() as int)),
{
    lemma_key_value_cases(ls, key);
    match key_value(ls, key) {
        None => {
            assert(!starts_with(ls[i], key));
        },
        Some(v) => {
            let k = choose|k: int| last_line_with(ls, key, k) && v == ls[k].skip(key.len() as int);
            if k < i {
                assert(!starts_with(ls[i], key));
            } else if k > i {
                assert(!starts_with(ls[k], key));
            }
        },
    }
}

/// A desktop entry (at a `.desktop` path, with a `Name=` line) is hidden
/// from the list exactly when the last of its lines, trimmed, that begins
/// with `NoDisplay=` gives a value that is `true` once trimmed.  An entry
/// whose `NoDisplay=` says anything else, `false` among them, or that has no
/// such line, is listed.
pub proof fn lemma_hidden_only_by_no_display_true(
    path: Seq<char>,
    content: Seq<char>,
    pro_names: Seq<Seq<char>>,
    pro_paths: Seq<Seq<char>>,
    n: int,
)
    requires
        path_extension(path) == Some("desktop"@),
        0 <= n < lines(content).len(),
        starts_with(trim(lines(content)[n]), "Name="@),
    ensures
        spec_desktop_entry(path, content, pro_names, pro_paths) is None <==> exists|i: int|
            last_line_with(lines(content).map_values(|l: Seq<char>| trim(l)), "NoDisplay="@, i)
            && trim(trim(lines(content)[i]).skip("NoDisplay="@.len() as int)) == "true"@,
{
    let ls = entry_lines(content);
    assert(ls[n] == trim(lines(content)[n]));
    lemma_key_value_cases(ls, "Name="@);
    assert(key_value(ls, "Name="@) is Some);
    lemma_key_value_cases(ls, "NoDisplay="@);
    if spec_desktop_entry(path, content, pro_names, pro_paths) is None {
        let v = key_value(ls, "NoDisplay="@)->Some_0;
        let i = choose|i: int| last_line_with(ls, "NoDisplay="@, i) && v == ls[i].skip("NoDisplay="@.len() as int);
        assert(ls[i] == trim(lines(content)[i]));
    }
    if exists|i: int| last_line_with(lines(content).map_values(|l: Seq<char>| trim(l)), "NoDisplay="@, i)
        && trim(trim(lines(content)[i]).skip("NoDisplay="@.len() as int)) == "true"@ {
        let i = choose|i: int| last_line_with(lines(content).map_values(|l: Seq<char>| trim(l)), "NoDisplay="@, i)
            && trim(trim(lines(content)[i]).skip("NoDisplay="@.len() as int)) == "true"@;
        lemma_key_value_at(ls, "NoDisplay="@, i);
        assert(ls[i] == trim(lines(content)[i]));
    }
}

/// The same application, listed as coming from the user's own entries
/// unless it belongs to this tool.
pub fn as_user_entry(info: DesktopAppInfo) -> (r: DesktopAppInfo)
    ensures
        r@ == (DesktopAppView {
            origin: if info.origin == AppOrigin::System {
                AppOrigin::User
            } else {
                info.origin
            },
            ..info@
        }),
{
    let mut info = info;
    if info.origin == AppOrigin::System {
        info.origin = AppOrigin::User;
    }
    info
}

// ---------------------------------------------------------------------------
// Ordering the list

/// The key by which applications are ordered and told apart: the name in
/// lower case.
pub open spec fn name_key(x: DesktopAppInfo) -> Seq<char> {
    spec_lowercase(x.name@)
}

/// `s[j]` is the first entry of `s` with its key.
pub open spec fn first_of_key(s: Seq<DesktopAppInfo>, j: int) -> bool {
    0 <= j < s.len() && forall|k: int| 0 <= k < j ==> name_key(#[trigger] s[k]) != name_key(s[j])
}

/// `x` is the first entry of `s` with its key.
pub open spec fn is_first_of_key(x: DesktopAppInfo, s: Seq<DesktopAppInfo>) -> bool {
    exists|j: int| first_of_key(s, j) && s[j] == x
}

/// The list is in strictly increasing order of keys.
pub open spec fn strictly_sorted(keys: Seq<Seq<char>>) -> bool {
    forall|a: int, b: int| 0 <= a < b < keys.len() ==> seq_lt(#[trigger] keys[a], #[trigger] keys[b])
}

/// Every key of `s` is the key of some entry of `r`.
pub open spec fn keeps_every_key(r: Seq<DesktopAppInfo>, s: Seq<DesktopAppInfo>) -> bool {
    forall|j: int| 0 <= j < s.len() ==> #[trigger] has_key(r, name_key(s[j]))
}

/// Some entry of `r` has the key `k`.
pub open spec fn has_key(r: Seq<DesktopAppInfo>, k: Seq<char>) -> bool {
    exists|m: int| 0 <= m < r.len() && name_key(#[trigger] r[m]) == k
}

/// `keys` holds the key of each entry of `out`.
pub open spec fn keys_match(keys: Seq<Seq<char>>, out: Seq<DesktopAppInfo>) -> bool {
    keys.len() == out.len() && forall|m: int| 0 <= m < out.len() ==> #[trigger] keys[m] == name_key(out[m])
}

/// Every entry of `s` has its key among `keys`.
pub open spec fn covers(keys: Seq<Seq<char>>, s: Seq<DesktopAppInfo>) -> bool {
    forall|j: int| 0 <= j < s.len() ==> #[trigger] keys.contains(name_key(s[j]))
}

/// Every entry of `out` is the first entry of `s` with its key.
pub open spec fn all_first(out: Seq<DesktopAppInfo>, s: Seq<DesktopAppInfo>) -> bool {
    forall|m: int| 0 <= m < out.len() ==> is_first_of_key(#[trigger] out[m], s)
}

proof fn lemma_first_extends(x: DesktopAppInfo, s: Seq<DesktopAppInfo>, y: DesktopAppInfo)
    requires
        is_first_of_key(x, s),
    ensures
        is_first_of_key(x, s.push(y)),
{
    let j = choose|j: int| first_of_key(s, j) && s[j] == x;
    let t = s.push(y);
    assert forall|k: int| 0 <= k < j implies name_key(#[trigger] t[k]) != name_key(t[j]) by {
        assert(t[k] == s[k]);
    }
    assert(first_of_key(t, j) && t[j] == x);
}

proof fn lemma_insert_step(
    keys: Seq<Seq<char>>,
    out: Seq<DesktopAppInfo>,
    s: Seq<DesktopAppInfo>,
    x: DesktopAppInfo,
    p: int,
)
    requires
        keys_match(keys, out),
        strictly_sorted(keys),
        covers(keys, s),
        all_first(out, s),
        0 <= p <= keys.len(),
        forall|q: int| 0 <= q < p ==> seq_lt(#[trigger] keys[q], name_key(x)),
        p == keys.len() || seq_lt(name_key(x), keys[p]),
    ensures
        keys_match(keys.insert(p, name_key(x)), out.insert(p, x)),
        strictly_sorted(keys.insert(p, name_key(x))),
        covers(keys.insert(p, name_key(x)), s.push(x)),
        all_first(out.insert(p, x), s.push(x)),
{
    let k = name_key(x);
    let nk = keys.insert(p, k);
    let no = out.insert(p, x);
    let t = s.push(x);
    // k is not among the keys
    assert forall|q: int| 0 <= q < keys.len() implies keys[q] != k by {
        if q < p {
            lemma_seq_lt_irreflexive(k);
        } else {
            if q > p {
                lemma_seq_lt_transitive(k, keys[p], keys[q]);
            }
            lemma_seq_lt_irreflexive(k);
        }
    }
    assert forall|j: int| 0 <= j < s.len() implies name_key(#[trigger] s[j]) != k by {
        assert(keys.contains(name_key(s[j])));
    }
    assert forall|m: int| 0 <= m < no.len() implies #[trigger] nk[m] == name_key(no[m]) by {
        if m > p {
            assert(nk[m] == keys[m - 1]);
            assert(no[m] == out[m - 1]);
        } else if m < p {
            assert(nk[m] == keys[m]);
            assert(no[m] == out[m]);
        }
    }
    assert forall|a: int, b: int| 0 <= a < b < nk.len() implies seq_lt(#[trigger] nk[a], #[trigger] nk[b]) by {
        if a < p && b == p {
        } else if a < p && b > p {
            assert(seq_lt(keys[a], keys[b - 1]));
        } else if a == p {
            if b - 1 > p {
                lemma_seq_lt_transitive(k, keys[p], keys[b - 1]);
            }
        } else if a > p {
            assert(seq_lt(keys[a - 1], keys[b - 1]));
        } else {
            assert(seq_lt(keys[a], keys[b]));
        }
    }
    assert forall|j: int| 0 <= j < t.len() implies #[trigger] nk.contains(name_key(t[j])) by {
        if j == s.len() {
            assert(nk[p] == k);
        } else {
            assert(t[j] == s[j]);
            assert(keys.contains(name_key(s[j])));
            let m = choose|m: int| 0 <= m < keys.len() && keys[m] == name_key(s[j]);
            if m < p {
                assert(nk[m] == keys[m]);
            } else {
                assert(nk[m + 1] == keys[m]);
            }
        }
    }
    assert forall|m: int| 0 <= m < no.len() implies is_first_of_key(#[trigger] no[m], t) by {
        if m == p {
            assert forall|kk: int| 0 <= kk < s.len() implies name_key(#[trigger] t[kk]) != name_key(t[s.len() as int]) by {
                assert(t[kk] == s[kk]);
            }
            assert(first_of_key(t, s.len() as int));
        } else {
            let om = if m < p { m } else { m - 1 };
            assert(no[m] == out[om]);
            lemma_first_extends(out[om], s, x);
        }
    }
}

proof fn lemma_duplicate_step(keys: Seq<Seq<char>>, out: Seq<DesktopAppInfo>, s: Seq<DesktopAppInfo>, x: DesktopAppInfo, p: int)
    requires
        keys_match(keys, out),
        covers(keys, s),
        all_first(out, s),
        0 <= p < keys.len(),
        keys[p] == name_key(x),
    ensures
        covers(keys, s.push(x)),
        all_first(out, s.push(x)),
{
    let t = s.push(x);
    assert forall|j: int| 0 <= j < t.len() implies #[trigger] keys.contains(name_key(t[j])) by {
        if j < s.len() {
            assert(t[j] == s[j]);
        }
    }
    assert forall|m: int| 0 <= m < out.len() implies is_first_of_key(#[trigger] out[m], t) by {
        lemma_first_extends(out[m], s, x);
    }
}

proof fn lemma_views_insert(v: Seq<Vec<char>>, p: int, x: Vec<char>)
    requires
        0 <= p <= v.len(),
    ensures
        views(v.insert(p, x)) == views(v).insert(p, x@),
{
    assert(views(v.insert(p, x)) =~= views(v).insert(p, x@));
}

/// `apps` ordered by lower-case name, with only the first application of each
/// lower-case name kept (a stable sort followed by removing later duplicates).
pub fn sort_and_dedup(apps: Vec<DesktopAppInfo>) -> (r: Vec<DesktopAppInfo>)
    ensures
        strictly_sorted(r@.map_values(|x: DesktopAppInfo| name_key(x))),
        keeps_every_key(r@, apps@),
        all_first(r@, apps@),
{
    let ghost orig = apps@;
    let mut rest = apps;
    let mut out: Vec<DesktopAppInfo> = Vec::new();
    let mut keys: Vec<Vec<char>> = Vec::new();
    let ghost mut i: int = 0;
    assert(orig.skip(0) =~= orig);
    while rest.len() > 0
        invariant
            0 <= i <= orig.len(),
            rest@ == orig.skip(i),
            keys_match(views(keys@), out@),
            strictly_sorted(views(keys@)),
            covers(views(keys@), orig.take(i)),
            all_first(out@, orig.take(i)),
        decreases rest@.len(),
    {
        let x = rest.remove(0);
        assert(x == orig[i]);
        assert(orig.take(i + 1) =~= orig.take(i).push(x));
        let k = chars_of(lowercase(x.name.as_str()).as_str());
        let ghost kv = views(keys@);
        let mut p: usize = 0;
        while p < keys.len() && seq_lt_exec(&keys[p], &k)
            invariant
                p <= keys@.len(),
                kv == views(keys@),
                forall|q: int| 0 <= q < p ==> seq_lt(#[trigger] kv[q], k@),
            decreases keys.len() - p,
        {
            p = p + 1;
        }
        let dup = p < keys.len() && crate::text::eq_exec(&keys[p], &k);
        if !dup {
            proof {
                if p < keys@.len() {
                    lemma_seq_lt_total(kv[p as int], k@);
                }
                lemma_insert_step(kv, out@, orig.take(i), x, p as int);
                lemma_views_insert(keys@, p as int, k);
            }
            keys.insert(p, k);
            out.insert(p, x);
        } else {
            proof {
                lemma_duplicate_step(kv, out@, orig.take(i), x, p as int);
            }
        }
        proof {
            i = i + 1;
            assert(rest@ =~= orig.skip(i));
        }
    }
    proof {
        assert(orig.take(i) =~= orig);
        let kv = views(keys@);
        let mv = out@.map_values(|x: DesktopAppInfo| name_key(x));
        assert(mv =~= kv);
        assert forall|j: int| 0 <= j < orig.len() implies #[trigger] has_key(out@, name_key(orig[j])) by {
            assert(kv.contains(name_key(orig[j])));
            let m = choose|m: int| 0 <= m < kv.len() && kv[m] == name_key(orig[j]);
            assert(name_key(out@[m]) == kv[m]);
        }
        assert(keeps_every_key(out@, orig));
    }
    out
}

} // verus!
