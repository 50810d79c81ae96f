//! Release checks: comparing version strings and choosing what to download.
use vstd::prelude::*;
use crate::system::ExecResult;
use crate::text::{
    chars_of, decimal_chars, decimal_string, concat3, eq_exec, format3, parse_u32, parse_u32_exec, split_char, split_char_exec, string_of, trim_start_char, trim_start_char_exec, views,
};

pub mod tags;

verus! {

/// A published release, as the release service describes it.
#[derive(Clone, Debug)]
pub struct ReleaseInfo {
    pub tag_name: String,
    pub html_url: String,
    pub body: Option<String>,
    pub assets: Vec<ReleaseAsset>,
}

/// One downloadable file of a release.
#[derive(Clone, Debug)]
pub struct ReleaseAsset {
    pub name: String,
    pub browser_download_url: String,
    pub size: u64,
}

/// The number a version component denotes: its decimal value, or 0 where it
/// is not a number that fits in a `u32`.
pub open spec fn component_value(p: Seq<char>) -> u32 {
    match parse_u32(p) {
        Some(n) => n,
        None => 0,
    }
}

/// The numeric components of a version string: leading `v`s dropped, split
/// on `.`, each piece read as a number.
pub open spec fn version_numbers(s: Seq<char>) -> Seq<u32> {
    split_char(trim_start_char(s, 'v'), '.').map_values(|p: Seq<char>| component_value(p))
}

/// The `i`-th component, where missing components count as 0.
pub open spec fn component(v: Seq<u32>, i: int) -> int {
    if 0 <= i < v.len() {
        v[i] as int
    } else {
        0
    }
}

/// `a` and `b` agree on every component before `j`.
pub open spec fn agree_before(a: Seq<u32>, b: Seq<u32>, j: int) -> bool {
    forall|k: int| 0 <= k < j ==> #[trigger] component(a, k) == component(b, k)
}

/// `b` is a later version than `a`: at the first component where they differ,
/// `b` is larger.
pub open spec fn later_numbers(a: Seq<u32>, b: Seq<u32>) -> bool {
    exists|j: int| 0 <= j && agree_before(a, b, j) && #[trigger] component(b, j) > component(a, j)
}

/// The version `latest` is later than the version `current`.
pub open spec fn spec_is_newer(current: Seq<char>, latest: Seq<char>) -> bool {
    later_numbers(version_numbers(current), version_numbers(latest))
}

/// The numeric components of the version written in `s`.
pub fn version_numbers_exec(s: &str) -> (r: Vec<u32>)
    ensures
        r@ == version_numbers(s@),
{
    let chars = chars_of(s);
    let trimmed = trim_start_char_exec(&chars, 'v');
    let pieces = split_char_exec(&trimmed, '.');
    let ghost ps = views(pieces@);
    let mut r: Vec<u32> = Vec::new();
    let mut i: usize = 0;
    while i < pieces.len()
        invariant
            i <= pieces.len(),
            ps == views(pieces@),
            r@ == ps.take(i as int).map_values(|p: Seq<char>| component_value(p)),
        decreases pieces.len() - i,
    {
        let n = match parse_u32_exec(&pieces[i]) {
            Some(n) => n,
            None => 0,
        };
        r.push(n);
        i = i + 1;
        assert(r@ =~= ps.take(i as int).map_values(|p: Seq<char>| component_value(p)));
    }
    assert(ps.take(pieces.len() as int) =~= ps);
    r
}

/// Whether `latest` names a later version than `current`.
///
/// Leading `v`s are ignored, components are compared as numbers from the
/// left, a missing component counts as 0, and so does one that is not a
/// number.
pub fn is_newer(current: &str, latest: &str) -> (r: bool)
    ensures
        r == spec_is_newer(current@, latest@),
{
    let cur = version_numbers_exec(current);
    let lat = version_numbers_exec(latest);
    let n = if cur.len() > lat.len() { cur.len() } else { lat.len() };
    let mut i: usize = 0;
    while i < n
        invariant
            i <= n,
            n == if cur@.len() > lat@.len() { cur@.len() } else { lat@.len() },
            agree_before(cur@, lat@, i as int),
            cur@ == version_numbers(current@),
            lat@ == version_numbers(latest@),
        decreases n - i,
    {
        let c: u32 = if i < cur.len() { cur[i] } else { 0 };
        let l: u32 = if i < lat.len() { lat[i] } else { 0 };
        assert(c == component(cur@, i as int) && l == component(lat@, i as int));
        if l > c {
            assert(later_numbers(cur@, lat@));
            return true;
        } else if c > l {
            assert forall|j: int| 0 <= j && agree_before(cur@, lat@, j) implies !(component(lat@, j) > component(cur@, j)) by {
                if j > i {
                    assert(component(cur@, i as int) == component(lat@, i as int));
                }
            }
            return false;
        }
        i = i + 1;
    }
    assert forall|j: int| 0 <= j && agree_before(cur@, lat@, j) implies !(component(lat@, j) > component(cur@, j)) by {
        if j < n {
            assert(component(cur@, j) == component(lat@, j));
        }
    }
    false
}

// ---------------------------------------------------------------------------
// Laws of the version order

/// No version is newer than itself.
pub proof fn lemma_is_newer_irreflexive(v: Seq<char>)
    ensures
        !spec_is_newer(v, v),
{
}

/// Of two versions, at most one is newer than the other.
pub proof fn lemma_is_newer_asymmetric(a: Seq<char>, b: Seq<char>)
    ensures
        spec_is_newer(a, b) ==> !spec_is_newer(b, a),
{
    let va = version_numbers(a);
    let vb = version_numbers(b);
    if spec_is_newer(a, b) && spec_is_newer(b, a) {
        let j1 = choose|j: int| 0 <= j && agree_before(va, vb, j) && #[trigger] component(vb, j) > component(va, j);
        let j2 = choose|j: int| 0 <= j && agree_before(vb, va, j) && #[trigger] component(va, j) > component(vb, j);
        if j1 < j2 {
            assert(component(vb, j1) == component(va, j1));
        } else if j2 < j1 {
            assert(component(va, j2) == component(vb, j2));
        }
    }
}

/// If `b` is newer than `a` and `c` newer than `b`, then `c` is newer than `a`.
pub proof fn lemma_is_newer_transitive(a: Seq<char>, b: Seq<char>, c: Seq<char>)
    requires
        spec_is_newer(a, b),
        spec_is_newer(b, c),
    ensures
        spec_is_newer(a, c),
{
    let va = version_numbers(a);
    let vb = version_numbers(b);
    let vc = version_numbers(c);
    let j1 = choose|j: int| 0 <= j && agree_before(va, vb, j) && #[trigger] component(vb, j) > component(va, j);
    let j2 = choose|j: int| 0 <= j && agree_before(vb, vc, j) && #[trigger] component(vc, j) > component(vb, j);
    let j = if j1 < j2 { j1 } else { j2 };
    assert forall|k: int| 0 <= k < j implies #[trigger] component(va, k) == component(vc, k) by {
        assert(component(va, k) == component(vb, k));
        assert(component(vb, k) == component(vc, k));
    }
    if j1 < j2 {
        assert(component(vb, j1) == component(vc, j1));
    } else if j2 < j1 {
        assert(component(va, j2) == component(vb, j2));
    }
    assert(agree_before(va, vc, j) && component(vc, j) > component(va, j));
}

/// Two versions are either ordered one way, ordered the other way, or equal
/// component by component.
pub proof fn lemma_is_newer_total(a: Seq<char>, b: Seq<char>)
    ensures
        spec_is_newer(a, b) || spec_is_newer(b, a)
            || agree_before(version_numbers(a), version_numbers(b), (version_numbers(a).len() + version_numbers(b).len()) as int),
{
    let va = version_numbers(a);
    let vb = version_numbers(b);
    let n = va.len() + vb.len();
    if !agree_before(va, vb, n as int) {
        let k = choose|k: int| 0 <= k < n && !(#[trigger] component(va, k) == component(vb, k));
        lemma_first_difference(va, vb, k);
    }
}

/// Where two component lists differ somewhere at or before `k`, one of them
/// is the later one.
proof fn lemma_first_difference(va: Seq<u32>, vb: Seq<u32>, k: int)
    requires
        0 <= k,
        component(va, k) != component(vb, k),
    ensures
        later_numbers(va, vb) || later_numbers(vb, va),
    decreases k,
{
    if agree_before(va, vb, k) {
        if component(vb, k) > component(va, k) {
            assert(later_numbers(va, vb));
        } else {
            assert(agree_before(vb, va, k));
            assert(later_numbers(vb, va));
        }
    } else {
        let m = choose|m: int| 0 <= m < k && !(#[trigger] component(va, m) == component(vb, m));
        lemma_first_difference(va, vb, m);
    }
}

/// A leading `v` does not change the version a string names.
pub proof fn lemma_leading_v_ignored(s: Seq<char>)
    ensures
        version_numbers(seq!['v'] + s) == version_numbers(s),
{
    let t = seq!['v'] + s;
    assert(t.drop_first() =~= s);
}

// ---------------------------------------------------------------------------
// Choosing what to download

/// The release is offered when its tag names a later version than the
/// current one.
pub fn offer_if_newer(current_version: &str, release: ReleaseInfo) -> (r: Option<ReleaseInfo>)
    ensures
        match r {
            Some(x) => spec_is_newer(current_version@, release.tag_name@) && x == release,
            None => !spec_is_newer(current_version@, release.tag_name@),
        },
{
    if is_newer(current_version, release.tag_name.as_str()) {
        Some(release)
    } else {
        None
    }
}

/// The name suffix of the release file for a processor architecture.
pub open spec fn spec_asset_suffix(arch: Seq<char>) -> Option<Seq<char>> {
    if arch == "x86_64"@ {
        Some("linux-x86_64"@)
    } else if arch == "aarch64"@ {
        Some("linux-arm64"@)
    } else {
        None
    }
}

/// The release file to download on `arch`: the first asset named
/// `app-pro-<suffix>`, or an error naming what is missing.
pub open spec fn spec_select_asset(names: Seq<Seq<char>>, arch: Seq<char>) -> Result<int, Seq<char>> {
    match spec_asset_suffix(arch) {
        None => Err("Unsupported architecture: "@ + arch),
        Some(suffix) => {
            let wanted = "app-pro-"@ + suffix;
            if exists|i: int| 0 <= i < names.len() && names[i] == wanted {
                Ok(choose|i: int| 0 <= i < names.len() && names[i] == wanted && forall|j: int| 0 <= j < i ==> names[j] != wanted)
            } else {
                Err("Could not find binary asset named '"@ + wanted + "' in the release"@)
            }
        },
    }
}

pub open spec fn asset_names(assets: Seq<ReleaseAsset>) -> Seq<Seq<char>> {
    assets.map_values(|a: ReleaseAsset| a.name@)
}

/// The position in `release.assets` of the file to download on `arch`.
pub fn select_asset(release: &ReleaseInfo, arch: &str) -> (r: Result<usize, String>)
    ensures
        match r {
            Ok(i) => spec_select_asset(asset_names(release.assets@), arch@) == Ok::<int, Seq<char>>(i as int),
            Err(e) => spec_select_asset(asset_names(release.assets@), arch@) == Err::<int, Seq<char>>(e@),
        },
{
    proof {
        reveal_strlit("");
    }
    let a = chars_of(arch);
    let suffix = if eq_exec(&a, &chars_of("x86_64")) {
        chars_of("linux-x86_64")
    } else if eq_exec(&a, &chars_of("aarch64")) {
        chars_of("linux-arm64")
    } else {
        return Err(format3("Unsupported architecture: ", &a, ""));
    };
    let wanted = concat3(&chars_of("app-pro-"), &suffix, &[]);
    assert(wanted@ =~= "app-pro-"@ + suffix@);
    assert(spec_asset_suffix(arch@) == Some(suffix@));
    let ghost names = asset_names(release.assets@);
    let mut i: usize = 0;
    while i < release.assets.len()
        invariant
            i <= release.assets.len(),
            names == asset_names(release.assets@),
            forall|j: int| 0 <= j < i ==> names[j] != wanted@,
            spec_asset_suffix(arch@) == Some(suffix@),
            wanted@ == "app-pro-"@ + suffix@,
        decreases release.assets.len() - i,
    {
        if eq_exec(&chars_of(release.assets[i].name.as_str()), &wanted) {
            proof {
                assert(names[i as int] == wanted@);
                let k = choose|k: int| 0 <= k < names.len() && names[k] == wanted@ && forall|j: int| 0 <= j < k ==> names[j] != wanted@;
                if k < i {
                } else if k > i {
                }
            }
            return Ok(i);
        }
        i = i + 1;
    }
    let mut m = chars_of("Could not find binary asset named '");
    crate::text::push_chars(&mut m, &wanted);
    crate::text::push_str(&mut m, "' in the release");
    Err(string_of(&m))
}

/// The privileged command that puts the downloaded program in place of the
/// running one and removes the download.
pub fn replace_script(download: &str, current_exe: &str) -> (r: String)
    ensures
        r@ == "cp '"@ + download@ + "' '"@ + current_exe@ + "' && rm -f '"@ + download@ + "'"@,
{
    let mut m = chars_of("cp '");
    crate::text::push_str(&mut m, download);
    crate::text::push_str(&mut m, "' '");
    crate::text::push_str(&mut m, current_exe);
    crate::text::push_str(&mut m, "' && rm -f '");
    crate::text::push_str(&mut m, download);
    crate::text::push_str(&mut m, "'");
    string_of(&m)
}

// ---------------------------------------------------------------------------
// What the steps of a check and an update report

/// `{:?}` of an exit code: `Some(<code>)` or `None`.
pub open spec fn spec_exit_code_debug(code: Option<i32>) -> Seq<char> {
    match code {
        Some(c) => "Some("@ + (if c < 0 {
            seq!['-'] + decimal_string((-c) as nat)
        } else {
            decimal_string(c as nat)
        }) + ")"@,
        None => "None"@,
    }
}

/// The error of a check whose download of the release description failed,
/// with `curl`'s exit code.
pub fn fetch_failed_message(code: Option<i32>) -> (r: String)
    ensures
        r@ == "Failed to fetch release info (curl exit code "@ + spec_exit_code_debug(code) + ")"@,
{
    let mut v = chars_of("Failed to fetch release info (curl exit code ");
    match code {
        Some(c) => {
            crate::text::push_str(&mut v, "Some(");
            if c < 0 {
                let m: u64 = (0i64 - c as i64) as u64;
                crate::text::push_chars(&mut v, &['-']);
                crate::text::push_chars(&mut v, &decimal_chars(m));
            } else {
                crate::text::push_chars(&mut v, &decimal_chars(c as u64));
            }
            crate::text::push_str(&mut v, ")");
        },
        None => crate::text::push_str(&mut v, "None"),
    }
    crate::text::push_str(&mut v, ")");
    string_of(&v)
}

/// The error of a check whose answer could not be read as a release.
pub fn parse_failed_message(error: &str, response: &str) -> (r: String)
    ensures
        r@ == "Failed to parse release JSON: "@ + error@ + ". Response: "@ + response@,
{
    let mut v = chars_of("Failed to parse release JSON: ");
    crate::text::push_str(&mut v, error);
    crate::text::push_str(&mut v, ". Response: ");
    crate::text::push_str(&mut v, response);
    string_of(&v)
}

/// Whether putting the new program in place needs elevated rights: where the
/// program's directory is unknown or cannot be inspected (`None`), or is
/// read-only.
pub fn needs_elevation(dir_readonly: Option<bool>) -> (r: bool)
    ensures
        r == match dir_readonly {
            Some(b) => b,
            None => true,
        },
{
    match dir_readonly {
        Some(b) => b,
        None => true,
    }
}

/// What the privileged replacement reports: why it could not run, that it
/// failed (with its error output), or success.
pub fn elevated_replace_result(outcome: Result<ExecResult, String>) -> (r: Result<(), String>)
    ensures
        match outcome {
            Err(e) => r is Err && r->Err_0@ == "Failed to run installer with elevated privileges: "@ + e@,
            Ok(res) => if res.success {
                r is Ok
            } else {
                r is Err && r->Err_0@ == "Authorization or installation failed: "@ + res.stderr@
            },
        },
{
    match outcome {
        Err(e) => {
            let mut v = chars_of("Failed to run installer with elevated privileges: ");
            crate::text::push_str(&mut v, e.as_str());
            Err(string_of(&v))
        },
        Ok(res) => if res.success {
            Ok(())
        } else {
            let mut v = chars_of("Authorization or installation failed: ");
            crate::text::push_str(&mut v, res.stderr.as_str());
            Err(string_of(&v))
        },
    }
}

/// What replacing the program directly reports, given how moving the
/// running program aside went and (where that worked) how copying the new
/// one in went; and whether the moved-aside program is to be put back,
/// which is so exactly where it was moved aside and the copy failed.
pub fn direct_replace_result(backup: Result<(), String>, copy: Result<(), String>) -> (r: (Result<(), String>, bool))
    ensures
        match backup {
            Err(e) => r.0 is Err && r.0->Err_0@ == "Failed to backup existing binary: "@ + e@ && !r.1,
            Ok(_) => match copy {
                Err(e) => r.0 is Err && r.0->Err_0@ == "Failed to copy new binary: "@ + e@ && r.1,
                Ok(_) => r.0 is Ok && !r.1,
            },
        },
{
    match backup {
        Err(e) => {
            let mut v = chars_of("Failed to backup existing binary: ");
            crate::text::push_str(&mut v, e.as_str());
            (Err(string_of(&v)), false)
        },
        Ok(_) => match copy {
            Err(e) => {
                let mut v = chars_of("Failed to copy new binary: ");
                crate::text::push_str(&mut v, e.as_str());
                (Err(string_of(&v)), true)
            },
            Ok(_) => (Ok(()), false),
        },
    }
}

} // verus!
