//! Release checks by tag name, where a tag's version is the list of its
//! numeric components and versions are ordered as lists.
use vstd::prelude::*;
use crate::text::{
    chars_of, contains_exec, contains_seq, opt_view, owned, parse_u32, parse_u32_exec, split_char,
    split_char_exec, string_of, trim_start_char, trim_start_char_exec, views,
};

verus! {

/// A release with the file to download for this platform.
#[derive(Debug)]
pub struct ReleaseInfo {
    pub tag_name: String,
    pub name: String,
    pub body: Option<String>,
    pub download_url: String,
}

/// The numbers among `pieces`, in order; pieces that are not numbers are left out.
pub open spec fn numbers_of(pieces: Seq<Seq<char>>) -> Seq<u32>
    decreases pieces.len(),
{
    if pieces.len() == 0 {
        Seq::<u32>::empty()
    } else {
        let r = numbers_of(pieces.drop_last());
        match parse_u32(pieces.last()) {
            Some(n) => r.push(n),
            None => r,
        }
    }
}

/// The version a tag names: leading `v`s dropped, split on `.`, and the
/// pieces that are numbers kept.
pub open spec fn spec_parse_version(tag: Seq<char>) -> Seq<u32> {
    numbers_of(split_char(trim_start_char(tag, 'v'), '.'))
}

/// `a` and `b` agree on their first `j` entries.
pub open spec fn same_prefix(a: Seq<u32>, b: Seq<u32>, j: int) -> bool {
    forall|k: int| 0 <= k < j ==> #[trigger] a[k] == b[k]
}

/// `a` comes after `b` in lexicographic order: at the first place where they
/// differ `a` is larger, or `b` is a proper prefix of `a`.
pub open spec fn lex_greater(a: Seq<u32>, b: Seq<u32>) -> bool {
    ||| exists|j: int| 0 <= j < a.len() && j < b.len() && same_prefix(a, b, j) && #[trigger] a[j] > b[j]
    ||| (b.len() < a.len() && same_prefix(a, b, b.len() as int))
}

/// The tag `latest` names a later version than the tag `current`.
pub open spec fn spec_is_newer(latest: Seq<char>, current: Seq<char>) -> bool {
    lex_greater(spec_parse_version(latest), spec_parse_version(current))
}

/// The version a tag names, as a list of numbers.
pub fn parse_version(tag: &str) -> (r: Vec<u32>)
    ensures
        r@ == spec_parse_version(tag@),
{
    let chars = chars_of(tag);
    let trimmed = trim_start_char_exec(&chars, 'v');
    let pieces = split_char_exec(&trimmed, '.');
    let ghost ps = views(pieces@);
    let mut r: Vec<u32> = Vec::new();
    let mut i: usize = 0;
    while i < pieces.len()
        invariant
            i <= pieces.len(),
            ps == views(pieces@),
            r@ == numbers_of(ps.take(i as int)),
        decreases pieces.len() - i,
    {
        assert(ps.take(i + 1).drop_last() =~= ps.take(i as int));
        match parse_u32_exec(&pieces[i]) {
            Some(n) => r.push(n),
            None => {},
        }
        i = i + 1;
    }
    assert(ps.take(pieces.len() as int) =~= ps);
    r
}

/// Whether `a` comes after `b` in lexicographic order.
pub fn lex_greater_exec(a: &[u32], b: &[u32]) -> (r: bool)
    ensures
        r == lex_greater(a@, b@),
{
    let mut i: usize = 0;
    while i < a.len() && i < b.len()
        invariant
            i <= a.len(),
            i <= b.len(),
            same_prefix(a@, b@, i as int),
        decreases a.len() - i,
    {
        if a[i] > b[i] {
            return true;
        }
        if a[i] < b[i] {
            assert forall|j: int| 0 <= j < a@.len() && j < b@.len() && same_prefix(a@, b@, j) implies !(a@[j] > b@[j]) by {
                if j > i {
                    assert(a@[i as int] == b@[i as int]);
                }
            }
            return false;
        }
        i = i + 1;
    }
    assert forall|j: int| 0 <= j < a@.len() && j < b@.len() && same_prefix(a@, b@, j) implies !(#[trigger] a@[j] > b@[j]) by {
        assert(a@[j] == b@[j]);
    }
    b.len() < a.len()
}

/// Whether the tag `latest` names a later version than the tag `current`.
pub fn is_newer(latest: &str, current: &str) -> (r: bool)
    ensures
        r == spec_is_newer(latest@, current@),
{
    let l = parse_version(latest);
    let c = parse_version(current);
    lex_greater_exec(&l, &c)
}

// ---------------------------------------------------------------------------
// Laws of the tag order

/// No tag is newer than itself.
pub proof fn lemma_is_newer_irreflexive(t: Seq<char>)
    ensures
        !spec_is_newer(t, t),
{
}

/// Of two tags, at most one is newer than the other.
pub proof fn lemma_is_newer_asymmetric(a: Seq<char>, b: Seq<char>)
    ensures
        spec_is_newer(a, b) ==> !spec_is_newer(b, a),
{
    let va = spec_parse_version(a);
    let vb = spec_parse_version(b);
    if lex_greater(va, vb) && lex_greater(vb, va) {
        lemma_lex_greater_asymmetric(va, vb);
    }
}

proof fn lemma_lex_greater_asymmetric(a: Seq<u32>, b: Seq<u32>)
    ensures
        !(lex_greater(a, b) && lex_greater(b, a)),
{
    if lex_greater(a, b) && lex_greater(b, a) {
        if exists|j: int| 0 <= j < a.len() && j < b.len() && same_prefix(a, b, j) && #[trigger] a[j] > b[j] {
            let j = choose|j: int| 0 <= j < a.len() && j < b.len() && same_prefix(a, b, j) && #[trigger] a[j] > b[j];
            if exists|k: int| 0 <= k < b.len() && k < a.len() && same_prefix(b, a, k) && #[trigger] b[k] > a[k] {
                let k = choose|k: int| 0 <= k < b.len() && k < a.len() && same_prefix(b, a, k) && #[trigger] b[k] > a[k];
                if j < k {
                    assert(b[j] == a[j]);
                } else if k < j {
                    assert(a[k] == b[k]);
                }
            } else {
                assert(a[j] == b[j]);
            }
        } else {
            let k = choose|k: int| 0 <= k < b.len() && k < a.len() && same_prefix(b, a, k) && #[trigger] b[k] > a[k];
            assert(a[k] == b[k]);
        }
    }
}

/// If `b` is newer than `a` and `a` newer than `c`, then `b` is newer than `c`.
pub proof fn lemma_is_newer_transitive(a: Seq<char>, b: Seq<char>, c: Seq<char>)
    requires
        spec_is_newer(b, a),
        spec_is_newer(a, c),
    ensures
        spec_is_newer(b, c),
{
    lemma_lex_greater_transitive(spec_parse_version(b), spec_parse_version(a), spec_parse_version(c));
}

proof fn lemma_lex_greater_transitive(x: Seq<u32>, y: Seq<u32>, z: Seq<u32>)
    requires
        lex_greater(x, y),
        lex_greater(y, z),
    ensures
        lex_greater(x, z),
{
    // i: where x and y part; k: where y and z part.
    let i: int = if exists|j: int| 0 <= j < x.len() && j < y.len() && same_prefix(x, y, j) && #[trigger] x[j] > y[j] {
        choose|j: int| 0 <= j < x.len() && j < y.len() && same_prefix(x, y, j) && #[trigger] x[j] > y[j]
    } else {
        y.len() as int
    };
    let k: int = if exists|j: int| 0 <= j < y.len() && j < z.len() && same_prefix(y, z, j) && #[trigger] y[j] > z[j] {
        choose|j: int| 0 <= j < y.len() && j < z.len() && same_prefix(y, z, j) && #[trigger] y[j] > z[j]
    } else {
        z.len() as int
    };
    let xi_gt = exists|j: int| 0 <= j < x.len() && j < y.len() && same_prefix(x, y, j) && #[trigger] x[j] > y[j];
    let yk_gt = exists|j: int| 0 <= j < y.len() && j < z.len() && same_prefix(y, z, j) && #[trigger] y[j] > z[j];
    // x agrees with y before i, y agrees with z before k.
    assert(same_prefix(x, y, i));
    assert(same_prefix(y, z, k));
    assert(i <= y.len() && k <= z.len() && k <= y.len() && i <= x.len());
    if i < k {
        // They part at i: x[i] > y[i] == z[i], or y ends at i (impossible as k <= y.len()).
        assert forall|m: int| 0 <= m < i implies #[trigger] x[m] == z[m] by {
            assert(x[m] == y[m]);
            assert(y[m] == z[m]);
        }
        if xi_gt {
            assert(y[i] == z[i]);
            assert(0 <= i < x.len() && i < z.len() && same_prefix(x, z, i) && x[i] > z[i]);
        } else {
            assert(i == y.len());
            assert(false);
        }
    } else if k < i {
        assert forall|m: int| 0 <= m < k implies #[trigger] x[m] == z[m] by {
            assert(x[m] == y[m]);
            assert(y[m] == z[m]);
        }
        if yk_gt {
            assert(x[k] == y[k]);
            assert(0 <= k < x.len() && k < z.len() && same_prefix(x, z, k) && x[k] > z[k]);
        } else {
            // z is a proper prefix of y, and k == z.len() < i <= x.len().
            assert(same_prefix(x, z, z.len() as int));
        }
    } else {
        assert forall|m: int| 0 <= m < k implies #[trigger] x[m] == z[m] by {
            assert(x[m] == y[m]);
            assert(y[m] == z[m]);
        }
        if xi_gt && yk_gt {
            assert(0 <= i < x.len() && i < z.len() && same_prefix(x, z, i) && x[i] > z[i]);
        } else if xi_gt {
            // k == z.len() == i < y.len(): z ends where x and y part.
            assert(same_prefix(x, z, z.len() as int));
        } else if yk_gt {
            // i == y.len() == k < z.len(): y ends where y and z part.
            assert(false);
        } else {
            assert(same_prefix(x, z, z.len() as int));
        }
    }
}

// ---------------------------------------------------------------------------
// Choosing the release to offer

/// The name and download address of one file of a release, each as found in
/// the release description (`None` where it is missing or not text).
pub struct AssetFields {
    pub name: Option<String>,
    pub browser_download_url: Option<String>,
}

/// An asset's name and download address, by view.
pub open spec fn asset_view(a: AssetFields) -> (Option<Seq<char>>, Option<Seq<char>>) {
    (opt_view(a.name), opt_view(a.browser_download_url))
}

/// An asset is offered for this platform when its name mentions `linux` or
/// `x86_64`.
pub open spec fn offered(a: (Option<Seq<char>>, Option<Seq<char>>)) -> bool {
    match a.0 {
        Some(n) => contains_seq(n, "linux"@) || contains_seq(n, "x86_64"@),
        None => false,
    }
}

pub open spec fn spec_asset_matches(a: AssetFields) -> bool {
    offered(asset_view(a))
}

fn asset_matches(a: &AssetFields) -> (r: bool)
    ensures
        r == spec_asset_matches(*a),
{
    match &a.name {
        Some(n) => {
            let chars = chars_of(n.as_str());
            let linux = chars_of("linux");
            let x86 = chars_of("x86_64");
            contains_exec(&chars, &linux) || contains_exec(&chars, &x86)
        },
        None => false,
    }
}

/// The position of the first asset offered for this platform.
pub fn find_matching_asset(assets: &Vec<AssetFields>) -> (r: Option<usize>)
    ensures
        match r {
            Some(i) => i < assets@.len() && spec_asset_matches(assets@[i as int])
                && forall|j: int| 0 <= j < i ==> !spec_asset_matches(#[trigger] assets@[j]),
            None => forall|j: int| 0 <= j < assets@.len() ==> !spec_asset_matches(#[trigger] assets@[j]),
        },
{
    let mut i: usize = 0;
    while i < assets.len()
        invariant
            i <= assets.len(),
            forall|j: int| 0 <= j < i ==> !spec_asset_matches(#[trigger] assets@[j]),
        decreases assets.len() - i,
    {
        if asset_matches(&assets[i]) {
            return Some(i);
        }
        i = i + 1;
    }
    None
}

/// What checking for an update decides, given the current version and the
/// fields of the latest release: no update where the release is not newer,
/// else the release (tag, name, address of the first file offered for this
/// platform, release notes).
pub open spec fn spec_release_from(
    current: Seq<char>,
    tag_name: Option<Seq<char>>,
    name: Option<Seq<char>>,
    body: Option<Seq<char>>,
    assets: Option<Seq<(Option<Seq<char>>, Option<Seq<char>>)>>,
) -> Result<Option<(Seq<char>, Seq<char>, Seq<char>, Option<Seq<char>>)>, Seq<char>> {
    match tag_name {
        None => Err("Missing tag_name"@),
        Some(tag) => if !spec_is_newer(tag, current) {
            Ok(None)
        } else {
            match assets {
                None => Err("No assets found"@),
                Some(list) => if exists|i: int| 0 <= i < list.len() && #[trigger] offered(list[i]) {
                    let i = choose|i: int|
                        0 <= i < list.len() && #[trigger] offered(list[i]) && forall|j: int|
                            0 <= j < i ==> !offered(#[trigger] list[j]);
                    match list[i].1 {
                        Some(url) => Ok(
                            Some(
                                (
                                    tag,
                                    match name {
                                        Some(n) => n,
                                        None => tag,
                                    },
                                    url,
                                    body,
                                ),
                            ),
                        ),
                        None => Err("No compatible asset found"@),
                    }
                } else {
                    Err("No compatible asset found"@)
                },
            }
        },
    }
}

pub open spec fn release_view(r: Result<Option<ReleaseInfo>, String>) -> Result<Option<(Seq<char>, Seq<char>, Seq<char>, Option<Seq<char>>)>, Seq<char>> {
    match r {
        Ok(Some(info)) => Ok(Some((info.tag_name@, info.name@, info.download_url@, opt_view(info.body)))),
        Ok(None) => Ok(None),
        Err(e) => Err(e@),
    }
}

/// What checking for an update decides, given the current version and the
/// fields read from the latest release's description.
pub fn release_from(
    current_version: &str,
    tag_name: Option<String>,
    name: Option<String>,
    body: Option<String>,
    assets: Option<Vec<AssetFields>>,
) -> (r: Result<Option<ReleaseInfo>, String>)
    ensures
        release_view(r) == spec_release_from(
            current_version@,
            opt_view(tag_name),
            opt_view(name),
            opt_view(body),
            match assets {
                Some(v) => Some(v@.map_values(|a: AssetFields| asset_view(a))),
                None => None,
            },
        ),
{
    let tag = match tag_name {
        Some(t) => t,
        None => return Err(owned("Missing tag_name")),
    };
    if !is_newer(tag.as_str(), current_version) {
        return Ok(None);
    }
    let list = match assets {
        Some(l) => l,
        None => return Err(owned("No assets found")),
    };
    match find_matching_asset(&list) {
        Some(i) => {
            let ghost l = list@.map_values(|a: AssetFields| asset_view(a));
            assert(0 <= i < l.len() && offered(l[i as int]));
            proof {
                assert forall|j: int| 0 <= j < i implies !offered(#[trigger] l[j]) by {
                    assert(!spec_asset_matches(list@[j]));
                }
                let k = choose|k: int|
                    0 <= k < l.len() && #[trigger] offered(l[k]) && forall|j: int|
                        0 <= j < k ==> !offered(#[trigger] l[j]);
                if k < i {
                } else if k > i {
                    assert(!offered(l[i as int]));
                }
            }
            match &list[i].browser_download_url {
                Some(url) => {
                    let display_name = match name {
                        Some(n) => n,
                        None => owned(tag.as_str()),
                    };
                    Ok(Some(ReleaseInfo { tag_name: tag, name: display_name, body, download_url: owned(url.as_str()) }))
                },
                None => Err(owned("No compatible asset found")),
            }
        },
        None => Err(owned("No compatible asset found")),
    }
}

// ---------------------------------------------------------------------------
// Reading the release service's answer

/// The fields of a release description that the check reads.
pub struct ReleaseFields {
    pub tag_name: Option<String>,
    pub name: Option<String>,
    pub body: Option<String>,
    /// The assets, where `assets` is a list.
    pub assets: Option<Vec<AssetFields>>,
}

/// What `serde_json` reads from the bytes `bytes` of a release description:
/// where they are JSON, the text values of its `tag_name`, `name` and `body`
/// fields and, where `assets` is a list, the text values of each asset's
/// `name` and `browser_download_url`; else the parser's message.
pub uninterp spec fn spec_release_json(bytes: Seq<u8>) -> Result<
    (Option<Seq<char>>, Option<Seq<char>>, Option<Seq<char>>, Option<Seq<(Option<Seq<char>>, Option<Seq<char>>)>>),
    Seq<char>,
>;

pub open spec fn fields_view(r: Result<ReleaseFields, String>) -> Result<
    (Option<Seq<char>>, Option<Seq<char>>, Option<Seq<char>>, Option<Seq<(Option<Seq<char>>, Option<Seq<char>>)>>),
    Seq<char>,
> {
    match r {
        Ok(f) => Ok(
            (
                opt_view(f.tag_name),
                opt_view(f.name),
                opt_view(f.body),
                match f.assets {
                    Some(v) => Some(v@.map_values(|a: AssetFields| asset_view(a))),
                    None => None,
                },
            ),
        ),
        Err(e) => Err(e@),
    }
}

/// Reads the fields of a release description.
///
/// Calls `serde_json::from_slice` into a `serde_json::Value` and picks the
/// text fields out of it (a field that is missing or not text is `None`);
/// a parse error is given by its display text.  The result is named
/// `spec_release_json` and depends on `bytes` alone.
#[verifier::external_body]
fn read_release_json(bytes: &[u8]) -> (r: Result<ReleaseFields, String>)
    ensures
        fields_view(r) == spec_release_json(bytes@),
{
    let v: serde_json::Value = serde_json::from_slice(bytes).map_err(|e| e.to_string())?;
    let s = |x: Option<&serde_json::Value>| x.and_then(|y| y.as_str()).map(|t| t.to_string());
    let assets = v.get("assets").and_then(|a| a.as_array()).map(|a| {
        a.iter().map(|x| AssetFields { name: s(x.get("name")), browser_download_url: s(x.get("browser_download_url")) }).collect()
    });
    Ok(ReleaseFields { tag_name: s(v.get("tag_name")), name: s(v.get("name")), body: s(v.get("body")), assets })
}

/// The arguments of `curl` that fetch the description of the latest release.
pub fn release_query_args() -> (r: Vec<String>)
    ensures
        r@.map_values(|s: String| s@) == seq![
            "-fsSL"@,
            "-H"@,
            "Accept: application/json"@,
            "https://api.github.com/repos/the-shoaib2/app-pro/releases/latest"@,
        ],
{
    let mut r: Vec<String> = Vec::new();
    r.push(owned("-fsSL"));
    r.push(owned("-H"));
    r.push(owned("Accept: application/json"));
    r.push(owned("https://api.github.com/repos/the-shoaib2/app-pro/releases/latest"));
    assert(r@.map_values(|s: String| s@) =~= seq![
        "-fsSL"@,
        "-H"@,
        "Accept: application/json"@,
        "https://api.github.com/repos/the-shoaib2/app-pro/releases/latest"@,
    ]);
    r
}

/// What a download of the release description gave: whether it succeeded,
/// the bytes it wrote out, and its error output.
pub struct RawOutput {
    pub success: bool,
    pub stdout: Vec<u8>,
    pub stderr: String,
}

/// What the check for an update gives, from how fetching the description
/// went (`fetched`: the run's success, its output bytes and its error
/// output, or why it could not run): the fetch's failure, the parser's, or
/// what `spec_release_from` decides of the fields read.
pub open spec fn spec_check_result(
    current: Seq<char>,
    fetched: Result<(bool, Seq<u8>, Seq<char>), Seq<char>>,
) -> Result<Option<(Seq<char>, Seq<char>, Seq<char>, Option<Seq<char>>)>, Seq<char>> {
    match fetched {
        Err(e) => Err("Failed to check updates: "@ + e),
        Ok((success, out, err)) => if !success {
            Err("GitHub API error: "@ + err)
        } else {
            match spec_release_json(out) {
                Err(e) => Err("Parse error: "@ + e),
                Ok((tag, name, body, assets)) => spec_release_from(current, tag, name, body, assets),
            }
        },
    }
}

pub open spec fn fetched_view(f: Result<RawOutput, String>) -> Result<(bool, Seq<u8>, Seq<char>), Seq<char>> {
    match f {
        Ok(r) => Ok((r.success, r.stdout@, r.stderr@)),
        Err(e) => Err(e@),
    }
}

fn prefixed(prefix: &str, s: &str) -> (r: String)
    ensures
        r@ == prefix@ + s@,
{
    let mut v = chars_of(prefix);
    crate::text::push_str(&mut v, s);
    string_of(&v)
}

/// The check for an update, given the current version and how fetching the
/// latest release's description went.
pub fn check_for_updates(current_version: &str, fetched: Result<RawOutput, String>) -> (r: Result<Option<ReleaseInfo>, String>)
    ensures
        release_view(r) == spec_check_result(current_version@, fetched_view(fetched)),
{
    let res = match fetched {
        Err(e) => return Err(prefixed("Failed to check updates: ", e.as_str())),
        Ok(res) => res,
    };
    if !res.success {
        return Err(prefixed("GitHub API error: ", res.stderr.as_str()));
    }
    match read_release_json(res.stdout.as_slice()) {
        Err(e) => Err(prefixed("Parse error: ", e.as_str())),
        Ok(f) => release_from(current_version, f.tag_name, f.name, f.body, f.assets),
    }
}

} // verus!
