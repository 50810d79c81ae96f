//! Reading system facts from the text of `/etc/os-release`, `/proc/meminfo`,
//! `/proc/cpuinfo` and `/proc/mounts`.
use vstd::prelude::*;
use crate::text::{
    chars_of, contains_exec, contains_seq, lines, lines_exec, owned, parse_u64, parse_u64_exec, split_char,
    split_char_exec, starts_with, starts_with_exec, string_of, string_views, trim, trim_char_both,
    trim_char_both_exec, trim_exec, views, words, words_exec, eq_exec,
};

verus! {

// ---------------------------------------------------------------------------
// /etc/os-release

/// The value of `key` on a line: the second `=`-separated piece, without
/// surrounding double quotes.
pub open spec fn os_release_line(l: Seq<char>) -> Option<Seq<char>> {
    let ps = split_char(l, '=');
    if ps.len() >= 2 {
        Some(trim_char_both(ps[1], '"'))
    } else {
        None
    }
}

/// The value the first line beginning with `key` gives (none where that line
/// has no `=`).
pub open spec fn first_with_key(ls: Seq<Seq<char>>, key: Seq<char>) -> Option<Seq<char>>
    decreases ls.len(),
{
    if ls.len() == 0 {
        None
    } else if starts_with(ls[0], key) {
        os_release_line(ls[0])
    } else {
        first_with_key(ls.drop_first(), key)
    }
}

pub open spec fn spec_os_release(content: Seq<char>, key: Seq<char>) -> Option<Seq<char>> {
    first_with_key(lines(content), key)
}

/// The value of `key` in the text of an os-release file.
pub fn read_os_release(content: &str, key: &str) -> (r: Option<String>)
    ensures
        match r {
            Some(v) => spec_os_release(content@, key@) == Some(v@),
            None => spec_os_release(content@, key@) is None,
        },
{
    let ls = lines_exec(&chars_of(content));
    let k = chars_of(key);
    let ghost lv = views(ls@);
    let mut i: usize = 0;
    assert(lv.skip(0) =~= lv);
    while i < ls.len()
        invariant
            i <= ls.len(),
            lv == views(ls@),
            lv == lines(content@),
            k@ == key@,
            first_with_key(lv, key@) == first_with_key(lv.skip(i as int), key@),
        decreases ls.len() - i,
    {
        assert(lv.skip(i as int)[0] == ls@[i as int]@);
        assert(lv.skip(i as int).drop_first() =~= lv.skip(i + 1));
        if starts_with_exec(&ls[i], &k) {
            let ps = split_char_exec(&ls[i], '=');
            if ps.len() >= 2 {
                assert(views(ps@)[1] == ps@[1]@);
                return Some(string_of(&trim_char_both_exec(&ps[1], '"')));
            }
            return None;
        }
        i = i + 1;
    }
    None
}

// ---------------------------------------------------------------------------
// /proc/meminfo

/// The number (in kB) on the first line beginning with `key` that has a
/// second word: that word read as a number, or 0 where it is not one.
pub open spec fn first_meminfo(ls: Seq<Seq<char>>, key: Seq<char>) -> Option<u64>
    decreases ls.len(),
{
    if ls.len() == 0 {
        None
    } else if starts_with(ls[0], key) && words(ls[0]).len() >= 2 {
        Some(
            match parse_u64(words(ls[0])[1]) {
                Some(n) => n,
                None => 0,
            },
        )
    } else {
        first_meminfo(ls.drop_first(), key)
    }
}

pub open spec fn spec_meminfo_kb(content: Seq<char>, key: Seq<char>) -> Option<u64> {
    first_meminfo(lines(content), key)
}

/// The amount in bytes that the text of a meminfo file gives for `key`.
pub open spec fn spec_mem_info(content: Seq<char>, key: Seq<char>) -> int {
    match spec_meminfo_kb(content, key) {
        Some(kb) => kb * 1024,
        None => 0,
    }
}

/// The amount in kB that the text of a meminfo file gives for `key`.
pub fn meminfo_kb(content: &str, key: &str) -> (r: Option<u64>)
    ensures
        r == spec_meminfo_kb(content@, key@),
{
    let ls = lines_exec(&chars_of(content));
    let k = chars_of(key);
    let ghost lv = views(ls@);
    let mut i: usize = 0;
    assert(lv.skip(0) =~= lv);
    while i < ls.len()
        invariant
            i <= ls.len(),
            lv == views(ls@),
            lv == lines(content@),
            k@ == key@,
            first_meminfo(lv, key@) == first_meminfo(lv.skip(i as int), key@),
        decreases ls.len() - i,
    {
        assert(lv.skip(i as int)[0] == ls@[i as int]@);
        assert(lv.skip(i as int).drop_first() =~= lv.skip(i + 1));
        if starts_with_exec(&ls[i], &k) {
            let ws = words_exec(&ls[i]);
            if ws.len() >= 2 {
                assert(views(ws@)[1] == ws@[1]@);
                return Some(
                    match parse_u64_exec(&ws[1]) {
                        Some(n) => n,
                        None => 0,
                    },
                );
            }
        }
        i = i + 1;
    }
    None
}

/// The amount in bytes that the text of a meminfo file gives for `key`.
///
/// The kB figure is multiplied by 1024, so it must stay in the `u64` range
/// when multiplied (`meminfo_kb` tells).
pub fn get_mem_info(content: &str, key: &str) -> (r: u64)
    requires
        spec_mem_info(content@, key@) <= u64::MAX,
    ensures
        r == spec_mem_info(content@, key@),
{
    match meminfo_kb(content, key) {
        Some(kb) => kb * 1024,
        None => 0,
    }
}

// ---------------------------------------------------------------------------
// /proc/cpuinfo

/// The first line beginning with `prefix`.
pub open spec fn first_starting(ls: Seq<Seq<char>>, prefix: Seq<char>) -> Option<Seq<char>>
    decreases ls.len(),
{
    if ls.len() == 0 {
        None
    } else if starts_with(ls[0], prefix) {
        Some(ls[0])
    } else {
        first_starting(ls.drop_first(), prefix)
    }
}

/// The processor model: the trimmed text after the `:` of the first
/// `model name` line, or `Unknown`.
pub open spec fn spec_cpu_model(content: Option<Seq<char>>) -> Seq<char> {
    let found = match content {
        Some(c) => match first_starting(lines(c), "model name"@) {
            Some(l) => {
                let ps = split_char(l, ':');
                if ps.len() >= 2 {
                    Some(trim(ps[1]))
                } else {
                    None
                }
            },
            None => None,
        },
        None => None,
    };
    match found {
        Some(m) => m,
        None => "Unknown"@,
    }
}

/// The processor model, given the text of the cpuinfo file (if it could be read).
pub fn get_cpu_model(content: Option<&str>) -> (r: String)
    ensures
        r@ == spec_cpu_model(
            match content {
                Some(c) => Some(c@),
                None => None,
            },
        ),
{
    let c = match content {
        Some(c) => c,
        None => return owned("Unknown"),
    };
    let ls = lines_exec(&chars_of(c));
    let k = chars_of("model name");
    let ghost lv = views(ls@);
    let mut i: usize = 0;
    assert(lv.skip(0) =~= lv);
    while i < ls.len()
        invariant
            i <= ls.len(),
            lv == views(ls@),
            lv == lines(c@),
            k@ == "model name"@,
            content == Some(c),
            first_starting(lv, "model name"@) == first_starting(lv.skip(i as int), "model name"@),
        decreases ls.len() - i,
    {
        assert(lv.skip(i as int)[0] == ls@[i as int]@);
        assert(lv.skip(i as int).drop_first() =~= lv.skip(i + 1));
        if starts_with_exec(&ls[i], &k) {
            assert(first_starting(lv, "model name"@) == Some(ls@[i as int]@));
            let ps = split_char_exec(&ls[i], ':');
            if ps.len() >= 2 {
                assert(views(ps@)[1] == ps@[1]@);
                return string_of(&trim_exec(&ps[1]));
            }
            return owned("Unknown");
        }
        i = i + 1;
    }
    owned("Unknown")
}

proof fn lemma_first_starting_at(ls: Seq<Seq<char>>, prefix: Seq<char>, i: int)
    requires
        0 <= i < ls.len(),
        starts_with(ls[i], prefix),
        forall|j: int| 0 <= j < i ==> !starts_with(#[trigger] ls[j], prefix),
    ensures
        first_starting(ls, prefix) == Some(ls[i]),
    decreases i,
{
    if i > 0 {
        assert forall|j: int| 0 <= j < i - 1 implies !starts_with(#[trigger] ls.drop_first()[j], prefix) by {
            assert(ls.drop_first()[j] == ls[j + 1]);
        }
        assert(!starts_with(ls[0], prefix));
        lemma_first_starting_at(ls.drop_first(), prefix, i - 1);
    }
}

proof fn lemma_first_starting_none(ls: Seq<Seq<char>>, prefix: Seq<char>)
    requires
        forall|j: int| 0 <= j < ls.len() ==> !starts_with(#[trigger] ls[j], prefix),
    ensures
        first_starting(ls, prefix) is None,
    decreases ls.len(),
{
    if ls.len() > 0 {
        assert(!starts_with(ls[0], prefix));
        assert forall|j: int| 0 <= j < ls.len() - 1 implies !starts_with(#[trigger] ls.drop_first()[j], prefix) by {
            assert(ls.drop_first()[j] == ls[j + 1]);
        }
        lemma_first_starting_none(ls.drop_first(), prefix);
    }
}

/// The processor model comes from the first line of the cpuinfo text that
/// begins with `model name`: it is the trimmed text after that line's first
/// `:` (`Unknown` where the line has none).  No earlier line, such as the
/// `model` line that precedes it in every x86 cpuinfo, supplies it.
pub proof fn lemma_cpu_model_from_first_model_name_line(c: Seq<char>, i: int)
    requires
        0 <= i < lines(c).len(),
        starts_with(lines(c)[i], "model name"@),
        forall|j: int| 0 <= j < i ==> !starts_with(#[trigger] lines(c)[j], "model name"@),
    ensures
        split_char(lines(c)[i], ':').len() >= 2 ==> spec_cpu_model(Some(c)) == trim(split_char(lines(c)[i], ':')[1]),
        split_char(lines(c)[i], ':').len() < 2 ==> spec_cpu_model(Some(c)) == "Unknown"@,
{
    lemma_first_starting_at(lines(c), "model name"@, i);
}

/// Where no line of the cpuinfo text begins with `model name`, the model is
/// `Unknown`, whatever other lines say.
pub proof fn lemma_cpu_model_unknown_without_model_name(c: Seq<char>)
    requires
        forall|j: int| 0 <= j < lines(c).len() ==> !starts_with(#[trigger] lines(c)[j], "model name"@),
    ensures
        spec_cpu_model(Some(c)) == "Unknown"@,
{
    lemma_first_starting_none(lines(c), "model name"@);
}

// ---------------------------------------------------------------------------
// Kernel and host names

/// Trimmed text, or `unknown` where there is none.
pub open spec fn spec_trimmed_or_unknown(content: Option<Seq<char>>) -> Seq<char> {
    match content {
        Some(c) => trim(c),
        None => "unknown"@,
    }
}

/// The kernel release, given the text of the osrelease file (if it could be
/// read).
pub fn get_kernel(content: Option<&str>) -> (r: String)
    ensures
        r@ == spec_trimmed_or_unknown(
            match content {
                Some(c) => Some(c@),
                None => None,
            },
        ),
{
    match content {
        Some(c) => string_of(&trim_exec(&chars_of(c))),
        None => owned("unknown"),
    }
}

/// The host name: the `HOSTNAME` variable, else the `HOST` variable, else the
/// trimmed hostname file, else `unknown`.
pub fn whoami_host(hostname_var: Option<&str>, host_var: Option<&str>, hostname_file: Option<&str>) -> (r: String)
    ensures
        r@ == match hostname_var {
            Some(h) => h@,
            None => match host_var {
                Some(h) => h@,
                None => spec_trimmed_or_unknown(
                    match hostname_file {
                        Some(c) => Some(c@),
                        None => None,
                    },
                ),
            },
        },
{
    match hostname_var {
        Some(h) => owned(h),
        None => match host_var {
            Some(h) => owned(h),
            None => get_kernel(hostname_file),
        },
    }
}

// ---------------------------------------------------------------------------
// /proc/mounts

/// The mount point a mounts line lists, where it is one to show: an absolute
/// path other than `/`, not under `/dev`, `/sys`, `/proc`, `/run` or `/tmp`,
/// not mentioning `docker`, on a file system whose type does not mention
/// `overlay`.
pub open spec fn shown_mount(l: Seq<char>) -> Option<Seq<char>> {
    let ps = words(l);
    if ps.len() < 2 {
        None
    } else {
        let mp = ps[1];
        let fs = if ps.len() > 2 {
            ps[2]
        } else {
            Seq::<char>::empty()
        };
        if starts_with(mp, "/"@) && mp.len() > 1 && !starts_with(mp, "/dev"@) && !starts_with(mp, "/sys"@)
            && !starts_with(mp, "/proc"@) && !starts_with(mp, "/run"@) && !starts_with(mp, "/tmp"@)
            && !contains_seq(fs, "overlay"@) && !contains_seq(mp, "docker"@) {
            Some(mp)
        } else {
            None
        }
    }
}

/// `list` with `x` added at the end, unless it is already there.
pub open spec fn add_unique(list: Seq<Seq<char>>, x: Seq<char>) -> Seq<Seq<char>> {
    if list.contains(x) {
        list
    } else {
        list.push(x)
    }
}

/// `/` followed by the shown mount points of `ls`, each once, in order of
/// first appearance.
pub open spec fn mounts_of(ls: Seq<Seq<char>>) -> Seq<Seq<char>>
    decreases ls.len(),
{
    if ls.len() == 0 {
        seq!["/"@]
    } else {
        let r = mounts_of(ls.drop_last());
        match shown_mount(ls.last()) {
            Some(m) => add_unique(r, m),
            None => r,
        }
    }
}

pub open spec fn spec_list_mounts(content: Option<Seq<char>>) -> Seq<Seq<char>> {
    match content {
        Some(c) => mounts_of(lines(c)),
        None => seq!["/"@],
    }
}

fn shown_mount_exec(l: &[char]) -> (r: Option<Vec<char>>)
    ensures
        match r {
            Some(m) => shown_mount(l@) == Some(m@),
            None => shown_mount(l@) is None,
        },
{
    let ps = words_exec(l);
    if ps.len() < 2 {
        return None;
    }
    let ghost pv = views(ps@);
    assert(pv[1] == ps@[1]@);
    let mp = &ps[1];
    let empty: Vec<char> = Vec::new();
    let fs = if ps.len() > 2 {
        assert(pv[2] == ps@[2]@);
        &ps[2]
    } else {
        &empty
    };
    if starts_with_exec(mp, &chars_of("/")) && mp.len() > 1 && !starts_with_exec(mp, &chars_of("/dev"))
        && !starts_with_exec(mp, &chars_of("/sys")) && !starts_with_exec(mp, &chars_of("/proc"))
        && !starts_with_exec(mp, &chars_of("/run")) && !starts_with_exec(mp, &chars_of("/tmp"))
        && !contains_exec(fs, &chars_of("overlay")) && !contains_exec(mp, &chars_of("docker")) {
        Some(mp.clone())
    } else {
        None
    }
}

/// The mount points to show, given the text of the mounts file (if it could
/// be read).
pub fn list_mounts(content: Option<&str>) -> (r: Vec<String>)
    ensures
        string_views(r@) == spec_list_mounts(
            match content {
                Some(c) => Some(c@),
                None => None,
            },
        ),
{
    let mut mounts: Vec<String> = Vec::new();
    mounts.push(owned("/"));
    assert(string_views(mounts@) =~= seq!["/"@]);
    let c = match content {
        Some(c) => c,
        None => return mounts,
    };
    let ls = lines_exec(&chars_of(c));
    let ghost lv = views(ls@);
    let mut i: usize = 0;
    assert(lv.take(0) =~= Seq::<Seq<char>>::empty());
    while i < ls.len()
        invariant
            i <= ls.len(),
            lv == views(ls@),
            lv == lines(c@),
            string_views(mounts@) == mounts_of(lv.take(i as int)),
        decreases ls.len() - i,
    {
        assert(lv.take(i + 1).drop_last() =~= lv.take(i as int));
        assert(lv.take(i + 1).last() == ls@[i as int]@);
        match shown_mount_exec(&ls[i]) {
            Some(m) => {
                if !crate::text::list_contains(&mounts, &m) {
                    let ghost before = mounts@;
                    mounts.push(string_of(&m));
                    assert(string_views(mounts@) =~= string_views(before).push(m@));
                }
            },
            None => {},
        }
        i = i + 1;
    }
    assert(lv.take(ls.len() as int) =~= lv);
    mounts
}

/// A mount point worth showing as a disk: an absolute path other than `/`,
/// under none of `/dev`, `/sys`, `/proc`, `/run` and `/tmp`, not mentioning
/// `docker`.
pub open spec fn is_disk_mount_point(m: Seq<char>) -> bool {
    &&& starts_with(m, "/"@)
    &&& m.len() > 1
    &&& !starts_with(m, "/dev"@)
    &&& !starts_with(m, "/sys"@)
    &&& !starts_with(m, "/proc"@)
    &&& !starts_with(m, "/run"@)
    &&& !starts_with(m, "/tmp"@)
    &&& !contains_seq(m, "docker"@)
}

proof fn lemma_root_is_short()
    ensures
        "/"@.len() == 1,
{
    reveal_strlit("/");
}

proof fn lemma_mounts_of_props(ls: Seq<Seq<char>>)
    ensures
        mounts_of(ls).len() >= 1,
        mounts_of(ls)[0] == "/"@,
        forall|k: int| #![trigger mounts_of(ls)[k]] 1 <= k < mounts_of(ls).len() ==> exists|i: int| 0 <= i < ls.len() && #[trigger] shown_mount(ls[i]) == Some(mounts_of(ls)[k]),
        forall|i: int| 0 <= i < ls.len() && (#[trigger] shown_mount(ls[i])) is Some ==> mounts_of(ls).contains(shown_mount(ls[i])->Some_0),
        forall|a: int, b: int| #![trigger mounts_of(ls)[a], mounts_of(ls)[b]] 0 <= a < b < mounts_of(ls).len() ==> mounts_of(ls)[a] != mounts_of(ls)[b],
    decreases ls.len(),
{
    lemma_root_is_short();
    if ls.len() > 0 {
        let p = ls.drop_last();
        lemma_mounts_of_props(p);
        let r = mounts_of(p);
        let out = mounts_of(ls);
        assert forall|i: int| 0 <= i < p.len() implies #[trigger] shown_mount(ls[i]) == shown_mount(p[i]) by {}
        match shown_mount(ls.last()) {
            Some(m) => {
                assert(m.len() > 1);
                if !r.contains(m) {
                    assert(out == r.push(m));
                    assert forall|k: int| #![trigger out[k]] 1 <= k < out.len() implies exists|i: int| 0 <= i < ls.len() && #[trigger] shown_mount(ls[i]) == Some(out[k]) by {
                        if k == r.len() {
                            assert(shown_mount(ls[ls.len() - 1]) == Some(out[k]));
                        } else {
                            assert(out[k] == r[k]);
                            let i = choose|i: int| 0 <= i < p.len() && #[trigger] shown_mount(p[i]) == Some(r[k]);
                            assert(shown_mount(ls[i]) == Some(out[k]));
                        }
                    }
                    assert forall|i: int| 0 <= i < ls.len() && (#[trigger] shown_mount(ls[i])) is Some implies out.contains(shown_mount(ls[i])->Some_0) by {
                        if i == ls.len() - 1 {
                            assert(out[r.len() as int] == m);
                        } else {
                            assert(shown_mount(ls[i]) == shown_mount(p[i]));
                            let j = choose|j: int| 0 <= j < r.len() && r[j] == shown_mount(p[i])->Some_0;
                            assert(out[j] == r[j]);
                        }
                    }
                } else {
                    assert(out == r);
                    assert forall|k: int| #![trigger out[k]] 1 <= k < out.len() implies exists|i: int| 0 <= i < ls.len() && #[trigger] shown_mount(ls[i]) == Some(out[k]) by {
                        let i = choose|i: int| 0 <= i < p.len() && #[trigger] shown_mount(p[i]) == Some(r[k]);
                        assert(shown_mount(ls[i]) == Some(out[k]));
                    }
                    assert forall|i: int| 0 <= i < ls.len() && (#[trigger] shown_mount(ls[i])) is Some implies out.contains(shown_mount(ls[i])->Some_0) by {
                        if i < ls.len() - 1 {
                            assert(shown_mount(ls[i]) == shown_mount(p[i]));
                        }
                    }
                }
            },
            None => {
                assert(out == r);
                assert forall|k: int| #![trigger out[k]] 1 <= k < out.len() implies exists|i: int| 0 <= i < ls.len() && #[trigger] shown_mount(ls[i]) == Some(out[k]) by {
                    let i = choose|i: int| 0 <= i < p.len() && #[trigger] shown_mount(p[i]) == Some(r[k]);
                    assert(shown_mount(ls[i]) == Some(out[k]));
                }
                assert forall|i: int| 0 <= i < ls.len() && (#[trigger] shown_mount(ls[i])) is Some implies out.contains(shown_mount(ls[i])->Some_0) by {
                    if i < ls.len() - 1 {
                        assert(shown_mount(ls[i]) == shown_mount(p[i]));
                    }
                }
            },
        }
    }
}

/// The mounts listed: `/` first, each mount point once, and after `/` only
/// disks, which pass `is_disk_mount_point`: never a device, kernel or
/// runtime file system such as `/dev`, `/dev/pts`, `/sys/...` or `/proc`.
pub proof fn lemma_listed_mounts_are_disks(content: Option<Seq<char>>)
    ensures
        spec_list_mounts(content).len() >= 1,
        spec_list_mounts(content)[0] == "/"@,
        forall|a: int, b: int| #![trigger spec_list_mounts(content)[a], spec_list_mounts(content)[b]] 0 <= a < b < spec_list_mounts(content).len() ==> spec_list_mounts(content)[a] != spec_list_mounts(content)[b],
        forall|k: int| 1 <= k < spec_list_mounts(content).len() ==> is_disk_mount_point(#[trigger] spec_list_mounts(content)[k]),
{
    match content {
        Some(c) => {
            let ls = lines(c);
            lemma_mounts_of_props(ls);
            let r = mounts_of(ls);
            assert forall|k: int| 1 <= k < r.len() implies is_disk_mount_point(#[trigger] r[k]) by {
                let i = choose|i: int| 0 <= i < ls.len() && #[trigger] shown_mount(ls[i]) == Some(r[k]);
            }
        },
        None => {
            lemma_root_is_short();
        },
    }
}

/// Each mount listed after `/` is the mount point (second field) of some
/// line of the mounts text.
pub proof fn lemma_listed_mounts_come_from_lines(c: Seq<char>, k: int)
    requires
        1 <= k < spec_list_mounts(Some(c)).len(),
    ensures
        exists|i: int| 0 <= i < lines(c).len() && words(#[trigger] lines(c)[i]).len() >= 2
            && words(lines(c)[i])[1] == spec_list_mounts(Some(c))[k],
{
    let ls = lines(c);
    lemma_mounts_of_props(ls);
    let r = mounts_of(ls);
    assert(r[k] == r[k]);
    let i = choose|i: int| 0 <= i < ls.len() && #[trigger] shown_mount(ls[i]) == Some(r[k]);
    assert(words(lines(c)[i]).len() >= 2 && words(lines(c)[i])[1] == r[k]);
}

/// Every line of the mounts text whose mount point (second field) is a disk
/// mount point, on a file system (third field) whose type does not mention
/// `overlay`, has its mount point listed.
pub proof fn lemma_disk_mounts_are_listed(c: Seq<char>, i: int)
    requires
        0 <= i < lines(c).len(),
        words(lines(c)[i]).len() >= 2,
        is_disk_mount_point(words(lines(c)[i])[1]),
        words(lines(c)[i]).len() > 2 ==> !contains_seq(words(lines(c)[i])[2], "overlay"@),
    ensures
        spec_list_mounts(Some(c)).contains(words(lines(c)[i])[1]),
{
    let ls = lines(c);
    if words(ls[i]).len() <= 2 {
        if contains_seq(Seq::<char>::empty(), "overlay"@) {
            let j = choose|j: int| crate::text::occurs_at(Seq::<char>::empty(), "overlay"@, j);
            reveal_strlit("overlay");
        }
    }
    assert(shown_mount(ls[i]) == Some(words(ls[i])[1]));
    lemma_mounts_of_props(ls);
}

/// The heading of a mounted file system's section: the root is called
/// `System (/) `, others by their mount point.
pub fn mount_label(mount: &str) -> (r: String)
    ensures
        r@ == if mount@ == "/"@ {
            "System (/) "@
        } else {
            mount@
        },
{
    if crate::text::eq_exec(&chars_of(mount), &chars_of("/")) {
        owned("System (/) ")
    } else {
        owned(mount)
    }
}

} // verus!
