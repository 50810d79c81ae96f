//! Reading process information from the text of `/proc` files, and the
//! decisions around ending processes.
use vstd::prelude::*;
use std::collections::HashMap;
use crate::system::ExecResult;
use crate::text::{
    chars_of, concat_vec, contains_exec, contains_seq, decimal_chars, decimal_string, ends_with,
    ends_with_exec, eq_exec, find_char, find_char_exec, lemma_find_char, lemma_rfind_char, lines,
    lines_exec, owned, parse_hex_u16, parse_hex_u16_exec, parse_u32, parse_u32_exec, parse_u64,
    parse_u64_exec, rfind_char, rfind_char_exec, skip_vec, slice_vec, spec_lowercase, split_char,
    split_char_exec, starts_with, starts_with_exec, string_of, trim, trim_exec, views, words,
    words_exec, lowercase,
};

verus! {

broadcast use vstd::std_specs::hash::group_hash_axioms;

/// A running process.
pub struct ProcessInfo {
    pub pid: u32,
    pub name: String,
    pub memory_bytes: u64,
    pub state: String,
    pub user: String,
    pub ports: Vec<u16>,
}

/// Listing and ending processes.
pub struct ProcessManager;

// ---------------------------------------------------------------------------
// Memory use from /proc/<pid>/status

/// The resident set size, in kB, that a status line gives: a line beginning
/// with `VmRSS:` whose second word is a number.
pub open spec fn vmrss_line_kb(l: Seq<char>) -> Option<u64> {
    if starts_with(l, "VmRSS:"@) && words(l).len() >= 2 {
        parse_u64(words(l)[1])
    } else {
        None
    }
}

/// The value the first such line gives.
pub open spec fn first_vmrss(ls: Seq<Seq<char>>) -> Option<u64>
    decreases ls.len(),
{
    if ls.len() == 0 {
        None
    } else {
        match vmrss_line_kb(ls[0]) {
            Some(k) => Some(k),
            None => first_vmrss(ls.drop_first()),
        }
    }
}

/// The resident set size, in kB, that the text of a status file gives.
pub open spec fn spec_vmrss_kb(status: Seq<char>) -> Option<u64> {
    first_vmrss(lines(status))
}

/// The memory in bytes that a status file reports: its resident set size
/// times 1024, or 0 where it gives none.
pub open spec fn spec_memory_bytes(status: Seq<char>) -> int {
    match spec_vmrss_kb(status) {
        Some(kb) => kb * 1024,
        None => 0,
    }
}

fn vmrss_line_kb_exec(l: &[char]) -> (r: Option<u64>)
    ensures
        r == vmrss_line_kb(l@),
{
    if !starts_with_exec(l, &chars_of("VmRSS:")) {
        return None;
    }
    let ws = words_exec(l);
    if ws.len() < 2 {
        return None;
    }
    assert(views(ws@)[1] == ws@[1]@);
    parse_u64_exec(&ws[1])
}

/// The resident set size, in kB, that the text of a status file gives.
pub fn vmrss_kb(status: &str) -> (r: Option<u64>)
    ensures
        r == spec_vmrss_kb(status@),
{
    let ls = lines_exec(&chars_of(status));
    let ghost lv = views(ls@);
    let mut i: usize = 0;
    assert(lv.skip(0) =~= lv);
    while i < ls.len()
        invariant
            i <= ls.len(),
            lv == views(ls@),
            lv == lines(status@),
            first_vmrss(lv) == first_vmrss(lv.skip(i as int)),
        decreases ls.len() - i,
    {
        assert(lv.skip(i as int)[0] == ls@[i as int]@);
        assert(lv.skip(i as int).drop_first() =~= lv.skip(i + 1));
        match vmrss_line_kb_exec(&ls[i]) {
            Some(k) => {
                return Some(k);
            },
            None => {},
        }
        i = i + 1;
    }
    None
}

/// The memory in bytes that the text of a status file reports.
///
/// The size in kB is multiplied by 1024, so it must not exceed the `u64`
/// range when multiplied (`vmrss_kb` tells).
pub fn parse_memory_from_status(status: &str) -> (r: u64)
    requires
        spec_memory_bytes(status@) <= u64::MAX,
    ensures
        r == spec_memory_bytes(status@),
{
    match vmrss_kb(status) {
        Some(kb) => kb * 1024,
        None => 0,
    }
}

// ---------------------------------------------------------------------------
// User names from /etc/passwd

/// A passwd line names the user `uid` when its third `:`-field is that number.
pub open spec fn passwd_line_uid(l: Seq<char>) -> Option<u32> {
    let ps = split_char(l, ':');
    if ps.len() >= 3 {
        parse_u32(ps[2])
    } else {
        None
    }
}

/// The user name on the first passwd line for `uid`.
pub open spec fn first_user(ls: Seq<Seq<char>>, uid: u32) -> Option<Seq<char>>
    decreases ls.len(),
{
    if ls.len() == 0 {
        None
    } else if passwd_line_uid(ls[0]) == Some(uid) {
        Some(split_char(ls[0], ':')[0])
    } else {
        first_user(ls.drop_first(), uid)
    }
}

/// The name of the user `uid` by the text of the passwd file, or `uid:` and
/// the number where no line names it.
pub open spec fn spec_username(passwd: Seq<char>, uid: u32) -> Seq<char> {
    match first_user(lines(passwd), uid) {
        Some(n) => n,
        None => "uid:"@ + decimal_string(uid as nat),
    }
}

/// The name of the user `uid`, looked up in the text of the passwd file
/// (empty where it cannot be read).
pub fn uid_to_username(passwd: &str, uid: u32) -> (r: String)
    ensures
        r@ == spec_username(passwd@, uid),
{
    let ls = lines_exec(&chars_of(passwd));
    let ghost lv = views(ls@);
    let mut i: usize = 0;
    assert(lv.skip(0) =~= lv);
    while i < ls.len()
        invariant
            i <= ls.len(),
            lv == views(ls@),
            lv == lines(passwd@),
            first_user(lv, uid) == first_user(lv.skip(i as int), uid),
        decreases ls.len() - i,
    {
        assert(lv.skip(i as int)[0] == ls@[i as int]@);
        assert(lv.skip(i as int).drop_first() =~= lv.skip(i + 1));
        let ps = split_char_exec(&ls[i], ':');
        if ps.len() >= 3 {
            assert(views(ps@)[2] == ps@[2]@);
            match parse_u32_exec(&ps[2]) {
                Some(u) => {
                    if u == uid {
                        assert(views(ps@)[0] == ps@[0]@);
                        return string_of(&ps[0]);
                    }
                },
                None => {},
            }
        }
        i = i + 1;
    }
    let prefix = chars_of("uid:");
    let num = decimal_chars(uid as u64);
    string_of(&concat_vec(&prefix, &num))
}

/// The user id a `loginuid` file holds: its trimmed text as a number, or 0.
pub open spec fn spec_login_uid(content: Seq<char>) -> u32 {
    match parse_u32(trim(content)) {
        Some(u) => u,
        None => 0,
    }
}

/// The user id that the text of a `loginuid` file holds.
pub fn parse_login_uid(content: &str) -> (r: u32)
    ensures
        r == spec_login_uid(content@),
{
    match parse_u32_exec(&trim_exec(&chars_of(content))) {
        Some(u) => u,
        None => 0,
    }
}

/// The current user's name: from the login uid where it is a number, else
/// from the `USER` variable, else `unknown`.
pub open spec fn spec_whoami(login_uid: Option<Seq<char>>, passwd: Seq<char>, user_var: Option<Seq<char>>) -> Seq<char> {
    let uid = match login_uid {
        Some(c) => parse_u32(trim(c)),
        None => None,
    };
    match uid {
        Some(u) => spec_username(passwd, u),
        None => match user_var {
            Some(u) => u,
            None => "unknown"@,
        },
    }
}

/// The current user's name, given the text of `/proc/self/loginuid` (if it
/// could be read), of the passwd file, and the `USER` variable (if set).
pub fn whoami(login_uid: Option<&str>, passwd: &str, user_var: Option<&str>) -> (r: String)
    ensures
        r@ == spec_whoami(
            match login_uid {
                Some(c) => Some(c@),
                None => None,
            },
            passwd@,
            match user_var {
                Some(u) => Some(u@),
                None => None,
            },
        ),
{
    let uid = match login_uid {
        Some(c) => parse_u32_exec(&trim_exec(&chars_of(c))),
        None => None,
    };
    match uid {
        Some(u) => uid_to_username(passwd, u),
        None => match user_var {
            Some(u) => owned(u),
            None => owned("unknown"),
        },
    }
}

// ---------------------------------------------------------------------------
// Name and state from /proc/<pid>/stat

/// Reading a stat line takes the text between the first `(` and the last `)`;
/// where the last `)` comes before the first `(` that cannot be done.
pub open spec fn stat_parens_ok(s: Seq<char>) -> bool {
    words(s).len() >= 3 && find_char(s, '(') is Some && rfind_char(s, ')') is Some ==> find_char(s, '(')->Some_0
        < rfind_char(s, ')')->Some_0
}

/// The process name (between the first `(` and the last `)`) and state (the
/// third word) that a stat line gives, if it has at least three words and
/// both brackets.
pub open spec fn spec_parse_stat(s: Seq<char>) -> Option<(Seq<char>, Seq<char>)> {
    if words(s).len() < 3 {
        None
    } else {
        match (find_char(s, '('), rfind_char(s, ')')) {
            (Some(a), Some(b)) => Some((s.subrange(a + 1, b), words(s)[2])),
            _ => None,
        }
    }
}

impl ProcessManager {
    /// Whether the brackets of a stat line are in an order that lets the name
    /// be read.
    pub fn stat_parens_in_order(stat: &str) -> (r: bool)
        ensures
            r == stat_parens_ok(stat@),
    {
        let s = chars_of(stat);
        let ws = words_exec(&s);
        if ws.len() < 3 {
            return true;
        }
        match (find_char_exec(&s, '('), rfind_char_exec(&s, ')')) {
            (Some(a), Some(b)) => a < b,
            _ => true,
        }
    }

    /// The name and state that a stat line gives.
    pub fn parse_stat(stat: &str) -> (r: Option<(String, String)>)
        requires
            stat_parens_ok(stat@),
        ensures
            match r {
                Some((n, st)) => spec_parse_stat(stat@) == Some((n@, st@)),
                None => spec_parse_stat(stat@) is None,
            },
    {
        let s = chars_of(stat);
        let ws = words_exec(&s);
        if ws.len() < 3 {
            return None;
        }
        let a = match find_char_exec(&s, '(') {
            Some(a) => a,
            None => return None,
        };
        let b = match rfind_char_exec(&s, ')') {
            Some(b) => b,
            None => return None,
        };
        proof {
            lemma_find_char(s@, '(');
            lemma_rfind_char(s@, ')');
        }
        let name = slice_vec(&s, a + 1, b);
        assert(views(ws@)[2] == ws@[2]@);
        let state = string_of(&ws[2]);
        Some((string_of(&name), state))
    }
}

// ---------------------------------------------------------------------------
// Listening ports from /proc/net/{tcp,udp}[6]

/// The socket inode and local port that one line of a socket table gives: it
/// needs ten words; for TCP only listening sockets (state `0A`) count; the
/// port is the hexadecimal number after the `:` of the local address, and the
/// inode (the tenth word) must be a positive number.
pub open spec fn socket_line_entry(l: Seq<char>, is_tcp: bool) -> Option<(u64, u16)> {
    let ps = words(l);
    if ps.len() < 10 {
        None
    } else if is_tcp && ps[3] != "0A"@ {
        None
    } else {
        match find_char(ps[1], ':') {
            None => None,
            Some(c) => match parse_hex_u16(ps[1].skip(c + 1)) {
                None => None,
                Some(port) => match parse_u64(ps[9]) {
                    Some(inode) => if inode > 0 {
                        Some((inode, port))
                    } else {
                        None
                    },
                    None => None,
                },
            },
        }
    }
}

/// The entries that the lines `ls` give, in order.
pub open spec fn socket_entries(ls: Seq<Seq<char>>, is_tcp: bool) -> Seq<(u64, u16)>
    decreases ls.len(),
{
    if ls.len() == 0 {
        Seq::<(u64, u16)>::empty()
    } else {
        let r = socket_entries(ls.drop_last(), is_tcp);
        match socket_line_entry(ls.last(), is_tcp) {
            Some(e) => r.push(e),
            None => r,
        }
    }
}

/// The lines of a socket table after its header line.
pub open spec fn table_rows(content: Seq<char>) -> Seq<Seq<char>> {
    let ls = lines(content);
    if ls.len() > 0 {
        ls.drop_first()
    } else {
        ls
    }
}

/// `m` with `port` added to the ports of `inode`.
pub open spec fn add_port(m: Map<u64, Seq<u16>>, inode: u64, port: u16) -> Map<u64, Seq<u16>> {
    m.insert(
        inode,
        if m.contains_key(inode) {
            m[inode]
        } else {
            Seq::<u16>::empty()
        }.push(port),
    )
}

/// `m` with every entry of `es` added, in order.
pub open spec fn add_entries(m: Map<u64, Seq<u16>>, es: Seq<(u64, u16)>) -> Map<u64, Seq<u16>>
    decreases es.len(),
{
    if es.len() == 0 {
        m
    } else {
        add_port(add_entries(m, es.drop_last()), es.last().0, es.last().1)
    }
}

/// The ports that a map from socket inodes holds, as sequences.
pub open spec fn port_lists(m: Map<u64, Vec<u16>>) -> Map<u64, Seq<u16>> {
    m.map_values(|v: Vec<u16>| v@)
}

fn socket_line_entry_exec(l: &[char], is_tcp: bool) -> (r: Option<(u64, u16)>)
    ensures
        r == socket_line_entry(l@, is_tcp),
{
    let ps = words_exec(l);
    if ps.len() < 10 {
        return None;
    }
    let ghost pv = views(ps@);
    assert(pv[1] == ps@[1]@ && pv[3] == ps@[3]@ && pv[9] == ps@[9]@);
    if is_tcp && !eq_exec(&ps[3], &chars_of("0A")) {
        return None;
    }
    let c = match find_char_exec(&ps[1], ':') {
        Some(c) => c,
        None => return None,
    };
    proof {
        lemma_find_char(ps@[1]@, ':');
    }
    let port = match parse_hex_u16_exec(&skip_vec(&ps[1], c + 1)) {
        Some(p) => p,
        None => return None,
    };
    match parse_u64_exec(&ps[9]) {
        Some(inode) => if inode > 0 {
            Some((inode, port))
        } else {
            None
        },
        None => None,
    }
}

impl ProcessManager {
    /// Adds to `map` the listening ports that the text of one socket table
    /// gives, under their socket inodes.  A table whose path mentions `tcp`
    /// counts only listening sockets.
    pub fn add_socket_table(path: &str, content: &str, map: &mut HashMap<u64, Vec<u16>>)
        ensures
            port_lists(final(map)@) == add_entries(
                port_lists(old(map)@),
                socket_entries(table_rows(content@), contains_seq(path@, "tcp"@)),
            ),
    {
        let is_tcp = contains_exec(&chars_of(path), &chars_of("tcp"));
        let ls = lines_exec(&chars_of(content));
        let ghost lv = views(ls@);
        let ghost rows = table_rows(content@);
        let ghost m0 = port_lists(map@);
        if ls.len() == 0 {
            assert(rows.len() == 0);
            assert(socket_entries(rows, is_tcp).len() == 0);
            return;
        }
        assert(rows == lv.drop_first());
        let mut i: usize = 1;
        assert(lv.subrange(1, 1) =~= Seq::<Seq<char>>::empty());
        while i < ls.len()
            invariant
                1 <= i <= ls.len(),
                lv == views(ls@),
                rows == lv.drop_first(),
                port_lists(map@) == add_entries(m0, socket_entries(rows.take(i - 1), is_tcp)),
            decreases ls.len() - i,
        {
            assert(rows.take(i as int).drop_last() =~= rows.take(i - 1));
            assert(rows.take(i as int).last() == ls@[i as int]@);
            let ghost es = socket_entries(rows.take(i - 1), is_tcp);
            assert(lv[i as int] == ls@[i as int]@);
            match socket_line_entry_exec(&ls[i], is_tcp) {
                Some((inode, port)) => {
                    assert(es.push((inode, port)).drop_last() =~= es);
                    let ghost before = port_lists(map@);
                    let list = match map.remove(&inode) {
                        Some(mut v) => {
                            v.push(port);
                            v
                        },
                        None => {
                            let mut v = Vec::new();
                            v.push(port);
                            v
                        },
                    };
                    map.insert(inode, list);
                    assert(port_lists(map@) =~= add_port(before, inode, port));
                },
                None => {},
            }
            i = i + 1;
        }
        assert(rows.take(ls.len() - 1) =~= rows);
    }
}

// ---------------------------------------------------------------------------
// Ports of one process, from the targets of its file descriptors

/// The socket inode a descriptor link names: `socket:[<inode>]`.
pub open spec fn link_inode(l: Seq<char>) -> Option<u64> {
    if starts_with(l, "socket:["@) && ends_with(l, "]"@) {
        parse_u64(l.subrange(8, l.len() - 1))
    } else {
        None
    }
}

/// `port` is listened on through one of the descriptors `links`.
pub open spec fn link_has_port(links: Seq<Seq<char>>, m: Map<u64, Seq<u16>>, port: u16) -> bool {
    exists|i: int|
        0 <= i < links.len() && #[trigger] link_inode(links[i]) is Some && m.contains_key(
            link_inode(links[i])->Some_0,
        ) && m[link_inode(links[i])->Some_0].contains(port)
}

/// The list is in strictly increasing order.
pub open spec fn strictly_increasing(v: Seq<u16>) -> bool {
    forall|a: int, b: int| 0 <= a < b < v.len() ==> #[trigger] v[a] < #[trigger] v[b]
}

/// Adds `p` to the strictly increasing list `v`, unless it is there.
fn insert_port(v: &mut Vec<u16>, p: u16)
    requires
        strictly_increasing(old(v)@),
    ensures
        strictly_increasing(final(v)@),
        forall|q: u16| #[trigger] final(v)@.contains(q) <==> (old(v)@.contains(q) || q == p),
{
    let mut i: usize = 0;
    while i < v.len() && v[i] < p
        invariant
            i <= v.len(),
            forall|k: int| 0 <= k < i ==> v@[k] < p,
        decreases v.len() - i,
    {
        i = i + 1;
    }
    if i < v.len() && v[i] == p {
        assert(v@.contains(p));
        return;
    }
    let ghost old_v = v@;
    v.insert(i, p);
    proof {
        assert forall|a: int, b: int| 0 <= a < b < v@.len() implies #[trigger] v@[a] < #[trigger] v@[b] by {
            if a < i && b == i {
            } else if a < i && b > i {
                assert(old_v[a] < old_v[b - 1]);
            } else if a == i && b > i {
                assert(v@[b] == old_v[b - 1]);
                if b - 1 > i {
                    assert(old_v[i as int] < old_v[b - 1]);
                }
            } else if a > i {
                assert(old_v[a - 1] < old_v[b - 1]);
            } else {
                assert(old_v[a] < old_v[b]);
            }
        }
        assert forall|q: u16| #[trigger] v@.contains(q) <==> (old_v.contains(q) || q == p) by {
            if v@.contains(q) {
                let k = choose|k: int| 0 <= k < v@.len() && v@[k] == q;
                if k < i {
                    assert(old_v[k] == q);
                } else if k > i {
                    assert(old_v[k - 1] == q);
                }
            }
            if old_v.contains(q) {
                let k = choose|k: int| 0 <= k < old_v.len() && old_v[k] == q;
                if k < i {
                    assert(v@[k] == q);
                } else {
                    assert(v@[k + 1] == q);
                }
            }
            if q == p {
                assert(v@[i as int] == q);
            }
        }
    }
}

fn link_inode_exec(l: &[char]) -> (r: Option<u64>)
    ensures
        r == link_inode(l@),
{
    let prefix = chars_of("socket:[");
    proof {
        reveal_strlit("socket:[");
        reveal_strlit("]");
    }
    assert(prefix@.len() == 8 && prefix@[7] == '[');
    if starts_with_exec(l, &prefix) && ends_with_exec(l, &chars_of("]")) {
        assert(l@.take(8)[7] == l@[7]);
        assert(l@[7] == '[');
        assert(l@.skip(l@.len() - 1)[0] == l@[l@.len() - 1]);
        parse_u64_exec(&slice_vec(l, 8, l.len() - 1))
    } else {
        None
    }
}

impl ProcessManager {
    /// The ports a process listens on, given the targets of its file
    /// descriptors and the ports of each socket inode: in increasing order,
    /// each once.
    pub fn get_process_ports(links: &Vec<String>, inode_map: &HashMap<u64, Vec<u16>>) -> (r: Vec<u16>)
        ensures
            strictly_increasing(r@),
            forall|p: u16|
                r@.contains(p) <==> link_has_port(
                    links@.map_values(|l: String| l@),
                    port_lists(inode_map@),
                    p,
                ),
    {
        let ghost lv = links@.map_values(|l: String| l@);
        let ghost m = port_lists(inode_map@);
        let mut ports: Vec<u16> = Vec::new();
        let mut i: usize = 0;
        while i < links.len()
            invariant
                i <= links.len(),
                lv == links@.map_values(|l: String| l@),
                m == port_lists(inode_map@),
                strictly_increasing(ports@),
                forall|p: u16| ports@.contains(p) <==> link_has_port(lv.take(i as int), m, p),
            decreases links.len() - i,
        {
            let l = chars_of(links[i].as_str());
            assert(lv[i as int] == l@);
            let ghost before = ports@;
            match link_inode_exec(&l) {
                Some(inode) => match inode_map.get(&inode) {
                    Some(list) => {
                        let mut k: usize = 0;
                        while k < list.len()
                            invariant
                                k <= list.len(),
                                strictly_increasing(ports@),
                                forall|p: u16| before.contains(p) <==> link_has_port(lv.take(i as int), m, p),
                                forall|p: u16| ports@.contains(p) <==> (before.contains(p) || list@.take(k as int).contains(p)),
                            decreases list.len() - k,
                        {
                            let ghost mid = ports@;
                            assert(forall|p: u16| mid.contains(p) <==> (before.contains(p) || list@.take(k as int).contains(p)));
                            insert_port(&mut ports, list[k]);
                            proof {
                                lemma_take_contains(list@, k as int);
                                assert forall|p: u16| ports@.contains(p) <==> (before.contains(p) || list@.take(k + 1).contains(p)) by {
                                    assert(ports@.contains(p) <==> (mid.contains(p) || p == list@[k as int]));
                                    assert(mid.contains(p) <==> (before.contains(p) || list@.take(k as int).contains(p)));
                                    assert(list@.take(k + 1).contains(p) <==> (list@.take(k as int).contains(p) || list@[k as int] == p));
                                }
                            }
                            k = k + 1;
                        }
                        proof {
                            assert(list@.take(list@.len() as int) =~= list@);
                            assert(m.contains_key(inode) && m[inode] == list@);
                            lemma_link_step(lv, m, i as int, inode);
                            assert forall|p: u16| ports@.contains(p) <==> link_has_port(lv.take(i + 1), m, p) by {
                                assert(ports@.contains(p) <==> (before.contains(p) || list@.contains(p)));
                                assert(before.contains(p) <==> link_has_port(lv.take(i as int), m, p));
                            }
                        }
                    },
                    None => {
                        proof {
                            assert(!m.contains_key(inode));
                            lemma_no_new_port(lv, m, i as int);
                        }
                    },
                },
                None => {
                    proof {
                        lemma_no_new_port(lv, m, i as int);
                    }
                },
            }
            i = i + 1;
        }
        assert(lv.take(links.len() as int) =~= lv);
        ports
    }
}

proof fn lemma_take_contains(s: Seq<u16>, k: int)
    requires
        0 <= k < s.len(),
    ensures
        forall|p: u16| #[trigger] s.take(k + 1).contains(p) <==> (s.take(k).contains(p) || s[k] == p),
{
    assert forall|p: u16| #[trigger] s.take(k + 1).contains(p) <==> (s.take(k).contains(p) || s[k] == p) by {
        if s.take(k + 1).contains(p) {
            let j = choose|j: int| 0 <= j < k + 1 && #[trigger] s.take(k + 1)[j] == p;
            if j < k {
                assert(s.take(k)[j] == p);
            }
        }
        if s.take(k).contains(p) {
            let j = choose|j: int| 0 <= j < k && #[trigger] s.take(k)[j] == p;
            assert(s.take(k + 1)[j] == p);
        }
        if s[k] == p {
            assert(s.take(k + 1)[k] == p);
        }
    }
}

/// A descriptor that names a socket with ports adds exactly those ports.
proof fn lemma_link_step(lv: Seq<Seq<char>>, m: Map<u64, Seq<u16>>, i: int, inode: u64)
    requires
        0 <= i < lv.len(),
        link_inode(lv[i]) == Some(inode),
        m.contains_key(inode),
    ensures
        forall|p: u16| link_has_port(lv.take(i + 1), m, p) <==> (link_has_port(lv.take(i), m, p) || m[inode].contains(p)),
{
    assert forall|p: u16| link_has_port(lv.take(i + 1), m, p) <==> (link_has_port(lv.take(i), m, p) || m[inode].contains(p)) by {
        let t = lv.take(i + 1);
        if link_has_port(t, m, p) {
            let j = choose|j: int|
                0 <= j < t.len() && #[trigger] link_inode(t[j]) is Some && m.contains_key(link_inode(t[j])->Some_0)
                    && m[link_inode(t[j])->Some_0].contains(p);
            if j < i {
                assert(lv.take(i)[j] == t[j]);
            }
        }
        if link_has_port(lv.take(i), m, p) {
            let j = choose|j: int|
                0 <= j < i && #[trigger] link_inode(lv.take(i)[j]) is Some && m.contains_key(
                    link_inode(lv.take(i)[j])->Some_0,
                ) && m[link_inode(lv.take(i)[j])->Some_0].contains(p);
            assert(t[j] == lv.take(i)[j]);
        }
        if m[inode].contains(p) {
            assert(t[i] == lv[i]);
            assert(link_inode(t[i]) is Some);
        }
    }
}

/// A descriptor that names no socket with ports adds no port.
proof fn lemma_no_new_port(lv: Seq<Seq<char>>, m: Map<u64, Seq<u16>>, i: int)
    requires
        0 <= i < lv.len(),
        !(link_inode(lv[i]) is Some && m.contains_key(link_inode(lv[i])->Some_0)),
    ensures
        forall|p: u16| link_has_port(lv.take(i + 1), m, p) <==> link_has_port(lv.take(i), m, p),
{
    assert forall|p: u16| link_has_port(lv.take(i + 1), m, p) <==> link_has_port(lv.take(i), m, p) by {
        let t = lv.take(i + 1);
        if link_has_port(t, m, p) {
            let j = choose|j: int|
                0 <= j < t.len() && #[trigger] link_inode(t[j]) is Some && m.contains_key(link_inode(t[j])->Some_0)
                    && m[link_inode(t[j])->Some_0].contains(p);
            assert(j != i);
            assert(lv.take(i)[j] == t[j]);
        }
        if link_has_port(lv.take(i), m, p) {
            let j = choose|j: int|
                0 <= j < i && #[trigger] link_inode(lv.take(i)[j]) is Some && m.contains_key(
                    link_inode(lv.take(i)[j])->Some_0,
                ) && m[link_inode(lv.take(i)[j])->Some_0].contains(p);
            assert(t[j] == lv.take(i)[j]);
        }
    }
}

// ---------------------------------------------------------------------------
// One process

/// The memory a status file reports fits in a `u64` (or there is no status).
pub open spec fn status_fits(status: Option<Seq<char>>) -> bool {
    match status {
        Some(st) => spec_memory_bytes(st) <= u64::MAX,
        None => true,
    }
}

pub open spec fn opt_str_view(o: Option<&str>) -> Option<Seq<char>> {
    match o {
        Some(s) => Some(s@),
        None => None,
    }
}

impl ProcessManager {
    /// The information on process `pid`, from the text of its stat file, of
    /// its status and loginuid files (where they could be read), of the passwd
    /// file, and the ports it listens on.  `None` where the stat text has no
    /// name and state.
    pub fn read_process_info(
        pid: u32,
        stat: &str,
        status: Option<&str>,
        login_uid: Option<&str>,
        passwd: &str,
        ports: Vec<u16>,
    ) -> (r: Option<ProcessInfo>)
        requires
            stat_parens_ok(stat@),
            status_fits(opt_str_view(status)),
        ensures
            match r {
                Some(info) => {
                    &&& spec_parse_stat(stat@) == Some((info.name@, info.state@))
                    &&& info.pid == pid
                    &&& info.memory_bytes == match status {
                        Some(st) => spec_memory_bytes(st@),
                        None => 0,
                    }
                    &&& info.user@ == match login_uid {
                        Some(c) => spec_username(passwd@, spec_login_uid(c@)),
                        None => "unknown"@,
                    }
                    &&& info.ports@ == ports@
                },
                None => spec_parse_stat(stat@) is None,
            },
    {
        let (name, state) = match Self::parse_stat(stat) {
            Some(p) => p,
            None => return None,
        };
        let memory_bytes = match status {
            Some(st) => parse_memory_from_status(st),
            None => 0,
        };
        let user = match login_uid {
            Some(c) => uid_to_username(passwd, parse_login_uid(c)),
            None => owned("unknown"),
        };
        Some(ProcessInfo { pid, name, memory_bytes, state, user, ports })
    }
}

// ---------------------------------------------------------------------------
// Lists of processes

/// The processes of `s` with the id `q`, in order.
pub open spec fn with_pid(s: Seq<ProcessInfo>, q: u32) -> Seq<ProcessInfo>
    decreases s.len(),
{
    if s.len() == 0 {
        Seq::<ProcessInfo>::empty()
    } else {
        let r = with_pid(s.drop_last(), q);
        if s.last().pid == q {
            r.push(s.last())
        } else {
            r
        }
    }
}

/// The process runs as `user`.
pub open spec fn runs_as(user: Seq<char>) -> spec_fn(ProcessInfo) -> bool {
    |p: ProcessInfo| p.user@ == user
}

/// The processes of one user are among all processes: keeping those of
/// `user` never adds a process, and each one kept runs as `user`.
pub proof fn lemma_user_processes_subset(procs: Seq<ProcessInfo>, user: Seq<char>)
    ensures
        procs.filter(runs_as(user)).len() <= procs.len(),
        forall|i: int|
            0 <= i < procs.filter(runs_as(user)).len() ==> (#[trigger] procs.filter(runs_as(user))[i]).user@ == user
                && procs.contains(procs.filter(runs_as(user))[i]),
{
    broadcast use vstd::seq_lib::group_filter_ensures;
    let mine = procs.filter(runs_as(user));
    assert forall|i: int| 0 <= i < mine.len() implies (#[trigger] mine[i]).user@ == user && procs.contains(mine[i]) by {
        procs.lemma_filter_pred(runs_as(user), i);
        assert(mine.contains(mine[i]));
        procs.lemma_filter_contains_rev(runs_as(user), mine[i]);
    }
}

/// The processes are in order of id.
pub open spec fn sorted_by_pid(s: Seq<ProcessInfo>) -> bool {
    forall|a: int, b: int| 0 <= a < b < s.len() ==> (#[trigger] s[a]).pid <= (#[trigger] s[b]).pid
}

proof fn lemma_with_pid_append(a: Seq<ProcessInfo>, b: Seq<ProcessInfo>, q: u32)
    ensures
        with_pid(a + b, q) == with_pid(a, q) + with_pid(b, q),
    decreases b.len(),
{
    if b.len() == 0 {
        assert(a + b =~= a);
        assert(with_pid(a, q) + with_pid(b, q) =~= with_pid(a, q));
    } else {
        lemma_with_pid_append(a, b.drop_last(), q);
        assert((a + b).drop_last() =~= a + b.drop_last());
        assert((a + b).last() == b.last());
        if b.last().pid == q {
            assert(with_pid(a, q) + with_pid(b.drop_last(), q).push(b.last()) =~= (with_pid(a, q)
                + with_pid(b.drop_last(), q)).push(b.last()));
        }
    }
}

proof fn lemma_with_pid_none(s: Seq<ProcessInfo>, q: u32)
    requires
        forall|k: int| 0 <= k < s.len() ==> (#[trigger] s[k]).pid != q,
    ensures
        with_pid(s, q) == Seq::<ProcessInfo>::empty(),
    decreases s.len(),
{
    if s.len() > 0 {
        assert(s[s.len() - 1].pid != q);
        lemma_with_pid_none(s.drop_last(), q);
    }
}

proof fn lemma_insert_by_pid(out: Seq<ProcessInfo>, x: ProcessInfo, p: int)
    requires
        0 <= p <= out.len(),
        sorted_by_pid(out),
        forall|k: int| 0 <= k < p ==> (#[trigger] out[k]).pid <= x.pid,
        forall|k: int| p <= k < out.len() ==> (#[trigger] out[k]).pid > x.pid,
    ensures
        sorted_by_pid(out.insert(p, x)),
        forall|q: u32| #[trigger] with_pid(out.insert(p, x), q) == with_pid(out.push(x), q),
{
    let n = out.insert(p, x);
    assert forall|a: int, b: int| 0 <= a < b < n.len() implies (#[trigger] n[a]).pid <= (#[trigger] n[b]).pid by {
        if a < p && b == p {
        } else if a < p && b > p {
            assert(n[b] == out[b - 1]);
        } else if a == p {
            assert(n[b] == out[b - 1]);
        } else if a > p {
            assert(n[a] == out[a - 1] && n[b] == out[b - 1]);
        }
    }
    assert forall|q: u32| #[trigger] with_pid(n, q) == with_pid(out.push(x), q) by {
        let pre = out.take(p);
        let post = out.skip(p);
        assert(n =~= pre + seq![x] + post);
        assert(out =~= pre + post);
        assert(out.push(x) =~= pre + post + seq![x]);
        lemma_with_pid_append(pre + seq![x], post, q);
        lemma_with_pid_append(pre, seq![x], q);
        lemma_with_pid_append(pre + post, seq![x], q);
        lemma_with_pid_append(pre, post, q);
        assert(seq![x].drop_last() =~= Seq::<ProcessInfo>::empty());
        if q == x.pid {
            assert forall|k: int| 0 <= k < post.len() implies (#[trigger] post[k]).pid != q by {
                assert(post[k] == out[p + k]);
            }
            lemma_with_pid_none(post, q);
            assert(with_pid(pre, q) + with_pid(seq![x], q) + Seq::<ProcessInfo>::empty() =~= with_pid(pre, q)
                + Seq::<ProcessInfo>::empty() + with_pid(seq![x], q));
        } else {
            assert(with_pid(Seq::<ProcessInfo>::empty(), q) =~= Seq::<ProcessInfo>::empty());
            assert(with_pid(seq![x], q) =~= Seq::<ProcessInfo>::empty());
            assert(with_pid(pre, q) + Seq::<ProcessInfo>::empty() + with_pid(post, q) =~= with_pid(pre, q)
                + with_pid(post, q) + Seq::<ProcessInfo>::empty());
        }
    }
}

impl ProcessManager {
    /// The processes ordered by id, keeping the order of those with the same
    /// id (a stable sort).
    pub fn sort_by_pid(procs: Vec<ProcessInfo>) -> (r: Vec<ProcessInfo>)
        ensures
            sorted_by_pid(r@),
            forall|q: u32| #[trigger] with_pid(r@, q) == with_pid(procs@, q),
    {
        let ghost orig = procs@;
        let mut rest = procs;
        let mut out: Vec<ProcessInfo> = Vec::new();
        let ghost mut i: int = 0;
        assert(orig.skip(0) =~= orig);
        while rest.len() > 0
            invariant
                0 <= i <= orig.len(),
                rest@ == orig.skip(i),
                sorted_by_pid(out@),
                forall|q: u32| #[trigger] with_pid(out@, q) == with_pid(orig.take(i), q),
            decreases rest@.len(),
        {
            let x = rest.remove(0);
            assert(x == orig[i]);
            let mut p: usize = 0;
            while p < out.len() && out[p].pid <= x.pid
                invariant
                    p <= out@.len(),
                    forall|k: int| 0 <= k < p ==> (#[trigger] out@[k]).pid <= x.pid,
                decreases out.len() - p,
            {
                p = p + 1;
            }
            proof {
                assert forall|k: int| p <= k < out@.len() implies (#[trigger] out@[k]).pid > x.pid by {
                    if k > p {
                        assert(out@[p as int].pid <= out@[k].pid);
                    }
                }
                lemma_insert_by_pid(out@, x, p as int);
                assert(orig.take(i + 1) =~= orig.take(i).push(x));
                assert forall|q: u32| #[trigger] with_pid(out@.push(x), q) == with_pid(orig.take(i + 1), q) by {
                    assert(out@.push(x).drop_last() =~= out@);
                    assert(orig.take(i + 1).drop_last() =~= orig.take(i));
                    assert(out@.push(x).last() == x);
                    assert(orig.take(i + 1).last() == x);
                    assert(with_pid(out@, q) == with_pid(orig.take(i), q));
                }
            }
            out.insert(p, x);
            proof {
                i = i + 1;
                assert(rest@ =~= orig.skip(i));
            }
        }
        assert(orig.take(i) =~= orig);
        out
    }

    /// The processes of `procs` that run as `user`, in order.
    pub fn keep_user(procs: Vec<ProcessInfo>, user: &str) -> (r: Vec<ProcessInfo>)
        ensures
            r@ == procs@.filter(runs_as(user@)),
    {
        let ghost orig = procs@;
        let ghost pred = runs_as(user@);
        let u = chars_of(user);
        let mut rest = procs;
        let mut out: Vec<ProcessInfo> = Vec::new();
        let ghost mut i: int = 0;
        assert(orig.skip(0) =~= orig);
        while rest.len() > 0
            invariant
                0 <= i <= orig.len(),
                rest@ == orig.skip(i),
                u@ == user@,
                out@ == orig.take(i).filter(pred),
                pred == runs_as(user@),
            decreases rest@.len(),
        {
            let x = rest.remove(0);
            assert(x == orig[i]);
            let keep = eq_exec(&chars_of(x.user.as_str()), &u);
            let ghost before = out@;
            if keep {
                out.push(x);
            }
            proof {
                assert(orig.take(i + 1).drop_last() =~= orig.take(i));
                assert(orig.take(i + 1).last() == x);
                assert(pred(x) == keep);
                assert(out@ == orig.take(i + 1).filter(pred)) by {
                    reveal_with_fuel(Seq::<_>::filter, 1);
                }
            }
            proof {
                i = i + 1;
                assert(rest@ =~= orig.skip(i));
            }
        }
        assert(orig.take(i) =~= orig);
        out
    }
}

/// The search box shows a process when the query is empty, or when the
/// lower-case query occurs in the lower-case name, in the id, or in one of
/// the ports it listens on (each written in decimal).
pub open spec fn spec_process_matches(query: Seq<char>, name: Seq<char>, pid: u32, ports: Seq<u16>) -> bool {
    let q = spec_lowercase(query);
    ||| q.len() == 0
    ||| contains_seq(spec_lowercase(name), q)
    ||| contains_seq(decimal_string(pid as nat), q)
    ||| exists|i: int| 0 <= i < ports.len() && contains_seq(decimal_string(#[trigger] ports[i] as nat), q)
}

/// Whether the process list shows `p` for the search text `query`.
pub fn process_matches(query: &str, p: &ProcessInfo) -> (r: bool)
    ensures
        r == spec_process_matches(query@, p.name@, p.pid, p.ports@),
{
    let q = chars_of(lowercase(query).as_str());
    if q.len() == 0 {
        return true;
    }
    let name = chars_of(lowercase(p.name.as_str()).as_str());
    if contains_exec(&name, &q) || contains_exec(&decimal_chars(p.pid as u64), &q) {
        return true;
    }
    let mut i: usize = 0;
    while i < p.ports.len()
        invariant
            i <= p.ports.len(),
            q@ == spec_lowercase(query@),
            forall|j: int| 0 <= j < i ==> !contains_seq(decimal_string(#[trigger] p.ports@[j] as nat), q@),
        decreases p.ports.len() - i,
    {
        if contains_exec(&decimal_chars(p.ports[i] as u64), &q) {
            return true;
        }
        i = i + 1;
    }
    false
}

// ---------------------------------------------------------------------------
// Ending processes

/// The arguments of `kill` for process `pid`: `-9` first when forced.
pub open spec fn spec_kill_args(pid: u32, force: bool) -> Seq<Seq<char>> {
    if force {
        seq!["-9"@, decimal_string(pid as nat)]
    } else {
        seq![decimal_string(pid as nat)]
    }
}

/// What ending process `pid` reports, given how running `kill` went.
pub open spec fn spec_kill_report(pid: u32, force: bool, outcome: Result<(bool, Seq<char>), Seq<char>>) -> Result<Seq<char>, Seq<char>> {
    match outcome {
        Ok((true, _)) => Ok(
            "Process "@ + decimal_string(pid as nat) + if force {
                " terminated (SIGKILL)"@
            } else {
                " terminated (SIGTERM)"@
            },
        ),
        Ok((false, stderr)) => Err("Failed to kill process "@ + decimal_string(pid as nat) + ": "@ + stderr),
        Err(e) => Err("Failed to execute kill: "@ + e),
    }
}

/// The arguments of `pkill` for processes named `name`.
pub open spec fn spec_kill_by_name_args(name: Seq<char>, force: bool) -> Seq<Seq<char>> {
    seq![if force { "-9"@ } else { "-15"@ }, name]
}

/// What ending the processes named `name` reports, given how running `pkill` went.
pub open spec fn spec_kill_by_name_report(name: Seq<char>, outcome: Result<(bool, Seq<char>), Seq<char>>) -> Result<Seq<char>, Seq<char>> {
    match outcome {
        Ok((true, _)) => Ok("Process '"@ + name + "' terminated"@),
        Ok((false, stderr)) => Err("Failed to kill '"@ + name + "': "@ + stderr),
        Err(e) => Err("Failed to execute pkill: "@ + e),
    }
}

/// How a command run went: whether it succeeded and what it wrote to
/// standard error, or why it could not be run.
pub open spec fn outcome_view(o: Result<ExecResult, String>) -> Result<(bool, Seq<char>), Seq<char>> {
    match o {
        Ok(r) => Ok((r.success, r.stderr@)),
        Err(e) => Err(e@),
    }
}

pub open spec fn result_view(r: Result<String, String>) -> Result<Seq<char>, Seq<char>> {
    match r {
        Ok(s) => Ok(s@),
        Err(e) => Err(e@),
    }
}

fn cat(a: &str, b: &[char]) -> (r: Vec<char>)
    ensures
        r@ == a@ + b@,
{
    concat_vec(&chars_of(a), b)
}

impl ProcessManager {
    /// The arguments to run `kill` with for process `pid`.
    pub fn kill_args(pid: u32, force: bool) -> (r: Vec<String>)
        ensures
            r@.map_values(|s: String| s@) == spec_kill_args(pid, force),
    {
        let n = string_of(&decimal_chars(pid as u64));
        let mut r: Vec<String> = Vec::new();
        if force {
            r.push(owned("-9"));
        }
        r.push(n);
        assert(r@.map_values(|s: String| s@) =~= spec_kill_args(pid, force));
        r
    }

    /// What ending process `pid` reports, given how running `kill` went.
    pub fn kill_process(pid: u32, force: bool, outcome: Result<ExecResult, String>) -> (r: Result<String, String>)
        ensures
            result_view(r) == spec_kill_report(pid, force, outcome_view(outcome)),
    {
        let n = decimal_chars(pid as u64);
        match outcome {
            Ok(res) => if res.success {
                let tail = if force {
                    chars_of(" terminated (SIGKILL)")
                } else {
                    chars_of(" terminated (SIGTERM)")
                };
                Ok(string_of(&concat_vec(&cat("Process ", &n), &tail)))
            } else {
                let head = concat_vec(&cat("Failed to kill process ", &n), &chars_of(": "));
                Err(string_of(&concat_vec(&head, &chars_of(res.stderr.as_str()))))
            },
            Err(e) => Err(string_of(&cat("Failed to execute kill: ", &chars_of(e.as_str())))),
        }
    }

    /// The arguments to run `pkill` with for processes named `name`.
    pub fn kill_by_name_args(name: &str, force: bool) -> (r: Vec<String>)
        ensures
            r@.map_values(|s: String| s@) == spec_kill_by_name_args(name@, force),
    {
        let mut r: Vec<String> = Vec::new();
        r.push(if force { owned("-9") } else { owned("-15") });
        r.push(owned(name));
        assert(r@.map_values(|s: String| s@) =~= spec_kill_by_name_args(name@, force));
        r
    }

    /// What ending the processes named `name` reports, given how running
    /// `pkill` went.
    pub fn kill_process_by_name(name: &str, outcome: Result<ExecResult, String>) -> (r: Result<String, String>)
        ensures
            result_view(r) == spec_kill_by_name_report(name@, outcome_view(outcome)),
    {
        let nm = chars_of(name);
        match outcome {
            Ok(res) => if res.success {
                Ok(string_of(&concat_vec(&cat("Process '", &nm), &chars_of("' terminated"))))
            } else {
                let head = concat_vec(&cat("Failed to kill '", &nm), &chars_of("': "));
                Err(string_of(&concat_vec(&head, &chars_of(res.stderr.as_str()))))
            },
            Err(e) => Err(string_of(&cat("Failed to execute pkill: ", &chars_of(e.as_str())))),
        }
    }
}

} // verus!
