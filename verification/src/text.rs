//! Character-level text operations shared by the parsers of this crate.
//!
//! Each operation is stated as a spec function over `Seq<char>` and
//! implemented over `Vec<char>`, so that the parsers can be proved against
//! plain mathematical definitions.
use vstd::prelude::*;

verus! {

/// `String::push` appends one character.
pub assume_specification[ String::push ](s: &mut String, ch: char)
    ensures
        final(s)@ == old(s)@.push(ch),
;

/// The characters of `s`, in order.
pub fn chars_of(s: &str) -> (v: Vec<char>)
    ensures
        v@ == s@,
{
    let mut v: Vec<char> = Vec::new();
    for c in iter: s.chars()
        invariant
            v@ == iter.seq().take(iter.index()),
    {
        v.push(c);
    }
    v
}

/// A `String` holding exactly the characters of `v`.
pub fn string_of(v: &[char]) -> (s: String)
    ensures
        s@ == v@,
{
    let mut s = String::new();
    let mut i: usize = 0;
    while i < v.len()
        invariant
            i <= v.len(),
            s@ == v@.take(i as int),
        decreases v.len() - i,
    {
        s.push(v[i]);
        i = i + 1;
        assert(s@ == v@.take(i as int));
    }
    assert(v@.take(v.len() as int) == v@);
    s
}

// ---------------------------------------------------------------------------
// Prefixes, suffixes, substrings

pub open spec fn starts_with(s: Seq<char>, p: Seq<char>) -> bool {
    p.len() <= s.len() && s.take(p.len() as int) == p
}

pub open spec fn ends_with(s: Seq<char>, p: Seq<char>) -> bool {
    p.len() <= s.len() && s.skip(s.len() - p.len()) == p
}

/// `p` occurs in `s` at position `i`.
pub open spec fn occurs_at(s: Seq<char>, p: Seq<char>, i: int) -> bool {
    0 <= i && i + p.len() <= s.len() && s.subrange(i, i + p.len()) == p
}

pub open spec fn contains_seq(s: Seq<char>, p: Seq<char>) -> bool {
    exists|i: int| occurs_at(s, p, i)
}

/// Whether `p` occurs in `v` at position `i`.
pub fn occurs_at_exec(v: &[char], p: &[char], i: usize) -> (b: bool)
    ensures
        b == occurs_at(v@, p@, i as int),
{
    if i > v.len() || p.len() > v.len() - i {
        return false;
    }
    let mut k: usize = 0;
    while k < p.len()
        invariant
            k <= p.len(),
            i + p.len() <= v.len(),
            forall|j: int| 0 <= j < k ==> v@[i + j] == p@[j],
        decreases p.len() - k,
    {
        if v[i + k] != p[k] {
            assert(v@.subrange(i as int, i + p.len())[k as int] != p@[k as int]);
            return false;
        }
        k = k + 1;
    }
    assert(v@.subrange(i as int, i + p.len()) =~= p@);
    true
}

pub fn starts_with_exec(v: &[char], p: &[char]) -> (b: bool)
    ensures
        b == starts_with(v@, p@),
{
    let b = occurs_at_exec(v, p, 0);
    assert(b == starts_with(v@, p@)) by {
        if p@.len() <= v@.len() {
            assert(v@.subrange(0, p@.len() as int) == v@.take(p@.len() as int));
        }
    }
    b
}

pub fn ends_with_exec(v: &[char], p: &[char]) -> (b: bool)
    ensures
        b == ends_with(v@, p@),
{
    if p.len() > v.len() {
        return false;
    }
    let b = occurs_at_exec(v, p, v.len() - p.len());
    assert(v@.subrange(v@.len() - p@.len(), v@.len() as int) == v@.skip(v@.len() - p@.len()));
    b
}

pub fn contains_exec(v: &[char], p: &[char]) -> (b: bool)
    ensures
        b == contains_seq(v@, p@),
{
    if p.len() > v.len() {
        return false;
    }
    let last = v.len() - p.len();
    let mut i: usize = 0;
    loop
        invariant
            p.len() <= v.len(),
            last == v.len() - p.len(),
            i <= last,
            forall|j: int| 0 <= j < i ==> !occurs_at(v@, p@, j),
        ensures
            forall|j: int| 0 <= j <= last ==> !occurs_at(v@, p@, j),
        decreases last - i,
    {
        if occurs_at_exec(v, p, i) {
            return true;
        }
        if i == last {
            break;
        }
        i = i + 1;
    }
    assert forall|j: int| !occurs_at(v@, p@, j) by {
        if 0 <= j && j + p@.len() <= v@.len() {
            assert(j <= last);
        }
    }
    false
}

// ---------------------------------------------------------------------------
// Searching for one character

/// The first position of `c` in `s`, if any.
pub open spec fn find_char(s: Seq<char>, c: char) -> Option<int>
    decreases s.len(),
{
    if s.len() == 0 {
        None
    } else if s[0] == c {
        Some(0)
    } else {
        match find_char(s.drop_first(), c) {
            Some(i) => Some(i + 1),
            None => None,
        }
    }
}

pub proof fn lemma_find_char(s: Seq<char>, c: char)
    ensures
        match find_char(s, c) {
            Some(i) => 0 <= i < s.len() && s[i] == c && forall|j: int| 0 <= j < i ==> s[j] != c,
            None => forall|j: int| 0 <= j < s.len() ==> s[j] != c,
        },
    decreases s.len(),
{
    if s.len() > 0 {
        lemma_find_char(s.drop_first(), c);
        if s[0] != c {
            assert forall|j: int| 1 <= j < s.len() implies s[j] == s.drop_first()[j - 1] by {}
        }
    }
}

/// `find_char` given by its defining property.
pub proof fn lemma_find_char_is(s: Seq<char>, c: char, i: int)
    requires
        0 <= i < s.len(),
        s[i] == c,
        forall|j: int| 0 <= j < i ==> s[j] != c,
    ensures
        find_char(s, c) == Some(i),
{
    lemma_find_char(s, c);
}

pub fn find_char_exec(v: &[char], c: char) -> (r: Option<usize>)
    ensures
        match r {
            Some(i) => find_char(v@, c) == Some(i as int),
            None => find_char(v@, c) is None,
        },
{
    let mut i: usize = 0;
    while i < v.len()
        invariant
            i <= v.len(),
            forall|j: int| 0 <= j < i ==> v@[j] != c,
        decreases v.len() - i,
    {
        if v[i] == c {
            proof {
                lemma_find_char_is(v@, c, i as int);
            }
            return Some(i);
        }
        i = i + 1;
    }
    proof {
        lemma_find_char(v@, c);
    }
    None
}

/// The last position of `c` in `s`, if any.
pub open spec fn rfind_char(s: Seq<char>, c: char) -> Option<int>
    decreases s.len(),
{
    if s.len() == 0 {
        None
    } else if s.last() == c {
        Some(s.len() - 1)
    } else {
        rfind_char(s.drop_last(), c)
    }
}

pub proof fn lemma_rfind_char(s: Seq<char>, c: char)
    ensures
        match rfind_char(s, c) {
            Some(i) => 0 <= i < s.len() && s[i] == c && forall|j: int| i < j < s.len() ==> s[j] != c,
            None => forall|j: int| 0 <= j < s.len() ==> s[j] != c,
        },
    decreases s.len(),
{
    if s.len() > 0 {
        lemma_rfind_char(s.drop_last(), c);
        assert forall|j: int| 0 <= j < s.len() - 1 implies s[j] == s.drop_last()[j] by {}
    }
}

pub fn rfind_char_exec(v: &[char], c: char) -> (r: Option<usize>)
    ensures
        match r {
            Some(i) => rfind_char(v@, c) == Some(i as int),
            None => rfind_char(v@, c) is None,
        },
{
    let mut i: usize = v.len();
    while i > 0
        invariant
            i <= v.len(),
            forall|j: int| i <= j < v.len() ==> v@[j] != c,
        decreases i,
    {
        if v[i - 1] == c {
            proof {
                lemma_rfind_char(v@, c);
                if rfind_char(v@, c) != Some(i - 1) {
                    match rfind_char(v@, c) {
                        Some(k) => {
                            assert(k > i - 1 || k < i - 1);
                        },
                        None => {},
                    }
                }
            }
            return Some(i - 1);
        }
        i = i - 1;
    }
    proof {
        lemma_rfind_char(v@, c);
        match rfind_char(v@, c) {
            Some(k) => {
                assert(v@[k] == c);
            },
            None => {},
        }
    }
    None
}

/// The part of `v` from `from` up to (not including) `to`.
pub fn slice_vec(v: &[char], from: usize, to: usize) -> (r: Vec<char>)
    requires
        from <= to <= v.len(),
    ensures
        r@ == v@.subrange(from as int, to as int),
{
    let mut r: Vec<char> = Vec::new();
    let mut i: usize = from;
    while i < to
        invariant
            from <= i <= to <= v.len(),
            r@ == v@.subrange(from as int, i as int),
        decreases to - i,
    {
        r.push(v[i]);
        i = i + 1;
        assert(r@ =~= v@.subrange(from as int, i as int));
    }
    r
}


/// The part of `s` after position `from`.
pub fn skip_vec(v: &[char], from: usize) -> (r: Vec<char>)
    requires
        from <= v.len(),
    ensures
        r@ == v@.skip(from as int),
{
    let r = slice_vec(v, from, v.len());
    assert(v@.subrange(from as int, v@.len() as int) == v@.skip(from as int));
    r
}

// ---------------------------------------------------------------------------
// Splitting on one character

/// The pieces of `s` between occurrences of `c`, as `str::split` yields them:
/// there is always at least one piece, and pieces may be empty.
pub open spec fn split_char(s: Seq<char>, c: char) -> Seq<Seq<char>>
    decreases s.len(),
{
    if s.len() == 0 {
        seq![Seq::<char>::empty()]
    } else {
        let r = split_char(s.drop_last(), c);
        if s.last() == c {
            r.push(Seq::<char>::empty())
        } else {
            r.update(r.len() - 1, r.last().push(s.last()))
        }
    }
}

pub proof fn lemma_split_char_nonempty(s: Seq<char>, c: char)
    ensures
        split_char(s, c).len() >= 1,
    decreases s.len(),
{
    if s.len() > 0 {
        lemma_split_char_nonempty(s.drop_last(), c);
    }
}

/// A string without `c` is a single piece.
pub proof fn lemma_split_char_none(s: Seq<char>, c: char)
    requires
        forall|i: int| 0 <= i < s.len() ==> s[i] != c,
    ensures
        split_char(s, c) == seq![s],
    decreases s.len(),
{
    if s.len() == 0 {
        assert(s =~= Seq::<char>::empty());
    } else {
        assert(s[s.len() - 1] != c);
        lemma_split_char_none(s.drop_last(), c);
        assert(s.drop_last().push(s.last()) =~= s);
        let r = split_char(s.drop_last(), c);
        assert(r.update(r.len() - 1, r.last().push(s.last())) =~= seq![s]);
    }
}

/// Splitting `a + [c] + b` splits `a` and `b` apart.
pub proof fn lemma_split_char_append(a: Seq<char>, b: Seq<char>, c: char)
    ensures
        split_char(a + seq![c] + b, c) == split_char(a, c) + split_char(b, c),
    decreases b.len(),
{
    lemma_split_char_nonempty(a, c);
    lemma_split_char_nonempty(b, c);
    let s = a + seq![c] + b;
    if b.len() == 0 {
        assert(s.drop_last() =~= a);
        assert(split_char(b, c) == seq![Seq::<char>::empty()]);
        assert(split_char(a, c).push(Seq::<char>::empty()) =~= split_char(a, c) + split_char(b, c));
    } else {
        lemma_split_char_append(a, b.drop_last(), c);
        assert(s.drop_last() =~= a + seq![c] + b.drop_last());
        lemma_split_char_nonempty(b.drop_last(), c);
        let ra = split_char(a, c);
        let rb = split_char(b.drop_last(), c);
        if b.last() == c {
            assert((ra + rb).push(Seq::<char>::empty()) =~= ra + rb.push(Seq::<char>::empty()));
        } else {
            assert((ra + rb).update((ra + rb).len() - 1, (ra + rb).last().push(b.last())) =~= ra
                + rb.update(rb.len() - 1, rb.last().push(b.last())));
        }
    }
}

/// The character sequences that a list of character vectors holds.
pub open spec fn views(v: Seq<Vec<char>>) -> Seq<Seq<char>> {
    v.map_values(|x: Vec<char>| x@)
}

pub proof fn lemma_views_push(v: Seq<Vec<char>>, x: Vec<char>)
    ensures
        views(v.push(x)) == views(v).push(x@),
{
    assert(views(v.push(x)) =~= views(v).push(x@));
}

/// The pieces of `v` between occurrences of `c`.
pub fn split_char_exec(v: &[char], c: char) -> (r: Vec<Vec<char>>)
    ensures
        views(r@) == split_char(v@, c),
{
    let mut pieces: Vec<Vec<char>> = Vec::new();
    let mut cur: Vec<char> = Vec::new();
    let mut i: usize = 0;
    while i < v.len()
        invariant
            i <= v.len(),
            views(pieces@).push(cur@) == split_char(v@.take(i as int), c),
        decreases v.len() - i,
    {
        proof {
            lemma_split_char_nonempty(v@.take(i as int), c);
            assert(v@.take(i + 1).drop_last() =~= v@.take(i as int));
        }
        if v[i] == c {
            let done = cur;
            let ghost old_pieces = pieces@;
            pieces.push(done);
            cur = Vec::new();
            proof {
                lemma_views_push(old_pieces, done);
                assert(views(pieces@).push(cur@) =~= split_char(v@.take(i as int), c).push(
                    Seq::<char>::empty(),
                ));
            }
        } else {
            cur.push(v[i]);
            proof {
                let r = split_char(v@.take(i as int), c);
                assert(views(pieces@).push(cur@) =~= r.update(r.len() - 1, r.last().push(v@[i as int])));
            }
        }
        i = i + 1;
    }
    let ghost old_pieces = pieces@;
    let last_piece = cur;
    pieces.push(last_piece);
    proof {
        lemma_views_push(old_pieces, last_piece);
    }
    assert(v@.take(v.len() as int) =~= v@);
    pieces
}

// ---------------------------------------------------------------------------
// Trimming a repeated leading character

/// `s` without its leading run of `c` (`str::trim_start_matches` with a char).
pub open spec fn trim_start_char(s: Seq<char>, c: char) -> Seq<char>
    decreases s.len(),
{
    if s.len() > 0 && s[0] == c {
        trim_start_char(s.drop_first(), c)
    } else {
        s
    }
}

pub proof fn lemma_trim_start_char(s: Seq<char>, c: char, k: int)
    requires
        0 <= k <= s.len(),
        forall|j: int| 0 <= j < k ==> s[j] == c,
        k == s.len() || s[k] != c,
    ensures
        trim_start_char(s, c) == s.skip(k),
    decreases k,
{
    if k > 0 {
        lemma_trim_start_char(s.drop_first(), c, k - 1);
        assert(s.drop_first().skip(k - 1) =~= s.skip(k));
    } else {
        assert(s.skip(0) =~= s);
    }
}

pub fn trim_start_char_exec(v: &[char], c: char) -> (r: Vec<char>)
    ensures
        r@ == trim_start_char(v@, c),
{
    let mut k: usize = 0;
    while k < v.len() && v[k] == c
        invariant
            k <= v.len(),
            forall|j: int| 0 <= j < k ==> v@[j] == c,
        decreases v.len() - k,
    {
        k = k + 1;
    }
    proof {
        lemma_trim_start_char(v@, c, k as int);
    }
    skip_vec(v, k)
}

// ---------------------------------------------------------------------------
// Decimal and hexadecimal numbers

pub open spec fn is_digit(c: char) -> bool {
    '0' <= c <= '9'
}

pub open spec fn all_digits(s: Seq<char>) -> bool {
    forall|i: int| 0 <= i < s.len() ==> is_digit(#[trigger] s[i])
}

pub open spec fn digit_value(c: char) -> nat {
    (c as int - '0' as int) as nat
}

/// The number that the decimal digits `s` denote.
pub open spec fn decimal_value(s: Seq<char>) -> nat
    decreases s.len(),
{
    if s.len() == 0 {
        0
    } else {
        decimal_value(s.drop_last()) * 10 + digit_value(s.last())
    }
}

/// The digits of a number written as `str::parse` for an unsigned type
/// reads it: an optional `+`, then one or more decimal digits.
pub open spec fn unsigned_digits(s: Seq<char>) -> Seq<char> {
    if s.len() > 0 && s[0] == '+' {
        s.drop_first()
    } else {
        s
    }
}

/// What `str::parse` gives for an unsigned integer type whose largest value is
/// `max`: `Some` of the value, or `None` where it fails.
pub open spec fn parse_unsigned(s: Seq<char>, max: nat) -> Option<nat> {
    let d = unsigned_digits(s);
    if d.len() > 0 && all_digits(d) && decimal_value(d) <= max {
        Some(decimal_value(d))
    } else {
        None
    }
}

pub open spec fn parse_u32(s: Seq<char>) -> Option<u32> {
    match parse_unsigned(s, u32::MAX as nat) {
        Some(n) => Some(n as u32),
        None => None,
    }
}

pub open spec fn parse_u64(s: Seq<char>) -> Option<u64> {
    match parse_unsigned(s, u64::MAX as nat) {
        Some(n) => Some(n as u64),
        None => None,
    }
}

pub proof fn lemma_decimal_value_prefix(s: Seq<char>, i: int)
    requires
        0 <= i <= s.len(),
    ensures
        decimal_value(s.take(i)) <= decimal_value(s),
    decreases s.len() - i,
{
    if i < s.len() {
        lemma_decimal_value_prefix(s, i + 1);
        assert(s.take(i + 1).drop_last() =~= s.take(i));
    } else {
        assert(s.take(i) =~= s);
    }
}

/// Reads `v` as `str::parse` reads an unsigned integer no larger than `max`.
pub fn parse_unsigned_exec(v: &[char], max: u64) -> (r: Option<u64>)
    ensures
        match r {
            Some(n) => parse_unsigned(v@, max as nat) == Some(n as nat),
            None => parse_unsigned(v@, max as nat) is None,
        },
{
    let start: usize = if v.len() > 0 && v[0] == '+' { 1 } else { 0 };
    let ghost d = unsigned_digits(v@);
    assert(d =~= v@.skip(start as int));
    if start >= v.len() {
        return None;
    }
    let mut acc: u128 = 0;
    let mut i: usize = start;
    while i < v.len()
        invariant
            start <= i <= v.len(),
            d == v@.skip(start as int),
            d == unsigned_digits(v@),
            all_digits(v@.subrange(start as int, i as int)),
            acc as nat == decimal_value(v@.subrange(start as int, i as int)),
            acc <= max,
        decreases v.len() - i,
    {
        let ch = v[i];
        if !('0' <= ch && ch <= '9') {
            assert(d[i - start] == ch);
            assert(!is_digit(d[i - start]));
            return None;
        }
        let dv = (ch as u32 - '0' as u32) as u128;
        proof {
            let sub = v@.subrange(start as int, i + 1);
            assert(sub.drop_last() =~= v@.subrange(start as int, i as int));
            assert(sub.last() == ch);
            assert(decimal_value(sub) == acc * 10 + dv);
            assert(all_digits(sub)) by {
                assert forall|j: int| 0 <= j < sub.len() implies is_digit(#[trigger] sub[j]) by {
                    if j < sub.len() - 1 {
                        assert(sub[j] == v@.subrange(start as int, i as int)[j]);
                    }
                }
            }
        }
        acc = acc * 10 + dv;
        i = i + 1;
        if acc > max as u128 {
            proof {
                assert(v@.subrange(start as int, i as int) =~= d.take(i - start));
                lemma_decimal_value_prefix(d, i - start);
            }
            return None;
        }
    }
    assert(v@.subrange(start as int, v.len() as int) =~= d);
    Some(acc as u64)
}

pub fn parse_u32_exec(v: &[char]) -> (r: Option<u32>)
    ensures
        r == parse_u32(v@),
{
    match parse_unsigned_exec(v, 0xffff_ffff) {
        Some(n) => Some(n as u32),
        None => None,
    }
}

pub fn parse_u64_exec(v: &[char]) -> (r: Option<u64>)
    ensures
        r == parse_u64(v@),
{
    parse_unsigned_exec(v, 0xffff_ffff_ffff_ffff)
}

/// `s` as an owned `String`.
pub fn owned(s: &str) -> (r: String)
    ensures
        r@ == s@,
{
    s.to_owned()
}

/// Whether `a` and `b` hold the same characters.
pub fn eq_exec(a: &[char], b: &[char]) -> (r: bool)
    ensures
        r == (a@ == b@),
{
    if a.len() != b.len() {
        return false;
    }
    let mut i: usize = 0;
    while i < a.len()
        invariant
            i <= a.len(),
            a.len() == b.len(),
            forall|j: int| 0 <= j < i ==> a@[j] == b@[j],
        decreases a.len() - i,
    {
        if a[i] != b[i] {
            return false;
        }
        i = i + 1;
    }
    assert(a@ =~= b@);
    true
}

/// `a` followed by `b`.
pub fn concat_vec(a: &[char], b: &[char]) -> (r: Vec<char>)
    ensures
        r@ == a@ + b@,
{
    let mut r: Vec<char> = Vec::new();
    let mut i: usize = 0;
    while i < a.len()
        invariant
            i <= a.len(),
            r@ == a@.take(i as int),
        decreases a.len() - i,
    {
        r.push(a[i]);
        i = i + 1;
        assert(r@ =~= a@.take(i as int));
    }
    let mut k: usize = 0;
    while k < b.len()
        invariant
            k <= b.len(),
            r@ == a@ + b@.take(k as int),
        decreases b.len() - k,
    {
        r.push(b[k]);
        k = k + 1;
        assert(r@ =~= a@ + b@.take(k as int));
    }
    assert(b@.take(b.len() as int) =~= b@);
    r
}

// ---------------------------------------------------------------------------
// Replacing and joining

/// `s` with every occurrence of the non-empty `from` replaced by `to`, scanning
/// from the left without overlaps (`str::replace`).
pub open spec fn replace_all(s: Seq<char>, from: Seq<char>, to: Seq<char>) -> Seq<char>
    decreases s.len(),
{
    if from.len() == 0 || s.len() < from.len() {
        s
    } else if s.take(from.len() as int) == from {
        to + replace_all(s.skip(from.len() as int), from, to)
    } else {
        seq![s[0]] + replace_all(s.drop_first(), from, to)
    }
}

proof fn lemma_replace_step(s: Seq<char>, from: Seq<char>, to: Seq<char>)
    requires
        from.len() > 0,
        s.len() > 0,
        !starts_with(s, from),
    ensures
        replace_all(s, from, to) == seq![s[0]] + replace_all(s.drop_first(), from, to),
{
    if s.len() < from.len() {
        assert(replace_all(s.drop_first(), from, to) == s.drop_first());
        assert(seq![s[0]] + s.drop_first() =~= s);
    }
}

/// `v` with every occurrence of `from` replaced by `to`.
pub fn replace_all_exec(v: &[char], from: &[char], to: &[char]) -> (r: Vec<char>)
    requires
        from@.len() > 0,
    ensures
        r@ == replace_all(v@, from@, to@),
{
    let mut r: Vec<char> = Vec::new();
    let mut i: usize = 0;
    assert(v@.skip(0) =~= v@);
    while i < v.len()
        invariant
            i <= v.len(),
            from@.len() > 0,
            r@ + replace_all(v@.skip(i as int), from@, to@) == replace_all(v@, from@, to@),
        decreases v.len() - i,
    {
        let ghost rest = v@.skip(i as int);
        if occurs_at_exec(v, from, i) {
            proof {
                assert(rest.take(from@.len() as int) =~= v@.subrange(i as int, i + from@.len()));
                assert(rest.skip(from@.len() as int) =~= v@.skip(i + from@.len()));
            }
            let mut k: usize = 0;
            let ghost r0 = r@;
            while k < to.len()
                invariant
                    k <= to.len(),
                    r@ == r0 + to@.take(k as int),
                decreases to.len() - k,
            {
                r.push(to[k]);
                k = k + 1;
                assert(r@ =~= r0 + to@.take(k as int));
            }
            assert(to@.take(to@.len() as int) =~= to@);
            assert(r0 + (to@ + replace_all(v@.skip(i + from@.len()), from@, to@)) =~= r@ + replace_all(
                v@.skip(i + from@.len()),
                from@,
                to@,
            ));
            i = i + from.len();
        } else {
            proof {
                assert(rest.len() >= from@.len() ==> rest.take(from@.len() as int) =~= v@.subrange(
                    i as int,
                    i + from@.len(),
                ));
                lemma_replace_step(rest, from@, to@);
                assert(rest.drop_first() =~= v@.skip(i + 1));
            }
            let ghost r0 = r@;
            r.push(v[i]);
            assert(r0 + (seq![v@[i as int]] + replace_all(v@.skip(i + 1), from@, to@)) =~= r@
                + replace_all(v@.skip(i + 1), from@, to@));
            i = i + 1;
        }
    }
    assert(v@.skip(i as int) =~= Seq::<char>::empty());
    assert(r@ + Seq::<char>::empty() =~= r@);
    r
}

/// The pieces joined with `sep` between each two (`[&str]::join`).
pub open spec fn join_with(parts: Seq<Seq<char>>, sep: Seq<char>) -> Seq<char>
    decreases parts.len(),
{
    if parts.len() == 0 {
        Seq::<char>::empty()
    } else if parts.len() == 1 {
        parts[0]
    } else {
        join_with(parts.drop_last(), sep) + sep + parts.last()
    }
}

/// The first `n` pieces of `parts`, joined with `sep`.
pub fn join_prefix_exec(parts: &Vec<Vec<char>>, n: usize, sep: &[char]) -> (r: Vec<char>)
    requires
        n <= parts.len(),
    ensures
        r@ == join_with(views(parts@).take(n as int), sep@),
{
    let ghost ps = views(parts@);
    let mut r: Vec<char> = Vec::new();
    let mut i: usize = 0;
    while i < n
        invariant
            i <= n <= parts.len(),
            ps == views(parts@),
            r@ == join_with(ps.take(i as int), sep@),
        decreases n - i,
    {
        assert(ps.take(i + 1).drop_last() =~= ps.take(i as int));
        if i == 0 {
            r = slice_vec(&parts[0], 0, parts[0].len());
        } else {
            let with_sep = concat_vec(&r, sep);
            r = concat_vec(&with_sep, &parts[i]);
        }
        i = i + 1;
    }
    r
}

// ---------------------------------------------------------------------------
// Whitespace, trimming, lines and words

/// `char::is_whitespace`: the characters with the Unicode `White_Space` property.
pub open spec fn is_whitespace(c: char) -> bool {
    ||| ('\t' <= c && c <= '\r')
    ||| c == ' '
    ||| c == '\u{85}'
    ||| c == '\u{a0}'
    ||| c == '\u{1680}'
    ||| ('\u{2000}' <= c && c <= '\u{200a}')
    ||| c == '\u{2028}'
    ||| c == '\u{2029}'
    ||| c == '\u{202f}'
    ||| c == '\u{205f}'
    ||| c == '\u{3000}'
}

pub fn is_whitespace_exec(c: char) -> (r: bool)
    ensures
        r == is_whitespace(c),
{
    ('\t' <= c && c <= '\r') || c == ' ' || c == '\u{85}' || c == '\u{a0}' || c == '\u{1680}' || (
    '\u{2000}' <= c && c <= '\u{200a}') || c == '\u{2028}' || c == '\u{2029}' || c == '\u{202f}'
        || c == '\u{205f}' || c == '\u{3000}'
}

pub open spec fn trim_start(s: Seq<char>) -> Seq<char>
    decreases s.len(),
{
    if s.len() > 0 && is_whitespace(s[0]) {
        trim_start(s.drop_first())
    } else {
        s
    }
}

pub open spec fn trim_end(s: Seq<char>) -> Seq<char>
    decreases s.len(),
{
    if s.len() > 0 && is_whitespace(s.last()) {
        trim_end(s.drop_last())
    } else {
        s
    }
}

/// `str::trim`: `s` without leading and trailing whitespace.
pub open spec fn trim(s: Seq<char>) -> Seq<char> {
    trim_end(trim_start(s))
}

proof fn lemma_trim_start_at(s: Seq<char>, k: int)
    requires
        0 <= k <= s.len(),
        forall|j: int| 0 <= j < k ==> is_whitespace(#[trigger] s[j]),
        k == s.len() || !is_whitespace(s[k]),
    ensures
        trim_start(s) == s.skip(k),
    decreases k,
{
    if k > 0 {
        assert forall|j: int| 0 <= j < k - 1 implies is_whitespace(#[trigger] s.drop_first()[j]) by {
            assert(s.drop_first()[j] == s[j + 1]);
        }
        lemma_trim_start_at(s.drop_first(), k - 1);
        assert(s.drop_first().skip(k - 1) =~= s.skip(k));
    } else {
        assert(s.skip(0) =~= s);
    }
}

proof fn lemma_trim_end_at(s: Seq<char>, k: int)
    requires
        0 <= k <= s.len(),
        forall|j: int| k <= j < s.len() ==> is_whitespace(#[trigger] s[j]),
        k == 0 || !is_whitespace(s[k - 1]),
    ensures
        trim_end(s) == s.take(k),
    decreases s.len() - k,
{
    if k < s.len() {
        assert(is_whitespace(s[s.len() - 1]));
        assert forall|j: int| k <= j < s.len() - 1 implies is_whitespace(#[trigger] s.drop_last()[j]) by {
            assert(s.drop_last()[j] == s[j]);
        }
        lemma_trim_end_at(s.drop_last(), k);
        assert(s.drop_last().take(k) =~= s.take(k));
    } else {
        assert(s.take(k) =~= s);
    }
}

/// `v` without leading and trailing whitespace.
pub fn trim_exec(v: &[char]) -> (r: Vec<char>)
    ensures
        r@ == trim(v@),
{
    let mut a: usize = 0;
    while a < v.len() && is_whitespace_exec(v[a])
        invariant
            a <= v.len(),
            forall|j: int| 0 <= j < a ==> is_whitespace(#[trigger] v@[j]),
        decreases v.len() - a,
    {
        a = a + 1;
    }
    proof {
        lemma_trim_start_at(v@, a as int);
    }
    let mut b: usize = v.len();
    while b > a && is_whitespace_exec(v[b - 1])
        invariant
            a <= b <= v.len(),
            forall|j: int| b <= j < v.len() ==> is_whitespace(#[trigger] v@[j]),
        decreases b,
    {
        b = b - 1;
    }
    proof {
        let t = v@.skip(a as int);
        assert forall|j: int| b - a <= j < t.len() implies is_whitespace(#[trigger] t[j]) by {
            assert(t[j] == v@[a + j]);
        }
        if b > a {
            assert(t[b - a - 1] == v@[b - 1]);
        }
        lemma_trim_end_at(t, b - a);
        assert(t.take(b - a) =~= v@.subrange(a as int, b as int));
    }
    slice_vec(v, a, b)
}

/// `v` without leading and trailing `c`s (`str::trim_matches` with a char).
pub open spec fn trim_char_both(s: Seq<char>, c: char) -> Seq<char> {
    trim_end_char(trim_start_char(s, c), c)
}

pub open spec fn trim_end_char(s: Seq<char>, c: char) -> Seq<char>
    decreases s.len(),
{
    if s.len() > 0 && s.last() == c {
        trim_end_char(s.drop_last(), c)
    } else {
        s
    }
}

pub fn trim_char_both_exec(v: &[char], c: char) -> (r: Vec<char>)
    ensures
        r@ == trim_char_both(v@, c),
{
    let t = trim_start_char_exec(v, c);
    let mut b: usize = t.len();
    assert(t@.take(t.len() as int) =~= t@);
    while b > 0 && t[b - 1] == c
        invariant
            b <= t.len(),
            trim_end_char(t@.take(b as int), c) == trim_end_char(t@, c),
        decreases b,
    {
        assert(t@.take(b as int).drop_last() =~= t@.take(b - 1));
        b = b - 1;
    }
    assert(t@.subrange(0, b as int) =~= t@.take(b as int));
    slice_vec(&t, 0, b)
}

/// A line as `str::lines` yields it when a `\n` followed it: without one
/// trailing `\r`.
pub open spec fn strip_cr(l: Seq<char>) -> Seq<char> {
    if l.len() > 0 && l.last() == '\r' {
        l.drop_last()
    } else {
        l
    }
}

/// `str::lines`: the pieces between `\n`s, each without a `\r` before its
/// `\n`; a final empty piece (after a trailing `\n`, or of an empty string)
/// is not a line.
pub open spec fn lines(s: Seq<char>) -> Seq<Seq<char>> {
    let ps = split_char(s, '\n');
    let n = ps.len();
    Seq::new((n - 1) as nat, |i: int| strip_cr(ps[i])) + if ps.last().len() > 0 {
        seq![ps.last()]
    } else {
        Seq::<Seq<char>>::empty()
    }
}

/// The lines of `v`.
pub fn lines_exec(v: &[char]) -> (r: Vec<Vec<char>>)
    ensures
        views(r@) == lines(v@),
{
    let ps = split_char_exec(v, '\n');
    proof {
        lemma_split_char_nonempty(v@, '\n');
    }
    let ghost pv = views(ps@);
    let n = ps.len();
    let mut r: Vec<Vec<char>> = Vec::new();
    let mut i: usize = 0;
    while i + 1 < n
        invariant
            n == ps.len() >= 1,
            i < n,
            pv == views(ps@),
            views(r@) == Seq::new(i as nat, |k: int| strip_cr(pv[k])),
        decreases n - i,
    {
        let p = &ps[i];
        let line = if p.len() > 0 && p[p.len() - 1] == '\r' {
            slice_vec(p, 0, p.len() - 1)
        } else {
            slice_vec(p, 0, p.len())
        };
        assert(line@ == strip_cr(pv[i as int]));
        let ghost old_r = r@;
        r.push(line);
        proof {
            lemma_views_push(old_r, line);
        }
        i = i + 1;
        assert(views(r@) =~= Seq::new(i as nat, |k: int| strip_cr(pv[k])));
    }
    let last = &ps[n - 1];
    assert(pv.last() == last@);
    if last.len() > 0 {
        let ghost old_r = r@;
        let l = slice_vec(last, 0, last.len());
        assert(l@ =~= last@);
        r.push(l);
        proof {
            lemma_views_push(old_r, l);
        }
        assert(i == n - 1);
        assert(views(old_r) == Seq::new(i as nat, |k: int| strip_cr(pv[k])));
        assert(views(r@) == Seq::new(i as nat, |k: int| strip_cr(pv[k])).push(pv.last()));
        assert(pv == split_char(v@, '\n'));
        assert(views(r@) =~= lines(v@));
    } else {
        assert(views(r@) =~= lines(v@));
    }
    r
}

/// The pieces of `s` between whitespace characters, empty ones included.
pub open spec fn split_ws_raw(s: Seq<char>) -> Seq<Seq<char>>
    decreases s.len(),
{
    if s.len() == 0 {
        seq![Seq::<char>::empty()]
    } else {
        let r = split_ws_raw(s.drop_last());
        if is_whitespace(s.last()) {
            r.push(Seq::<char>::empty())
        } else {
            r.update(r.len() - 1, r.last().push(s.last()))
        }
    }
}

proof fn lemma_split_ws_raw_nonempty(s: Seq<char>)
    ensures
        split_ws_raw(s).len() >= 1,
    decreases s.len(),
{
    if s.len() > 0 {
        lemma_split_ws_raw_nonempty(s.drop_last());
    }
}

/// The non-empty pieces of `ps`, in order.
pub open spec fn non_empty(ps: Seq<Seq<char>>) -> Seq<Seq<char>>
    decreases ps.len(),
{
    if ps.len() == 0 {
        Seq::<Seq<char>>::empty()
    } else {
        let r = non_empty(ps.drop_last());
        if ps.last().len() > 0 {
            r.push(ps.last())
        } else {
            r
        }
    }
}

/// `str::split_whitespace`: the maximal runs of non-whitespace characters.
pub open spec fn words(s: Seq<char>) -> Seq<Seq<char>> {
    non_empty(split_ws_raw(s))
}

/// The words of `v`.
pub fn words_exec(v: &[char]) -> (r: Vec<Vec<char>>)
    ensures
        views(r@) == words(v@),
{
    let mut pieces: Vec<Vec<char>> = Vec::new();
    let mut cur: Vec<char> = Vec::new();
    let mut i: usize = 0;
    while i < v.len()
        invariant
            i <= v.len(),
            views(pieces@).push(cur@) == split_ws_raw(v@.take(i as int)),
        decreases v.len() - i,
    {
        proof {
            lemma_split_ws_raw_nonempty(v@.take(i as int));
            assert(v@.take(i + 1).drop_last() =~= v@.take(i as int));
        }
        if is_whitespace_exec(v[i]) {
            let done = cur;
            let ghost old_pieces = pieces@;
            pieces.push(done);
            cur = Vec::new();
            proof {
                lemma_views_push(old_pieces, done);
                assert(views(pieces@).push(cur@) =~= split_ws_raw(v@.take(i as int)).push(
                    Seq::<char>::empty(),
                ));
            }
        } else {
            cur.push(v[i]);
            proof {
                let r = split_ws_raw(v@.take(i as int));
                assert(views(pieces@).push(cur@) =~= r.update(r.len() - 1, r.last().push(v@[i as int])));
            }
        }
        i = i + 1;
    }
    let ghost old_pieces = pieces@;
    let last_piece = cur;
    pieces.push(last_piece);
    proof {
        lemma_views_push(old_pieces, last_piece);
        assert(v@.take(v.len() as int) =~= v@);
    }
    let ghost pv = views(pieces@);
    let mut r: Vec<Vec<char>> = Vec::new();
    let mut k: usize = 0;
    while k < pieces.len()
        invariant
            k <= pieces.len(),
            pv == views(pieces@),
            views(r@) == non_empty(pv.take(k as int)),
        decreases pieces.len() - k,
    {
        assert(pv.take(k + 1).drop_last() =~= pv.take(k as int));
        assert(pv.take(k + 1).last() == pieces@[k as int]@);
        assert(pv[k as int] == pieces@[k as int]@);
        if pieces[k].len() > 0 {
            let ghost old_r = r@;
            let w = slice_vec(&pieces[k], 0, pieces[k].len());
            assert(w@ =~= pieces@[k as int]@);
            r.push(w);
            proof {
                lemma_views_push(old_r, w);
            }
        }
        k = k + 1;
    }
    assert(pv.take(pieces.len() as int) =~= pv);
    r
}

// ---------------------------------------------------------------------------
// Owned strings and lists of them

/// The characters of an optional string.
pub open spec fn opt_view(o: Option<String>) -> Option<Seq<char>> {
    match o {
        Some(s) => Some(s@),
        None => None,
    }
}

/// The character sequences that a list of strings holds.
pub open spec fn string_views(v: Seq<String>) -> Seq<Seq<char>> {
    v.map_values(|x: String| x@)
}

/// Whether one of `list` holds exactly the characters `x`.
pub fn list_contains(list: &Vec<String>, x: &[char]) -> (r: bool)
    ensures
        r == string_views(list@).contains(x@),
{
    let mut i: usize = 0;
    while i < list.len()
        invariant
            i <= list.len(),
            forall|j: int| 0 <= j < i ==> list@[j]@ != x@,
        decreases list.len() - i,
    {
        let item = chars_of(list[i].as_str());
        if eq_exec(&item, x) {
            assert(string_views(list@)[i as int] == x@);
            return true;
        }
        i = i + 1;
    }
    assert forall|j: int| 0 <= j < string_views(list@).len() implies string_views(list@)[j] != x@ by {
        assert(string_views(list@)[j] == list@[j]@);
    }
    false
}

/// An optional string holding the characters of an optional vector.
pub fn opt_string_of(o: &Option<Vec<char>>) -> (r: Option<String>)
    ensures
        opt_view(r) == match o {
            Some(v) => Some(v@),
            None => None::<Seq<char>>,
        },
{
    match o {
        Some(v) => Some(string_of(v)),
        None => None,
    }
}

// ---------------------------------------------------------------------------
// Lower case and the order of strings

/// What `str::to_lowercase` gives for `s` (the Unicode lower-case mapping).
pub uninterp spec fn spec_lowercase(s: Seq<char>) -> Seq<char>;

/// `s` in lower case.
///
/// Calls `str::to_lowercase`; the result is taken to depend on `s` alone,
/// as std's fixed Unicode tables make it.  Nothing else is claimed of it.
#[verifier::external_body]
pub(crate) fn lowercase(s: &str) -> (r: String)
    ensures
        r@ == spec_lowercase(s@),
{
    s.to_lowercase()
}

/// `a` and `b` agree on their first `j` characters.
pub open spec fn agree(a: Seq<char>, b: Seq<char>, j: int) -> bool {
    forall|k: int| 0 <= k < j ==> #[trigger] a[k] == b[k]
}

/// `a` comes before `b` in the order of `String`: at the first place where
/// they differ `a` has the smaller character, or `a` is a proper prefix of `b`.
pub open spec fn seq_lt(a: Seq<char>, b: Seq<char>) -> bool {
    ||| exists|j: int|
        0 <= j < a.len() && j < b.len() && agree(a, b, j) && (#[trigger] a[j] as int) < (b[j] as int)
    ||| (a.len() < b.len() && agree(a, b, a.len() as int))
}

/// Where `a` and `b` first differ, or the shorter length if one is a prefix
/// of the other.
pub open spec fn first_diff(a: Seq<char>, b: Seq<char>) -> int
    decreases a.len(),
{
    if a.len() == 0 || b.len() == 0 || a[0] != b[0] {
        0
    } else {
        1 + first_diff(a.drop_first(), b.drop_first())
    }
}

pub proof fn lemma_first_diff(a: Seq<char>, b: Seq<char>)
    ensures
        0 <= first_diff(a, b) <= a.len(),
        first_diff(a, b) <= b.len(),
        agree(a, b, first_diff(a, b)),
        first_diff(a, b) < a.len() && first_diff(a, b) < b.len() ==> a[first_diff(a, b)] != b[first_diff(
            a,
            b,
        )],
    decreases a.len(),
{
    if !(a.len() == 0 || b.len() == 0 || a[0] != b[0]) {
        lemma_first_diff(a.drop_first(), b.drop_first());
        let d = first_diff(a.drop_first(), b.drop_first());
        assert forall|k: int| 0 <= k < d + 1 implies #[trigger] a[k] == b[k] by {
            if k > 0 {
                assert(a[k] == a.drop_first()[k - 1]);
                assert(b[k] == b.drop_first()[k - 1]);
            }
        }
    }
}

/// `seq_lt` told by the first place of difference.
pub proof fn lemma_seq_lt_by_diff(a: Seq<char>, b: Seq<char>)
    ensures
        ({
            let d = first_diff(a, b);
            seq_lt(a, b) <==> ((d < a.len() && d < b.len() && (a[d] as int) < (b[d] as int)) || (d == a.len()
                && a.len() < b.len()))
        }),
{
    lemma_first_diff(a, b);
    let d = first_diff(a, b);
    if exists|j: int|
        0 <= j < a.len() && j < b.len() && agree(a, b, j) && (#[trigger] a[j] as int) < (b[j] as int) {
        let j = choose|j: int|
            0 <= j < a.len() && j < b.len() && agree(a, b, j) && (#[trigger] a[j] as int) < (b[j] as int);
        if j < d {
            assert(a[j] == b[j]);
        } else if d < j {
            assert(a[d] == b[d]);
        }
    }
    if a.len() < b.len() && agree(a, b, a.len() as int) && d < a.len() {
        assert(a[d] == b[d]);
    }
}

pub proof fn lemma_seq_lt_irreflexive(a: Seq<char>)
    ensures
        !seq_lt(a, a),
{
    lemma_seq_lt_by_diff(a, a);
}

/// Of two different strings, one comes before the other.
pub proof fn lemma_seq_lt_total(a: Seq<char>, b: Seq<char>)
    requires
        a != b,
    ensures
        seq_lt(a, b) || seq_lt(b, a),
{
    lemma_seq_lt_by_diff(a, b);
    lemma_seq_lt_by_diff(b, a);
    lemma_first_diff(a, b);
    lemma_first_diff(b, a);
    let d = first_diff(a, b);
    let e = first_diff(b, a);
    lemma_first_diff_symmetric(a, b);
    if d == a.len() && d == b.len() {
        assert(a =~= b);
    }
}

proof fn lemma_first_diff_symmetric(a: Seq<char>, b: Seq<char>)
    ensures
        first_diff(a, b) == first_diff(b, a),
    decreases a.len(),
{
    if !(a.len() == 0 || b.len() == 0 || a[0] != b[0]) {
        lemma_first_diff_symmetric(a.drop_first(), b.drop_first());
    }
}

pub proof fn lemma_seq_lt_transitive(a: Seq<char>, b: Seq<char>, c: Seq<char>)
    requires
        seq_lt(a, b),
        seq_lt(b, c),
    ensures
        seq_lt(a, c),
{
    lemma_seq_lt_by_diff(a, b);
    lemma_seq_lt_by_diff(b, c);
    lemma_seq_lt_by_diff(a, c);
    lemma_first_diff(a, b);
    lemma_first_diff(b, c);
    lemma_first_diff(a, c);
    let i = first_diff(a, b);
    let k = first_diff(b, c);
    let m = first_diff(a, c);
    assert forall|x: int| 0 <= x < i && x < k implies #[trigger] a[x] == c[x] by {
        assert(a[x] == b[x]);
        assert(b[x] == c[x]);
    }
    if i < k {
        // a and c part at i, where a is below b == c.
        if m < i {
            assert(a[m] == c[m]);
        } else if m > i {
            assert(a[i] == c[i]);
            assert(b[i] == c[i]);
        }
    } else if k < i {
        if m < k {
            assert(a[m] == c[m]);
        } else if m > k {
            assert(a[k] == c[k]);
            assert(a[k] == b[k]);
        }
    } else {
        if m < i {
            assert(a[m] == c[m]);
        } else if m > i && i < a.len() && i < c.len() {
            assert(a[i] == c[i]);
        }
    }
}

/// Whether `a` comes before `b` in the order of `String`.
pub fn seq_lt_exec(a: &[char], b: &[char]) -> (r: bool)
    ensures
        r == seq_lt(a@, b@),
{
    proof {
        lemma_seq_lt_by_diff(a@, b@);
        lemma_first_diff(a@, b@);
    }
    let mut i: usize = 0;
    while i < a.len() && i < b.len() && a[i] == b[i]
        invariant
            i <= a.len(),
            i <= b.len(),
            agree(a@, b@, i as int),
            i <= first_diff(a@, b@),
            agree(a@, b@, first_diff(a@, b@)),
            first_diff(a@, b@) < a@.len() && first_diff(a@, b@) < b@.len() ==> a@[first_diff(a@, b@)]
                != b@[first_diff(a@, b@)],
            first_diff(a@, b@) <= a@.len(),
            first_diff(a@, b@) <= b@.len(),
        decreases a.len() - i,
    {
        i = i + 1;
    }
    assert(i == first_diff(a@, b@));
    if i < a.len() && i < b.len() {
        a[i] < b[i]
    } else {
        i == a.len() && a.len() < b.len()
    }
}

// ---------------------------------------------------------------------------
// Writing and reading numbers

pub open spec fn digit_char(d: nat) -> char
    recommends
        d < 10,
{
    ((d + '0' as nat) as u32) as char
}

/// The decimal digits of `n`, as `format!("{}", n)` writes them.
pub open spec fn decimal_string(n: nat) -> Seq<char>
    decreases n,
{
    if n < 10 {
        seq![digit_char(n)]
    } else {
        decimal_string(n / 10).push(digit_char(n % 10))
    }
}

/// `n` written in decimal.
pub fn decimal_chars(n: u64) -> (r: Vec<char>)
    ensures
        r@ == decimal_string(n as nat),
    decreases n,
{
    if n < 10 {
        let c = char_for_digit(n);
        vec![c]
    } else {
        let mut r = decimal_chars(n / 10);
        let c = char_for_digit(n % 10);
        r.push(c);
        r
    }
}

fn char_for_digit(d: u64) -> (c: char)
    requires
        d < 10,
    ensures
        c == digit_char(d as nat),
{
    match d {
        0 => '0',
        1 => '1',
        2 => '2',
        3 => '3',
        4 => '4',
        5 => '5',
        6 => '6',
        7 => '7',
        8 => '8',
        _ => '9',
    }
}

/// The value of a hexadecimal digit, either case.
pub open spec fn hex_digit_value(c: char) -> Option<nat> {
    if '0' <= c <= '9' {
        Some((c as int - '0' as int) as nat)
    } else if 'a' <= c <= 'f' {
        Some((c as int - 'a' as int + 10) as nat)
    } else if 'A' <= c <= 'F' {
        Some((c as int - 'A' as int + 10) as nat)
    } else {
        None
    }
}

pub open spec fn all_hex_digits(s: Seq<char>) -> bool {
    forall|i: int| 0 <= i < s.len() ==> (#[trigger] hex_digit_value(s[i])) is Some
}

/// The number that the hexadecimal digits `s` denote.
pub open spec fn hex_value(s: Seq<char>) -> nat
    decreases s.len(),
{
    if s.len() == 0 {
        0
    } else {
        hex_value(s.drop_last()) * 16 + match hex_digit_value(s.last()) {
            Some(d) => d,
            None => 0,
        }
    }
}

/// What `u16::from_str_radix(s, 16)` gives: an optional `+`, then one or more
/// hexadecimal digits whose value fits in a `u16`.
pub open spec fn parse_hex_u16(s: Seq<char>) -> Option<u16> {
    let d = unsigned_digits(s);
    if d.len() > 0 && all_hex_digits(d) && hex_value(d) <= u16::MAX {
        Some(hex_value(d) as u16)
    } else {
        None
    }
}

proof fn lemma_hex_value_prefix(s: Seq<char>, i: int)
    requires
        0 <= i <= s.len(),
    ensures
        hex_value(s.take(i)) <= hex_value(s),
    decreases s.len() - i,
{
    if i < s.len() {
        lemma_hex_value_prefix(s, i + 1);
        assert(s.take(i + 1).drop_last() =~= s.take(i));
    } else {
        assert(s.take(i) =~= s);
    }
}

fn hex_digit_exec(c: char) -> (r: Option<u32>)
    ensures
        match r {
            Some(d) => hex_digit_value(c) == Some(d as nat) && d < 16,
            None => hex_digit_value(c) is None,
        },
{
    if '0' <= c && c <= '9' {
        Some(c as u32 - '0' as u32)
    } else if 'a' <= c && c <= 'f' {
        Some(c as u32 - 'a' as u32 + 10)
    } else if 'A' <= c && c <= 'F' {
        Some(c as u32 - 'A' as u32 + 10)
    } else {
        None
    }
}

/// Reads `v` as `u16::from_str_radix(v, 16)` does.
pub fn parse_hex_u16_exec(v: &[char]) -> (r: Option<u16>)
    ensures
        r == parse_hex_u16(v@),
{
    let start: usize = if v.len() > 0 && v[0] == '+' { 1 } else { 0 };
    let ghost d = unsigned_digits(v@);
    assert(d =~= v@.skip(start as int));
    if start >= v.len() {
        return None;
    }
    let mut acc: u32 = 0;
    let mut i: usize = start;
    while i < v.len()
        invariant
            start <= i <= v.len(),
            d == v@.skip(start as int),
            d == unsigned_digits(v@),
            all_hex_digits(v@.subrange(start as int, i as int)),
            acc as nat == hex_value(v@.subrange(start as int, i as int)),
            acc <= 0xffff,
        decreases v.len() - i,
    {
        let ch = v[i];
        let dv = match hex_digit_exec(ch) {
            Some(x) => x,
            None => {
                assert(d[i - start] == ch);
                return None;
            },
        };
        proof {
            let sub = v@.subrange(start as int, i + 1);
            assert(sub.drop_last() =~= v@.subrange(start as int, i as int));
            assert(sub.last() == ch);
            assert(all_hex_digits(sub)) by {
                assert forall|j: int| 0 <= j < sub.len() implies (#[trigger] hex_digit_value(sub[j])) is Some by {
                    if j < sub.len() - 1 {
                        assert(sub[j] == v@.subrange(start as int, i as int)[j]);
                    }
                }
            }
        }
        acc = acc * 16 + dv;
        i = i + 1;
        if acc > 0xffff {
            proof {
                assert(v@.subrange(start as int, i as int) =~= d.take(i - start));
                lemma_hex_value_prefix(d, i - start);
            }
            return None;
        }
    }
    assert(v@.subrange(start as int, v.len() as int) =~= d);
    Some(acc as u16)
}

// ---------------------------------------------------------------------------
// Splitting on a string

/// The first position where `p` occurs in `s`.
pub open spec fn find_seq(s: Seq<char>, p: Seq<char>) -> Option<int>
    decreases s.len(),
{
    if s.len() < p.len() {
        None
    } else if starts_with(s, p) {
        Some(0)
    } else if s.len() == 0 {
        None
    } else {
        match find_seq(s.drop_first(), p) {
            Some(i) => Some(i + 1),
            None => None,
        }
    }
}

pub proof fn lemma_find_seq(s: Seq<char>, p: Seq<char>)
    ensures
        match find_seq(s, p) {
            Some(i) => occurs_at(s, p, i) && forall|j: int| 0 <= j < i ==> !occurs_at(s, p, j),
            None => forall|j: int| !occurs_at(s, p, j),
        },
    decreases s.len(),
{
    if s.len() < p.len() {
    } else if starts_with(s, p) {
        assert(s.subrange(0, p.len() as int) =~= s.take(p.len() as int));
    } else if s.len() == 0 {
    } else {
        lemma_find_seq(s.drop_first(), p);
        assert(!occurs_at(s, p, 0)) by {
            assert(s.subrange(0, p.len() as int) =~= s.take(p.len() as int));
        }
        assert forall|j: int| 1 <= j && j + p.len() <= s.len() implies occurs_at(s, p, j) == occurs_at(
            s.drop_first(),
            p,
            j - 1,
        ) by {
            assert(s.subrange(j, j + p.len()) =~= s.drop_first().subrange(j - 1, j - 1 + p.len()));
        }
    }
}

/// The first position where `p` occurs in `v`.
pub fn find_seq_exec(v: &[char], p: &[char]) -> (r: Option<usize>)
    ensures
        match r {
            Some(i) => find_seq(v@, p@) == Some(i as int),
            None => find_seq(v@, p@) is None,
        },
{
    proof {
        lemma_find_seq(v@, p@);
    }
    if p.len() > v.len() {
        return None;
    }
    let last = v.len() - p.len();
    let mut i: usize = 0;
    loop
        invariant
            p.len() <= v.len(),
            last == v.len() - p.len(),
            i <= last,
            forall|j: int| 0 <= j < i ==> !occurs_at(v@, p@, j),
        ensures
            forall|j: int| 0 <= j <= last ==> !occurs_at(v@, p@, j),
        decreases last - i,
    {
        if occurs_at_exec(v, p, i) {
            proof {
                lemma_find_seq(v@, p@);
                match find_seq(v@, p@) {
                    Some(k) => {
                        if k < i {
                        } else if k > i {
                        }
                    },
                    None => {},
                }
            }
            return Some(i);
        }
        if i == last {
            break;
        }
        i = i + 1;
    }
    proof {
        match find_seq(v@, p@) {
            Some(k) => {
                assert(k <= last);
            },
            None => {},
        }
    }
    None
}

/// The two pieces of `s` around `sep`, when `sep` occurs in it exactly once
/// (so that `str::split` gives exactly two pieces).
pub open spec fn split_in_two(s: Seq<char>, sep: Seq<char>) -> Option<(Seq<char>, Seq<char>)> {
    match find_seq(s, sep) {
        Some(i) => {
            let rest = s.skip(i + sep.len());
            if find_seq(rest, sep) is None {
                Some((s.take(i), rest))
            } else {
                None
            }
        },
        None => None,
    }
}

pub fn split_in_two_exec(v: &[char], sep: &[char]) -> (r: Option<(Vec<char>, Vec<char>)>)
    ensures
        match r {
            Some((a, b)) => split_in_two(v@, sep@) == Some((a@, b@)),
            None => split_in_two(v@, sep@) is None,
        },
{
    match find_seq_exec(v, sep) {
        Some(i) => {
            proof {
                lemma_find_seq(v@, sep@);
            }
            assert(occurs_at(v@, sep@, i as int));
            let n = sep.len();
            assert(n == sep@.len());
            assert(i + n <= v.len());
            let rest = skip_vec(v, i + n);
            match find_seq_exec(&rest, sep) {
                Some(_) => None,
                None => {
                    let first = slice_vec(v, 0, i);
                    assert(first@ =~= v@.take(i as int));
                    Some((first, rest))
                },
            }
        },
        None => None,
    }
}

/// `a`, then `b`, then `c`.
pub fn concat3(a: &[char], b: &[char], c: &[char]) -> (r: Vec<char>)
    ensures
        r@ == a@ + b@ + c@,
{
    let ab = concat_vec(a, b);
    concat_vec(&ab, c)
}

/// The text `a`, then `b`, then the text `c`, as a `String`.
pub fn format3(a: &str, b: &[char], c: &str) -> (r: String)
    ensures
        r@ == a@ + b@ + c@,
{
    string_of(&concat3(&chars_of(a), b, &chars_of(c)))
}

/// Appends the characters of `s` to `v`.
pub fn push_str(v: &mut Vec<char>, s: &str)
    ensures
        final(v)@ == old(v)@ + s@,
{
    let c = chars_of(s);
    push_chars(v, &c);
}

/// Appends `c` to `v`.
pub fn push_chars(v: &mut Vec<char>, c: &[char])
    ensures
        final(v)@ == old(v)@ + c@,
{
    let ghost v0 = v@;
    let mut i: usize = 0;
    while i < c.len()
        invariant
            i <= c.len(),
            v@ == v0 + c@.take(i as int),
        decreases c.len() - i,
    {
        v.push(c[i]);
        i = i + 1;
        assert(v@ =~= v0 + c@.take(i as int));
    }
    assert(c@.take(c.len() as int) =~= c@);
}


// ---------------------------------------------------------------------------
// Adjacent pairs of characters

/// The character `a` is immediately followed by `b` somewhere in `s`.
pub open spec fn has_pair(s: Seq<char>, a: char, b: char) -> bool {
    exists|i: int| 0 <= i && i + 1 < s.len() && #[trigger] s[i] == a && s[i + 1] == b
}

/// A two-character text occurs in `s` exactly where its characters stand
/// side by side in `s`.
pub proof fn lemma_pair_contains(s: Seq<char>, a: char, b: char)
    ensures
        contains_seq(s, seq![a, b]) == has_pair(s, a, b),
{
    if contains_seq(s, seq![a, b]) {
        let i = choose|i: int| occurs_at(s, seq![a, b], i);
        assert(s.subrange(i, i + 2)[0] == s[i]);
        assert(s.subrange(i, i + 2)[1] == s[i + 1]);
        assert(s[i] == a && s[i + 1] == b);
    }
    if has_pair(s, a, b) {
        let i = choose|i: int| 0 <= i && i + 1 < s.len() && #[trigger] s[i] == a && s[i + 1] == b;
        assert(s.subrange(i, i + 2) =~= seq![a, b]);
        assert(occurs_at(s, seq![a, b], i));
    }
}

/// A pair in a piece of `s` is a pair in `s`.
pub proof fn lemma_pair_subrange(s: Seq<char>, lo: int, hi: int, a: char, b: char)
    requires
        0 <= lo <= hi <= s.len(),
        has_pair(s.subrange(lo, hi), a, b),
    ensures
        has_pair(s, a, b),
{
    let t = s.subrange(lo, hi);
    let i = choose|i: int| 0 <= i && i + 1 < t.len() && #[trigger] t[i] == a && t[i + 1] == b;
    assert(s[lo + i] == a && s[lo + i + 1] == b);
}

/// A pair in `x + y` lies in `x`, in `y`, or across the joint.
pub proof fn lemma_pair_concat(x: Seq<char>, y: Seq<char>, a: char, b: char)
    requires
        has_pair(x + y, a, b),
    ensures
        has_pair(x, a, b) || has_pair(y, a, b) || (x.len() > 0 && y.len() > 0 && x.last() == a && y[0] == b),
{
    let s = x + y;
    let i = choose|i: int| 0 <= i && i + 1 < s.len() && #[trigger] s[i] == a && s[i + 1] == b;
    if i + 1 < x.len() {
        assert(x[i] == a && x[i + 1] == b);
    } else if i >= x.len() {
        assert(y[i - x.len()] == a && y[i - x.len() + 1] == b);
    } else {
        assert(x.last() == a && y[0] == b);
    }
}

/// Trimming makes no new pair.
pub proof fn lemma_trim_pairs(s: Seq<char>, a: char, b: char)
    requires
        has_pair(trim(s), a, b),
    ensures
        has_pair(s, a, b),
{
    lemma_trim_end_pairs(trim_start(s), a, b);
    lemma_trim_start_pairs(s, a, b);
}

proof fn lemma_trim_start_pairs(s: Seq<char>, a: char, b: char)
    requires
        has_pair(trim_start(s), a, b),
    ensures
        has_pair(s, a, b),
    decreases s.len(),
{
    if s.len() > 0 && is_whitespace(s[0]) {
        lemma_trim_start_pairs(s.drop_first(), a, b);
        assert(s.drop_first() =~= s.subrange(1, s.len() as int));
        lemma_pair_subrange(s, 1, s.len() as int, a, b);
    }
}

proof fn lemma_trim_end_pairs(s: Seq<char>, a: char, b: char)
    requires
        has_pair(trim_end(s), a, b),
    ensures
        has_pair(s, a, b),
    decreases s.len(),
{
    if s.len() > 0 && is_whitespace(s.last()) {
        lemma_trim_end_pairs(s.drop_last(), a, b);
        assert(s.drop_last() =~= s.subrange(0, s.len() - 1));
        lemma_pair_subrange(s, 0, s.len() - 1, a, b);
    }
}

proof fn lemma_remove_pair_head(t: Seq<char>, x: char)
    requires
        t.len() > 0,
        t[0] != '%',
    ensures
        replace_all(t, seq!['%', x], Seq::empty()).len() > 0,
        replace_all(t, seq!['%', x], Seq::empty())[0] == t[0],
{
    let from = seq!['%', x];
    if t.len() >= 2 {
        assert(t.take(2)[0] == t[0]);
        assert(t.take(2) != from);
    }
}

/// Removing every `%x` from a text in which no `%` follows a `%` leaves no
/// `%x` behind and brings no pair `%y` together that was not there before.
pub proof fn lemma_remove_percent_pair(s: Seq<char>, x: char, y: char)
    requires
        !has_pair(s, '%', '%'),
    ensures
        !has_pair(replace_all(s, seq!['%', x], Seq::empty()), '%', x),
        has_pair(replace_all(s, seq!['%', x], Seq::empty()), '%', y) ==> has_pair(s, '%', y),
    decreases s.len(),
{
    let from = seq!['%', x];
    let e = Seq::<char>::empty();
    let r = replace_all(s, from, e);
    if s.len() < 2 {
        assert(r == s);
    } else if s.take(2) == from {
        let t = s.skip(2);
        assert(t =~= s.subrange(2, s.len() as int));
        if has_pair(t, '%', '%') {
            lemma_pair_subrange(s, 2, s.len() as int, '%', '%');
        }
        lemma_remove_percent_pair(t, x, y);
        assert(r =~= replace_all(t, from, e));
        if has_pair(replace_all(t, from, e), '%', y) {
            lemma_pair_subrange(s, 2, s.len() as int, '%', y);
        }
    } else {
        let t = s.drop_first();
        assert(t =~= s.subrange(1, s.len() as int));
        if has_pair(t, '%', '%') {
            lemma_pair_subrange(s, 1, s.len() as int, '%', '%');
        }
        lemma_remove_percent_pair(t, x, y);
        let rt = replace_all(t, from, e);
        assert(r =~= seq![s[0]] + rt);
        if s[0] == '%' {
            assert(s[1] != '%');
            assert(t[0] == s[1]);
            lemma_remove_pair_head(t, x);
            assert(s.take(2)[0] == s[0] && s.take(2)[1] == s[1]);
            if s[1] == x {
                assert(s.take(2) =~= from);
            }
            assert(s[0] == '%' && s[1] == s[1]);
        }
        if has_pair(r, '%', x) {
            lemma_pair_concat(seq![s[0]], rt, '%', x);
            let i = choose|i: int| 0 <= i && i + 1 < seq![s[0]].len() && #[trigger] seq![s[0]][i] == '%' && seq![s[0]][i + 1] == x;
        }
        if has_pair(r, '%', y) {
            lemma_pair_concat(seq![s[0]], rt, '%', y);
            if has_pair(seq![s[0]], '%', y) {
                let i = choose|i: int| 0 <= i && i + 1 < seq![s[0]].len() && #[trigger] seq![s[0]][i] == '%' && seq![s[0]][i + 1] == y;
            }
            if has_pair(rt, '%', y) {
                lemma_pair_subrange(s, 1, s.len() as int, '%', y);
            }
        }
    }
}

/// Where `%x` does not occur, removing it changes nothing.
pub proof fn lemma_remove_absent_pair(s: Seq<char>, x: char)
    requires
        !has_pair(s, '%', x),
    ensures
        replace_all(s, seq!['%', x], Seq::empty()) == s,
    decreases s.len(),
{
    let from = seq!['%', x];
    if s.len() >= 2 {
        assert(s.take(2)[0] == s[0] && s.take(2)[1] == s[1]);
        assert(s.take(2) != from);
        let t = s.drop_first();
        assert(t =~= s.subrange(1, s.len() as int));
        if has_pair(t, '%', x) {
            lemma_pair_subrange(s, 1, s.len() as int, '%', x);
        }
        lemma_remove_absent_pair(t, x);
        assert(seq![s[0]] + t =~= s);
    }
}

} // verus!
