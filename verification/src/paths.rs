//! Paths as text: the final component of a path, its extension and stem, and
//! joining a component onto a directory, as `std::path` defines them for
//! Unix paths.
use vstd::prelude::*;
use crate::text::{
    concat_vec, eq_exec, lemma_rfind_char, rfind_char, rfind_char_exec, skip_vec, slice_vec, split_char, split_char_exec, views,
};

verus! {

/// A path component that names an entry: neither empty (from repeated or
/// trailing separators) nor `.`.
pub open spec fn is_named(c: Seq<char>) -> bool {
    c.len() > 0 && c != seq!['.']
}

/// The pieces of `pieces` that name entries, in order.
pub open spec fn named(pieces: Seq<Seq<char>>) -> Seq<Seq<char>>
    decreases pieces.len(),
{
    if pieces.len() == 0 {
        Seq::<Seq<char>>::empty()
    } else {
        let r = named(pieces.drop_last());
        if is_named(pieces.last()) {
            r.push(pieces.last())
        } else {
            r
        }
    }
}

/// The components of a path that name entries.
pub open spec fn components(path: Seq<char>) -> Seq<Seq<char>> {
    named(split_char(path, '/'))
}

/// `Path::file_name`: the last component, unless there is none or it is `..`.
pub open spec fn file_name(path: Seq<char>) -> Option<Seq<char>> {
    let cs = components(path);
    if cs.len() == 0 || cs.last() == seq!['.', '.'] {
        None
    } else {
        Some(cs.last())
    }
}

/// `Path::extension` of a file name: the part after the last `.`, unless there
/// is no `.` or the only one starts the name.
pub open spec fn extension(name: Seq<char>) -> Option<Seq<char>> {
    match rfind_char(name, '.') {
        Some(i) => if i == 0 {
            None
        } else {
            Some(name.skip(i + 1))
        },
        None => None,
    }
}

/// `Path::file_stem` of a file name: the part before the last `.`, or the
/// whole name where `extension` is `None`.
pub open spec fn file_stem(name: Seq<char>) -> Seq<char> {
    match rfind_char(name, '.') {
        Some(i) => if i == 0 {
            name
        } else {
            name.take(i)
        },
        None => name,
    }
}

/// `Path::extension` of a whole path.
pub open spec fn path_extension(path: Seq<char>) -> Option<Seq<char>> {
    match file_name(path) {
        Some(n) => extension(n),
        None => None,
    }
}

/// `PathBuf::join` for Unix paths: an absolute component replaces the base;
/// otherwise a `/` is put between them unless the base is empty or already
/// ends with one.
pub open spec fn join(base: Seq<char>, comp: Seq<char>) -> Seq<char> {
    if comp.len() > 0 && comp[0] == '/' {
        comp
    } else if base.len() == 0 || base.last() == '/' {
        base + comp
    } else {
        base + seq!['/'] + comp
    }
}

/// The components of `path` that name entries.
pub fn components_exec(path: &[char]) -> (r: Vec<Vec<char>>)
    ensures
        views(r@) == components(path@),
{
    let pieces = split_char_exec(path, '/');
    let ghost ps = views(pieces@);
    let dot = vec!['.'];
    let mut r: Vec<Vec<char>> = Vec::new();
    let mut i: usize = 0;
    while i < pieces.len()
        invariant
            i <= pieces.len(),
            ps == views(pieces@),
            dot@ == seq!['.'],
            views(r@) == named(ps.take(i as int)),
        decreases pieces.len() - i,
    {
        assert(ps.take(i + 1).drop_last() =~= ps.take(i as int));
        let p = &pieces[i];
        if p.len() > 0 && !eq_exec(p, &dot) {
            let ghost old_r = r@;
            r.push(p.clone());
            assert(views(r@) =~= views(old_r).push(ps[i as int]));
        }
        i = i + 1;
    }
    assert(ps.take(pieces.len() as int) =~= ps);
    r
}

/// The last component of `path`, as `Path::file_name` gives it.
pub fn file_name_exec(path: &[char]) -> (r: Option<Vec<char>>)
    ensures
        match r {
            Some(n) => file_name(path@) == Some(n@),
            None => file_name(path@) is None,
        },
{
    let cs = components_exec(path);
    if cs.len() == 0 {
        return None;
    }
    let last = cs[cs.len() - 1].clone();
    let dotdot = vec!['.', '.'];
    assert(views(cs@).last() == last@);
    if eq_exec(&last, &dotdot) {
        None
    } else {
        Some(last)
    }
}

/// The extension of the file name `name`.
pub fn extension_exec(name: &[char]) -> (r: Option<Vec<char>>)
    ensures
        match r {
            Some(e) => extension(name@) == Some(e@),
            None => extension(name@) is None,
        },
{
    match rfind_char_exec(name, '.') {
        Some(i) => {
            proof {
                lemma_rfind_char(name@, '.');
            }
            assert(i < name.len());
            if i == 0 {
                None
            } else {
                Some(skip_vec(name, i + 1))
            }
        },
        None => None,
    }
}

/// The stem of the file name `name`.
pub fn file_stem_exec(name: &[char]) -> (r: Vec<char>)
    ensures
        r@ == file_stem(name@),
{
    match rfind_char_exec(name, '.') {
        Some(i) => {
            proof {
                lemma_rfind_char(name@, '.');
            }
            if i == 0 {
                slice_vec(name, 0, name.len())
            } else {
                slice_vec(name, 0, i)
            }
        },
        None => slice_vec(name, 0, name.len()),
    }
}

/// `base` joined with `comp`.
pub fn join_exec(base: &[char], comp: &[char]) -> (r: Vec<char>)
    ensures
        r@ == join(base@, comp@),
{
    if comp.len() > 0 && comp[0] == '/' {
        slice_vec(comp, 0, comp.len())
    } else if base.len() == 0 || base[base.len() - 1] == '/' {
        concat_vec(base, comp)
    } else {
        let with_sep = concat_vec(base, &['/']);
        concat_vec(&with_sep, comp)
    }
}

/// What `Path::parent` gives for `path`, written out as text.
pub uninterp spec fn spec_parent(path: Seq<char>) -> Option<Seq<char>>;

/// The directory that holds `path`.
///
/// Calls `std::path::Path::parent` and writes the result with `display`; the
/// result is taken to depend on `path` alone.
#[verifier::external_body]
pub(crate) fn parent_dir(path: &str) -> (r: Option<String>)
    ensures
        match r {
            Some(p) => spec_parent(path@) == Some(p@),
            None => spec_parent(path@) is None,
        },
{
    std::path::Path::new(path).parent().map(|p| p.display().to_string())
}

// ---------------------------------------------------------------------------
// Names built from parts

/// A name made of a non-empty stem, a `.` and a text without `.` has that
/// text as its extension and the stem as its stem.
pub proof fn lemma_stem_and_extension(stem: Seq<char>, ext: Seq<char>)
    requires
        stem.len() > 0,
        forall|i: int| 0 <= i < ext.len() ==> ext[i] != '.',
    ensures
        extension(stem + seq!['.'] + ext) == Some(ext),
        file_stem(stem + seq!['.'] + ext) == stem,
{
    let n = stem + seq!['.'] + ext;
    let k = stem.len() as int;
    assert(n[k] == '.');
    assert forall|j: int| k < j < n.len() implies n[j] != '.' by {
        assert(n[j] == ext[j - k - 1]);
    }
    lemma_rfind_char(n, '.');
    match rfind_char(n, '.') {
        Some(i) => {
            assert(i == k);
        },
        None => {
            assert(n[k] == '.');
        },
    }
    assert(n.skip(k + 1) =~= ext);
    assert(n.take(k) =~= stem);
}

/// Adding a named piece at the end adds it to the named pieces.
proof fn lemma_named_push(ps: Seq<Seq<char>>, x: Seq<char>)
    requires
        is_named(x),
    ensures
        named(ps.push(x)) == named(ps).push(x),
{
    assert(ps.push(x).drop_last() =~= ps);
}

/// Joining a plain name (not empty, without `/`, neither `.` nor `..`) onto
/// any directory gives a path whose file name is that name.
pub proof fn lemma_file_name_of_join(base: Seq<char>, f: Seq<char>)
    requires
        f.len() > 0,
        forall|i: int| 0 <= i < f.len() ==> f[i] != '/',
        f != seq!['.'],
        f != seq!['.', '.'],
    ensures
        file_name(join(base, f)) == Some(f),
{
    crate::text::lemma_split_char_none(f, '/');
    let j = join(base, f);
    if base.len() == 0 {
        assert(j =~= f);
        assert(split_char(j, '/') == seq![f]);
        assert(seq![f] =~= Seq::<Seq<char>>::empty().push(f));
        lemma_named_push(Seq::<Seq<char>>::empty(), f);
    } else {
        let b = if base.last() == '/' {
            base.drop_last()
        } else {
            base
        };
        assert(j =~= b + seq!['/'] + f);
        crate::text::lemma_split_char_append(b, f, '/');
        assert(split_char(b, '/') + seq![f] =~= split_char(b, '/').push(f));
        lemma_named_push(split_char(b, '/'), f);
    }
}

} // verus!
