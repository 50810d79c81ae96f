//! Installing packages: telling a package's kind from its file name, and the
//! result an installation reports.
use vstd::prelude::*;
use crate::paths::{extension, extension_exec, file_name, file_name_exec};
use crate::text::{chars_of, contains_exec, contains_seq, ends_with, ends_with_exec, eq_exec};

pub mod deb;
pub mod appimage;
pub mod zip;
pub mod tar;

verus! {

/// What an installation or removal reports.
pub struct InstallResult {
    pub success: bool,
    pub message: String,
    pub app_name: String,
    pub install_path: String,
    pub icon_path: Option<String>,
    pub version: Option<String>,
    pub size_bytes: i64,
}

/// The kind of package a file holds, as told by its name.
#[derive(Debug, Clone, Copy, PartialEq, Eq, Structural)]
pub enum InstallType {
    Deb,
    AppImage,
    Zip,
    TarGz,
    Unknown,
}

/// The kind of package that the file at `path` holds, told by its name.
///
/// A name ending in `.tar.gz` or `.tgz` is a tarball; otherwise the extension
/// decides (`deb`, `AppImage` or `appimage`, `zip`); a name that still mentions
/// `.AppImage` or ends in `AppImage` is an AppImage; anything else is unknown.
pub open spec fn spec_install_type(path: Seq<char>) -> InstallType {
    let name = match file_name(path) {
        Some(n) => n,
        None => Seq::<char>::empty(),
    };
    let ext = extension(name);
    if ends_with(name, ".tar.gz"@) || ends_with(name, ".tgz"@) {
        InstallType::TarGz
    } else if ext == Some("deb"@) {
        InstallType::Deb
    } else if ext == Some("AppImage"@) || ext == Some("appimage"@) {
        InstallType::AppImage
    } else if ext == Some("zip"@) {
        InstallType::Zip
    } else if contains_seq(name, ".AppImage"@) || ends_with(name, "AppImage"@) {
        InstallType::AppImage
    } else {
        InstallType::Unknown
    }
}

impl InstallType {
    /// The short tag under which an installation of this kind is recorded.
    pub open spec fn spec_tag(self) -> Seq<char> {
        match self {
            InstallType::Deb => "deb"@,
            InstallType::AppImage => "appimage"@,
            InstallType::Zip => "zip"@,
            InstallType::TarGz => "targz"@,
            InstallType::Unknown => "unknown"@,
        }
    }

    /// The kind of package that the file at `path` holds.
    pub fn from_path(path: &str) -> (t: InstallType)
        ensures
            t == spec_install_type(path@),
    {
        let chars = chars_of(path);
        let name = match file_name_exec(&chars) {
            Some(n) => n,
            None => Vec::new(),
        };
        let ext = extension_exec(&name);
        if ends_with_exec(&name, &chars_of(".tar.gz")) || ends_with_exec(&name, &chars_of(".tgz")) {
            return InstallType::TarGz;
        }
        let is = |e: &Option<Vec<char>>, lit: &str| -> (r: bool)
            ensures
                r == (match e {
                    Some(x) => x@ == lit@,
                    None => false,
                }),
            {
                match e {
                    Some(x) => eq_exec(x, &chars_of(lit)),
                    None => false,
                }
            };
        if is(&ext, "deb") {
            InstallType::Deb
        } else if is(&ext, "AppImage") || is(&ext, "appimage") {
            InstallType::AppImage
        } else if is(&ext, "zip") {
            InstallType::Zip
        } else if contains_exec(&name, &chars_of(".AppImage")) || ends_with_exec(&name, &chars_of("AppImage")) {
            InstallType::AppImage
        } else {
            InstallType::Unknown
        }
    }

    /// The kind of installation recorded under `tag`; other tags are unknown.
    pub open spec fn spec_from_tag(tag: Seq<char>) -> InstallType {
        if tag == "deb"@ {
            InstallType::Deb
        } else if tag == "appimage"@ {
            InstallType::AppImage
        } else if tag == "zip"@ {
            InstallType::Zip
        } else if tag == "targz"@ {
            InstallType::TarGz
        } else {
            InstallType::Unknown
        }
    }

    /// The kind of installation recorded under `tag`.
    pub fn from_tag(tag: &str) -> (t: InstallType)
        ensures
            t == Self::spec_from_tag(tag@),
    {
        let v = chars_of(tag);
        if eq_exec(&v, &chars_of("deb")) {
            InstallType::Deb
        } else if eq_exec(&v, &chars_of("appimage")) {
            InstallType::AppImage
        } else if eq_exec(&v, &chars_of("zip")) {
            InstallType::Zip
        } else if eq_exec(&v, &chars_of("targz")) {
            InstallType::TarGz
        } else {
            InstallType::Unknown
        }
    }

    /// The short tag under which an installation of this kind is recorded.
    pub fn as_str(&self) -> (s: &'static str)
        ensures
            s@ == self.spec_tag(),
    {
        match self {
            InstallType::Deb => "deb",
            InstallType::AppImage => "appimage",
            InstallType::Zip => "zip",
            InstallType::TarGz => "targz",
            InstallType::Unknown => "unknown",
        }
    }
}

/// Reading back the tag of an installable kind gives that kind: the tag an
/// installation is recorded under tells how to remove it.
pub proof fn lemma_tag_round_trip(t: InstallType)
    requires
        t != InstallType::Unknown,
    ensures
        InstallType::spec_from_tag(t.spec_tag()) == t,
{
    reveal_strlit("deb");
    reveal_strlit("appimage");
    reveal_strlit("zip");
    reveal_strlit("targz");
    assert("targz"@[0] != "deb"@[0]);
    assert("targz"@.len() != "appimage"@.len());
    assert("targz"@[0] != "zip"@[0]);
    assert("zip"@[0] != "deb"@[0]);
    assert("appimage"@.len() != "deb"@.len());
}

/// Distinct kinds are recorded under distinct tags.
pub proof fn lemma_tags_distinct(a: InstallType, b: InstallType)
    requires
        a != b,
    ensures
        a.spec_tag() != b.spec_tag(),
{
    reveal_strlit("deb");
    reveal_strlit("appimage");
    reveal_strlit("zip");
    reveal_strlit("targz");
    reveal_strlit("unknown");
    if a.spec_tag() == b.spec_tag() {
        assert(a.spec_tag().len() == b.spec_tag().len());
        assert(a.spec_tag()[0] == b.spec_tag()[0]);
    }
}

/// Two texts that end differently are not equal.
proof fn lemma_last_differs(a: Seq<char>, b: Seq<char>)
    requires
        a.len() > 0,
        b.len() > 0,
        a.last() != b.last(),
    ensures
        !ends_with(a, b),
{
    if ends_with(a, b) {
        assert(a.skip(a.len() - b.len()).last() == a.last());
    }
}

/// A file named by a non-empty stem and one of the package extensions this
/// tool installs is recognised as that kind of package: `.deb`, `.AppImage`
/// (or `.appimage`), `.zip`, `.tar.gz` and `.tgz`.
pub proof fn lemma_package_extensions_recognised(path: Seq<char>, stem: Seq<char>)
    requires
        stem.len() > 0,
    ensures
        file_name(path) == Some(stem + ".deb"@) ==> spec_install_type(path) == InstallType::Deb,
        file_name(path) == Some(stem + ".AppImage"@) ==> spec_install_type(path) == InstallType::AppImage,
        file_name(path) == Some(stem + ".appimage"@) ==> spec_install_type(path) == InstallType::AppImage,
        file_name(path) == Some(stem + ".zip"@) ==> spec_install_type(path) == InstallType::Zip,
        file_name(path) == Some(stem + ".tar.gz"@) ==> spec_install_type(path) == InstallType::TarGz,
        file_name(path) == Some(stem + ".tgz"@) ==> spec_install_type(path) == InstallType::TarGz,
{
    reveal_strlit(".deb");
    reveal_strlit(".AppImage");
    reveal_strlit(".appimage");
    reveal_strlit(".zip");
    reveal_strlit(".tar.gz");
    reveal_strlit(".tgz");
    reveal_strlit("deb");
    reveal_strlit("AppImage");
    reveal_strlit("appimage");
    reveal_strlit("zip");
    let exts = seq!["deb"@, "AppImage"@, "appimage"@, "zip"@];
    assert forall|e: int| 0 <= e < 4 implies ({
        let x = #[trigger] exts[e];
        let n = stem + seq!['.'] + x;
        &&& extension(n) == Some(x)
        &&& !ends_with(n, ".tar.gz"@)
        &&& !ends_with(n, ".tgz"@)
        &&& n == stem + (seq!['.'] + x)
    }) by {
        let x = exts[e];
        let n = stem + seq!['.'] + x;
        assert(forall|i: int| 0 <= i < x.len() ==> x[i] != '.');
        crate::paths::lemma_stem_and_extension(stem, x);
        assert(n.last() == x.last());
        lemma_last_differs(n, ".tar.gz"@);
        lemma_last_differs(n, ".tgz"@);
        assert(n =~= stem + (seq!['.'] + x));
    }
    assert(".deb"@ =~= seq!['.'] + exts[0]);
    assert(".AppImage"@ =~= seq!['.'] + exts[1]);
    assert(".appimage"@ =~= seq!['.'] + exts[2]);
    assert(".zip"@ =~= seq!['.'] + exts[3]);
    assert(ends_with(stem + ".tar.gz"@, ".tar.gz"@)) by {
        assert((stem + ".tar.gz"@).skip(stem.len() as int) =~= ".tar.gz"@);
    }
    assert(ends_with(stem + ".tgz"@, ".tgz"@)) by {
        assert((stem + ".tgz"@).skip(stem.len() as int) =~= ".tgz"@);
    }
}

} // verus!
