//! Installing `.deb` packages through `dpkg` and `apt-get`.
use vstd::prelude::*;
use crate::db::AppEntry;
use crate::installer::InstallResult;
use crate::paths::{file_name, file_name_exec, file_stem, file_stem_exec};
use crate::system::{ExecResult, SystemExec};
use crate::text::{
    chars_of, format3, opt_view, owned, split_in_two, split_in_two_exec, string_of, trim, trim_exec,
};

verus! {

/// Installs and removes Debian packages.
pub struct DebInstaller;

/// The name a package file's path suggests: the stem of its file name, or
/// `unknown`.
pub open spec fn stem_or_unknown(path: Seq<char>) -> Seq<char> {
    match file_name(path) {
        Some(n) => file_stem(n),
        None => "unknown"@,
    }
}

/// The package name and version: those `dpkg-deb` printed as
/// `<name>::<version>` when it succeeded, else the file's stem and `1.0`.
pub open spec fn spec_deb_info(path: Seq<char>, query: Option<(bool, Seq<char>)>) -> (Seq<char>, Seq<char>) {
    match query {
        Some((true, out)) => match split_in_two(trim(out), "::"@) {
            Some(pv) => pv,
            None => (stem_or_unknown(path), "1.0"@),
        },
        _ => (stem_or_unknown(path), "1.0"@),
    }
}

/// The paths where the icon of a package is looked for, in order.
pub open spec fn icon_candidates(package: Seq<char>) -> Seq<Seq<char>> {
    seq![
        "/usr/share/icons/hicolor/128x128/apps/"@ + package + ".png"@,
        "/usr/share/icons/hicolor/64x64/apps/"@ + package + ".png"@,
        "/usr/share/icons/hicolor/48x48/apps/"@ + package + ".png"@,
        "/usr/share/pixmaps/"@ + package + ".png"@,
        "/usr/share/pixmaps/"@ + package + ".xpm"@,
    ]
}

/// The first of `cands` from position `i` on whose place holds a file
/// (`present[k]`; places past the end of `present` count as empty).
pub open spec fn first_present(cands: Seq<Seq<char>>, present: Seq<bool>, i: int) -> Option<Seq<char>>
    decreases cands.len() - i,
{
    if i < 0 || i >= cands.len() {
        None
    } else if i < present.len() && present[i] {
        Some(cands[i])
    } else {
        first_present(cands, present, i + 1)
    }
}

/// What `first_present` gives is one of the candidates.
proof fn lemma_first_present_is_candidate(cands: Seq<Seq<char>>, present: Seq<bool>, i: int)
    requires
        0 <= i,
    ensures
        match first_present(cands, present, i) {
            Some(p) => cands.contains(p),
            None => true,
        },
    decreases cands.len() - i,
{
    if i < cands.len() {
        if i < present.len() && present[i] {
            assert(cands[i] == cands[i]);
        } else {
            lemma_first_present_is_candidate(cands, present, i + 1);
        }
    }
}

/// The shell command that installs the package at `path`, repairing missing
/// dependencies when `dpkg` fails.
pub open spec fn spec_install_script(path: Seq<char>) -> Seq<char> {
    "dpkg -i '"@ + path + "' 2>&1; if [ $? -ne 0 ]; then apt-get install -f -y 2>&1; fi"@
}

/// The shell command that removes the package `name`.
pub open spec fn spec_uninstall_script(name: Seq<char>) -> Seq<char> {
    "apt-get remove -y '"@ + name + "' 2>&1"@
}

pub open spec fn query_view(q: Option<ExecResult>) -> Option<(bool, Seq<char>)> {
    match q {
        Some(r) => Some((r.success, r.stdout@)),
        None => None,
    }
}

impl DebInstaller {
    /// The arguments of `dpkg-deb` that print the package name and version of
    /// the file at `path`.
    pub fn info_query_args(path: &str) -> (r: Vec<String>)
        ensures
            r@.map_values(|s: String| s@) == seq!["--show"@, "--showformat=${Package}::${Version}"@, path@],
    {
        let mut r: Vec<String> = Vec::new();
        r.push(owned("--show"));
        r.push(owned("--showformat=${Package}::${Version}"));
        r.push(owned(path));
        assert(r@.map_values(|s: String| s@) =~= seq!["--show"@, "--showformat=${Package}::${Version}"@, path@]);
        r
    }

    /// The package name and version of the file at `path`, given what the
    /// `dpkg-deb` query gave (`None` where it could not be run).
    pub fn get_deb_info(path: &str, query: Option<ExecResult>) -> (r: (String, String))
        ensures
            (r.0@, r.1@) == spec_deb_info(path@, query_view(query)),
    {
        match query {
            Some(res) => if res.success {
                let out = trim_exec(&chars_of(res.stdout.as_str()));
                let sep = chars_of("::");
                match split_in_two_exec(&out, &sep) {
                    Some((a, b)) => {
                        return (string_of(&a), string_of(&b));
                    },
                    None => {},
                }
            },
            None => {},
        }
        let p = chars_of(path);
        let name = match file_name_exec(&p) {
            Some(n) => string_of(&file_stem_exec(&n)),
            None => owned("unknown"),
        };
        (name, owned("1.0"))
    }

    /// The icon of `package_name` given which of its usual places hold a
    /// file (`present[i]` for the `i`-th of `icon_candidates`; places past the
    /// end of `present` count as empty): the first that does, if any.
    pub fn icon_from_presence(package_name: &str, present: &Vec<bool>) -> (r: Option<String>)
        ensures
            opt_view(r) == first_present(icon_candidates(package_name@), present@, 0),
    {
        let cands = Self::icon_candidate_list(package_name);
        let ghost cv = cands@.map_values(|s: String| s@);
        let mut i: usize = 0;
        while i < cands.len()
            invariant
                i <= cands.len(),
                cv == cands@.map_values(|s: String| s@),
                cv == icon_candidates(package_name@),
                first_present(cv, present@, 0) == first_present(cv, present@, i as int),
            decreases cands.len() - i,
        {
            if i < present.len() && present[i] {
                assert(cv[i as int] == cands@[i as int]@);
                return Some(cands[i].clone());
            }
            i = i + 1;
        }
        None
    }

    fn icon_candidate_list(package_name: &str) -> (r: Vec<String>)
        ensures
            r@.map_values(|s: String| s@) == icon_candidates(package_name@),
    {
        let name = chars_of(package_name);
        let mut candidates: Vec<String> = Vec::new();
        candidates.push(format3("/usr/share/icons/hicolor/128x128/apps/", &name, ".png"));
        candidates.push(format3("/usr/share/icons/hicolor/64x64/apps/", &name, ".png"));
        candidates.push(format3("/usr/share/icons/hicolor/48x48/apps/", &name, ".png"));
        candidates.push(format3("/usr/share/pixmaps/", &name, ".png"));
        candidates.push(format3("/usr/share/pixmaps/", &name, ".xpm"));
        assert(candidates@.map_values(|s: String| s@) =~= icon_candidates(package_name@));
        candidates
    }

    /// The icon installed for `package_name`: the first of the usual places
    /// where a file exists, if any.  Whether a file exists is asked of the
    /// file system, place by place, until one answers yes; the answer is what
    /// `icon_from_presence` gives for those answers.
    pub fn find_icon(package_name: &str) -> (r: Option<String>)
        ensures
            match r {
                Some(p) => icon_candidates(package_name@).contains(p@),
                None => true,
            },
    {
        let cands = Self::icon_candidate_list(package_name);
        let ghost cv = cands@.map_values(|s: String| s@);
        let mut present: Vec<bool> = Vec::new();
        let mut i: usize = 0;
        while i < cands.len()
            invariant_except_break
                present.len() == i,
            invariant
                i <= cands.len(),
                cv == cands@.map_values(|s: String| s@),
                cv == icon_candidates(package_name@),
            ensures
                present.len() <= cands.len(),
            decreases cands.len() - i,
        {
            let found = SystemExec::file_exists(cands[i].as_str());
            present.push(found);
            if found {
                break;
            }
            i = i + 1;
        }
        let r = Self::icon_from_presence(package_name, &present);
        proof {
            lemma_first_present_is_candidate(cv, present@, 0);
        }
        r
    }

    /// The shell command that installs the package at `path`.
    pub fn install_script(path: &str) -> (r: String)
        ensures
            r@ == spec_install_script(path@),
    {
        format3("dpkg -i '", &chars_of(path), "' 2>&1; if [ $? -ne 0 ]; then apt-get install -f -y 2>&1; fi")
    }

    /// What installing a package reports, given its name and version, how
    /// running the install script went, the size of the package file, and
    /// the icon found for the package (looked up only where the script ran).
    pub fn install_with_icon(
        info: (String, String),
        outcome: Result<ExecResult, String>,
        size: i64,
        icon: Option<String>,
    ) -> (r: InstallResult)
        ensures
            r.app_name@ == info.0@,
            opt_view(r.version) == Some(info.1@),
            match outcome {
                Ok(exec) => {
                    &&& r.success == exec.success
                    &&& r.message@ == if exec.success {
                        "Successfully installed "@ + info.0@
                    } else {
                        "Installation failed: "@ + exec.stderr@
                    }
                    &&& r.install_path@ == "/usr/share/"@ + info.0@
                    &&& r.size_bytes == size
                    &&& opt_view(r.icon_path) == opt_view(icon)
                },
                Err(e) => {
                    &&& !r.success
                    &&& r.message@ == "Failed to execute dpkg: "@ + e@
                    &&& r.install_path@ == Seq::<char>::empty()
                    &&& r.icon_path is None
                    &&& r.size_bytes == 0
                },
            },
    {
        let (name, version) = info;
        match outcome {
            Ok(exec) => {
                let message = if exec.success {
                    format3("Successfully installed ", &chars_of(name.as_str()), "")
                } else {
                    format3("Installation failed: ", &chars_of(exec.stderr.as_str()), "")
                };
                let install_path = format3("/usr/share/", &chars_of(name.as_str()), "");
                proof {
                    reveal_strlit("");
                }
                assert(message@ =~= if exec.success {
                    "Successfully installed "@ + name@
                } else {
                    "Installation failed: "@ + exec.stderr@
                });
                assert(install_path@ =~= "/usr/share/"@ + name@);
                InstallResult {
                    success: exec.success,
                    message,
                    app_name: name,
                    install_path,
                    icon_path: icon,
                    version: Some(version),
                    size_bytes: size,
                }
            },
            Err(e) => {
                proof {
                    reveal_strlit("");
                }
                let message = format3("Failed to execute dpkg: ", &chars_of(e.as_str()), "");
                assert(message@ =~= "Failed to execute dpkg: "@ + e@);
                InstallResult {
                    success: false,
                    message,
                    app_name: name,
                    install_path: String::new(),
                    icon_path: None,
                    version: Some(version),
                    size_bytes: 0,
                }
            },
        }
    }

    /// What installing a package reports, given its name and version, how
    /// running the install script went, and the size of the package file;
    /// where the script ran, the package's icon is looked up on disk.
    pub fn install(info: (String, String), outcome: Result<ExecResult, String>, size: i64) -> (r: InstallResult)
        ensures
            r.app_name@ == info.0@,
            opt_view(r.version) == Some(info.1@),
            match outcome {
                Ok(exec) => {
                    &&& r.success == exec.success
                    &&& r.message@ == if exec.success {
                        "Successfully installed "@ + info.0@
                    } else {
                        "Installation failed: "@ + exec.stderr@
                    }
                    &&& r.install_path@ == "/usr/share/"@ + info.0@
                    &&& r.size_bytes == size
                    &&& match r.icon_path {
                        Some(p) => icon_candidates(info.0@).contains(p@),
                        None => true,
                    }
                },
                Err(e) => {
                    &&& !r.success
                    &&& r.message@ == "Failed to execute dpkg: "@ + e@
                    &&& r.install_path@ == Seq::<char>::empty()
                    &&& r.icon_path is None
                    &&& r.size_bytes == 0
                },
            },
    {
        let icon = match outcome {
            Ok(_) => Self::find_icon(info.0.as_str()),
            Err(_) => None,
        };
        Self::install_with_icon(info, outcome, size, icon)
    }

    /// The shell command that removes the package of `app`.
    pub fn uninstall_script(app: &AppEntry) -> (r: String)
        ensures
            r@ == spec_uninstall_script(app.name@),
    {
        format3("apt-get remove -y '", &chars_of(app.name.as_str()), "' 2>&1")
    }

    /// What removing the package of `app` reports, given how running the
    /// removal went.
    pub fn uninstall(app: &AppEntry, outcome: Result<ExecResult, String>) -> (r: InstallResult)
        ensures
            r.app_name@ == app.name@,
            r.install_path@ == Seq::<char>::empty(),
            r.icon_path is None,
            r.version is None,
            r.size_bytes == 0,
            match outcome {
                Ok(exec) => r.success == exec.success && r.message@ == if exec.success {
                    "Successfully uninstalled "@ + app.name@
                } else {
                    "Uninstall failed: "@ + exec.stderr@
                },
                Err(e) => !r.success && r.message@ == "Failed to execute apt-get: "@ + e@,
            },
    {
        proof {
            reveal_strlit("");
        }
        let name = chars_of(app.name.as_str());
        let (success, message) = match outcome {
            Ok(exec) => {
                let m = if exec.success {
                    format3("Successfully uninstalled ", &name, "")
                } else {
                    format3("Uninstall failed: ", &chars_of(exec.stderr.as_str()), "")
                };
                assert(m@ =~= if exec.success {
                    "Successfully uninstalled "@ + app.name@
                } else {
                    "Uninstall failed: "@ + exec.stderr@
                });
                (exec.success, m)
            },
            Err(e) => {
                let m = format3("Failed to execute apt-get: ", &chars_of(e.as_str()), "");
                assert(m@ =~= "Failed to execute apt-get: "@ + e@);
                (false, m)
            },
        };
        InstallResult {
            success,
            message,
            app_name: string_of(&name),
            install_path: String::new(),
            icon_path: None,
            version: None,
            size_bytes: 0,
        }
    }
}

} // verus!
