//! Installing applications shipped as `.zip` bundles.
use vstd::prelude::*;
use crate::db::AppEntry;
use crate::installer::InstallResult;
use crate::installer::appimage::{failed, uninstall_report};
use crate::paths::{file_name, file_name_exec, parent_dir, spec_parent};
use crate::system::ExecResult;
use crate::text::{
    chars_of, concat3, contains_exec, contains_seq, ends_with, ends_with_exec, format3, lowercase, opt_view, owned, push_chars, push_str, slice_vec, spec_lowercase, string_of,
};

verus! {

/// Installs and removes applications shipped as `.zip` bundles.
pub struct ZipInstaller;

/// The application name a bundle's path gives: its file name (or
/// `unknown`) without a trailing `.zip`.
pub open spec fn spec_zip_app_name(path: Seq<char>) -> Seq<char> {
    let f = match file_name(path) {
        Some(n) => n,
        None => "unknown"@,
    };
    if ends_with(f, ".zip"@) {
        f.take(f.len() - 4)
    } else {
        f
    }
}

/// Where the main program of a bundle unpacked in `dir` is looked for, in order.
pub open spec fn spec_executable_candidates(dir: Seq<char>, app_name: Seq<char>) -> Seq<Seq<char>> {
    seq![
        dir + "/"@ + app_name,
        dir + "/bin/"@ + app_name,
        dir + "/app"@,
        dir + "/start.sh"@,
        dir + "/launcher"@,
        dir + "/run"@,
    ]
}

/// The icon files looked for at the top of a bundle, in order.
pub open spec fn spec_icon_file_names(app_name: Seq<char>) -> Seq<Seq<char>> {
    seq![app_name + ".png"@, app_name + ".svg"@, "icon.png"@, "logo.png"@, "icon.svg"@, "logo.svg"@]
}

/// The directories of a bundle searched, two levels down, for an icon.
pub open spec fn spec_icon_dirs() -> Seq<Seq<char>> {
    seq!["usr/share/icons"@, "share/icons"@, "icons"@, "resources"@]
}

/// An icon file found in those directories belongs to the application when
/// its lower-case name contains the lower-case application name and ends in
/// `.png` or `.svg`.
pub open spec fn spec_icon_matches(file_name: Seq<char>, app_name: Seq<char>) -> bool {
    let n = spec_lowercase(file_name);
    contains_seq(n, spec_lowercase(app_name)) && (ends_with(n, ".png"@) || ends_with(n, ".svg"@))
}

/// The text of the desktop entry written for an installed bundle.
pub open spec fn spec_desktop_entry_content(name: Seq<char>, exec_path: Seq<char>, icon: Option<Seq<char>>) -> Seq<char> {
    "[Desktop Entry]\nType=Application\nName="@ + name + "\nExec="@ + exec_path + "\nPath="@ + match spec_parent(exec_path) {
        Some(d) => d,
        None => "."@,
    } + "\n"@ + match icon {
        Some(i) => "Icon="@ + i,
        None => "Icon=application-x-archive"@,
    } + "\nTerminal=false\nCategories=Utility;\nComment="@ + name + " - Installed via App Pro\nX-AppPro-Managed=true\n"@
}

/// The directory a bundle is unpacked into before it is copied.
pub open spec fn spec_extract_dir(app_name: Seq<char>) -> Seq<char> {
    "/tmp/apppro-extract-"@ + app_name
}


impl ZipInstaller {
    /// The application name of the bundle at `path`.
    pub fn app_name_for(path: &str) -> (r: String)
        ensures
            r@ == spec_zip_app_name(path@),
    {
        let f = match file_name_exec(&chars_of(path)) {
            Some(n) => n,
            None => chars_of("unknown"),
        };
        proof {
            reveal_strlit(".zip");
        }
        if ends_with_exec(&f, &chars_of(".zip")) {
            string_of(&slice_vec(&f, 0, f.len() - 4))
        } else {
            string_of(&f)
        }
    }

    /// The directory the bundle of `app_name` is unpacked into.
    pub fn extract_dir(app_name: &str) -> (r: String)
        ensures
            r@ == spec_extract_dir(app_name@),
    {
        proof {
            reveal_strlit("");
        }
        let r = format3("/tmp/apppro-extract-", &chars_of(app_name), "");
        assert(r@ =~= spec_extract_dir(app_name@));
        r
    }

    /// The arguments of `unzip` that unpack the bundle at `path` into `dir`.
    pub fn unzip_args(path: &str, dir: &str) -> (r: Vec<String>)
        ensures
            r@.map_values(|s: String| s@) == seq!["-o"@, path@, "-d"@, dir@],
    {
        let mut r: Vec<String> = Vec::new();
        r.push(owned("-o"));
        r.push(owned(path));
        r.push(owned("-d"));
        r.push(owned(dir));
        assert(r@.map_values(|s: String| s@) =~= seq!["-o"@, path@, "-d"@, dir@]);
        r
    }

    /// Where the main program of a bundle unpacked in `dir` is looked for.
    pub fn executable_candidates(dir: &str, app_name: &str) -> (r: Vec<String>)
        ensures
            r@.map_values(|s: String| s@) == spec_executable_candidates(dir@, app_name@),
    {
        let d = chars_of(dir);
        let n = chars_of(app_name);
        let mut r: Vec<String> = Vec::new();
        r.push(string_of(&concat3(&d, &chars_of("/"), &n)));
        r.push(string_of(&concat3(&d, &chars_of("/bin/"), &n)));
        r.push(string_of(&concat3(&d, &chars_of("/app"), &[])));
        r.push(string_of(&concat3(&d, &chars_of("/start.sh"), &[])));
        r.push(string_of(&concat3(&d, &chars_of("/launcher"), &[])));
        r.push(string_of(&concat3(&d, &chars_of("/run"), &[])));
        proof {
            let e: Seq<char> = Seq::empty();
            assert(d@ + "/app"@ + e =~= d@ + "/app"@);
            assert(d@ + "/start.sh"@ + e =~= d@ + "/start.sh"@);
            assert(d@ + "/launcher"@ + e =~= d@ + "/launcher"@);
            assert(d@ + "/run"@ + e =~= d@ + "/run"@);
        }
        assert(r@.map_values(|s: String| s@) =~= spec_executable_candidates(dir@, app_name@));
        r
    }

    /// The icon file names looked for at the top of a bundle.
    pub fn icon_file_names(app_name: &str) -> (r: Vec<String>)
        ensures
            r@.map_values(|s: String| s@) == spec_icon_file_names(app_name@),
    {
        let n = chars_of(app_name);
        let mut r: Vec<String> = Vec::new();
        r.push(string_of(&concat3(&n, &chars_of(".png"), &[])));
        r.push(string_of(&concat3(&n, &chars_of(".svg"), &[])));
        r.push(owned("icon.png"));
        r.push(owned("logo.png"));
        r.push(owned("icon.svg"));
        r.push(owned("logo.svg"));
        proof {
            let e: Seq<char> = Seq::empty();
            assert(n@ + ".png"@ + e =~= n@ + ".png"@);
            assert(n@ + ".svg"@ + e =~= n@ + ".svg"@);
        }
        assert(r@.map_values(|s: String| s@) =~= spec_icon_file_names(app_name@));
        r
    }

    /// The directories of a bundle searched for an icon.
    pub fn icon_dirs() -> (r: Vec<String>)
        ensures
            r@.map_values(|s: String| s@) == spec_icon_dirs(),
    {
        let mut r: Vec<String> = Vec::new();
        r.push(owned("usr/share/icons"));
        r.push(owned("share/icons"));
        r.push(owned("icons"));
        r.push(owned("resources"));
        assert(r@.map_values(|s: String| s@) =~= spec_icon_dirs());
        r
    }

    /// Whether the icon file `file_name` belongs to `app_name`.
    pub fn icon_matches(file_name: &str, app_name: &str) -> (r: bool)
        ensures
            r == spec_icon_matches(file_name@, app_name@),
    {
        let n = chars_of(lowercase(file_name).as_str());
        let a = chars_of(lowercase(app_name).as_str());
        contains_exec(&n, &a) && (ends_with_exec(&n, &chars_of(".png")) || ends_with_exec(&n, &chars_of(".svg")))
    }

    /// The text of the desktop entry for `app_name`, run as `exec_path` from
    /// its own directory, with its icon if one was found.
    pub fn desktop_entry_content(app_name: &str, exec_path: &str, icon_path: &Option<String>) -> (r: String)
        ensures
            r@ == spec_desktop_entry_content(app_name@, exec_path@, opt_view(*icon_path)),
    {
        let name = chars_of(app_name);
        let mut v: Vec<char> = Vec::new();
        push_str(&mut v, "[Desktop Entry]\nType=Application\nName=");
        push_chars(&mut v, &name);
        push_str(&mut v, "\nExec=");
        push_str(&mut v, exec_path);
        push_str(&mut v, "\nPath=");
        match parent_dir(exec_path) {
            Some(d) => push_str(&mut v, d.as_str()),
            None => push_str(&mut v, "."),
        }
        push_str(&mut v, "\n");
        match icon_path {
            Some(i) => {
                push_str(&mut v, "Icon=");
                push_str(&mut v, i.as_str());
            },
            None => push_str(&mut v, "Icon=application-x-archive"),
        }
        push_str(&mut v, "\nTerminal=false\nCategories=Utility;\nComment=");
        push_chars(&mut v, &name);
        push_str(&mut v, " - Installed via App Pro\nX-AppPro-Managed=true\n");
        assert(v@ =~= spec_desktop_entry_content(app_name@, exec_path@, opt_view(*icon_path)));
        string_of(&v)
    }

    /// What installing a bundle reports, given how unpacking it went, how
    /// copying the unpacked files went, the icon found, and the size of the
    /// installed directory.
    pub fn install(
        app_name: String,
        target_dir: String,
        unpack: Result<ExecResult, String>,
        copy: Result<(), String>,
        icon_path: Option<String>,
        size: i64,
    ) -> (r: InstallResult)
        ensures
            match unpack {
                Ok(exec) => if exec.success {
                    match copy {
                        Err(e) => failed(r, app_name@, "Failed to copy files: "@ + e@, Seq::empty()),
                        Ok(_) => {
                            &&& r.success
                            &&& r.message@ == "Successfully installed "@ + app_name@
                            &&& r.app_name@ == app_name@
                            &&& r.install_path@ == target_dir@
                            &&& opt_view(r.icon_path) == opt_view(icon_path)
                            &&& r.version is None
                            &&& r.size_bytes == size
                        },
                    }
                } else {
                    failed(r, app_name@, "Extraction failed: "@ + exec.stderr@, Seq::empty())
                },
                Err(e) => failed(r, app_name@, "Failed to run unzip: "@ + e@, Seq::empty()),
            },
    {
        proof {
            reveal_strlit("");
        }
        let fail = |message: String, app_name: String| -> (r: InstallResult)
            ensures
                failed(r, app_name@, message@, Seq::empty()),
            {
                InstallResult {
                    success: false,
                    message,
                    app_name,
                    install_path: String::new(),
                    icon_path: None,
                    version: None,
                    size_bytes: 0,
                }
            };
        match unpack {
            Ok(exec) => if exec.success {
                match copy {
                    Err(e) => fail(format3("Failed to copy files: ", &chars_of(e.as_str()), ""), app_name),
                    Ok(_) => {
                        let message = format3("Successfully installed ", &chars_of(app_name.as_str()), "");
                        InstallResult {
                            success: true,
                            message,
                            app_name,
                            install_path: target_dir,
                            icon_path,
                            version: None,
                            size_bytes: size,
                        }
                    },
                }
            } else {
                fail(format3("Extraction failed: ", &chars_of(exec.stderr.as_str()), ""), app_name)
            },
            Err(e) => fail(format3("Failed to run unzip: ", &chars_of(e.as_str()), ""), app_name),
        }
    }

    /// What removing an installed bundle reports, given whether removing its
    /// directory failed.
    pub fn uninstall(app: &AppEntry, remove_dir: Result<(), String>) -> (r: InstallResult)
        ensures
            r.app_name@ == app.name@,
            r.install_path@ == Seq::<char>::empty(),
            r.icon_path is None,
            r.version is None,
            r.size_bytes == 0,
            match remove_dir {
                Ok(_) => r.success && r.message@ == "Successfully uninstalled "@ + app.name@,
                Err(e) => !r.success && r.message@ == "Failed to remove app directory: "@ + e@,
            },
    {
        uninstall_report(app, remove_dir)
    }
}

} // verus!
