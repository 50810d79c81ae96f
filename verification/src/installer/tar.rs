//! Installing applications shipped as gzip-compressed tarballs (`.tar.gz`
//! or `.tgz`): they are unpacked with `tar` and kept like `.zip` bundles.
use vstd::prelude::*;
use crate::db::AppEntry;
use crate::installer::InstallResult;
use crate::installer::appimage::{failed, uninstall_report};
use crate::paths::{file_name, file_name_exec};
use crate::system::ExecResult;
use crate::text::{chars_of, ends_with, ends_with_exec, format3, owned, slice_vec, string_of};

verus! {

/// Installs and removes applications shipped as tarballs.
pub struct TarInstaller;

/// The application name a tarball's path gives: its file name (or
/// `unknown`) without a trailing `.tar.gz` or `.tgz`.
pub open spec fn spec_tar_app_name(path: Seq<char>) -> Seq<char> {
    let f = match file_name(path) {
        Some(n) => n,
        None => "unknown"@,
    };
    if ends_with(f, ".tar.gz"@) {
        f.take(f.len() - 7)
    } else if ends_with(f, ".tgz"@) {
        f.take(f.len() - 4)
    } else {
        f
    }
}

/// The directory a tarball is unpacked into before it is copied.
pub open spec fn spec_untar_dir(app_name: Seq<char>) -> Seq<char> {
    "/tmp/apppro-extract-"@ + app_name
}

impl TarInstaller {
    /// The application name of the tarball at `path`.
    pub fn app_name_for(path: &str) -> (r: String)
        ensures
            r@ == spec_tar_app_name(path@),
    {
        let f = match file_name_exec(&chars_of(path)) {
            Some(n) => n,
            None => chars_of("unknown"),
        };
        proof {
            reveal_strlit(".tar.gz");
            reveal_strlit(".tgz");
        }
        if ends_with_exec(&f, &chars_of(".tar.gz")) {
            string_of(&slice_vec(&f, 0, f.len() - 7))
        } else if ends_with_exec(&f, &chars_of(".tgz")) {
            string_of(&slice_vec(&f, 0, f.len() - 4))
        } else {
            string_of(&f)
        }
    }

    /// The directory the tarball of `app_name` is unpacked into.
    pub fn extract_dir(app_name: &str) -> (r: String)
        ensures
            r@ == spec_untar_dir(app_name@),
    {
        proof {
            reveal_strlit("");
        }
        let r = format3("/tmp/apppro-extract-", &chars_of(app_name), "");
        assert(r@ =~= spec_untar_dir(app_name@));
        r
    }

    /// The arguments of `tar` that unpack the tarball at `path` into `dir`.
    pub fn untar_args(path: &str, dir: &str) -> (r: Vec<String>)
        ensures
            r@.map_values(|s: String| s@) == seq!["-xzf"@, path@, "-C"@, dir@],
    {
        let mut r: Vec<String> = Vec::new();
        r.push(owned("-xzf"));
        r.push(owned(path));
        r.push(owned("-C"));
        r.push(owned(dir));
        assert(r@.map_values(|s: String| s@) =~= seq!["-xzf"@, path@, "-C"@, dir@]);
        r
    }

    /// What installing a tarball reports, given how unpacking it went, how
    /// copying the unpacked files went, the icon found, and the size of the
    /// installed directory.
    pub fn install(
        app_name: String,
        target_dir: String,
        unpack: Result<ExecResult, String>,
        copy: Result<(), String>,
        icon_path: Option<String>,
        size: i64,
    ) -> (r: InstallResult)
        ensures
            match unpack {
                Ok(exec) => if exec.success {
                    match copy {
                        Err(e) => failed(r, app_name@, "Failed to copy files: "@ + e@, Seq::empty()),
                        Ok(_) => {
                            &&& r.success
                            &&& r.message@ == "Successfully installed "@ + app_name@
                            &&& r.app_name@ == app_name@
                            &&& r.install_path@ == target_dir@
                            &&& crate::text::opt_view(r.icon_path) == crate::text::opt_view(icon_path)
                            &&& r.version is None
                            &&& r.size_bytes == size
                        },
                    }
                } else {
                    failed(r, app_name@, "Extraction failed: "@ + exec.stderr@, Seq::empty())
                },
                Err(e) => failed(r, app_name@, "Failed to run tar: "@ + e@, Seq::empty()),
            },
    {
        proof {
            reveal_strlit("");
        }
        let fail = |message: String, app_name: String| -> (r: InstallResult)
            ensures
                failed(r, app_name@, message@, Seq::empty()),
            {
                InstallResult {
                    success: false,
                    message,
                    app_name,
                    install_path: String::new(),
                    icon_path: None,
                    version: None,
                    size_bytes: 0,
                }
            };
        match unpack {
            Ok(exec) => if exec.success {
                match copy {
                    Err(e) => fail(format3("Failed to copy files: ", &chars_of(e.as_str()), ""), app_name),
                    Ok(_) => {
                        let message = format3("Successfully installed ", &chars_of(app_name.as_str()), "");
                        InstallResult {
                            success: true,
                            message,
                            app_name,
                            install_path: target_dir,
                            icon_path,
                            version: None,
                            size_bytes: size,
                        }
                    },
                }
            } else {
                fail(format3("Extraction failed: ", &chars_of(exec.stderr.as_str()), ""), app_name)
            },
            Err(e) => fail(format3("Failed to run tar: ", &chars_of(e.as_str()), ""), app_name),
        }
    }

    /// What removing an installed tarball application reports, given
    /// whether removing its directory failed.
    pub fn uninstall(app: &AppEntry, remove_dir: Result<(), String>) -> (r: InstallResult)
        ensures
            r.app_name@ == app.name@,
            r.install_path@ == Seq::<char>::empty(),
            r.icon_path is None,
            r.version is None,
            r.size_bytes == 0,
            match remove_dir {
                Ok(_) => r.success && r.message@ == "Successfully uninstalled "@ + app.name@,
                Err(e) => !r.success && r.message@ == "Failed to remove app directory: "@ + e@,
            },
    {
        uninstall_report(app, remove_dir)
    }
}

} // verus!
