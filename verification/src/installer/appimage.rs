//! Installing AppImage files.
use vstd::prelude::*;
use crate::db::AppEntry;
use crate::installer::InstallResult;
use crate::paths::{file_name, file_name_exec};
use crate::text::{
    chars_of, contains_exec, contains_seq, format3, join_prefix_exec, join_with, opt_view, owned, push_chars,
    push_str, replace_all, replace_all_exec, spec_lowercase, lowercase, split_char, split_char_exec, string_of,
    views,
};

verus! {

/// Installs single-file AppImage applications.
pub struct AppImageInstaller;

/// The file name with the AppImage suffix and the usual platform markers
/// removed, and `_` turned into `-`.
pub open spec fn cleaned_name(filename: Seq<char>) -> Seq<char> {
    replace_all(
        replace_all(
            replace_all(replace_all(replace_all(filename, ".AppImage"@, ""@), "-x86_64"@, ""@), "-amd64"@, ""@),
            "-linux"@,
            ""@,
        ),
        "_"@,
        "-"@,
    )
}

/// The application name an AppImage file name stands for: the cleaned name,
/// without its last `-`-separated part where that part starts with a digit
/// (a version number) and is not the only part.
pub open spec fn spec_extract_name(filename: Seq<char>) -> Seq<char> {
    let name = cleaned_name(filename);
    let parts = split_char(name, '-');
    if parts.len() > 1 && parts.last().len() > 0 && '0' <= parts.last()[0] <= '9' {
        join_with(parts.drop_last(), "-"@)
    } else {
        name
    }
}

impl AppImageInstaller {
    /// The application name that the AppImage file name `filename` stands for.
    pub fn extract_name(filename: &str) -> (r: String)
        ensures
            r@ == spec_extract_name(filename@),
    {
        let empty: Vec<char> = Vec::new();
        proof {
            reveal_strlit(".AppImage");
            reveal_strlit("-x86_64");
            reveal_strlit("-amd64");
            reveal_strlit("-linux");
            reveal_strlit("_");
            reveal_strlit("");
        }
        let v = chars_of(filename);
        let v = replace_all_exec(&v, &chars_of(".AppImage"), &empty);
        let v = replace_all_exec(&v, &chars_of("-x86_64"), &empty);
        let v = replace_all_exec(&v, &chars_of("-amd64"), &empty);
        let v = replace_all_exec(&v, &chars_of("-linux"), &empty);
        let name = replace_all_exec(&v, &chars_of("_"), &chars_of("-"));
        assert(empty@ =~= ""@);
        let parts = split_char_exec(&name, '-');
        proof {
            crate::text::lemma_split_char_nonempty(name@, '-');
        }
        let n = parts.len();
        let last = &parts[n - 1];
        assert(views(parts@).last() == last@);
        if n > 1 && last.len() > 0 && '0' <= last[0] && last[0] <= '9' {
            assert(views(parts@).take(n - 1) =~= views(parts@).drop_last());
            let joined = join_prefix_exec(&parts, n - 1, &chars_of("-"));
            string_of(&joined)
        } else {
            string_of(&name)
        }
    }
}

/// The text of the desktop entry written for an installed AppImage.
pub open spec fn spec_desktop_entry_content(name: Seq<char>, exec_path: Seq<char>, icon: Option<Seq<char>>) -> Seq<char> {
    "[Desktop Entry]\nType=Application\nName="@ + name + "\nExec="@ + exec_path + "\n"@ + match icon {
        Some(i) => "Icon="@ + i,
        None => "Icon=application-x-executable"@,
    } + "\nTerminal=false\nCategories=Utility;\nComment="@ + name + " - Installed via App Pro\nX-AppPro-Managed=true\n"@
}

/// The file name of the AppImage at `path`, or `unknown`.
pub open spec fn appimage_file_name(path: Seq<char>) -> Seq<char> {
    match file_name(path) {
        Some(n) => n,
        None => "unknown"@,
    }
}

/// A failed step of an installation, with its message.
pub open spec fn failed(r: InstallResult, app_name: Seq<char>, message: Seq<char>, install_path: Seq<char>) -> bool {
    &&& !r.success
    &&& r.message@ == message
    &&& r.app_name@ == app_name
    &&& r.install_path@ == install_path
    &&& r.icon_path is None
    &&& r.version is None
    &&& r.size_bytes == 0
}

impl AppImageInstaller {
    /// The file name of the AppImage at `path`.
    pub fn file_name_of(path: &str) -> (r: String)
        ensures
            r@ == appimage_file_name(path@),
    {
        match file_name_exec(&chars_of(path)) {
            Some(n) => string_of(&n),
            None => owned("unknown"),
        }
    }

    /// The text of the desktop entry for `app_name`, run as `exec_path`, with
    /// its icon if one was found.
    pub fn desktop_entry_content(app_name: &str, exec_path: &str, icon_path: &Option<String>) -> (r: String)
        ensures
            r@ == spec_desktop_entry_content(app_name@, exec_path@, opt_view(*icon_path)),
    {
        let name = chars_of(app_name);
        let mut v: Vec<char> = Vec::new();
        push_str(&mut v, "[Desktop Entry]\nType=Application\nName=");
        push_chars(&mut v, &name);
        push_str(&mut v, "\nExec=");
        push_str(&mut v, exec_path);
        push_str(&mut v, "\n");
        match icon_path {
            Some(i) => {
                push_str(&mut v, "Icon=");
                push_str(&mut v, i.as_str());
            },
            None => push_str(&mut v, "Icon=application-x-executable"),
        }
        push_str(&mut v, "\nTerminal=false\nCategories=Utility;\nComment=");
        push_chars(&mut v, &name);
        push_str(&mut v, " - Installed via App Pro\nX-AppPro-Managed=true\n");
        assert(v@ =~= spec_desktop_entry_content(app_name@, exec_path@, opt_view(*icon_path)));
        string_of(&v)
    }

    /// Whether an icon file named `file_name` belongs to `app_name`: its
    /// lower-case name contains the lower-case application name.
    pub fn icon_name_matches(file_name: &str, app_name: &str) -> (r: bool)
        ensures
            r == contains_seq(spec_lowercase(file_name@), spec_lowercase(app_name@)),
    {
        let f = chars_of(lowercase(file_name).as_str());
        let a = chars_of(lowercase(app_name).as_str());
        contains_exec(&f, &a)
    }

    /// What installing an AppImage reports, given the outcome of each step in
    /// turn (creating its directory, copying it, making it executable,
    /// writing its desktop entry), the icon found and the file's size.  The
    /// first failed step ends the installation; a failed desktop entry does
    /// not.
    pub fn install(
        app_name: String,
        target_path: String,
        make_dir: Result<(), String>,
        copy: Result<(), String>,
        make_executable: Result<(), String>,
        icon_path: Option<String>,
        desktop_entry: Result<(), String>,
        size: i64,
    ) -> (r: InstallResult)
        ensures
            match (make_dir, copy, make_executable) {
                (Err(e), _, _) => failed(r, app_name@, "Failed to create app directory: "@ + e@, Seq::empty()),
                (Ok(_), Err(e), _) => failed(r, app_name@, "Failed to copy AppImage: "@ + e@, Seq::empty()),
                (Ok(_), Ok(_), Err(e)) => failed(r, app_name@, "Failed to set permissions: "@ + e@, target_path@),
                (Ok(_), Ok(_), Ok(_)) => {
                    &&& r.success
                    &&& r.message@ == match desktop_entry {
                        Ok(_) => "Successfully installed "@ + app_name@,
                        Err(e) => "Installed "@ + app_name@ + " but desktop entry creation failed: "@ + e@,
                    }
                    &&& r.app_name@ == app_name@
                    &&& r.install_path@ == target_path@
                    &&& opt_view(r.icon_path) == opt_view(icon_path)
                    &&& r.version is None
                    &&& r.size_bytes == size
                },
            },
    {
        proof {
            reveal_strlit("");
        }
        let fail = |message: String, app_name: String, install_path: String| -> (r: InstallResult)
            ensures
                failed(r, app_name@, message@, install_path@),
            {
                InstallResult {
                    success: false,
                    message,
                    app_name,
                    install_path,
                    icon_path: None,
                    version: None,
                    size_bytes: 0,
                }
            };
        if let Err(e) = make_dir {
            return fail(format3("Failed to create app directory: ", &chars_of(e.as_str()), ""), app_name, String::new());
        }
        if let Err(e) = copy {
            return fail(format3("Failed to copy AppImage: ", &chars_of(e.as_str()), ""), app_name, String::new());
        }
        if let Err(e) = make_executable {
            return fail(format3("Failed to set permissions: ", &chars_of(e.as_str()), ""), app_name, target_path);
        }
        let name = chars_of(app_name.as_str());
        let message = match desktop_entry {
            Ok(_) => format3("Successfully installed ", &name, ""),
            Err(e) => {
                let mut v = chars_of("Installed ");
                push_chars(&mut v, &name);
                push_str(&mut v, " but desktop entry creation failed: ");
                push_str(&mut v, e.as_str());
                string_of(&v)
            },
        };
        InstallResult {
            success: true,
            message,
            app_name,
            install_path: target_path,
            icon_path,
            version: None,
            size_bytes: size,
        }
    }

    /// What removing an installed AppImage reports, given whether removing
    /// its directory failed.
    pub fn uninstall(app: &AppEntry, remove_dir: Result<(), String>) -> (r: InstallResult)
        ensures
            r.app_name@ == app.name@,
            r.install_path@ == Seq::<char>::empty(),
            r.icon_path is None,
            r.version is None,
            r.size_bytes == 0,
            match remove_dir {
                Ok(_) => r.success && r.message@ == "Successfully uninstalled "@ + app.name@,
                Err(e) => !r.success && r.message@ == "Failed to remove app directory: "@ + e@,
            },
    {
        uninstall_report(app, remove_dir)
    }
}

/// What removing an installed single-file or bundle application reports.
pub fn uninstall_report(app: &AppEntry, remove_dir: Result<(), String>) -> (r: InstallResult)
    ensures
        r.app_name@ == app.name@,
        r.install_path@ == Seq::<char>::empty(),
        r.icon_path is None,
        r.version is None,
        r.size_bytes == 0,
        match remove_dir {
            Ok(_) => r.success && r.message@ == "Successfully uninstalled "@ + app.name@,
            Err(e) => !r.success && r.message@ == "Failed to remove app directory: "@ + e@,
        },
{
    proof {
        reveal_strlit("");
    }
    let (success, message) = match remove_dir {
        Ok(_) => (true, format3("Successfully uninstalled ", &chars_of(app.name.as_str()), "")),
        Err(e) => (false, format3("Failed to remove app directory: ", &chars_of(e.as_str()), "")),
    };
    InstallResult {
        success,
        message,
        app_name: owned(app.name.as_str()),
        install_path: String::new(),
        icon_path: None,
        version: None,
        size_bytes: 0,
    }
}

} // verus!
