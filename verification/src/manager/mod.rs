//! Managing installed applications: choosing the installer for a file, the
//! records kept of installations, finding desktop entries and watching
//! processes.
use vstd::prelude::*;
use crate::db::AppEntry;
use crate::installer::{spec_install_type, InstallResult, InstallType};
use crate::records::{new_record_id, timestamp_now};
use crate::text::{chars_of, format3, opt_view, owned};

pub mod desktop_scanner;
pub mod processes;

verus! {

/// The report of installing the file at `path`, whose kind is unknown.
pub open spec fn is_unknown_file_result(r: InstallResult, path: Seq<char>) -> bool {
    &&& !r.success
    &&& r.message@ == "Unknown file type: "@ + path
    &&& r.app_name@ == Seq::<char>::empty()
    &&& r.install_path@ == Seq::<char>::empty()
    &&& r.icon_path is None
    &&& r.version is None
    &&& r.size_bytes == 0
}

/// The report of removing `app`, recorded under a kind with no remover.
pub open spec fn is_unknown_install_type_result(r: InstallResult, app: AppEntry) -> bool {
    &&& !r.success
    &&& r.message@ == "Unknown install type: "@ + app.install_type@
    &&& r.app_name@ == app.name@
    &&& r.install_path@ == Seq::<char>::empty()
    &&& r.icon_path is None
    &&& r.version is None
    &&& r.size_bytes == 0
}

/// What installing a file of an unknown kind reports.
pub fn unknown_file_result(path: &str) -> (r: InstallResult)
    ensures
        is_unknown_file_result(r, path@),
{
    proof {
        reveal_strlit("");
    }
    InstallResult {
        success: false,
        message: format3("Unknown file type: ", &chars_of(path), ""),
        app_name: String::new(),
        install_path: String::new(),
        icon_path: None,
        version: None,
        size_bytes: 0,
    }
}

/// What removing an application recorded under an unknown kind reports.
pub fn unknown_install_type_result(app: &AppEntry) -> (r: InstallResult)
    ensures
        is_unknown_install_type_result(r, *app),
{
    proof {
        reveal_strlit("");
    }
    InstallResult {
        success: false,
        message: format3("Unknown install type: ", &chars_of(app.install_type.as_str()), ""),
        app_name: owned(app.name.as_str()),
        install_path: String::new(),
        icon_path: None,
        version: None,
        size_bytes: 0,
    }
}

fn copy_opt(o: &Option<String>) -> (r: Option<String>)
    ensures
        opt_view(r) == opt_view(*o),
{
    match o {
        Some(s) => Some(owned(s.as_str())),
        None => None,
    }
}

/// `entry` is the record of the installation that reported `result`, of
/// kind `install_type` (its id fresh and its time the clock's).
pub open spec fn records(entry: AppEntry, result: InstallResult, install_type: InstallType) -> bool {
    &&& entry.id@.len() == 36
    &&& entry.name@ == result.app_name@
    &&& entry.install_type@ == install_type.spec_tag()
    &&& entry.install_path@ == result.install_path@
    &&& opt_view(entry.icon_path) == opt_view(result.icon_path)
    &&& entry.desktop_file is None
    &&& opt_view(entry.version) == opt_view(result.version)
    &&& entry.size_bytes == result.size_bytes
}

/// The record kept of a successful installation of kind `install_type`: a
/// fresh id, the time, and what the installation reported.
pub fn app_entry_for(result: &InstallResult, install_type: InstallType) -> (r: AppEntry)
    ensures
        records(r, *result, install_type),
{
    AppEntry {
        id: new_record_id(),
        name: owned(result.app_name.as_str()),
        install_type: owned(install_type.as_str()),
        install_path: owned(result.install_path.as_str()),
        icon_path: copy_opt(&result.icon_path),
        desktop_file: None,
        version: copy_opt(&result.version),
        installed_at: timestamp_now(),
        size_bytes: result.size_bytes,
    }
}

// ---------------------------------------------------------------------------
// Choosing the installer and keeping the records

/// Which installer a file goes to, or the report where none takes it.
pub enum InstallPlan {
    Deb,
    AppImage,
    Zip,
    TarGz,
    /// No installer takes the file (its kind is unknown); this is the report.
    Refused(InstallResult),
}

/// Which installer the file at `path` goes to, by its kind.
pub fn plan_install(path: &str) -> (r: InstallPlan)
    ensures
        match spec_install_type(path@) {
            InstallType::Deb => r is Deb,
            InstallType::AppImage => r is AppImage,
            InstallType::Zip => r is Zip,
            InstallType::TarGz => r is TarGz,
            InstallType::Unknown => r matches InstallPlan::Refused(res) && is_unknown_file_result(res, path@),
        },
{
    match InstallType::from_path(path) {
        InstallType::Deb => InstallPlan::Deb,
        InstallType::AppImage => InstallPlan::AppImage,
        InstallType::Zip => InstallPlan::Zip,
        InstallType::TarGz => InstallPlan::TarGz,
        InstallType::Unknown => InstallPlan::Refused(unknown_file_result(path)),
    }
}

/// The report of an installation of kind `install_type`, and the record to
/// keep of it: one exactly where it succeeded.
pub fn finish_install(result: InstallResult, install_type: InstallType) -> (r: (InstallResult, Option<AppEntry>))
    ensures
        r.0 == result,
        match r.1 {
            Some(entry) => result.success && records(entry, result, install_type),
            None => !result.success,
        },
{
    if result.success {
        let entry = app_entry_for(&result, install_type);
        (result, Some(entry))
    } else {
        (result, None)
    }
}

/// An installation recorded as kind `install_type` is routed back, when it
/// is removed, to the remover of that same kind: a tarball recorded by
/// `finish_install` reads back as `targz` and goes to the tarball remover.
pub proof fn lemma_recorded_kind_routes_back(entry: AppEntry, result: InstallResult, install_type: InstallType)
    requires
        install_type != InstallType::Unknown,
        records(entry, result, install_type),
    ensures
        InstallType::spec_from_tag(entry.install_type@) == install_type,
        install_type == InstallType::TarGz ==> entry.install_type@ == "targz"@,
{
    crate::installer::lemma_tag_round_trip(install_type);
}

/// Which remover an installed application goes to, by the kind it was
/// recorded under, or the report where none takes it.
pub enum UninstallPlan {
    Deb,
    AppImage,
    Zip,
    TarGz,
    Refused(InstallResult),
}

/// Which remover `app` goes to.
pub fn plan_uninstall(app: &AppEntry) -> (r: UninstallPlan)
    ensures
        match InstallType::spec_from_tag(app.install_type@) {
            InstallType::Deb => r is Deb,
            InstallType::AppImage => r is AppImage,
            InstallType::Zip => r is Zip,
            InstallType::TarGz => r is TarGz,
            InstallType::Unknown => r matches UninstallPlan::Refused(res) && is_unknown_install_type_result(res, *app),
        },
{
    match InstallType::from_tag(app.install_type.as_str()) {
        InstallType::Deb => UninstallPlan::Deb,
        InstallType::AppImage => UninstallPlan::AppImage,
        InstallType::Zip => UninstallPlan::Zip,
        InstallType::TarGz => UninstallPlan::TarGz,
        InstallType::Unknown => UninstallPlan::Refused(unknown_install_type_result(app)),
    }
}

/// The report of removing `app`, and the id of the record to drop: its own,
/// exactly where the removal succeeded.
pub fn finish_uninstall(app: &AppEntry, result: InstallResult) -> (r: (InstallResult, Option<String>))
    ensures
        r.0 == result,
        match r.1 {
            Some(id) => result.success && id@ == app.id@,
            None => !result.success,
        },
{
    if result.success {
        (result, Some(owned(app.id.as_str())))
    } else {
        (result, None)
    }
}

} // verus!
