use app_pro::cleaner::cache::CacheAnalyzer;
use app_pro::cleaner::CleanupResult;
use app_pro::installer::deb::DebInstaller;
use app_pro::installer::{InstallResult, InstallType};
use app_pro::manager::processes::{uid_to_username, ProcessManager};
use app_pro::manager::unknown_file_result;
use app_pro::system::{ExecResult, SystemExec};
use app_pro::updater;
use app_pro::updater::tags;

const PASSWD: &str = "root:x:0:0:root:/root:/bin/bash\n\
daemon:x:1:1:daemon:/usr/sbin:/usr/sbin/nologin\n\
nobody:x:65534:65534:nobody:/nonexistent:/usr/sbin/nologin\n";

fn failed_run(stderr: &str, code: i32) -> ExecResult {
    ExecResult {
        success: false,
        stdout: String::new(),
        stderr: stderr.to_string(),
        exit_code: Some(code),
    }
}

#[test]
fn test_get_all_cache_sizes_returns_four() {
    let sizes = CacheAnalyzer::cache_locations();
    assert_eq!(sizes.len(), 4);
    assert_eq!(sizes[0].0, "User Cache");
    assert_eq!(sizes[1].0, "APT Cache");
    assert_eq!(sizes[2].0, "Thumbnails");
    assert_eq!(sizes[3].0, "App Pro Cache");
}

#[test]
fn test_cache_sizes_non_empty_paths() {
    let sizes = CacheAnalyzer::cache_locations();
    for (_, path) in &sizes {
        assert!(!path.is_empty());
    }
}

#[test]
fn apt_cache_size_is_measured_at_the_archive_directory() {
    let asked = std::cell::RefCell::new(String::new());
    let size = CacheAnalyzer::get_apt_cache_size(|dir| {
        *asked.borrow_mut() = dir.to_string();
        4096
    });
    assert_eq!(size, 4096);
    assert_eq!(*asked.borrow(), "/var/cache/apt/archives");
}

#[test]
fn test_cleanup_result_struct() {
    let r = CleanupResult {
        path: "/tmp".into(),
        description: "test".into(),
        bytes_freed: 100,
        success: true,
        message: "done".into(),
    };
    assert_eq!(r.bytes_freed, 100);
    assert!(r.success);
}

#[test]
fn test_file_exists() {
    assert!(SystemExec::file_exists("/tmp"));
    assert!(!SystemExec::file_exists("/nonexistent_path_xyz"));
}

#[test]
fn test_install_type_deb() {
    assert_eq!(InstallType::from_path("foo.deb"), InstallType::Deb);
    assert_eq!(InstallType::from_path("/path/to/package.deb"), InstallType::Deb);
}

#[test]
fn test_install_type_appimage() {
    assert_eq!(InstallType::from_path("App.AppImage"), InstallType::AppImage);
    assert_eq!(InstallType::from_path("app.appimage"), InstallType::AppImage);
    assert_eq!(InstallType::from_path("MyApp-x86_64.AppImage"), InstallType::AppImage);
}

#[test]
fn test_install_type_zip() {
    assert_eq!(InstallType::from_path("archive.zip"), InstallType::Zip);
    assert_eq!(InstallType::from_path("/tmp/data.zip"), InstallType::Zip);
}

#[test]
fn test_install_type_targz() {
    assert_eq!(InstallType::from_path("archive.tar.gz"), InstallType::TarGz);
    assert_eq!(InstallType::from_path("app-1.0.tar.gz"), InstallType::TarGz);
    assert_eq!(InstallType::from_path("bundle.tgz"), InstallType::TarGz);
    assert_eq!(InstallType::from_path("/tmp/pkg.tar.gz"), InstallType::TarGz);
}

#[test]
fn test_install_type_unknown() {
    assert_eq!(InstallType::from_path("readme.txt"), InstallType::Unknown);
    assert_eq!(InstallType::from_path("script.sh"), InstallType::Unknown);
    assert_eq!(InstallType::from_path(""), InstallType::Unknown);
}

#[test]
fn test_install_type_no_extension_appimage() {
    assert_eq!(InstallType::from_path("editor.AppImage"), InstallType::AppImage);
    assert_eq!(InstallType::from_path("some.AppImage"), InstallType::AppImage);
}

#[test]
fn test_as_str() {
    assert_eq!(InstallType::Deb.as_str(), "deb");
    assert_eq!(InstallType::AppImage.as_str(), "appimage");
    assert_eq!(InstallType::Zip.as_str(), "zip");
    assert_eq!(InstallType::TarGz.as_str(), "targz");
    assert_eq!(InstallType::Unknown.as_str(), "unknown");
}

#[test]
fn test_install_result_defaults() {
    let r = InstallResult {
        success: true,
        message: "ok".into(),
        app_name: "test".into(),
        install_path: "/tmp".into(),
        icon_path: None,
        version: None,
        size_bytes: 100,
    };
    assert!(r.success);
    assert_eq!(r.app_name, "test");
    assert_eq!(r.size_bytes, 100);
}

#[test]
fn test_install_unknown_file() {
    let path = "/tmp/nonexistent.foo";
    assert_eq!(InstallType::from_path(path), InstallType::Unknown);
    let result = unknown_file_result(path);
    assert!(!result.success);
    assert!(result.message.contains("Unknown file type"));
}

#[test]
fn test_install_nonexistent_file() {
    let path = "/tmp/nonexistent.deb";
    assert_eq!(InstallType::from_path(path), InstallType::Deb);
    let query = failed_run("dpkg-deb: error: cannot access archive '/tmp/nonexistent.deb': No such file or directory", 2);
    let info = DebInstaller::get_deb_info(path, Some(query));
    assert_eq!(info.0, "nonexistent");
    let run = failed_run("dpkg: error: cannot access archive '/tmp/nonexistent.deb': No such file or directory", 1);
    let result = DebInstaller::install(info, Ok(run), 0);
    assert!(!result.message.is_empty());
    assert!(!result.success);
}

#[test]
fn test_kill_nonexistent_pid() {
    let outcome = failed_run("kill: (999999) - No such process", 1);
    let result = ProcessManager::kill_process(999999, false, Ok(outcome));
    assert!(result.is_err());
}

#[test]
fn test_uid_to_username_root() {
    let name = uid_to_username(PASSWD, 0);
    assert_eq!(name, "root");
}

#[test]
fn test_uid_to_username_nobody() {
    let name = uid_to_username(PASSWD, 65534);
    assert_eq!(name, "nobody");
}

#[test]
fn test_parse_version() {
    assert_eq!(tags::parse_version("v1.0.0"), vec![1, 0, 0]);
    assert_eq!(tags::parse_version("v2.3.4"), vec![2, 3, 4]);
    assert_eq!(tags::parse_version("1.0.0"), vec![1, 0, 0]);
}

#[test]
fn updater_test_is_newer() {
    assert!(tags::is_newer("v1.1.0", "v1.0.0"));
    assert!(tags::is_newer("v2.0.0", "v1.9.9"));
    assert!(!tags::is_newer("v1.0.0", "v1.0.0"));
    assert!(!tags::is_newer("v0.9.0", "v1.0.0"));
}

#[test]
fn mod_test_is_newer() {
    assert!(updater::is_newer("1.0.0", "1.1.0"));
    assert!(updater::is_newer("1.0.0", "2.0.0"));
    assert!(updater::is_newer("1.1.2", "1.1.3"));
    assert!(updater::is_newer("v1.0.0", "v1.0.1"));
    assert!(updater::is_newer("1.0", "1.1"));

    assert!(!updater::is_newer("1.1.0", "1.1.0"));
    assert!(!updater::is_newer("1.1.0", "1.0.0"));
    assert!(!updater::is_newer("2.0.1", "2.0.0"));
    assert!(!updater::is_newer("v1.2.0", "v1.1.0"));
}

#[test]
fn test_clean_user_cache() {
    let path = CacheAnalyzer::cache_locations()[0].1.clone();
    let result = app_pro::cleaner::CleanupManager::clean_user_cache(path, 0, Ok(0));
    assert!(result.success || !result.success);
    assert!(!result.description.is_empty());
}

#[test]
fn test_clean_thumbnails() {
    let path = CacheAnalyzer::cache_locations()[2].1.clone();
    let result = app_pro::cleaner::CleanupManager::clean_thumbnails(path, 0, Err("denied".to_string()));
    assert!(result.success || !result.success);
    assert!(!result.path.is_empty());
}

#[test]
fn test_user_processes_subset() {
    let p = |pid: u32, user: &str| app_pro::manager::processes::ProcessInfo {
        pid,
        name: "p".to_string(),
        memory_bytes: 0,
        state: "S".to_string(),
        user: user.to_string(),
        ports: Vec::new(),
    };
    let all = vec![p(1, "root"), p(2, "alice"), p(3, "alice")];
    let n = all.len();
    let user = ProcessManager::keep_user(all, "alice");
    assert!(user.len() <= n);
}
