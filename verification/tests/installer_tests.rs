use app_pro::cleaner::CleanupManager;
use app_pro::db::AppEntry;
use app_pro::installer::appimage::{uninstall_report, AppImageInstaller};
use app_pro::installer::deb::DebInstaller;
use app_pro::installer::tar::TarInstaller;
use app_pro::installer::zip::ZipInstaller;
use app_pro::installer::{InstallResult, InstallType};
use app_pro::locations::{apps_dir_in, db_path_in, desktop_path_in};
use app_pro::manager::desktop_scanner::{as_user_entry, parse_desktop_file, sort_and_dedup, AppOrigin, DesktopAppInfo};
use app_pro::manager::{
    app_entry_for, finish_install, finish_uninstall, plan_install, plan_uninstall, unknown_install_type_result,
    InstallPlan, UninstallPlan,
};
use app_pro::system::ExecResult;

fn run(success: bool, stdout: &str, stderr: &str) -> ExecResult {
    ExecResult {
        success,
        stdout: stdout.to_string(),
        stderr: stderr.to_string(),
        exit_code: Some(if success { 0 } else { 1 }),
    }
}

fn app(name: &str, kind: &str) -> AppEntry {
    AppEntry {
        id: "id-1".to_string(),
        name: name.to_string(),
        install_type: kind.to_string(),
        install_path: "/opt/x".to_string(),
        icon_path: None,
        desktop_file: None,
        version: Some("1.0".to_string()),
        installed_at: "2025-01-01 00:00:00".to_string(),
        size_bytes: 10,
    }
}

fn info(name: &str, path: &str) -> DesktopAppInfo {
    DesktopAppInfo {
        name: name.to_string(),
        exec_cmd: String::new(),
        icon: None,
        comment: None,
        categories: None,
        desktop_path: path.to_string(),
        is_app_pro: false,
        origin: AppOrigin::System,
    }
}

#[test]
fn appimage_names_lose_platform_and_version() {
    assert_eq!(AppImageInstaller::extract_name("MyApp-1.2.3-x86_64.AppImage"), "MyApp");
    assert_eq!(AppImageInstaller::extract_name("Obsidian-1.5.3.AppImage"), "Obsidian");
    assert_eq!(AppImageInstaller::extract_name("my_tool-linux-amd64.AppImage"), "my-tool");
    assert_eq!(AppImageInstaller::extract_name("Editor.AppImage"), "Editor");
    assert_eq!(AppImageInstaller::extract_name("2048.AppImage"), "2048");
    assert_eq!(AppImageInstaller::file_name_of("/home/u/Downloads/Tool.AppImage"), "Tool.AppImage");
    assert_eq!(AppImageInstaller::file_name_of("/"), "unknown");
}

#[test]
fn appimage_desktop_entry_text() {
    let text = AppImageInstaller::desktop_entry_content("Tool", "/home/u/.local/share/app-pro/apps/Tool/Tool.AppImage", &None);
    assert_eq!(
        text,
        "[Desktop Entry]\nType=Application\nName=Tool\nExec=/home/u/.local/share/app-pro/apps/Tool/Tool.AppImage\nIcon=application-x-executable\nTerminal=false\nCategories=Utility;\nComment=Tool - Installed via App Pro\nX-AppPro-Managed=true\n"
    );
    assert!(AppImageInstaller::icon_name_matches("Tool-256.PNG", "tool"));
    assert!(!AppImageInstaller::icon_name_matches("other.png", "tool"));
}

#[test]
fn appimage_installation_stops_at_the_first_failed_step() {
    let ok = || -> Result<(), String> { Ok(()) };
    let r = AppImageInstaller::install("Tool".into(), "/apps/Tool/Tool.AppImage".into(), Err("denied".into()), ok(), ok(), None, ok(), 5);
    assert!(!r.success);
    assert_eq!(r.message, "Failed to create app directory: denied");
    let r = AppImageInstaller::install("Tool".into(), "/apps/Tool/Tool.AppImage".into(), ok(), ok(), Err("ro".into()), None, ok(), 5);
    assert_eq!(r.message, "Failed to set permissions: ro");
    assert_eq!(r.install_path, "/apps/Tool/Tool.AppImage");
    let r = AppImageInstaller::install("Tool".into(), "/apps/Tool/Tool.AppImage".into(), ok(), ok(), ok(), Some("/i.png".into()), Err("full".into()), 5);
    assert!(r.success);
    assert_eq!(r.message, "Installed Tool but desktop entry creation failed: full");
    assert_eq!(r.icon_path, Some("/i.png".to_string()));
    assert_eq!(r.size_bytes, 5);
    let r = AppImageInstaller::install("Tool".into(), "/apps/Tool/Tool.AppImage".into(), ok(), ok(), ok(), None, ok(), 5);
    assert_eq!(r.message, "Successfully installed Tool");
}

#[test]
fn removing_single_file_applications() {
    let r = AppImageInstaller::uninstall(&app("Tool", "appimage"), Ok(()));
    assert!(r.success);
    assert_eq!(r.message, "Successfully uninstalled Tool");
    let r = uninstall_report(&app("Tool", "zip"), Err("busy".to_string()));
    assert!(!r.success);
    assert_eq!(r.message, "Failed to remove app directory: busy");
    let r = ZipInstaller::uninstall(&app("Tool", "zip"), Ok(()));
    assert!(r.success);
}

#[test]
fn deb_package_information_and_scripts() {
    let (name, version) = DebInstaller::get_deb_info("/tmp/vlc_3.0_amd64.deb", Some(run(true, "vlc::3.0.20-3\n", "")));
    assert_eq!(name, "vlc");
    assert_eq!(version, "3.0.20-3");
    let (name, version) = DebInstaller::get_deb_info("/tmp/vlc_3.0_amd64.deb", Some(run(true, "garbage", "")));
    assert_eq!(name, "vlc_3.0_amd64");
    assert_eq!(version, "1.0");
    assert_eq!(
        DebInstaller::info_query_args("/tmp/a.deb"),
        vec!["--show".to_string(), "--showformat=${Package}::${Version}".to_string(), "/tmp/a.deb".to_string()]
    );
    assert_eq!(
        DebInstaller::install_script("/tmp/a.deb"),
        "dpkg -i '/tmp/a.deb' 2>&1; if [ $? -ne 0 ]; then apt-get install -f -y 2>&1; fi"
    );
    assert_eq!(DebInstaller::uninstall_script(&app("vlc", "deb")), "apt-get remove -y 'vlc' 2>&1");
}

#[test]
fn deb_installation_reports() {
    let r = DebInstaller::install(("vlc".to_string(), "3.0".to_string()), Ok(run(true, "", "")), 4096);
    assert!(r.success);
    assert_eq!(r.message, "Successfully installed vlc");
    assert_eq!(r.install_path, "/usr/share/vlc");
    assert_eq!(r.version, Some("3.0".to_string()));
    assert_eq!(r.size_bytes, 4096);
    let r = DebInstaller::install(("vlc".to_string(), "3.0".to_string()), Err("no pkexec".to_string()), 4096);
    assert!(!r.success);
    assert_eq!(r.message, "Failed to execute dpkg: no pkexec");
    assert_eq!(r.size_bytes, 0);
    let r = DebInstaller::uninstall(&app("vlc", "deb"), Ok(run(true, "", "")));
    assert!(r.success);
}

#[test]
fn zip_bundle_names_and_places() {
    assert_eq!(ZipInstaller::app_name_for("/tmp/Game.zip"), "Game");
    assert_eq!(ZipInstaller::app_name_for("/tmp/Game.ZIP"), "Game.ZIP");
    assert_eq!(ZipInstaller::extract_dir("Game"), "/tmp/apppro-extract-Game");
    assert_eq!(
        ZipInstaller::unzip_args("/tmp/Game.zip", "/tmp/apppro-extract-Game"),
        vec!["-o".to_string(), "/tmp/Game.zip".to_string(), "-d".to_string(), "/tmp/apppro-extract-Game".to_string()]
    );
    let c = ZipInstaller::executable_candidates("/opt/g", "Game");
    assert_eq!(c[0], "/opt/g/Game");
    assert_eq!(c[1], "/opt/g/bin/Game");
    assert_eq!(c.len(), 6);
    assert_eq!(ZipInstaller::icon_file_names("Game")[1], "Game.svg");
    assert_eq!(ZipInstaller::icon_dirs(), vec!["usr/share/icons".to_string(), "share/icons".to_string(), "icons".to_string(), "resources".to_string()]);
    assert!(ZipInstaller::icon_matches("game-128.SVG", "Game"));
    assert!(!ZipInstaller::icon_matches("game.txt", "Game"));
}

#[test]
fn zip_installation_reports() {
    let r = ZipInstaller::install("Game".into(), "/apps/Game".into(), Ok(run(false, "", "bad zip")), Ok(()), None, 1);
    assert_eq!(r.message, "Extraction failed: bad zip");
    let r = ZipInstaller::install("Game".into(), "/apps/Game".into(), Err("no unzip".into()), Ok(()), None, 1);
    assert_eq!(r.message, "Failed to run unzip: no unzip");
    let r = ZipInstaller::install("Game".into(), "/apps/Game".into(), Ok(run(true, "", "")), Err("disk".into()), None, 1);
    assert_eq!(r.message, "Failed to copy files: disk");
    let r = ZipInstaller::install("Game".into(), "/apps/Game".into(), Ok(run(true, "", "")), Ok(()), None, 1);
    assert!(r.success);
    assert_eq!(r.install_path, "/apps/Game");
    let text = ZipInstaller::desktop_entry_content("Game", "/apps/Game/run", &Some("/apps/Game/icon.png".to_string()));
    assert!(text.contains("\nPath=/apps/Game\n"));
    assert!(text.contains("\nIcon=/apps/Game/icon.png\n"));
}

#[test]
fn records_of_installations() {
    let result = InstallResult {
        success: true,
        message: "ok".into(),
        app_name: "Tool".into(),
        install_path: "/apps/Tool".into(),
        icon_path: None,
        version: Some("2.0".into()),
        size_bytes: 99,
    };
    let entry = app_entry_for(&result, InstallType::AppImage);
    assert_eq!(entry.id.len(), 36);
    assert_eq!(entry.install_type, "appimage");
    assert_eq!(entry.name, "Tool");
    assert_eq!(entry.version, Some("2.0".to_string()));
    let other = app_entry_for(&result, InstallType::Zip);
    assert_ne!(entry.id, other.id);
    let r = unknown_install_type_result(&app("Thing", "snap"));
    assert!(!r.success);
    assert_eq!(r.message, "Unknown install type: snap");
    assert_eq!(InstallType::from_tag("zip"), InstallType::Zip);
    assert_eq!(InstallType::from_tag("targz"), InstallType::TarGz);
    assert_eq!(InstallType::from_tag("tar"), InstallType::Unknown);
}

#[test]
fn where_things_are_kept() {
    assert_eq!(apps_dir_in(Some("/home/u".into())), "/home/u/.local/share/app-pro/apps");
    assert_eq!(apps_dir_in(None), "/tmp/.local/share/app-pro/apps");
    assert_eq!(desktop_path_in(Some("/home/u/".into()), "Tool"), "/home/u/.local/share/applications/app-pro-Tool.desktop");
    assert_eq!(db_path_in(Some("/home/u/.local/share".into())), "/home/u/.local/share/app-pro/app_pro.db");
}

#[test]
fn cleanups_report_the_space_freed() {
    let r = CleanupManager::clean_user_cache("/home/u/.cache".into(), 5000, Ok(1000));
    assert!(r.success);
    assert_eq!(r.bytes_freed, 4000);
    assert_eq!(r.message, "Cleaned ~/.cache: freed 4000 bytes");
    let r = CleanupManager::clean_user_cache("/home/u/.cache".into(), 1000, Ok(5000));
    assert_eq!(r.bytes_freed, 0);
    let r = CleanupManager::clean_user_cache("/home/u/.cache".into(), 1000, Err("denied".into()));
    assert!(!r.success);
    assert_eq!(r.message, "Failed to clean ~/.cache: denied");
    let r = CleanupManager::clean_apt_cache(300, Ok(run(true, "", "")), 100);
    assert_eq!(r.path, "/var/cache/apt/archives");
    assert_eq!(r.message, "Cleaned APT cache: freed 200 bytes");
    let r = CleanupManager::clean_apt_cache(300, Ok(run(false, "", "locked")), 100);
    assert_eq!(r.message, "Failed to clean APT cache: locked");
    let r = CleanupManager::clean_orphan_packages(Ok(run(true, "", "")));
    assert_eq!(r.message, "Removed orphaned packages");
    assert_eq!(r.path, "orphan-packages");
    let r = CleanupManager::clean_thumbnails("/t".into(), 10, Ok(0));
    assert_eq!(r.description, "Thumbnail cache");
    assert_eq!(r.message, "Cleaned thumbnails: freed 10 bytes");
    let rec = CleanupManager::record_cleanup("/t", "Thumbnail cache", 10);
    assert_eq!(rec.size_bytes, 10);
    assert_eq!(rec.path, "/t");
}

#[test]
fn desktop_entries_are_listed() {
    let text = "[Desktop Entry]\nName=Files\nExec=nautilus --new-window %U\nIcon=org.gnome.Nautilus\nCategories=GNOME;Utility;\n";
    let none: Vec<String> = Vec::new();
    let entry = parse_desktop_file("/usr/share/applications/org.gnome.Nautilus.desktop", text, &none, &none).unwrap();
    assert_eq!(entry.name, "Files");
    assert_eq!(entry.exec_cmd, "nautilus --new-window %U");
    assert_eq!(entry.icon, Some("org.gnome.Nautilus".to_string()));
    assert!(!entry.is_app_pro);
    assert!(matches!(entry.origin, AppOrigin::System));
    assert!(parse_desktop_file("/x/a.desktop", "Name=Hidden\nNoDisplay=true\n", &none, &none).is_none());
    assert!(parse_desktop_file("/x/a.desktop", "Exec=x\n", &none, &none).is_none());
    assert!(parse_desktop_file("/x/a.txt", "Name=A\n", &none, &none).is_none());
    let managed = parse_desktop_file("/x/a.desktop", "Name=A\nX-AppPro-Managed=true\n", &none, &none).unwrap();
    assert!(managed.is_app_pro);
    assert!(matches!(managed.origin, AppOrigin::AppPro));
    let names = vec!["Files".to_string()];
    let ours = parse_desktop_file("/y/b.desktop", text, &names, &none).unwrap();
    assert!(ours.is_app_pro);
    let user = as_user_entry(info("Notes", "/home/u/.local/share/applications/notes.desktop"));
    assert!(matches!(user.origin, AppOrigin::User));
    assert_eq!(AppOrigin::User.as_str(), "User");
}

#[test]
fn listed_applications_are_sorted_and_unique_by_name() {
    let apps = vec![info("zeta", "/1"), info("Alpha", "/2"), info("alpha", "/3"), info("Beta", "/4")];
    let out = sort_and_dedup(apps);
    let names: Vec<&str> = out.iter().map(|a| a.name.as_str()).collect();
    assert_eq!(names, vec!["Alpha", "Beta", "zeta"]);
    assert_eq!(out[0].desktop_path, "/2");
}

#[test]
fn recorded_kinds_read_back_as_themselves() {
    for t in [InstallType::Deb, InstallType::AppImage, InstallType::Zip, InstallType::TarGz] {
        assert_eq!(InstallType::from_tag(t.as_str()), t);
    }
    let tags: Vec<&str> = [InstallType::Deb, InstallType::AppImage, InstallType::Zip, InstallType::TarGz, InstallType::Unknown]
        .iter()
        .map(|t| t.as_str())
        .collect();
    for i in 0..tags.len() {
        for j in 0..tags.len() {
            assert_eq!(i == j, tags[i] == tags[j]);
        }
    }
}

#[test]
fn deb_icon_is_the_first_place_holding_a_file() {
    assert_eq!(
        DebInstaller::icon_from_presence("vlc", &vec![false, true, true]),
        Some("/usr/share/icons/hicolor/64x64/apps/vlc.png".to_string())
    );
    assert_eq!(
        DebInstaller::icon_from_presence("vlc", &vec![false, false, false, false, true]),
        Some("/usr/share/pixmaps/vlc.xpm".to_string())
    );
    assert_eq!(DebInstaller::icon_from_presence("vlc", &vec![false, false]), None);
    assert_eq!(DebInstaller::icon_from_presence("vlc", &Vec::new()), None);
    assert_eq!(DebInstaller::find_icon("no-such-package-zz9"), None);
}

#[test]
fn deb_installation_reports_the_icon_found() {
    let r = DebInstaller::install_with_icon(
        ("vlc".to_string(), "3.0".to_string()),
        Ok(run(true, "", "")),
        7,
        Some("/usr/share/pixmaps/vlc.png".to_string()),
    );
    assert_eq!(r.icon_path, Some("/usr/share/pixmaps/vlc.png".to_string()));
    let r = DebInstaller::install_with_icon(("vlc".to_string(), "3.0".to_string()), Err("x".to_string()), 7, Some("i".to_string()));
    assert_eq!(r.icon_path, None);
}

#[test]
fn files_go_to_their_installer_and_successes_are_recorded() {
    assert!(matches!(plan_install("/tmp/a.deb"), InstallPlan::Deb));
    assert!(matches!(plan_install("/tmp/a.AppImage"), InstallPlan::AppImage));
    assert!(matches!(plan_install("/tmp/a.zip"), InstallPlan::Zip));
    assert!(matches!(plan_install("/tmp/a.tar.gz"), InstallPlan::TarGz));
    assert!(matches!(plan_install("/tmp/b.tgz"), InstallPlan::TarGz));
    match plan_install("/tmp/a.foo") {
        InstallPlan::Refused(r) => assert_eq!(r.message, "Unknown file type: /tmp/a.foo"),
        _ => panic!("an unknown kind has no installer"),
    }
    let ok = InstallResult {
        success: true,
        message: "ok".into(),
        app_name: "Tool".into(),
        install_path: "/apps/Tool".into(),
        icon_path: None,
        version: None,
        size_bytes: 3,
    };
    let (r, rec) = finish_install(ok, InstallType::Zip);
    assert!(r.success);
    assert_eq!(rec.unwrap().install_type, "zip");
    let failed = InstallResult { success: false, ..r };
    assert!(finish_install(failed, InstallType::Zip).1.is_none());
    assert!(matches!(plan_uninstall(&app("vlc", "deb")), UninstallPlan::Deb));
    assert!(matches!(plan_uninstall(&app("x", "flatpak")), UninstallPlan::Refused(_)));
    let done = DebInstaller::uninstall(&app("vlc", "deb"), Ok(run(true, "", "")));
    assert_eq!(finish_uninstall(&app("vlc", "deb"), done).1, Some("id-1".to_string()));
}

#[test]
fn tarballs_are_named_and_unpacked() {
    assert_eq!(TarInstaller::app_name_for("/tmp/app-1.0.tar.gz"), "app-1.0");
    assert_eq!(TarInstaller::app_name_for("bundle.tgz"), "bundle");
    assert_eq!(TarInstaller::app_name_for("/tmp/plain"), "plain");
    assert_eq!(TarInstaller::app_name_for("/"), "unknown");
    assert_eq!(TarInstaller::extract_dir("tool"), "/tmp/apppro-extract-tool");
    assert_eq!(
        TarInstaller::untar_args("/tmp/t.tgz", "/tmp/apppro-extract-t"),
        vec!["-xzf", "/tmp/t.tgz", "-C", "/tmp/apppro-extract-t"]
    );
}

#[test]
fn tarball_installation_reports_each_step() {
    let ok = TarInstaller::install("tool".into(), "/apps/tool".into(), Ok(run(true, "", "")), Ok(()), Some("/apps/tool/icon.png".into()), 42);
    assert!(ok.success);
    assert_eq!(ok.message, "Successfully installed tool");
    assert_eq!(ok.install_path, "/apps/tool");
    assert_eq!(ok.icon_path, Some("/apps/tool/icon.png".to_string()));
    assert_eq!(ok.size_bytes, 42);
    let r = TarInstaller::install("tool".into(), "/apps/tool".into(), Err("not found".into()), Ok(()), None, 1);
    assert!(!r.success);
    assert_eq!(r.message, "Failed to run tar: not found");
    let r = TarInstaller::install("tool".into(), "/apps/tool".into(), Ok(run(false, "", "bad gzip")), Ok(()), None, 1);
    assert_eq!(r.message, "Extraction failed: bad gzip");
    assert_eq!(r.size_bytes, 0);
    let r = TarInstaller::install("tool".into(), "/apps/tool".into(), Ok(run(true, "", "")), Err("disk full".into()), None, 1);
    assert_eq!(r.message, "Failed to copy files: disk full");
    assert_eq!(r.install_path, "");
    let (r, rec) = finish_install(ok, InstallType::TarGz);
    assert!(r.success);
    let rec = rec.unwrap();
    assert_eq!(rec.install_type, "targz");
    assert_eq!(rec.install_path, "/apps/tool");
    assert!(matches!(plan_uninstall(&rec), UninstallPlan::TarGz));
    let gone = TarInstaller::uninstall(&app("tool", "targz"), Ok(()));
    assert_eq!(gone.message, "Successfully uninstalled tool");
    let kept = TarInstaller::uninstall(&app("tool", "targz"), Err("busy".into()));
    assert!(!kept.success);
    assert_eq!(kept.message, "Failed to remove app directory: busy");
}
