use app_pro::appearance::{prefers_dark, ThemeHints};
use app_pro::cleaner::CleanupResult;
use app_pro::cli::{
    classify_arg, help_lines, integration_paths_in, is_package_name, parse_args, version_from_describe,
    version_line, Command, SELF_DESKTOP_ENTRY,
};
use app_pro::dashboard::{
    app_meta, cache_kind, filter_processes, install_type_icon, installed_status, kill_request, process_status,
    total_freed, CacheKind, KillRequest, Page,
};
use app_pro::db::AppEntry;
use app_pro::manager::processes::ProcessInfo;
use app_pro::update_panel::{check_finished, install_finished, UpdateAction, UpdateMessage, UpdatePanel};
use app_pro::updater::ReleaseInfo;

fn process(pid: u32, name: &str) -> ProcessInfo {
    ProcessInfo {
        pid,
        name: name.to_string(),
        memory_bytes: 0,
        state: "S".to_string(),
        user: "me".to_string(),
        ports: Vec::new(),
    }
}

fn release(tag: &str) -> ReleaseInfo {
    ReleaseInfo { tag_name: tag.to_string(), html_url: String::new(), body: None, assets: Vec::new() }
}

fn hints() -> ThemeHints {
    ThemeHints { color_scheme: None, gtk_theme: None, cli_color_scheme: None, cli_gtk_theme: None, toolkit_theme: None }
}

#[test]
fn first_argument_selects_the_command() {
    assert!(matches!(classify_arg("update", false), Command::Update));
    assert!(matches!(classify_arg("-v", false), Command::Version));
    assert!(matches!(classify_arg("--version", false), Command::Version));
    assert!(matches!(classify_arg("-h", false), Command::Help));
    assert!(matches!(classify_arg("--help", false), Command::Help));
    assert!(matches!(classify_arg("pkg.deb", false), Command::Install(ref p) if p == "pkg.deb"));
    assert!(matches!(classify_arg("Tool.AppImage", false), Command::Install(_)));
    assert!(matches!(classify_arg("/some/dir", true), Command::Install(_)));
    assert!(matches!(classify_arg("--bogus", false), Command::Unknown(ref a) if a == "--bogus"));
    assert!(!is_package_name("tool.appimage"));
}

#[test]
fn command_line_without_argument_opens_the_dashboard() {
    assert!(matches!(parse_args(&vec!["app-pro".to_string()]), Command::Gui));
    assert!(matches!(parse_args(&vec!["app-pro".to_string(), "update".to_string()]), Command::Update));
    assert!(matches!(parse_args(&vec!["app-pro".to_string(), "/tmp".to_string()]), Command::Install(_)));
    assert!(matches!(
        parse_args(&vec!["app-pro".to_string(), "/nonexistent_zz/--x".to_string()]),
        Command::Unknown(_)
    ));
}

#[test]
fn help_and_version_texts() {
    let lines = help_lines();
    assert_eq!(lines.len(), 7);
    assert_eq!(lines[0], "App Pro - Production-grade Linux System Utility");
    assert_eq!(lines[3], "  app-pro update             Check for updates and install them");
    assert_eq!(version_line("1.4.0"), "App Pro Version: 1.4.0");
}

#[test]
fn reported_version_drops_the_tag_prefix() {
    assert_eq!(version_from_describe(Some("v1.2.3-4-gabc\n"), "0.1.0"), "1.2.3-4-gabc");
    assert_eq!(version_from_describe(Some("1.2.3"), "0.1.0"), "1.2.3");
    assert_eq!(version_from_describe(None, "0.1.0"), "0.1.0");
}

#[test]
fn own_entry_and_icon_locations() {
    let paths = integration_paths_in(Some("/home/u/.local/share".to_string()));
    assert_eq!(paths[0].0, "/usr/share/applications/app-pro.desktop");
    assert_eq!(paths[0].1, "/home/u/.local/share/applications/app-pro.desktop");
    assert_eq!(paths[1].0, "/usr/share/icons/hicolor/scalable/apps/app-pro.svg");
    assert_eq!(paths[1].1, "/home/u/.local/share/icons/hicolor/scalable/apps/app-pro.svg");
    let paths = integration_paths_in(None);
    assert_eq!(paths[0].1, "~/.local/share/applications/app-pro.desktop");
    assert!(SELF_DESKTOP_ENTRY.starts_with("[Desktop Entry]\nName=App Pro\n"));
}

#[test]
fn tabs_open_pages() {
    assert!(matches!(Page::at_tab(0), Page::Install));
    assert!(matches!(Page::at_tab(2), Page::RunningProcesses));
    assert!(matches!(Page::at_tab(4), Page::SystemInfo));
    assert!(matches!(Page::at_tab(9), Page::Install));
    assert_eq!(Page::Cleaner.name(), "cleaner");
    assert_eq!(Page::SystemInfo.name(), "info");
    assert_eq!(Page::InstalledApps.title(), "Installed");
}

#[test]
fn search_filters_processes_by_name_or_id() {
    let procs = vec![process(10, "Firefox"), process(215, "bash"), process(3100, "python3")];
    let shown = filter_processes(procs, "FIRE");
    assert_eq!(shown.len(), 1);
    assert_eq!(shown[0].pid, 10);
    let procs = vec![process(10, "Firefox"), process(215, "bash"), process(3100, "python3")];
    let shown: Vec<u32> = filter_processes(procs, "1").iter().map(|p| p.pid).collect();
    assert_eq!(shown, vec![10, 215, 3100]);
    let procs = vec![process(10, "Firefox"), process(215, "bash")];
    assert_eq!(filter_processes(procs, "").len(), 2);
    let mut web = process(77, "nginx");
    web.ports = vec![8080];
    let shown = filter_processes(vec![process(10, "Firefox"), web], "8080");
    assert_eq!(shown.len(), 1);
    assert_eq!(shown[0].name, "nginx");
}

#[test]
fn process_status_lines() {
    assert_eq!(process_status(3, false), "Total processes: 3");
    assert_eq!(process_status(2, true), "Total processes: 2 (filtered: 2)");
}

#[test]
fn kill_requests_from_the_selected_row() {
    assert!(matches!(kill_request(None), KillRequest::NoSelection));
    assert!(matches!(kill_request(Some("PID")), KillRequest::NotAProcess));
    assert!(matches!(kill_request(Some("1234")), KillRequest::Process(1234)));
}

#[test]
fn cache_rows_choose_their_cleaner() {
    assert!(matches!(cache_kind("User Cache"), Some(CacheKind::UserCache)));
    assert!(matches!(cache_kind("APT Cache"), Some(CacheKind::AptCache)));
    assert!(matches!(cache_kind("Thumbnails"), Some(CacheKind::Thumbnails)));
    assert!(cache_kind("App Pro Cache").is_none());
}

#[test]
fn freed_space_adds_up() {
    let r = |n: u64| CleanupResult {
        path: String::new(),
        description: String::new(),
        bytes_freed: n,
        success: true,
        message: String::new(),
    };
    assert_eq!(total_freed(&vec![r(100), r(0), r(2048), r(7)]), 2155);
    assert_eq!(total_freed(&Vec::new()), 0);
}

#[test]
fn installed_application_rows() {
    assert_eq!(install_type_icon("deb"), "📦");
    assert_eq!(install_type_icon("flatpak"), "📦");
    assert_eq!(install_type_icon("appimage"), "🖥️");
    assert_eq!(install_type_icon("zip"), "📁");
    assert_eq!(install_type_icon("snap"), "❓");
    let app = AppEntry {
        id: "id".to_string(),
        name: "Tool".to_string(),
        install_type: "deb".to_string(),
        install_path: "/usr/share/tool".to_string(),
        icon_path: None,
        desktop_file: None,
        version: None,
        installed_at: "2025-01-01 12:00:00".to_string(),
        size_bytes: 0,
    };
    assert_eq!(app_meta(&app), "DEB  |  v1.0  |  2025-01-01 12:00:00");
    assert_eq!(installed_status(0), "");
    assert_eq!(installed_status(3), "Total: 3 applications");
}

#[test]
fn offered_release_is_installed_by_the_next_press() {
    let mut panel = UpdatePanel::new();
    assert_eq!(panel.button_label, "Check for Updates");
    assert!(panel.button_enabled);
    assert!(matches!(panel.click(), UpdateAction::Check));
    panel.apply(UpdateMessage::Checking);
    assert_eq!(panel.status, "Checking for updates...");
    assert!(!panel.button_enabled);
    panel.apply(check_finished(Ok(Some(release("v2.0.0")))));
    assert_eq!(panel.status, "New version v2.0.0 available!");
    assert_eq!(panel.button_label, "Install Update");
    assert!(panel.button_enabled);
    match panel.click() {
        UpdateAction::Install(r) => assert_eq!(r.tag_name, "v2.0.0"),
        UpdateAction::Check => panic!("the offered release should be installed"),
    }
    assert!(panel.pending.is_none());
    assert!(matches!(panel.click(), UpdateAction::Check));
}

#[test]
fn update_outcomes_shown() {
    let mut panel = UpdatePanel::new();
    panel.apply(check_finished(Ok(None)));
    assert_eq!(panel.status, "App Pro is up to date.");
    panel.apply(check_finished(Err("offline".to_string())));
    assert_eq!(panel.status, "Check failed: offline");
    panel.apply(UpdateMessage::Installing);
    assert_eq!(panel.status, "Installing update... Please wait.");
    panel.apply(install_finished(Ok(())));
    assert_eq!(panel.status, "Update successful! Restart the application to apply.");
    assert_eq!(panel.button_label, "Restart Required");
    assert!(!panel.button_enabled);
    panel.apply(install_finished(Err("denied".to_string())));
    assert_eq!(panel.status, "Update failed: denied");
    assert_eq!(panel.button_label, "Check for Updates");
}

#[test]
fn dark_theme_hints() {
    assert!(!prefers_dark(&hints()));
    let mut h = hints();
    h.color_scheme = Some("prefer-dark".to_string());
    assert!(prefers_dark(&h));
    let mut h = hints();
    h.color_scheme = Some("PREFER-DARK".to_string());
    assert!(!prefers_dark(&h));
    let mut h = hints();
    h.gtk_theme = Some("Adwaita-Dark".to_string());
    assert!(prefers_dark(&h));
    let mut h = hints();
    h.cli_color_scheme = Some("'default'\n".to_string());
    h.toolkit_theme = Some("Yaru-DARK".to_string());
    assert!(prefers_dark(&h));
}
