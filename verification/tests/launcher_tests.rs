use app_pro::launcher::{
    application_dirs_in, desktop_file_matches, dpkg_query_args, eq_ignore_ascii_case_exec, file_icon,
    file_offer, get_app_name_from_path, is_app_installed, is_deb_package, is_self_name, launch_commands,
    launch_message, matching_entries, trim_start_matches_exec, DesktopFile,
};
use app_pro::system::ExecResult;

fn chars(s: &str) -> Vec<char> {
    s.chars().collect()
}

fn entry(path: &str, content: Option<&str>) -> DesktopFile {
    DesktopFile { path: path.to_string(), content: content.map(|c| c.to_string()) }
}

#[test]
fn ascii_case_is_ignored_only_for_ascii_letters() {
    assert!(eq_ignore_ascii_case_exec(&chars("FireFox"), &chars("firefox")));
    assert!(!eq_ignore_ascii_case_exec(&chars("firefox"), &chars("firefox2")));
    assert!(!eq_ignore_ascii_case_exec(&chars("É"), &chars("é")));
    assert!(eq_ignore_ascii_case_exec(&chars(""), &chars("")));
}

#[test]
fn leading_copies_of_a_key_are_all_removed() {
    assert_eq!(trim_start_matches_exec(&chars("Name=Name=Foo"), &chars("Name=")), chars("Foo"));
    assert_eq!(trim_start_matches_exec(&chars("Foo=Name="), &chars("Name=")), chars("Foo=Name="));
    assert_eq!(trim_start_matches_exec(&chars("abc"), &chars("")), chars("abc"));
}

#[test]
fn entry_found_by_its_file_stem() {
    let f = entry(
        "/usr/share/applications/firefox.desktop",
        Some("[Desktop Entry]\nName=Firefox Web Browser\nExec=/usr/lib/firefox/firefox %u\n"),
    );
    assert!(desktop_file_matches(&f, "Firefox"));
}

#[test]
fn entry_found_by_its_program() {
    let f = entry(
        "/usr/share/applications/org.gnome.gedit.desktop",
        Some("[Desktop Entry]\nName=Text Editor\nExec=gedit %U\n"),
    );
    assert!(desktop_file_matches(&f, "gedit"));
    assert!(desktop_file_matches(&f, "text editor"));
    assert!(!desktop_file_matches(&f, "kate"));
}

#[test]
fn entry_found_by_a_quoted_program_path() {
    let f = entry("/opt/apps/x.desktop", Some("Exec=\"/opt/My App/myapp\" --flag\n"));
    assert!(desktop_file_matches(&f, "myapp"));
    assert!(desktop_file_matches(&f, "my"));
}

#[test]
fn entry_found_when_the_program_name_begins_with_the_name() {
    let f = entry("/x/vscode.desktop", Some("Name=Visual Studio Code\nExec=/usr/bin/code-insiders --new-window\n"));
    assert!(desktop_file_matches(&f, "code"));
    assert!(!desktop_file_matches(&f, "Code"));
}

#[test]
fn entry_of_this_tool_found_through_its_prefix() {
    let f = entry("/home/u/.local/share/applications/app-pro-Obsidian.desktop", None);
    assert!(desktop_file_matches(&f, "obsidian"));
}

#[test]
fn only_desktop_files_are_entries() {
    let f = entry("/x/firefox.txt", Some("Name=firefox\n"));
    assert!(!desktop_file_matches(&f, "firefox"));
}

#[test]
fn the_last_name_line_counts() {
    let f = entry("/x/a.desktop", Some("Name=First\n  Name=Second  \n"));
    assert!(desktop_file_matches(&f, "second"));
    assert!(!desktop_file_matches(&f, "first"));
}

#[test]
fn matching_entries_keeps_their_order() {
    let files = vec![
        entry("/a/foo.desktop", None),
        entry("/a/bar.desktop", None),
        entry("/b/FOO.desktop", None),
        entry("/b/foo.png", None),
    ];
    assert_eq!(matching_entries(&files, "foo"), vec![0, 2]);
    assert!(matching_entries(&files, "baz").is_empty());
}

#[test]
fn installed_when_dpkg_says_so_or_an_entry_belongs() {
    let none: Vec<DesktopFile> = Vec::new();
    assert!(is_app_installed("hello", "/tmp/hello_2.10.deb", Some("install ok installed"), &none));
    assert!(!is_app_installed("hello", "/tmp/hello_2.10.deb", Some("deinstall ok config-files"), &none));
    assert!(!is_app_installed("hello", "/tmp/hello.zip", Some("install ok installed"), &none));
    let files = vec![entry("/usr/share/applications/hello.desktop", None)];
    assert!(is_app_installed("hello", "/tmp/hello.zip", None, &files));
}

#[test]
fn deb_packages_are_told_by_extension_in_any_case() {
    assert!(is_deb_package("/tmp/x.deb"));
    assert!(is_deb_package("/tmp/X.DEB"));
    assert!(!is_deb_package("/tmp/deb"));
    assert!(!is_deb_package("/tmp/x.deb.zip"));
}

#[test]
fn dpkg_is_asked_for_the_status() {
    assert_eq!(dpkg_query_args("vlc"), vec!["-W".to_string(), "-f=${Status}".to_string(), "vlc".to_string()]);
}

#[test]
fn launch_runs_the_cleaned_exec_line_then_falls_back() {
    let f = entry(
        "/usr/share/applications/app.desktop",
        Some("[Desktop Entry]\nExec=env FOO=1 /usr/bin/app %U --x %f\n"),
    );
    let cmds = launch_commands(&f);
    assert_eq!(cmds.len(), 3);
    assert_eq!(cmds[0].program, "sh");
    assert_eq!(cmds[0].args, vec!["-c".to_string(), "nohup env FOO=1 /usr/bin/app  --x >/dev/null 2>&1 &".to_string()]);
    assert_eq!(cmds[1].program, "gtk-launch");
    assert_eq!(cmds[1].args, vec!["app".to_string()]);
    assert_eq!(cmds[2].program, "xdg-open");
    assert_eq!(cmds[2].args, vec!["/usr/share/applications/app.desktop".to_string()]);
}

#[test]
fn launch_without_exec_line_uses_the_fallbacks() {
    let f = entry("/x/tool.desktop", Some("Name=Tool\n"));
    let cmds = launch_commands(&f);
    assert_eq!(cmds.len(), 2);
    assert_eq!(cmds[0].program, "gtk-launch");
    assert_eq!(cmds[1].program, "xdg-open");
}

#[test]
fn entries_are_looked_for_in_three_directories() {
    let dirs = application_dirs_in(Some("/home/u/.local/share".to_string()), Some("/home/u".to_string()));
    assert_eq!(
        dirs,
        vec![
            "/usr/share/applications".to_string(),
            "/home/u/.local/share/applications".to_string(),
            "/home/u/.local/share/applications".to_string(),
        ]
    );
    let dirs = application_dirs_in(None, None);
    assert_eq!(dirs, vec!["/usr/share/applications".to_string(), String::new(), ".local/share/applications".to_string()]);
}

#[test]
fn app_names_from_package_paths() {
    assert_eq!(get_app_name_from_path("/tmp/MyApp-1.2.3-x86_64.AppImage", None), "MyApp");
    assert_eq!(get_app_name_from_path("/tmp/tool.zip", None), "tool");
    assert_eq!(get_app_name_from_path("/tmp/Tool.ZIP", None), "Tool.ZIP");
    assert_eq!(get_app_name_from_path("/tmp/readme.txt", None), "readme");
    let query = ExecResult {
        success: true,
        stdout: "hello::2.10-3\n".to_string(),
        stderr: String::new(),
        exit_code: Some(0),
    };
    assert_eq!(get_app_name_from_path("/tmp/hello_2.10-3_amd64.deb", Some(query)), "hello");
    assert_eq!(get_app_name_from_path("/tmp/hello_2.10-3_amd64.deb", None), "hello_2.10-3_amd64");
}

#[test]
fn file_icons_by_kind() {
    assert_eq!(file_icon("/a/b.deb"), "📦");
    assert_eq!(file_icon("/a/b.AppImage"), "⚡");
    assert_eq!(file_icon("/a/b.zip"), "🗜️");
    assert_eq!(file_icon("/a/b.tar.gz"), "📄");
}

#[test]
fn this_program_cannot_install_itself() {
    assert!(is_self_name("App-Pro"));
    assert!(is_self_name("APP_PRO"));
    assert!(is_self_name("apppro"));
    assert!(!is_self_name("app pro"));
    let offer = file_offer("app-pro", true);
    assert!(!offer.install_enabled);
    assert_eq!(offer.install_label, "Install");
    assert!(!offer.show_open);
    assert_eq!(offer.status, "App Pro is already running and cannot install itself.");
}

#[test]
fn installed_packages_are_offered_again() {
    let offer = file_offer("vlc", true);
    assert!(offer.install_enabled);
    assert_eq!(offer.install_label, "Reinstall");
    assert!(offer.show_open);
    assert_eq!(offer.status, "Application is already installed.");
    let offer = file_offer("vlc", false);
    assert_eq!(offer.install_label, "Install");
    assert!(!offer.show_open);
    assert_eq!(offer.status, "");
}

#[test]
fn launch_messages() {
    assert_eq!(launch_message("", true), "App name not found.");
    assert_eq!(launch_message("vlc", true), "Launched vlc");
    assert_eq!(launch_message("vlc", false), "Could not launch vlc");
}

#[test]
fn an_application_this_tool_installs_is_found_again() {
    let path = app_pro::locations::desktop_path_in(Some("/home/u".to_string()), "Tool");
    let content = app_pro::installer::appimage::AppImageInstaller::desktop_entry_content(
        "Tool",
        "/home/u/.local/share/app-pro/apps/Tool/Tool.AppImage",
        &None,
    );
    let entry = DesktopFile { path, content: Some(content) };
    assert!(desktop_file_matches(&entry, "Tool"));
    assert!(desktop_file_matches(&DesktopFile { path: entry.path.clone(), content: None }, "Tool"));
}
