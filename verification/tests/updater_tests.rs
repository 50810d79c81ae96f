use app_pro::system::ExecResult;
use app_pro::updater::tags::{
    check_for_updates, find_matching_asset, release_from, release_query_args, AssetFields, RawOutput,
};
use app_pro::updater::{
    direct_replace_result, elevated_replace_result, fetch_failed_message, is_newer, needs_elevation, offer_if_newer,
    parse_failed_message, replace_script, select_asset, version_numbers_exec, ReleaseAsset, ReleaseInfo,
};

fn fetched(body: &str) -> Result<RawOutput, String> {
    Ok(RawOutput { success: true, stdout: body.as_bytes().to_vec(), stderr: String::new() })
}

fn asset(name: Option<&str>, url: Option<&str>) -> AssetFields {
    AssetFields { name: name.map(|s| s.to_string()), browser_download_url: url.map(|s| s.to_string()) }
}

fn release(tag: &str, names: &[&str]) -> ReleaseInfo {
    ReleaseInfo {
        tag_name: tag.to_string(),
        html_url: String::new(),
        body: None,
        assets: names
            .iter()
            .map(|n| ReleaseAsset { name: n.to_string(), browser_download_url: format!("https://dl/{}", n), size: 1 })
            .collect(),
    }
}

const LATEST: &str = r#"{
  "tag_name": "v9.1.0",
  "name": "Spring release",
  "body": "Fixes",
  "assets": [
    {"name": "checksums.txt", "browser_download_url": "https://dl/checksums.txt"},
    {"name": "app-pro-linux-x86_64", "browser_download_url": "https://dl/app-pro-linux-x86_64"},
    {"name": "app-pro-linux-arm64", "browser_download_url": "https://dl/app-pro-linux-arm64"}
  ]
}"#;

#[test]
fn a_newer_release_is_offered_with_its_linux_file() {
    let r = check_for_updates("v1.0.0", fetched(LATEST)).unwrap().unwrap();
    assert_eq!(r.tag_name, "v9.1.0");
    assert_eq!(r.name, "Spring release");
    assert_eq!(r.body, Some("Fixes".to_string()));
    assert_eq!(r.download_url, "https://dl/app-pro-linux-x86_64");
}

#[test]
fn no_release_is_offered_when_it_is_not_newer() {
    assert!(check_for_updates("v9.1.0", fetched(LATEST)).unwrap().is_none());
    assert!(check_for_updates("10.0", fetched(LATEST)).unwrap().is_none());
}

#[test]
fn failures_of_the_check_are_reported() {
    assert_eq!(
        check_for_updates("v1.0.0", Err("No such file".to_string())).unwrap_err(),
        "Failed to check updates: No such file"
    );
    let failed = Ok(RawOutput { success: false, stdout: Vec::new(), stderr: "404".to_string() });
    assert_eq!(check_for_updates("v1.0.0", failed).unwrap_err(), "GitHub API error: 404");
    assert!(check_for_updates("v1.0.0", fetched("not json")).unwrap_err().starts_with("Parse error: "));
    assert_eq!(check_for_updates("v1.0.0", fetched("{}")).unwrap_err(), "Missing tag_name");
    assert_eq!(check_for_updates("v1.0.0", fetched(r#"{"tag_name":"v2"}"#)).unwrap_err(), "No assets found");
    assert_eq!(
        check_for_updates("v1.0.0", fetched(r#"{"tag_name":"v2","assets":[{"name":"notes.txt"}]}"#)).unwrap_err(),
        "No compatible asset found"
    );
}

#[test]
fn a_release_without_a_name_is_called_by_its_tag() {
    let r = check_for_updates(
        "1.0.0",
        fetched(r#"{"tag_name":"v2.0.0","assets":[{"name":"x86_64.bin","browser_download_url":"u"}]}"#),
    )
    .unwrap()
    .unwrap();
    assert_eq!(r.name, "v2.0.0");
    assert_eq!(r.body, None);
}

#[test]
fn the_answer_is_read_as_bytes() {
    let mut bytes = br#"{"tag_name":"v2","assets":[{"name":"linux","browser_download_url":"u"}],"body":"x"#.to_vec();
    bytes.push(0xff);
    bytes.extend_from_slice(b"\"}");
    let r = check_for_updates("1.0", Ok(RawOutput { success: true, stdout: bytes, stderr: String::new() }));
    assert!(r.unwrap_err().starts_with("Parse error: "));
}

#[test]
fn release_fields_decide_directly() {
    let assets = vec![asset(None, Some("a")), asset(Some("app-linux"), None), asset(Some("app-x86_64"), Some("b"))];
    assert_eq!(find_matching_asset(&assets), Some(1));
    let r = release_from("v1", Some("v2".to_string()), None, None, Some(assets));
    assert_eq!(r.unwrap_err(), "No compatible asset found");
    assert_eq!(release_query_args()[3], "https://api.github.com/repos/the-shoaib2/app-pro/releases/latest");
}

#[test]
fn version_components_are_numbers_or_zero() {
    assert_eq!(version_numbers_exec("v1.2.x"), vec![1, 2, 0]);
    assert!(is_newer("1.2", "1.2.1"));
    assert!(!is_newer("1.2.0", "1.2"));
    assert!(is_newer("1.9", "1.10"));
}

#[test]
fn newer_releases_are_offered() {
    assert!(offer_if_newer("1.0.0", release("v1.1.0", &[])).is_some());
    assert!(offer_if_newer("1.1.0", release("v1.1.0", &[])).is_none());
}

#[test]
fn the_file_for_the_processor_is_chosen() {
    let r = release("v2", &["notes", "app-pro-linux-arm64", "app-pro-linux-x86_64"]);
    assert_eq!(select_asset(&r, "x86_64"), Ok(2));
    assert_eq!(select_asset(&r, "aarch64"), Ok(1));
    assert_eq!(select_asset(&r, "riscv64"), Err("Unsupported architecture: riscv64".to_string()));
    let r = release("v2", &["notes"]);
    assert_eq!(
        select_asset(&r, "x86_64"),
        Err("Could not find binary asset named 'app-pro-linux-x86_64' in the release".to_string())
    );
}

#[test]
fn update_step_reports() {
    assert_eq!(replace_script("/tmp/new", "/usr/bin/app-pro"), "cp '/tmp/new' '/usr/bin/app-pro' && rm -f '/tmp/new'");
    assert_eq!(fetch_failed_message(Some(22)), "Failed to fetch release info (curl exit code Some(22))");
    assert_eq!(fetch_failed_message(Some(-3)), "Failed to fetch release info (curl exit code Some(-3))");
    assert_eq!(fetch_failed_message(None), "Failed to fetch release info (curl exit code None)");
    assert_eq!(parse_failed_message("EOF", "<html>"), "Failed to parse release JSON: EOF. Response: <html>");
    assert!(needs_elevation(None));
    assert!(needs_elevation(Some(true)));
    assert!(!needs_elevation(Some(false)));
    assert_eq!(
        elevated_replace_result(Err("no pkexec".to_string())),
        Err("Failed to run installer with elevated privileges: no pkexec".to_string())
    );
    let denied = ExecResult { success: false, stdout: String::new(), stderr: "dismissed".to_string(), exit_code: Some(126) };
    assert_eq!(elevated_replace_result(Ok(denied)), Err("Authorization or installation failed: dismissed".to_string()));
    let ok = ExecResult { success: true, stdout: String::new(), stderr: String::new(), exit_code: Some(0) };
    assert_eq!(elevated_replace_result(Ok(ok)), Ok(()));
}

#[test]
fn direct_replacement_restores_the_backup_only_after_a_failed_copy() {
    assert_eq!(direct_replace_result(Ok(()), Ok(())), (Ok(()), false));
    assert_eq!(
        direct_replace_result(Err("denied".into()), Ok(())),
        (Err("Failed to backup existing binary: denied".to_string()), false)
    );
    assert_eq!(
        direct_replace_result(Ok(()), Err("busy".into())),
        (Err("Failed to copy new binary: busy".to_string()), true)
    );
    assert_eq!(
        direct_replace_result(Err("denied".into()), Err("busy".into())),
        (Err("Failed to backup existing binary: denied".to_string()), false)
    );
}
