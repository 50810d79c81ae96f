use app_pro::manager::processes::{
    parse_login_uid, parse_memory_from_status, process_matches, uid_to_username, vmrss_kb, whoami, ProcessInfo,
    ProcessManager,
};
use app_pro::sysinfo::{
    get_cpu_model, get_kernel, get_mem_info, list_mounts, meminfo_kb, mount_label, read_os_release, whoami_host,
};
use app_pro::system::ExecResult;
use std::collections::HashMap;

const PASSWD: &str = "root:x:0:0:root:/root:/bin/bash\nalice:x:1000:1000:Alice:/home/alice:/bin/bash\n";

fn proc_info(pid: u32, name: &str, user: &str) -> ProcessInfo {
    ProcessInfo {
        pid,
        name: name.to_string(),
        memory_bytes: 0,
        state: "S".to_string(),
        user: user.to_string(),
        ports: Vec::new(),
    }
}

fn run(success: bool, stderr: &str) -> ExecResult {
    ExecResult { success, stdout: String::new(), stderr: stderr.to_string(), exit_code: Some(if success { 0 } else { 1 }) }
}

#[test]
fn os_release_values_lose_their_quotes() {
    let text = "NAME=\"Ubuntu\"\nVERSION_ID=\"24.04\"\nPRETTY_NAME=\"Ubuntu 24.04 LTS\"\n";
    assert_eq!(read_os_release(text, "PRETTY_NAME"), Some("Ubuntu 24.04 LTS".to_string()));
    assert_eq!(read_os_release(text, "VERSION_ID"), Some("24.04".to_string()));
    assert_eq!(read_os_release(text, "ID"), None);
}

#[test]
fn memory_figures_are_read_in_kilobytes() {
    let text = "MemTotal:       16318480 kB\nMemFree:         1234 kB\nMemAvailable:   8000000 kB\n";
    assert_eq!(meminfo_kb(text, "MemTotal"), Some(16318480));
    assert_eq!(get_mem_info(text, "MemTotal"), 16318480 * 1024);
    assert_eq!(get_mem_info(text, "MemAvailable"), 8000000 * 1024);
    assert_eq!(get_mem_info(text, "SwapTotal"), 0);
    assert_eq!(get_mem_info("MemTotal: lots kB\n", "MemTotal"), 0);
}

#[test]
fn processor_model_from_cpuinfo() {
    let text = "processor\t: 0\nvendor_id\t: GenuineIntel\nmodel name\t: Intel(R) Core(TM) i7-8550U CPU @ 1.80GHz\n";
    assert_eq!(get_cpu_model(Some(text)), "Intel(R) Core(TM) i7-8550U CPU @ 1.80GHz");
    assert_eq!(get_cpu_model(Some("processor: 0\n")), "Unknown");
    assert_eq!(get_cpu_model(None), "Unknown");
}

#[test]
fn kernel_and_host_names() {
    assert_eq!(get_kernel(Some("6.8.0-45-generic\n")), "6.8.0-45-generic");
    assert_eq!(get_kernel(None), "unknown");
    assert_eq!(whoami_host(Some("alpha"), Some("beta"), Some("gamma\n")), "alpha");
    assert_eq!(whoami_host(None, Some("beta"), Some("gamma\n")), "beta");
    assert_eq!(whoami_host(None, None, Some("gamma\n")), "gamma");
    assert_eq!(whoami_host(None, None, None), "unknown");
}

#[test]
fn mounts_shown_once_after_the_root() {
    let text = "sysfs /sys sysfs rw 0 0\n\
/dev/sda1 / ext4 rw 0 0\n\
/dev/sdb1 /home ext4 rw 0 0\n\
tmpfs /run tmpfs rw 0 0\n\
overlay /var/lib/x overlay rw 0 0\n\
/dev/sdc1 /mnt/data ext4 rw 0 0\n\
/dev/sdb1 /home ext4 rw 0 0\n\
/dev/sdd1 /var/lib/docker/a ext4 rw 0 0\n";
    assert_eq!(list_mounts(Some(text)), vec!["/".to_string(), "/home".to_string(), "/mnt/data".to_string()]);
    assert_eq!(list_mounts(None), vec!["/".to_string()]);
    assert_eq!(mount_label("/"), "System (/) ");
    assert_eq!(mount_label("/home"), "/home");
}

#[test]
fn resident_memory_from_status() {
    let text = "Name:\tbash\nVmPeak:\t  10000 kB\nVmRSS:\t    5120 kB\n";
    assert_eq!(vmrss_kb(text), Some(5120));
    assert_eq!(parse_memory_from_status(text), 5120 * 1024);
    assert_eq!(parse_memory_from_status("Name:\tkthreadd\n"), 0);
}

#[test]
fn user_names_from_passwd() {
    assert_eq!(uid_to_username(PASSWD, 1000), "alice");
    assert_eq!(uid_to_username(PASSWD, 4242), "uid:4242");
    assert_eq!(uid_to_username("", 0), "uid:0");
    assert_eq!(parse_login_uid("1000\n"), 1000);
    assert_eq!(parse_login_uid("4294967295"), 4294967295);
    assert_eq!(parse_login_uid("x"), 0);
    assert_eq!(whoami(Some("1000\n"), PASSWD, Some("bob")), "alice");
    assert_eq!(whoami(Some("oops"), PASSWD, Some("bob")), "bob");
    assert_eq!(whoami(None, PASSWD, None), "unknown");
}

#[test]
fn stat_lines_give_name_and_state() {
    let stat = "1234 (my (odd) proc) S 1 1234 1234 0 -1";
    assert!(ProcessManager::stat_parens_in_order(stat));
    assert_eq!(ProcessManager::parse_stat(stat), Some(("my (odd) proc".to_string(), "(odd)".to_string())));
    assert_eq!(ProcessManager::parse_stat("1 (bash) R 0"), Some(("bash".to_string(), "R".to_string())));
    assert_eq!(ProcessManager::parse_stat("1 bash"), None);
    assert!(!ProcessManager::stat_parens_in_order("1 )x( R"));
}

#[test]
fn process_information_is_assembled() {
    let info = ProcessManager::read_process_info(
        77,
        "77 (vim) S 1 77",
        Some("VmRSS:\t  2048 kB\n"),
        Some("1000"),
        PASSWD,
        vec![8080],
    )
    .unwrap();
    assert_eq!(info.pid, 77);
    assert_eq!(info.name, "vim");
    assert_eq!(info.state, "S");
    assert_eq!(info.memory_bytes, 2048 * 1024);
    assert_eq!(info.user, "alice");
    assert_eq!(info.ports, vec![8080]);
    let info = ProcessManager::read_process_info(5, "5 (kworker) I 2", None, None, PASSWD, Vec::new()).unwrap();
    assert_eq!(info.user, "unknown");
    assert_eq!(info.memory_bytes, 0);
}

#[test]
fn listening_ports_come_from_socket_tables() {
    let tcp = "  sl  local_address rem_address   st tx_queue rx_queue tr tm->when retrnsmt   uid  timeout inode\n\
   0: 0100007F:0277 00000000:0000 0A 00000000:00000000 00:00000000 00000000     0        0 31337 1 0\n\
   1: 0100007F:1F90 0100007F:C350 01 00000000:00000000 00:00000000 00000000  1000        0 44444 1 0\n";
    let udp = "  sl  local_address rem_address   st\n\
   5: 00000000:0044 00000000:0000 07 00000000:00000000 00:00000000 00000000     0        0 55555 2 0\n";
    let mut map: HashMap<u64, Vec<u16>> = HashMap::new();
    ProcessManager::add_socket_table("/proc/net/tcp", tcp, &mut map);
    ProcessManager::add_socket_table("/proc/net/udp", udp, &mut map);
    assert_eq!(map.get(&31337), Some(&vec![631]));
    assert_eq!(map.get(&44444), None);
    assert_eq!(map.get(&55555), Some(&vec![68]));
    let links = vec![
        "socket:[55555]".to_string(),
        "/dev/null".to_string(),
        "socket:[31337]".to_string(),
        "socket:[31337]".to_string(),
    ];
    assert_eq!(ProcessManager::get_process_ports(&links, &map), vec![68, 631]);
}

#[test]
fn processes_sorted_by_id_keep_their_order_among_equals() {
    let procs = vec![proc_info(30, "c", "me"), proc_info(10, "a", "me"), proc_info(20, "b", "x"), proc_info(10, "a2", "x")];
    let sorted = ProcessManager::sort_by_pid(procs);
    let names: Vec<&str> = sorted.iter().map(|p| p.name.as_str()).collect();
    assert_eq!(names, vec!["a", "a2", "b", "c"]);
    let mine = ProcessManager::keep_user(sorted, "me");
    let pids: Vec<u32> = mine.iter().map(|p| p.pid).collect();
    assert_eq!(pids, vec![10, 30]);
}

#[test]
fn search_matches_name_or_id() {
    let p = proc_info(4321, "NetworkManager", "root");
    assert!(process_matches("network", &p));
    assert!(process_matches("32", &p));
    assert!(process_matches("", &p));
    assert!(!process_matches("firefox", &p));
    let mut web = proc_info(900, "nginx", "www");
    web.ports = vec![80, 8443];
    assert!(process_matches("844", &web));
    assert!(process_matches("80", &web));
    assert!(!process_matches("22", &web));
}

#[test]
fn ending_processes_reports() {
    assert_eq!(ProcessManager::kill_args(42, false), vec!["42".to_string()]);
    assert_eq!(ProcessManager::kill_args(42, true), vec!["-9".to_string(), "42".to_string()]);
    assert_eq!(ProcessManager::kill_process(42, false, Ok(run(true, ""))), Ok("Process 42 terminated (SIGTERM)".to_string()));
    assert_eq!(ProcessManager::kill_process(42, true, Ok(run(true, ""))), Ok("Process 42 terminated (SIGKILL)".to_string()));
    assert_eq!(
        ProcessManager::kill_process(42, false, Ok(run(false, "not permitted"))),
        Err("Failed to kill process 42: not permitted".to_string())
    );
    assert_eq!(
        ProcessManager::kill_process(42, false, Err("no kill".to_string())),
        Err("Failed to execute kill: no kill".to_string())
    );
    assert_eq!(ProcessManager::kill_by_name_args("vlc", false), vec!["-15".to_string(), "vlc".to_string()]);
    assert_eq!(ProcessManager::kill_process_by_name("vlc", Ok(run(true, ""))), Ok("Process 'vlc' terminated".to_string()));
    assert_eq!(
        ProcessManager::kill_process_by_name("vlc", Ok(run(false, "none"))),
        Err("Failed to kill 'vlc': none".to_string())
    );
    assert_eq!(
        ProcessManager::kill_process_by_name("vlc", Err("gone".to_string())),
        Err("Failed to execute pkill: gone".to_string())
    );
}
