use ports_tool::filters::{exclude_ports, filter_ports, truncate_string};
use ports_tool::records::{PortInfo, ProcessEntry, ProcessInfo};
use ports_tool::snapshot::{get_open_ports, ScanError};

fn entry(pid: u32, name: &str, command: &str, working_dir: &str, links: &[&str]) -> ProcessEntry {
    ProcessEntry {
        info: ProcessInfo {
            pid,
            name: name.to_string(),
            command: command.to_string(),
            working_dir: working_dir.to_string(),
        },
        fd_links: links.iter().map(|s| s.to_string()).collect(),
    }
}

fn table_with(rows: &[&str]) -> String {
    let mut out = String::from(
        "  sl  local_address rem_address   st tx_queue rx_queue tr tm->when retrnsmt   uid",
    );
    for row in rows {
        out.push('\n');
        out.push_str(row);
    }
    out
}

fn row(local: &str, state: &str, inode: &str) -> String {
    format!(
        "0: {} 00000000:0000 {} 00000000:00000000 00:00000000 00000000 0 0 {} 1",
        local, state, inode
    )
}

#[test]
fn end_to_end_single_listener_resolved() {
    let tcp = table_with(&[&row("0100007F:0050", "0A", "12345")]);
    let table = vec![
        entry(7, "bash", "bash", "/home", &["/dev/tty"]),
        entry(42, "nginx", "nginx -g daemon off;", "/var/www", &["socket:[12345]"]),
    ];
    let ports = get_open_ports(Some(&tcp), Some(""), &table, true, None).unwrap();
    assert_eq!(ports.len(), 1);
    let rec = &ports[0];
    assert_eq!(rec.port, 80);
    assert_eq!(rec.protocol, "TCP");
    assert_eq!(rec.state, "LISTEN");
    assert_eq!(rec.pid, "42");
    assert_eq!(rec.process_name, "nginx");
    assert_eq!(rec.command, "nginx -g daemon off;");
    assert_eq!(rec.working_dir, "/var/www");
}

#[test]
fn unresolved_row_keeps_all_sentinels() {
    let tcp = table_with(&[&row("0100007F:0050", "0A", "12345")]);
    let table = vec![entry(7, "bash", "bash", "/home", &["/dev/tty"])];
    let ports = get_open_ports(Some(&tcp), Some(""), &table, true, None).unwrap();
    assert_eq!(ports.len(), 1);
    let rec = &ports[0];
    assert_eq!(rec.port, 80);
    assert_eq!(rec.pid, "-");
    assert_eq!(rec.process_name, "-");
    assert_eq!(rec.command, "-");
    assert_eq!(rec.working_dir, "-");
}

#[test]
fn empty_tables_yield_empty_list() {
    let table: Vec<ProcessEntry> = Vec::new();
    let ports = get_open_ports(Some(""), Some(""), &table, true, None).unwrap();
    assert!(ports.is_empty());
    let one_missing = get_open_ports(None, Some(""), &table, true, None).unwrap();
    assert!(one_missing.is_empty());
}

#[test]
fn both_tables_missing_is_a_terminal_error() {
    // the one fatal case: nothing could be scanned at all, which is
    // distinct from scanning tables that happened to be empty
    let table: Vec<ProcessEntry> = Vec::new();
    let r = get_open_ports(None, None, &table, true, None);
    assert!(matches!(r, Err(ScanError::NoSocketTables)));
}

fn table() -> Vec<ProcessEntry> {
    Vec::new()
}

#[test]
fn output_sorted_ascending_by_port() {
    // port 8080 comes from the TCP table, port 80 from the UDP table:
    // the output is still 80 before 8080
    let tcp = table_with(&[&row("0100007F:1F90", "0A", "0")]);
    let udp = table_with(&[&row("0100007F:0050", "07", "0")]);
    let ports = get_open_ports(Some(&tcp), Some(&udp), &table(), true, None).unwrap();
    assert_eq!(ports.len(), 2);
    assert_eq!(ports[0].port, 80);
    assert_eq!(ports[0].protocol, "UDP");
    assert_eq!(ports[1].port, 8080);
    assert_eq!(ports[1].protocol, "TCP");
}

#[test]
fn equal_ports_keep_tcp_before_udp() {
    let tcp = table_with(&[&row("0100007F:0050", "0A", "0")]);
    let udp = table_with(&[&row("0100007F:0050", "07", "0")]);
    let ports = get_open_ports(Some(&tcp), Some(&udp), &table(), true, None).unwrap();
    assert_eq!(ports.len(), 2);
    assert_eq!(ports[0].protocol, "TCP");
    assert_eq!(ports[1].protocol, "UDP");
}

fn sample_port(name: &str, command: &str, working_dir: &str) -> PortInfo {
    PortInfo {
        port: 80,
        protocol: "TCP".to_string(),
        state: "LISTEN".to_string(),
        pid: "1".to_string(),
        process_name: name.to_string(),
        command: command.to_string(),
        working_dir: working_dir.to_string(),
    }
}

#[test]
fn filter_is_case_insensitive_both_ways() {
    let ports = vec![
        sample_port("NGINX", "NGINX -g", "/var/www"),
        sample_port("bash", "bash", "/home"),
    ];
    let kept = filter_ports(ports, "nginx");
    assert_eq!(kept.len(), 1);
    assert_eq!(kept[0].process_name, "NGINX");

    let ports = vec![
        sample_port("nginx", "nginx -g", "/var/www"),
        sample_port("bash", "bash", "/home"),
    ];
    let kept = filter_ports(ports, "NGINX");
    assert_eq!(kept.len(), 1);
    assert_eq!(kept[0].process_name, "nginx");
}

#[test]
fn filter_searches_command_and_working_dir() {
    let ports = vec![
        sample_port("a", "python server.py", "/srv"),
        sample_port("b", "x", "/opt/Data"),
        sample_port("c", "x", "/tmp"),
    ];
    let kept = filter_ports(ports, "data");
    assert_eq!(kept.len(), 1);
    assert_eq!(kept[0].process_name, "b");
}

#[test]
fn exclude_drops_matches_case_insensitively() {
    let ports = vec![
        sample_port("NGINX", "NGINX -g", "/var/www"),
        sample_port("bash", "bash", "/home"),
    ];
    let left = exclude_ports(ports, "nginx");
    assert_eq!(left.len(), 1);
    assert_eq!(left[0].process_name, "bash");
}

#[test]
fn truncate_leaves_short_strings_alone() {
    assert_eq!(truncate_string("short", 30), "short");
    assert_eq!(truncate_string("", 0), "");
}

#[test]
fn truncate_cuts_long_strings_with_ellipsis() {
    assert_eq!(truncate_string("hello world, hello", 10), "hello w...");
    assert_eq!(truncate_string("abcdef", 2), "...");
}
