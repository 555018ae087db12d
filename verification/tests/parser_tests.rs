use ports_tool::netparse::parse_net_line;
use ports_tool::procs::build_process_info;
use ports_tool::records::{PortInfo, ProcessEntry, ProcessInfo, Protocol};
use ports_tool::resolve::find_process_by_inode;

fn nginx_entry(pid: u32, inode_link: &str) -> ProcessEntry {
    ProcessEntry {
        info: ProcessInfo {
            pid,
            name: "nginx".to_string(),
            command: "nginx -g daemon off;".to_string(),
            working_dir: "/var/www".to_string(),
        },
        fd_links: vec!["/dev/null".to_string(), inode_link.to_string()],
    }
}

fn net_row(local: &str, state: &str, inode: &str) -> String {
    format!(
        "0: {} 00000000:0000 {} 00000000:00000000 00:00000000 00000000 0 0 {} 1",
        local, state, inode
    )
}

#[test]
fn listen_row_admitted_and_labeled() {
    let table: Vec<ProcessEntry> = Vec::new();
    let line = net_row("0100007F:0050", "0A", "0");
    let rec = parse_net_line(&line, Protocol::Tcp, &table, false, None).unwrap();
    assert_eq!(rec.port, 80);
    assert_eq!(rec.protocol, "TCP");
    assert_eq!(rec.state, "LISTEN");
}

#[test]
fn non_listen_row_dropped_without_port_filter() {
    let table: Vec<ProcessEntry> = Vec::new();
    let line = net_row("0100007F:0050", "01", "0");
    assert!(parse_net_line(&line, Protocol::Tcp, &table, false, None).is_none());
}

#[test]
fn non_listen_row_admitted_with_matching_port_filter() {
    let table: Vec<ProcessEntry> = Vec::new();
    let line = net_row("0100007F:0050", "01", "0");
    let rec = parse_net_line(&line, Protocol::Tcp, &table, false, Some(80)).unwrap();
    assert_eq!(rec.port, 80);
    assert_eq!(rec.state, "ESTABLISHED");
}

#[test]
fn port_filter_mismatch_drops_row() {
    let table: Vec<ProcessEntry> = Vec::new();
    let line = net_row("0100007F:0050", "0A", "0");
    assert!(parse_net_line(&line, Protocol::Tcp, &table, false, Some(81)).is_none());
}

#[test]
fn udp_row_labeled_open_whatever_the_state() {
    let table: Vec<ProcessEntry> = Vec::new();
    for state in ["07", "0A", "ZZ"] {
        let line = net_row("00000000:0035", state, "0");
        let rec = parse_net_line(&line, Protocol::Udp, &table, false, None).unwrap();
        assert_eq!(rec.protocol, "UDP");
        assert_eq!(rec.state, "OPEN");
        assert_eq!(rec.port, 53);
    }
}

#[test]
fn localhost_filter_admits_loopback_and_unspecified() {
    let table: Vec<ProcessEntry> = Vec::new();
    let loopback = net_row("0100007F:0050", "0A", "0");
    let unspecified = net_row("00000000:0050", "0A", "0");
    let remote = net_row("0101A8C0:0050", "0A", "0");
    assert!(parse_net_line(&loopback, Protocol::Tcp, &table, true, None).is_some());
    assert!(parse_net_line(&unspecified, Protocol::Tcp, &table, true, None).is_some());
    assert!(parse_net_line(&remote, Protocol::Tcp, &table, true, None).is_none());
    assert!(parse_net_line(&remote, Protocol::Tcp, &table, false, None).is_some());
}

#[test]
fn leading_zeros_in_hex_do_not_change_the_address() {
    let table: Vec<ProcessEntry> = Vec::new();
    // the same loopback address and port, written with extra leading zeros
    let line = net_row("000100007F:000050", "0A", "0");
    let rec = parse_net_line(&line, Protocol::Tcp, &table, true, None).unwrap();
    assert_eq!(rec.port, 80);
}

#[test]
fn zero_inode_yields_all_sentinel_process_fields() {
    // even with a process around, inode 0 is "no socket": nothing is resolved
    let table = vec![nginx_entry(42, "socket:[0]")];
    let line = net_row("0100007F:0050", "0A", "0");
    let rec = parse_net_line(&line, Protocol::Tcp, &table, false, None).unwrap();
    assert_eq!(rec.pid, "-");
    assert_eq!(rec.process_name, "-");
    assert_eq!(rec.command, "-");
    assert_eq!(rec.working_dir, "-");
}

#[test]
fn unparsable_inode_field_counts_as_zero() {
    let table = vec![nginx_entry(42, "socket:[12345]")];
    let line = net_row("0100007F:0050", "0A", "bogus");
    let rec = parse_net_line(&line, Protocol::Tcp, &table, false, None).unwrap();
    assert_eq!(rec.pid, "-");
}

#[test]
fn short_row_dropped_and_later_rows_unaffected() {
    let table: Vec<ProcessEntry> = Vec::new();
    let short = "0: 0100007F:0050 00000000:0000 0A";
    assert!(parse_net_line(short, Protocol::Tcp, &table, false, None).is_none());
    let good = net_row("0100007F:0050", "0A", "0");
    assert!(parse_net_line(&good, Protocol::Tcp, &table, false, None).is_some());
}

#[test]
fn address_without_exactly_one_colon_dropped() {
    let table: Vec<ProcessEntry> = Vec::new();
    let none = net_row("0100007F0050", "0A", "0");
    let two = net_row("0100:007F:0050", "0A", "0");
    assert!(parse_net_line(&none, Protocol::Tcp, &table, false, None).is_none());
    assert!(parse_net_line(&two, Protocol::Tcp, &table, false, None).is_none());
}

#[test]
fn resolver_finds_the_owning_process() {
    let table = vec![nginx_entry(7, "socket:[111]"), nginx_entry(42, "socket:[12345]")];
    let (pid, info) = find_process_by_inode(12345, &table);
    assert_eq!(pid, Some(42));
    assert_eq!(info.unwrap().pid, 42);
}

#[test]
fn resolver_requires_the_exact_link_form() {
    let table = vec![
        ProcessEntry {
            info: ProcessInfo {
                pid: 9,
                name: "x".to_string(),
                command: "x".to_string(),
                working_dir: "/".to_string(),
            },
            fd_links: vec![
                "socket:12345".to_string(),
                "socket:[12345".to_string(),
                "socket:[12345]x".to_string(),
                "pipe:[12345]".to_string(),
            ],
        },
    ];
    let (pid, info) = find_process_by_inode(12345, &table);
    assert!(pid.is_none());
    assert!(info.is_none());
}

#[test]
fn resolver_absent_inode_yields_nothing() {
    let table = vec![nginx_entry(42, "socket:[12345]")];
    let (pid, info) = find_process_by_inode(999, &table);
    assert!(pid.is_none());
    assert!(info.is_none());
}

#[test]
fn process_info_reads_all_three_sources() {
    let info = build_process_info(
        42,
        Some("nginx\n"),
        Some("nginx\0-g\0daemon off;\0"),
        Some("/var/www"),
    );
    assert_eq!(info.pid, 42);
    assert_eq!(info.name, "nginx");
    assert_eq!(info.command, "nginx -g daemon off;");
    assert_eq!(info.working_dir, "/var/www");
}

#[test]
fn process_info_degrades_to_sentinels() {
    let info = build_process_info(1, None, None, None);
    assert_eq!(info.name, "unknown");
    assert_eq!(info.command, "unknown");
    assert_eq!(info.working_dir, "unknown");
}

#[test]
fn empty_command_falls_back_to_name() {
    let info = build_process_info(2, Some("kthreadd\n"), Some(""), None);
    assert_eq!(info.name, "kthreadd");
    assert_eq!(info.command, "kthreadd");
    assert_eq!(info.working_dir, "unknown");
}

#[test]
fn process_records_clone_exactly() {
    let entry = nginx_entry(42, "socket:[1]");
    let copy = entry.info.clone();
    assert_eq!(copy.pid, entry.info.pid);
    assert_eq!(copy.name, entry.info.name);
    assert_eq!(copy.command, entry.info.command);
    assert_eq!(copy.working_dir, entry.info.working_dir);
    let port = PortInfo {
        port: 80,
        protocol: "TCP".to_string(),
        state: "LISTEN".to_string(),
        pid: "42".to_string(),
        process_name: "nginx".to_string(),
        command: "nginx".to_string(),
        working_dir: "/".to_string(),
    };
    let pcopy = port.clone();
    assert_eq!(pcopy.port, 80);
    assert_eq!(pcopy.state, "LISTEN");
}
