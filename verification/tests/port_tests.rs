use port_finder::app::KillOutcome;
use port_finder::port::{
    find_port, in_use_summary, pid_text, state_tone, is_confirmation, kill_result, kill_target, list_ports, parse_range,
    scan_ports, truncate_ellipsis, IntErrorKind, KillPortError, PortInfo, ProcessDetails, RangeError,
    SocketRecord, StateTone,
};

fn entry(port: u16, protocol: &str, pid: Option<u32>, name: &str) -> PortInfo {
    PortInfo {
        port,
        protocol: protocol.to_string(),
        state: if protocol == "TCP" { "Listen".to_string() } else { "-".to_string() },
        pid,
        process_name: name.to_string(),
        local_addr: format!("127.0.0.1:{}", port),
        duration_secs: 0,
        cpu_usage_bits: 0,
        memory: 0,
        user: "-".to_string(),
        command: "-".to_string(),
        parent_pid: None,
    }
}

fn tcp(port: u16, state: &str, pid: Option<u32>, process: Option<ProcessDetails>) -> SocketRecord {
    SocketRecord {
        tcp_state: Some(state.to_string()),
        local_ip: "127.0.0.1".to_string(),
        local_port: port,
        pid,
        process,
    }
}

fn udp(port: u16) -> SocketRecord {
    SocketRecord { tcp_state: None, local_ip: "0.0.0.0".to_string(), local_port: port, pid: None, process: None }
}

fn details(name: &str, start: u64, cmd: &[&str]) -> ProcessDetails {
    ProcessDetails {
        name: name.to_string(),
        start_time: start,
        cpu_usage_bits: 1.5f32.to_bits(),
        memory: 2048,
        user: Some("dev".to_string()),
        cmd: cmd.iter().map(|s| s.to_string()).collect(),
        parent_pid: Some(1),
    }
}

#[test]
fn format_duration_units() {
    let mut p = entry(1, "TCP", None, "x");
    p.duration_secs = 0;
    assert_eq!(p.format_duration(), "0s");
    p.duration_secs = 59;
    assert_eq!(p.format_duration(), "59s");
    p.duration_secs = 60;
    assert_eq!(p.format_duration(), "1m");
    p.duration_secs = 3599;
    assert_eq!(p.format_duration(), "59m");
    p.duration_secs = 3600;
    assert_eq!(p.format_duration(), "1h");
    p.duration_secs = 90000;
    assert_eq!(p.format_duration(), "25h");
}

fn float_memory_text(memory: u64) -> String {
    let mb = memory as f64 / 1024.0 / 1024.0;
    if mb < 1024.0 {
        format!("{:.1} MB", mb)
    } else {
        format!("{:.1} GB", mb / 1024.0)
    }
}

#[test]
fn format_memory_values() {
    let mut p = entry(1, "TCP", None, "x");
    p.memory = 1024 * 1024;
    assert_eq!(p.format_memory(), "1.0 MB");
    p.memory = 0;
    assert_eq!(p.format_memory(), "0.0 MB");
    p.memory = 1536 * 1024;
    assert_eq!(p.format_memory(), "1.5 MB");
    p.memory = 1024 * 1024 * 1024;
    assert_eq!(p.format_memory(), "1.0 GB");
    p.memory = 5 * 1024 * 1024 * 1024 / 2;
    assert_eq!(p.format_memory(), "2.5 GB");
}

#[test]
fn format_memory_matches_float_formatting() {
    let mut p = entry(1, "TCP", None, "x");
    let mut samples: Vec<u64> = vec![
        1,
        262144,
        786432,
        1310720,
        (1 << 30) - 1,
        1 << 30,
        (1 << 30) + (1 << 27),
        (1 << 53) - 1,
        1 << 53,
        (1 << 53) + 1,
        (1 << 54) + 3,
        u64::MAX,
        u64::MAX - 1,
        0x8000_0000_0000_0400,
        0x8000_0000_0000_0c00,
        123_456_789_012,
    ];
    let mut x: u64 = 0x9E37_79B9_7F4A_7C15;
    for _ in 0..2000 {
        x ^= x << 13;
        x ^= x >> 7;
        x ^= x << 17;
        samples.push(x >> (x % 64));
        samples.push((x % 4096) * 26214);
    }
    for m in samples {
        p.memory = m;
        assert_eq!(p.format_memory(), float_memory_text(m), "memory {}", m);
    }
}

#[test]
fn smart_label_ports_and_names() {
    assert_eq!(entry(22, "TCP", None, "sshd").smart_label(), "SSH");
    assert_eq!(entry(8080, "TCP", None, "x").smart_label(), "HTTP");
    assert_eq!(entry(8443, "TCP", None, "x").smart_label(), "HTTPS");
    assert_eq!(entry(3005, "TCP", None, "x").smart_label(), "Node/React");
    assert_eq!(entry(5432, "TCP", None, "x").smart_label(), "Postgres");
    assert_eq!(entry(3306, "TCP", None, "x").smart_label(), "MySQL");
    assert_eq!(entry(6379, "TCP", None, "x").smart_label(), "Redis");
    assert_eq!(entry(27017, "TCP", None, "x").smart_label(), "MongoDB");
    assert_eq!(entry(9000, "TCP", None, "NODE").smart_label(), "Node");
    assert_eq!(entry(9000, "TCP", None, "Python3").smart_label(), "Python");
    assert_eq!(entry(9000, "TCP", None, "com.docker.backend").smart_label(), "Docker");
    assert_eq!(entry(9000, "TCP", None, "Google Chrome").smart_label(), "Chrome");
    assert_eq!(entry(9000, "TCP", None, "Code Helper").smart_label(), "VS Code");
    assert_eq!(entry(9000, "TCP", None, "nginx").smart_label(), "nginx");
}

#[test]
fn list_ports_filters_sorts_and_dedups() {
    let now = 1000;
    let sockets = vec![
        tcp(8080, "Established", Some(7), Some(details("curl", 990, &["curl", "x"]))),
        tcp(3000, "Listen", Some(42), Some(details("node", 900, &["node", "server.js"]))),
        udp(53),
        tcp(3000, "Listen", Some(43), None),
        tcp(22, "Listen", None, None),
    ];
    let listening = list_ports(false, &sockets, now);
    let ports: Vec<u16> = listening.iter().map(|p| p.port).collect();
    assert_eq!(ports, vec![22, 53, 3000]);
    let node = &listening[2];
    assert_eq!(node.pid, Some(42));
    assert_eq!(node.process_name, "node");
    assert_eq!(node.command, "node server.js");
    assert_eq!(node.duration_secs, 100);
    assert_eq!(node.user, "dev");
    assert_eq!(node.local_addr, "127.0.0.1:3000");
    assert_eq!(node.protocol, "TCP");
    assert_eq!(node.state, "Listen");
    let dns = &listening[1];
    assert_eq!(dns.protocol, "UDP");
    assert_eq!(dns.state, "-");
    assert_eq!(dns.process_name, "-");
    assert_eq!(dns.command, "-");
    assert_eq!(dns.local_addr, "0.0.0.0:53");

    let all = list_ports(true, &sockets, now);
    let ports: Vec<u16> = all.iter().map(|p| p.port).collect();
    assert_eq!(ports, vec![22, 53, 3000, 8080]);
    assert_eq!(all[3].state, "Established");
}

#[test]
fn list_ports_keeps_interleaved_protocols() {
    let sockets = vec![tcp(3000, "Listen", None, None), udp(3000), tcp(3000, "Listen", None, None)];
    let out = list_ports(true, &sockets, 0);
    let protocols: Vec<&str> = out.iter().map(|p| p.protocol.as_str()).collect();
    assert_eq!(protocols, vec!["TCP", "UDP", "TCP"]);
}

#[test]
fn list_ports_command_falls_back_to_name() {
    let sockets = vec![tcp(80, "Listen", Some(5), Some(details("httpd", 2000, &[])))];
    let out = list_ports(false, &sockets, 1000);
    assert_eq!(out[0].command, "httpd");
    assert_eq!(out[0].duration_secs, 0);
}

#[test]
fn find_port_takes_first_match() {
    let ports = vec![entry(22, "TCP", Some(1), "a"), entry(80, "TCP", Some(2), "b"), entry(80, "UDP", Some(3), "c")];
    assert_eq!(find_port(&ports, 80).map(|p| p.pid), Some(Some(2)));
    assert!(find_port(&ports, 443).is_none());
}

#[test]
fn truncate_ellipsis_by_bytes() {
    assert_eq!(truncate_ellipsis("short", 20), "short");
    assert_eq!(truncate_ellipsis("abcdefghijklmnopqrstuvwxyz", 20), "abcdefghijklmnopqrs…");
    assert_eq!(truncate_ellipsis("exactly-twenty-bytes", 20), "exactly-twenty-bytes");
}

#[test]
fn kill_target_errors_and_success() {
    assert_eq!(kill_target(None, 3000), Err(KillPortError::NotFound(3000)));
    assert_eq!(kill_target(Some(entry(3000, "TCP", None, "x")), 3000), Err(KillPortError::NoPid(3000)));
    assert_eq!(kill_target(Some(entry(3000, "TCP", Some(9), "node")), 3000), Ok((9, "node".to_string())));
    assert_eq!(KillPortError::NotFound(3000).message(), "No process found on port 3000");
    assert_eq!(KillPortError::NoPid(3000).message(), "Cannot determine PID for port 3000");
}

#[test]
fn kill_result_messages() {
    assert_eq!(kill_result(9, "node".to_string(), KillOutcome::Killed), Ok(()));
    let failed = kill_result(9, "node".to_string(), KillOutcome::SignalFailed).unwrap_err();
    assert_eq!(failed.message(), "Failed to kill PID 9 (node). Try elevated privileges.");
    let gone = kill_result(9, "node".to_string(), KillOutcome::Missing).unwrap_err();
    assert_eq!(gone.message(), "Process 9 not found");
}

#[test]
fn confirmation_answers() {
    assert!(is_confirmation("y\n"));
    assert!(is_confirmation("  Y  \r\n"));
    assert!(!is_confirmation("yes\n"));
    assert!(!is_confirmation("\n"));
    assert!(!is_confirmation("n"));
    assert!(!is_confirmation("y y"));
}

#[test]
fn parse_range_accepts_and_refuses() {
    assert_eq!(parse_range("3000-4000"), Ok((3000, 4000)));
    assert_eq!(parse_range("+80-+81"), Ok((80, 81)));
    assert_eq!(parse_range("4000-3000"), Ok((4000, 3000)));
    assert_eq!(parse_range("3000"), Err(RangeError::Format));
    assert_eq!(parse_range("1-2-3"), Err(RangeError::Format));
    assert_eq!(parse_range("-4000"), Err(RangeError::Number(IntErrorKind::Empty)));
    assert_eq!(parse_range("30a0-4000"), Err(RangeError::Number(IntErrorKind::InvalidDigit)));
    assert_eq!(parse_range("3000-70000"), Err(RangeError::Number(IntErrorKind::PosOverflow)));
    assert_eq!(parse_range("+-1"), Err(RangeError::Number(IntErrorKind::InvalidDigit)));
    assert_eq!(RangeError::Format.message(), "Invalid range format. Use: 3000-4000");
    assert_eq!(RangeError::Number(IntErrorKind::InvalidDigit).message(), "invalid digit found in string");
}

#[test]
fn parse_range_matches_std_errors() {
    for text in ["", "+", "65535", "65536", "99999x", "12a", "+12", "007"] {
        let std_result = text.parse::<u16>();
        let mine = parse_range(&format!("{}-1", text));
        match std_result {
            Ok(v) => assert_eq!(mine, Ok((v, 1)), "{}", text),
            Err(e) => assert_eq!(RangeError::message(&mine.unwrap_err()), e.to_string(), "{}", text),
        }
    }
}

#[test]
fn scan_splits_and_summarises() {
    let (free, used) = scan_ports(3000, 3004, &vec![true, false, true, false, false]);
    assert_eq!(free, vec![3000, 3002]);
    assert_eq!(used, vec![3001, 3003, 3004]);
    assert_eq!(in_use_summary(&used), Some("3001, 3003, 3004".to_string()));
    assert_eq!(in_use_summary(&vec![]), None);
    let many: Vec<u16> = (1..=21).collect();
    assert_eq!(in_use_summary(&many), None);
    let (free, used) = scan_ports(10, 9, &vec![]);
    assert!(free.is_empty() && used.is_empty());
}

#[test]
fn pid_column_shows_the_id_or_a_dash() {
    assert_eq!(pid_text(Some(4321)), "4321");
    assert_eq!(pid_text(Some(0)), "0");
    assert_eq!(pid_text(None), "-");
}

#[test]
fn state_colours_by_name() {
    assert_eq!(state_tone(&"Listen".to_string()), StateTone::Green);
    assert_eq!(state_tone(&"Established".to_string()), StateTone::Cyan);
    assert_eq!(state_tone(&"TimeWait".to_string()), StateTone::Yellow);
    assert_eq!(state_tone(&"CloseWait".to_string()), StateTone::Red);
    assert_eq!(state_tone(&"SynSent".to_string()), StateTone::Plain);
    assert_eq!(state_tone(&"listen".to_string()), StateTone::Plain);
    assert_eq!(state_tone(&"-".to_string()), StateTone::Plain);
}
