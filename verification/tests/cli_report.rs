use serde_json::Value;
use wsh::federation::ip_access::IpAddress;
use wsh::cli::{
    check_base_prefix, effective_rate_limit,
    create_session_request, cursor_restore_escape, parse_scrollback_arg, parse_usize, scrollback_request,
    hub_added_message, hub_reloaded_message, hub_removed_message, hub_table_lines, parse_persist_arg,
    persist_message, recording_info_lines, recording_list_request, recording_row_text,
    recording_table_header_text, server_info_lines, session_done_message, session_request,
    session_row_text, session_table_lines, tag_report_text, tag_request_body,
};
use wsh::json::Json;

fn to_json(v: &Value) -> Json {
    match v {
        Value::Null => Json::Null,
        Value::Bool(b) => Json::Bool(*b),
        Value::Number(n) => Json::Number(n.to_string()),
        Value::String(s) => Json::Str(s.clone()),
        Value::Array(a) => Json::Array(a.iter().map(to_json).collect()),
        Value::Object(o) => Json::Object(o.iter().map(|(k, v)| (k.clone(), to_json(v))).collect()),
    }
}

fn parse(text: &str) -> Json {
    to_json(&serde_json::from_str::<Value>(text).unwrap())
}

#[test]
fn session_table_empty() {
    assert_eq!(session_table_lines(&vec![]), vec!["No active sessions.".to_string()]);
}

#[test]
fn session_table_rows() {
    let sessions = vec![
        parse(r#"{"name": "dev", "pid": 4242, "command": "bash", "rows": 24, "cols": 80, "clients": 2, "tags": ["web", 3, "api"]}"#),
        parse(r#"{"name": "x", "pid": -1}"#),
    ];
    let lines = session_table_lines(&sessions);
    assert_eq!(lines.len(), 3);
    assert_eq!(lines[0], format!("{:<20} {:<8} {:<20} {:<12} {:<8} {}", "NAME", "PID", "COMMAND", "SIZE", "CLIENTS", "TAGS"));
    assert_eq!(lines[1], format!("{:<20} {:<8} {:<20} {:<12} {:<8} {}", "dev", "4242", "bash", "80x24", 2, "web, api"));
    assert_eq!(lines[2], format!("{:<20} {:<8} {:<20} {:<12} {:<8} {}", "x", "-", "-", "0x0", 0, ""));
}

#[test]
fn session_row_keeps_long_names() {
    let long = "n".repeat(25);
    let row = session_row_text(&parse(&format!(r#"{{"name": "{}", "pid": 18446744073709551615}}"#, long)));
    assert!(row.starts_with(&format!("{} 18446744073709551615 -", long)));
}

#[test]
fn server_info_report() {
    let info = parse(
        r#"{"instance_name": "default", "hostname": "box", "version": "1.2.3", "socket_path": "/tmp/s",
            "tcp_addr": "127.0.0.1:8080", "persistent": true, "session_count": 3}"#,
    );
    assert_eq!(
        server_info_lines(&info),
        vec![
            "Server:     default",
            "Hostname:   box",
            "Version:    1.2.3",
            "Socket:     /tmp/s",
            "TCP:        127.0.0.1:8080",
            "Persistent: yes",
            "Sessions:   3",
        ]
    );
    assert_eq!(
        server_info_lines(&parse("{}")),
        vec![
            "Server:     unknown",
            "Hostname:   unknown",
            "Version:    unknown",
            "Socket:     unknown",
            "Persistent: no",
            "Sessions:   0",
        ]
    );
}

#[test]
fn recording_report() {
    let info = parse(
        r#"{"id": "r1", "session": "dev", "status": "stopped", "title": "Demo", "bytes_written": 2048,
            "urls": {"cast": "http://h/r1.cast", "player": "", "embed": "http://h/r1/embed"}}"#,
    );
    assert_eq!(
        recording_info_lines(&info, "stopped", Some(3725)),
        vec![
            "Recording r1 stopped",
            "  Session:  dev",
            "  Status:   stopped",
            "  Title:    Demo",
            "  Duration: 1h 2m 5s",
            "  Size:     2048 bytes",
            "  Cast:     http://h/r1.cast",
            "  Embed:    http://h/r1/embed",
        ]
    );
    assert_eq!(
        recording_info_lines(&parse("{}"), "", None),
        vec!["Recording -", "  Session:  -", "  Status:   -", "  Duration: -", "  Size:     0 bytes"]
    );
}

#[test]
fn persist_arguments() {
    assert_eq!(parse_persist_arg(None), Ok(None));
    assert_eq!(parse_persist_arg(Some("on")), Ok(Some(true)));
    assert_eq!(parse_persist_arg(Some("off")), Ok(Some(false)));
    assert_eq!(parse_persist_arg(Some("maybe")), Err("expected 'on' or 'off', got 'maybe'".to_string()));
    assert_eq!(persist_message(true), "Server is in persistent mode (will stay alive when sessions end).");
    assert_eq!(persist_message(false), "Server is in ephemeral mode (will exit when last session ends).");
}

#[test]
fn hub_reports() {
    assert_eq!(hub_table_lines(&vec![]), vec!["No servers.".to_string()]);
    let servers = vec![parse(
        r#"{"hostname": "node-a", "address": "10.0.0.1:8080", "health": "healthy", "role": "member", "sessions": 4}"#,
    )];
    let lines = hub_table_lines(&servers);
    assert_eq!(lines[0], format!("{:<20} {:<25} {:<12} {:<10} {}", "HOSTNAME", "ADDRESS", "HEALTH", "ROLE", "SESSIONS"));
    assert_eq!(lines[1], format!("{:<20} {:<25} {:<12} {:<10} {}", "node-a", "10.0.0.1:8080", "healthy", "member", "4"));
    assert_eq!(
        hub_added_message(&parse(r#"{"address": "10.0.0.2:8080"}"#), "ignored"),
        "Server added: 10.0.0.2:8080 (health: unknown)"
    );
    assert_eq!(hub_added_message(&parse("{}"), "10.0.0.3:8080"), "Server added: 10.0.0.3:8080 (health: unknown)");
    assert_eq!(hub_removed_message("node-a"), "Server 'node-a' removed.");
    assert_eq!(hub_reloaded_message(&parse(r#"{"added": 2, "removed": 1}"#)), "Config reloaded: 2 added, 1 removed.");
}

#[test]
fn recording_list_reports() {
    assert_eq!(recording_list_request(None, None), "/recordings");
    assert_eq!(recording_list_request(Some("dev"), None), "/recordings?session=dev");
    assert_eq!(recording_list_request(None, Some("active")), "/recordings?status=active");
    assert_eq!(recording_list_request(Some("dev"), Some("active")), "/recordings?session=dev&status=active");
    assert_eq!(
        recording_table_header_text(),
        format!("{:<38} {:<20} {:<12} {:<10} {}", "ID", "SESSION", "STATUS", "DURATION", "TITLE")
    );
    let long_id = "0123456789abcdef0123456789abcdef0123456789";
    let row = recording_row_text(
        &parse(&format!(r#"{{"id": "{}", "session": "dev", "status": "active", "title": "T"}}"#, long_id)),
        Some(75),
    );
    assert_eq!(row, format!("{:<38} {:<20} {:<12} {:<10} {}", &long_id[..36], "dev", "active", "1m 15s", "T"));
    let row = recording_row_text(&parse("{}"), None);
    assert_eq!(row, format!("{:<38} {:<20} {:<12} {:<10} {}", "-", "-", "-", "-", ""));
}

#[test]
fn session_request_paths() {
    assert_eq!(session_request("dev", "", None), "/sessions/dev");
    assert_eq!(session_request("dev", "/detach", None), "/sessions/dev/detach");
    assert_eq!(session_request("dev", "", Some("gpu-1")), "/sessions/dev?server=gpu-1");
    assert_eq!(session_request("dev", "/detach", Some("gpu-1")), "/sessions/dev/detach?server=gpu-1");
}

#[test]
fn tag_body_lists_both_sets() {
    let body = tag_request_body(&vec!["build".to_string(), "ci".to_string()], &vec!["old".to_string()]);
    let want = parse(r#"{"add_tags": ["build", "ci"], "remove_tags": ["old"]}"#);
    assert_eq!(format!("{:?}", body), format!("{:?}", want));
    let empty = tag_request_body(&vec![], &vec![]);
    let want_empty = parse(r#"{"add_tags": [], "remove_tags": []}"#);
    assert_eq!(format!("{:?}", empty), format!("{:?}", want_empty));
}

#[test]
fn tag_report_joins_string_tags() {
    let info = parse(r#"{"name": "dev", "tags": ["build", 3, "test"]}"#);
    assert_eq!(tag_report_text("dev", &info), "Session 'dev': build, test");
}

#[test]
fn tag_report_without_tags() {
    assert_eq!(tag_report_text("dev", &parse(r#"{"tags": []}"#)), "Session 'dev': no tags");
    assert_eq!(tag_report_text("dev", &parse(r#"{"name": "dev"}"#)), "Session 'dev': no tags");
    assert_eq!(tag_report_text("dev", &parse(r#"{"tags": "build"}"#)), "Session 'dev': no tags");
}

#[test]
fn session_done_messages() {
    assert_eq!(session_done_message("dev", "killed"), "Session 'dev' killed.");
    assert_eq!(session_done_message("dev", "detached"), "Session 'dev' detached.");
}

#[test]
fn create_body_prefers_command_over_shell() {
    let body = create_session_request(
        &Some("dev".to_string()),
        &Some("htop".to_string()),
        &Some("/bin/zsh".to_string()),
        24,
        80,
        &vec!["build".to_string()],
        false,
        &None,
    );
    let want = parse(
        r#"{"cols": 80, "command": "htop", "name": "dev", "recording": null, "rows": 24, "tags": ["build"]}"#,
    );
    assert_eq!(format!("{:?}", body), format!("{:?}", want));
}

#[test]
fn create_body_falls_back_to_shell_and_records() {
    let body = create_session_request(&None, &None, &Some("/bin/zsh".to_string()), 40, 120, &vec![], true, &None);
    let want = parse(
        r#"{"cols": 120, "command": "/bin/zsh", "name": null, "recording": {"title": null}, "rows": 40, "tags": []}"#,
    );
    assert_eq!(format!("{:?}", body), format!("{:?}", want));
    let titled = create_session_request(&None, &None, &None, 24, 80, &vec![], false, &Some("demo".to_string()));
    let want_titled = parse(
        r#"{"cols": 80, "command": null, "name": null, "recording": {"title": "demo"}, "rows": 24, "tags": []}"#,
    );
    assert_eq!(format!("{:?}", titled), format!("{:?}", want_titled));
}

#[test]
fn usize_parse_matches_std() {
    for t in ["0", "42", "+7", "007", "", "+", "-1", "1a", " 1", "18446744073709551615", "18446744073709551616"] {
        assert_eq!(parse_usize(t), t.parse::<usize>().ok(), "{t}");
    }
}

#[test]
fn scrollback_arg_choices() {
    assert_eq!(parse_scrollback_arg("none"), Ok(None));
    assert_eq!(parse_scrollback_arg("all"), Ok(Some(usize::MAX)));
    assert_eq!(parse_scrollback_arg("500"), Ok(Some(500)));
    assert_eq!(
        parse_scrollback_arg("lots"),
        Err("wsh attach: invalid scrollback value: lots".to_string())
    );
}

#[test]
fn scrollback_request_caps_lines() {
    assert_eq!(scrollback_request("dev", 200), "/sessions/dev/scrollback?format=styled&offset=0&limit=200");
    assert_eq!(
        scrollback_request("dev", usize::MAX),
        "/sessions/dev/scrollback?format=styled&offset=0&limit=10000"
    );
}

#[test]
fn cursor_escape_is_one_based() {
    let screen = parse(r#"{"lines": [], "cursor": {"row": 4, "col": 9}}"#);
    assert_eq!(cursor_restore_escape(&screen), Some("\x1b[5;10H".to_string()));
    let partial = parse(r#"{"cursor": {}}"#);
    assert_eq!(cursor_restore_escape(&partial), Some("\x1b[1;1H".to_string()));
    assert_eq!(cursor_restore_escape(&parse(r#"{"lines": []}"#)), None);
}

#[test]
fn base_prefix_rules() {
    assert_eq!(check_base_prefix(None), Ok(()));
    assert_eq!(check_base_prefix(Some("/")), Ok(()));
    assert_eq!(check_base_prefix(Some("/wsh")), Ok(()));
    assert_eq!(check_base_prefix(Some("wsh")), Err("--base-prefix must start with '/'".to_string()));
    assert_eq!(check_base_prefix(Some("")), Err("--base-prefix must start with '/'".to_string()));
    assert_eq!(check_base_prefix(Some("/wsh/")), Err("--base-prefix must not end with '/'".to_string()));
}

#[test]
fn default_rate_limit_on_public_bindings() {
    assert_eq!(effective_rate_limit(Some(IpAddress::V4(0x0a00_0001)), None), Some(100));
    assert_eq!(effective_rate_limit(Some(IpAddress::V4(0x7f00_0001)), None), None);
    assert_eq!(effective_rate_limit(Some(IpAddress::V6(1)), None), None);
    assert_eq!(effective_rate_limit(Some(IpAddress::V4(0x7f00_0001)), Some(7)), Some(7));
    assert_eq!(effective_rate_limit(None, None), None);
}
