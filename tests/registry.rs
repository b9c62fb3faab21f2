use beaki::framing::frame_message;
use beaki::ollama::{detect_ollama, is_success_status, OllamaProbe};
use beaki::process_manager::{
    create_process_map, get_process_info, kill_process, list_processes, read_mcp_response,
    received_line, send_mcp_message, spawn_cli_agent, spawn_mcp_server, spawn_process,
    ProcessError, ProcessKind, ProcessTable,
};

fn strings(v: &[&str]) -> Vec<String> {
    v.iter().map(|s| s.to_string()).collect()
}

fn is_not_found(e: &ProcessError, h: &str) -> bool {
    matches!(e, ProcessError::NotFound(x) if x == h)
}

#[test]
fn frame_appends_one_newline() {
    assert_eq!(frame_message(&"ping".to_string()), "ping\n");
    assert_eq!(frame_message(&String::new()), "\n");
}

#[test]
fn spawned_handles_are_distinct() {
    let mut table: ProcessTable<u32> = create_process_map();
    let mut seen: Vec<String> = Vec::new();
    for k in 0..64u32 {
        let h = spawn_mcp_server("srv".to_string(), vec![], Ok(k), &mut table).unwrap();
        assert_eq!(h.len(), 36);
        assert!(!seen.contains(&h));
        seen.push(h);
    }
    assert_eq!(list_processes(&table).len(), 64);
}

#[test]
fn unknown_handle_is_not_found_everywhere() {
    let mut table: ProcessTable<u32> = create_process_map();
    spawn_mcp_server("srv".to_string(), vec![], Ok(1), &mut table).unwrap();
    let h = "no-such-handle".to_string();
    assert!(is_not_found(&send_mcp_message(&h, &"x".to_string(), &table).unwrap_err(), &h));
    assert!(is_not_found(&read_mcp_response(&h, &table).unwrap_err(), &h));
    assert!(is_not_found(&get_process_info(&h, &table).unwrap_err(), &h));
    assert!(is_not_found(&kill_process(&h, &mut table).err().unwrap(), &h));
    assert_eq!(list_processes(&table).len(), 1);
}

#[test]
fn killed_handle_is_not_found_everywhere() {
    let mut table: ProcessTable<u32> = create_process_map();
    let h = spawn_cli_agent("tool".to_string(), vec![], Ok(7), &mut table).unwrap();
    let killed = kill_process(&h, &mut table).ok().unwrap();
    assert_eq!(killed.io, 7);
    assert_eq!(killed.info.connection_id, h);
    assert!(is_not_found(&send_mcp_message(&h, &"x".to_string(), &table).unwrap_err(), &h));
    assert!(is_not_found(&read_mcp_response(&h, &table).unwrap_err(), &h));
    assert!(is_not_found(&get_process_info(&h, &table).unwrap_err(), &h));
}

#[test]
fn second_kill_fails_with_not_found() {
    let mut table: ProcessTable<u32> = create_process_map();
    let h = spawn_mcp_server("srv".to_string(), vec![], Ok(3), &mut table).unwrap();
    assert!(kill_process(&h, &mut table).is_ok());
    let second = kill_process(&h, &mut table);
    assert!(is_not_found(&second.err().unwrap(), &h));
}

#[test]
fn list_follows_spawn_and_kill() {
    let mut table: ProcessTable<u32> = create_process_map();
    let a = spawn_mcp_server("a".to_string(), vec![], Ok(1), &mut table).unwrap();
    assert!(list_processes(&table).iter().any(|p| p.connection_id == a));
    let b = spawn_cli_agent("b".to_string(), vec![], Ok(2), &mut table).unwrap();
    let listed = list_processes(&table);
    assert_eq!(listed.len(), 2);
    assert!(listed.iter().any(|p| p.connection_id == b));
    kill_process(&a, &mut table).ok().unwrap();
    let listed = list_processes(&table);
    assert_eq!(listed.len(), 1);
    assert!(listed.iter().all(|p| p.connection_id != a));
    assert!(listed.iter().any(|p| p.connection_id == b));
}

#[test]
fn messages_reach_only_their_own_process() {
    let mut table: ProcessTable<&str> = create_process_map();
    let a = spawn_mcp_server("a".to_string(), vec![], Ok("pipes of a"), &mut table).unwrap();
    let b = spawn_mcp_server("b".to_string(), vec![], Ok("pipes of b"), &mut table).unwrap();
    let (to_a, _) = send_mcp_message(&a, &"for a".to_string(), &table).unwrap();
    let (to_b, _) = send_mcp_message(&b, &"for b".to_string(), &table).unwrap();
    assert_eq!(*to_a, "pipes of a");
    assert_eq!(*to_b, "pipes of b");
    assert_eq!(*read_mcp_response(&a, &table).unwrap(), "pipes of a");
    assert_eq!(*read_mcp_response(&b, &table).unwrap(), "pipes of b");
}

#[test]
fn echoed_messages_come_back_in_order() {
    let mut table: ProcessTable<u32> = create_process_map();
    let h = spawn_cli_agent("cat".to_string(), vec![], Ok(0), &mut table).unwrap();
    let messages = ["first", "", "third {\"id\":3}"];
    let mut wire = String::new();
    for m in messages.iter() {
        let (_, bytes) = send_mcp_message(&h, &m.to_string(), &table).unwrap();
        wire.push_str(&bytes);
    }
    let mut rest = wire.as_str();
    for m in messages.iter() {
        let end = rest.find('\n').unwrap() + 1;
        let line = received_line(Ok(end), rest[..end].to_string()).unwrap();
        assert_eq!(line, format!("{}\n", m));
        assert_eq!(line.strip_suffix('\n').unwrap(), *m);
        rest = &rest[end..];
    }
    assert!(rest.is_empty());
}

#[test]
fn echo_hello_then_stream_closed() {
    let mut table: ProcessTable<u32> = create_process_map();
    let h = spawn_process(ProcessKind::CliAgent, "echo".to_string(), strings(&["hello"]), Ok(9), &mut table)
        .unwrap();
    let info = get_process_info(&h, &table).unwrap();
    assert_eq!(info.process_type, "cli-agent");
    assert_eq!(info.command, "echo");
    assert_eq!(info.args, strings(&["hello"]));
    assert_eq!(*read_mcp_response(&h, &table).unwrap(), 9);
    let first = received_line(Ok(6), "hello\n".to_string()).unwrap();
    assert!(first.contains("hello"));
    assert_eq!(*read_mcp_response(&h, &table).unwrap(), 9);
    assert_eq!(received_line(Ok(0), String::new()), Err(ProcessError::StreamClosed));
}

#[test]
fn read_error_is_io_failure() {
    let r = received_line(Err("broken pipe".to_string()), String::new());
    assert_eq!(r, Err(ProcessError::IoFailure("broken pipe".to_string())));
}

#[test]
fn partial_last_line_is_returned() {
    assert_eq!(received_line(Ok(3), "end".to_string()), Ok("end".to_string()));
}

#[test]
fn launch_failure_leaves_table_unchanged() {
    let mut table: ProcessTable<u32> = create_process_map();
    let r = spawn_mcp_server("missing-binary".to_string(), vec![], Err("not found".to_string()), &mut table);
    assert_eq!(r, Err(ProcessError::LaunchFailure("not found".to_string())));
    assert!(list_processes(&table).is_empty());
}

#[test]
fn descriptor_records_mcp_kind() {
    let mut table: ProcessTable<u32> = create_process_map();
    let h = spawn_mcp_server("npx".to_string(), strings(&["-y", "srv"]), Ok(1), &mut table).unwrap();
    let info = get_process_info(&h, &table).unwrap();
    assert_eq!(info.connection_id, h);
    assert_eq!(info.process_type, "mcp-server");
    assert_eq!(info.args, strings(&["-y", "srv"]));
}

#[test]
fn error_messages() {
    assert_eq!(ProcessError::NotFound("abc".to_string()).message(), "Process with ID 'abc' not found");
    assert_eq!(ProcessError::StreamClosed.message(), "Process output closed");
    assert_eq!(ProcessError::IoFailure("Failed to write".to_string()).message(), "Failed to write");
}

#[test]
fn ollama_unavailable_reasons() {
    let r = detect_ollama(OllamaProbe::Unreachable("connection refused".to_string()));
    assert!(!r.available);
    assert!(r.models.is_empty());
    assert_eq!(r.error.as_deref(), Some("Ollama not available: connection refused"));
    let r = detect_ollama(OllamaProbe::Status("500 Internal Server Error".to_string()));
    assert_eq!(r.error.as_deref(), Some("Ollama returned status: 500 Internal Server Error"));
    let r = detect_ollama(OllamaProbe::Unparsable("expected value".to_string()));
    assert!(!r.available);
    assert_eq!(r.error.as_deref(), Some("Failed to parse Ollama response: expected value"));
}

#[test]
fn first_handle_is_a_uuid_v4_text() {
    let mut table: ProcessTable<u32> = create_process_map();
    let h = spawn_cli_agent("echo".to_string(), strings(&["hello"]), Ok(1), &mut table).unwrap();
    let c: Vec<char> = h.chars().collect();
    assert_eq!(c.len(), 36);
    for (i, ch) in c.iter().enumerate() {
        if i == 8 || i == 13 || i == 18 || i == 23 {
            assert_eq!(*ch, '-');
        } else {
            assert!(ch.is_ascii_digit() || ('a'..='f').contains(ch));
        }
    }
    assert_eq!(c[14], '4');
    assert!(['8', '9', 'a', 'b'].contains(&c[19]));
    let listed = list_processes(&table);
    assert_eq!(listed.len(), 1);
    assert_eq!(listed[0].connection_id, h);
    assert_eq!(listed[0].process_type, "cli-agent");
    assert_eq!(listed[0].command, "echo");
    assert_eq!(listed[0].args, strings(&["hello"]));
}

#[test]
fn good_launch_always_spawns() {
    let mut table: ProcessTable<u32> = create_process_map();
    for k in 0..16u32 {
        let h = spawn_process(ProcessKind::McpServer, "srv".to_string(), vec![], Ok(k), &mut table);
        assert!(h.is_ok());
        kill_process(&h.unwrap(), &mut table).ok().unwrap();
    }
    assert!(list_processes(&table).is_empty());
}

#[test]
fn success_statuses_are_the_2xx_range() {
    assert!(is_success_status(200));
    assert!(is_success_status(204));
    assert!(is_success_status(299));
    assert!(!is_success_status(199));
    assert!(!is_success_status(300));
    assert!(!is_success_status(404));
    assert!(!is_success_status(500));
}
