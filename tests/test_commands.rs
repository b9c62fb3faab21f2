use beaki::ollama::{detect_ollama, OllamaModel, OllamaProbe, OllamaTagsResponse};
use beaki::process_manager::{
    create_process_map, read_mcp_response, received_line, send_mcp_message, spawn_cli_agent,
    spawn_mcp_server, ProcessTable,
};

#[test]
fn test_ollama_detection_api() {
    let tags = OllamaTagsResponse {
        models: vec![OllamaModel {
            name: "llama3:latest".to_string(),
            modified_at: "2024-05-01T10:00:00Z".to_string(),
            size: 4661224676,
        }],
    };
    let result = detect_ollama(OllamaProbe::Tags(tags));
    assert!(result.available);
    assert_eq!(result.models.len(), 1);
    assert_eq!(result.models[0].name, "llama3:latest");
    assert_eq!(result.models[0].size, 4661224676);
    assert!(result.error.is_none());
}

#[test]
fn test_mcp_server_spawn_api() {
    let mut table: ProcessTable<&str> = create_process_map();
    let connection_id = spawn_mcp_server(
        "npx".to_string(),
        vec!["-y".to_string(), "@modelcontextprotocol/server-filesystem".to_string()],
        Ok("server pipes"),
        &mut table,
    );
    assert!(connection_id.is_ok());
}

#[test]
fn test_cli_agent_spawn_api() {
    let mut table: ProcessTable<&str> = create_process_map();
    let connection_id = spawn_cli_agent(
        "claudecode".to_string(),
        vec!["--version".to_string()],
        Ok("agent pipes"),
        &mut table,
    );
    assert!(connection_id.is_ok());
}

#[test]
fn test_mcp_message_exchange_api() {
    let mut table: ProcessTable<&str> = create_process_map();
    let connection_id =
        spawn_mcp_server("mcp-server".to_string(), vec![], Ok("server pipes"), &mut table)
            .unwrap();
    let request = r#"{"jsonrpc":"2.0","id":1,"method":"initialize","params":{}}"#.to_string();
    let (pipes, bytes) = send_mcp_message(&connection_id, &request, &table).unwrap();
    assert_eq!(*pipes, "server pipes");
    assert_eq!(bytes, format!("{}\n", request));
    let pipes = read_mcp_response(&connection_id, &table).unwrap();
    assert_eq!(*pipes, "server pipes");
    let reply = r#"{"jsonrpc":"2.0","id":1,"result":{}}"#.to_string() + "\n";
    let response = received_line(Ok(reply.len()), reply.clone()).unwrap();
    assert!(response.contains("result"));
}
