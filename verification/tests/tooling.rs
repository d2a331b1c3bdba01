use doge_term::ai::EnhancedTerminalMCPServer;
use doge_term::ai::ExecuteCommandRequest;
use doge_term::ai::ExecutionType;
use doge_term::ai::contains_mcp_commands;
use doge_term::ai::extract_command_from_content;

fn request(kind: Option<&str>) -> ExecuteCommandRequest {
    ExecuteCommandRequest {
        command: "ls".to_string(),
        execution_type: kind.map(str::to_string),
        timeout_seconds: None,
    }
}

#[test]
fn execution_kind_defaults_to_process() {
    assert_eq!(request(Some("terminal")).execution_kind(), ExecutionType::Terminal);
    assert_eq!(request(Some("process")).execution_kind(), ExecutionType::Process);
    assert_eq!(request(Some("weird")).execution_kind(), ExecutionType::Process);
    assert_eq!(request(None).execution_kind(), ExecutionType::Process);
}

#[test]
fn matches_criteria_extension_rules() {
    let server = EnhancedTerminalMCPServer::new();
    let ext = Some("RS".to_string());
    assert!(server.matches_criteria("main.rs", Some("rs"), &None, &ext));
    assert!(!server.matches_criteria("main.go", Some("go"), &None, &ext));
    assert!(!server.matches_criteria("Makefile", None, &None, &ext));
    assert!(server.matches_criteria("Makefile", None, &None, &None));
}

#[test]
fn matches_criteria_pattern_rules() {
    let server = EnhancedTerminalMCPServer::new();
    let star = Some("main*rs".to_string());
    assert!(server.matches_criteria("main_test.rs", None, &star, &None));
    assert!(!server.matches_criteria("other.rs", None, &star, &None));
    let plain = Some("test".to_string());
    assert!(server.matches_criteria("my_test_file", None, &plain, &None));
    assert!(!server.matches_criteria("main.rs", None, &plain, &None));
    // More than one wildcard falls back to accepting everything.
    let wild = Some("a*b*c".to_string());
    assert!(server.matches_criteria("anything", None, &wild, &None));
}

#[test]
fn mcp_command_detection() {
    assert!(contains_mcp_commands("please execute_command for me"));
    assert!(contains_mcp_commands("read_file at /tmp/x"));
    assert!(contains_mcp_commands("then write_file it back"));
    assert!(contains_mcp_commands("find_files in src"));
    assert!(!contains_mcp_commands("just a plain answer"));
}

#[test]
fn command_extraction_from_reply() {
    let reply = "I'll run it: execute_command {\"command\":\"ls -la\"}";
    assert_eq!(extract_command_from_content(reply), Some("ls -la".to_string()));
    assert_eq!(extract_command_from_content("no tools here"), None);
    assert_eq!(extract_command_from_content("execute_command but no key"), None);
    // A reply that ends right after the key yields nothing rather than
    // running past the text.
    assert_eq!(extract_command_from_content("execute_command {\"command\":"), None);
}
