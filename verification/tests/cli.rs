use gemini_cli_rs::cli::{choose_mode, CliError, RunMode};

#[test]
fn missing_api_key_comes_first() {
    let err = choose_mode(None, true, Some(8080), None).unwrap_err();
    assert_eq!(err, CliError::MissingApiKey);
    assert!(err.message().contains("GEMINI_API_KEY"));
}

#[test]
fn server_modes_are_exclusive() {
    let err = choose_mode(Some("k".into()), true, Some(8080), None).unwrap_err();
    assert_eq!(err, CliError::ConflictingServerModes);
    assert_eq!(err.message(), "Error: --mcp-server and --mcp-http-port are mutually exclusive.");
}

#[test]
fn modes_are_chosen() {
    assert!(matches!(choose_mode(Some("k".into()), true, None, None), Ok(RunMode::McpStdio { .. })));
    assert!(matches!(
        choose_mode(Some("k".into()), false, Some(9000), None),
        Ok(RunMode::McpHttp { port: 9000, .. })
    ));
    match choose_mode(Some("k".into()), false, None, Some("hi".into())) {
        Ok(RunMode::Prompt { api_key, prompt }) => {
            assert_eq!(api_key, "k");
            assert_eq!(prompt, "hi");
        }
        other => panic!("unexpected {:?}", other),
    }
}

#[test]
fn prompt_required_in_cli_mode() {
    let err = choose_mode(Some("k".into()), false, None, None).unwrap_err();
    assert_eq!(err.message(), "Error: --prompt (-p) is required in CLI mode.");
}
