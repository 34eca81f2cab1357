use gemini_cli_rs::models::{validate_model_name, Content, Part, SystemInstruction};

#[test]
fn content_user_sets_role_and_text() {
    let c = Content::user("hello");
    assert_eq!(c.role, "user");
    assert_eq!(c.parts.len(), 1);
    assert_eq!(c.parts[0].text.as_deref(), Some("hello"));
}

#[test]
fn call_tool_valid_model_name_passes_validation() {
    assert!(validate_model_name("gemini-1.5-flash").is_ok());
    assert!(validate_model_name("gemini-3-flash-preview").is_ok());
    assert!(validate_model_name("gemini-2.5-pro").is_ok());
}

#[test]
fn call_tool_invalid_model_names_rejected_by_validator() {
    assert!(validate_model_name("../../etc/passwd").is_err());
    assert!(validate_model_name("モデル").is_err());
    assert!(validate_model_name("").is_err());
    assert!(validate_model_name("model name with spaces").is_err());
}

#[test]
fn model_name_length_limit_is_100() {
    assert!(validate_model_name(&"a".repeat(100)).is_ok());
    assert!(validate_model_name(&"a".repeat(101)).is_err());
}

#[test]
fn model_name_error_message() {
    let err = validate_model_name("bad name").unwrap_err();
    assert!(err.message().contains("Invalid model name"));
}

#[test]
fn part_text_holds_text() {
    let p = Part::text("abc");
    assert_eq!(p.text.as_deref(), Some("abc"));
}

#[test]
fn system_instruction_has_one_text_part() {
    let si = SystemInstruction::new("Be helpful");
    assert_eq!(si.parts.len(), 1);
    assert_eq!(si.parts[0].text.as_deref(), Some("Be helpful"));
}

#[test]
fn content_duplicate_keeps_parts() {
    let c = Content::user("hi");
    let d = c.duplicate();
    assert_eq!(d.role, "user");
    assert_eq!(d.parts[0].text.as_deref(), Some("hi"));
}
