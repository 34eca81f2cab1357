use gemini_cli_rs::context::{
    combine_contexts, context_from_bytes, context_search_step, ContextStep, DirProbe,
    MAX_CONTEXT_BYTES,
};

fn probe(has_context_file: bool, has_git_dir: bool) -> DirProbe {
    DirProbe { has_context_file, has_git_dir }
}

#[test]
fn finds_context_file_in_same_dir() {
    assert_eq!(context_search_step(probe(true, false)), ContextStep::Found);
}

#[test]
fn context_file_beats_git_boundary() {
    assert_eq!(context_search_step(probe(true, true)), ContextStep::Found);
}

#[test]
fn stops_at_git_boundary() {
    assert_eq!(context_search_step(probe(false, true)), ContextStep::Stop);
}

#[test]
fn ascends_without_file_or_git() {
    assert_eq!(context_search_step(probe(false, false)), ContextStep::Ascend);
}

#[test]
fn read_context_file_returns_none_for_oversized_file() {
    let content = vec![b'x'; 1024 * 1024 + 1];
    assert!(context_from_bytes(content).is_none());
}

#[test]
fn read_context_file_accepts_file_within_size_limit() {
    assert_eq!(context_from_bytes(b"# small context".to_vec()).as_deref(), Some("# small context"));
    let exact = vec![b'x'; MAX_CONTEXT_BYTES as usize];
    assert_eq!(context_from_bytes(exact).map(|s| s.len()), Some(1024 * 1024));
}

#[test]
fn context_must_be_utf8() {
    assert!(context_from_bytes(vec![0xff, 0xfe]).is_none());
    assert_eq!(context_from_bytes("日本".as_bytes().to_vec()).as_deref(), Some("日本"));
}

#[test]
fn concatenates_global_and_local_with_blank_line() {
    let result = combine_contexts(Some("# global".to_string()), Some("# local".to_string()));
    assert_eq!(result.as_deref(), Some("# global\n\n# local"));
}

#[test]
fn returns_global_only_when_no_local() {
    let result = combine_contexts(Some("# global only".to_string()), None);
    assert_eq!(result.as_deref(), Some("# global only"));
}

#[test]
fn returns_local_only_or_none() {
    assert_eq!(combine_contexts(None, Some("l".to_string())).as_deref(), Some("l"));
    assert!(combine_contexts(None, None).is_none());
}
