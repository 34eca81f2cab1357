use gemini_cli_rs::error::GeminiError;
use gemini_cli_rs::models::{
    Candidate, Content, GroundingChunk, GroundingChunkWeb, GroundingMetadata, Part, StreamChunk,
};
use gemini_cli_rs::sse::{
    payload_from_text, sse_data_payload, SseDecoder, StreamState, MAX_BUFFER_BYTES,
};

fn text_chunk(texts: &[&str]) -> StreamChunk {
    StreamChunk {
        candidates: Some(vec![Candidate {
            content: Some(Content {
                role: "model".to_string(),
                parts: texts.iter().map(|t| Part::text(t)).collect(),
            }),
            finish_reason: None,
            grounding_metadata: None,
        }]),
    }
}

fn grounding(uri: Option<&str>, title: Option<&str>) -> GroundingMetadata {
    GroundingMetadata {
        grounding_chunks: vec![GroundingChunk {
            web: Some(GroundingChunkWeb {
                uri: uri.map(|u| u.to_string()),
                title: title.map(|t| t.to_string()),
            }),
        }],
    }
}

#[test]
fn feed_splits_complete_lines() {
    let mut d = SseDecoder::new();
    let lines = d.feed(b"data: a\n\ndata: b").unwrap();
    assert_eq!(lines, vec![b"data: a".to_vec(), b"".to_vec()]);
    let lines = d.feed(b"\n").unwrap();
    assert_eq!(lines, vec![b"data: b".to_vec()]);
}

fn sse_body(text: &str) -> String {
    let json = format!(
        r#"{{"candidates":[{{"content":{{"role":"model","parts":[{{"text":"{text}"}}]}}}}]}}"#
    );
    format!("data: {json}\n\n")
}

/// Runs `body`, delivered in pieces of `piece` bytes, through the decoder and
/// returns the payloads of its data lines.
fn payloads(body: &[u8], piece: usize) -> Vec<String> {
    let mut d = SseDecoder::new();
    let mut out = Vec::new();
    for chunk in body.chunks(piece) {
        for line in d.feed(chunk).unwrap() {
            if let Some(p) = sse_data_payload(&line) {
                out.push(p);
            }
        }
    }
    out
}

#[test]
fn collect_returns_text_from_sse() {
    let body = sse_body("hello world");
    let found = payloads(body.as_bytes(), body.len());
    assert_eq!(
        found,
        vec![r#"{"candidates":[{"content":{"role":"model","parts":[{"text":"hello world"}]}}]}"#.to_string()]
    );
    let mut state = StreamState::collecting();
    state.apply_chunk(text_chunk(&["hello world"])).unwrap();
    let result = state.finish();
    assert_eq!(result, "hello world");
}

#[test]
fn collect_handles_multibyte_characters_correctly() {
    let japanese = "日本語テスト";
    let body = sse_body(japanese);
    for piece in [1, 2, 5, body.len()] {
        let found = payloads(body.as_bytes(), piece);
        assert_eq!(found.len(), 1);
        assert!(found[0].contains(japanese));
    }
    let mut state = StreamState::collecting();
    state.apply_chunk(text_chunk(&[japanese])).unwrap();
    assert_eq!(state.finish(), japanese);
}

#[test]
fn feed_in_pieces_equals_feed_at_once() {
    let body = b"data: one\ndata: two\nrest";
    let mut whole = SseDecoder::new();
    let lines_whole = whole.feed(body).unwrap();
    let mut parts = SseDecoder::new();
    let mut lines_parts = parts.feed(&body[..7]).unwrap();
    lines_parts.extend(parts.feed(&body[7..]).unwrap());
    assert_eq!(lines_whole, lines_parts);
}

#[test]
fn stream_sse_rejects_oversized_response() {
    let mut d = SseDecoder::new();
    let oversized = vec![b'x'; MAX_BUFFER_BYTES + 1];
    let err = d.feed(&oversized).unwrap_err();
    assert!(matches!(err, GeminiError::ResponseTooLarge));
    assert!(err.message().contains("maximum buffer size"));
}

#[test]
fn buffer_limit_counts_pending_bytes() {
    let mut d = SseDecoder::new();
    assert!(d.feed(&vec![b'x'; MAX_BUFFER_BYTES]).unwrap().is_empty());
    assert!(matches!(d.feed(b"y"), Err(GeminiError::ResponseTooLarge)));
}

#[test]
fn payload_requires_data_prefix() {
    assert_eq!(sse_data_payload(b"  data: {\"a\":1}  ").as_deref(), Some("{\"a\":1}"));
    assert_eq!(sse_data_payload(b"event: message"), None);
    assert_eq!(sse_data_payload(b""), None);
}

#[test]
fn payload_replaces_invalid_utf8() {
    let p = sse_data_payload(b"data: a\xffb").unwrap();
    assert_eq!(p, "a\u{FFFD}b");
}

#[test]
fn chunk_texts_are_returned_and_collected() {
    let mut state = StreamState::collecting();
    let texts = state.apply_chunk(text_chunk(&["hello", " world"])).unwrap();
    assert_eq!(texts, vec!["hello".to_string(), " world".to_string()]);
    assert_eq!(state.finish(), "hello world");
}

#[test]
fn collect_returns_error_on_safety_block() {
    let mut state = StreamState::collecting();
    let chunk = StreamChunk {
        candidates: Some(vec![Candidate {
            content: None,
            finish_reason: Some("SAFETY".to_string()),
            grounding_metadata: None,
        }]),
    };
    let err = state.apply_chunk(chunk).unwrap_err();
    assert!(err.message().contains("safety filters"));
}

#[test]
fn other_finish_reasons_pass() {
    let mut state = StreamState::collecting();
    let chunk = StreamChunk {
        candidates: Some(vec![Candidate {
            content: None,
            finish_reason: Some("STOP".to_string()),
            grounding_metadata: None,
        }]),
    };
    assert!(state.apply_chunk(chunk).unwrap().is_empty());
}

#[test]
fn chunk_without_candidates_changes_nothing() {
    let mut state = StreamState::collecting();
    assert!(state.apply_chunk(StreamChunk { candidates: None }).unwrap().is_empty());
    assert!(state.apply_chunk(StreamChunk { candidates: Some(vec![]) }).unwrap().is_empty());
    assert_eq!(state.finish(), "");
}

#[test]
fn collect_appends_grounding_sources() {
    let mut state = StreamState::collecting();
    let mut chunk = text_chunk(&["answer"]);
    chunk.candidates.as_mut().unwrap()[0].grounding_metadata =
        Some(grounding(Some("https://example.com"), Some("Example")));
    state.apply_chunk(chunk).unwrap();
    let result = state.finish();
    assert!(result.contains("answer"));
    assert!(result.contains("[Sources]"));
    assert!(result.contains("Example"));
    assert!(result.contains("https://example.com"));
    assert_eq!(result, "answer\n\n[Sources]\n- Example (https://example.com)\n");
}

#[test]
fn latest_grounding_wins() {
    let mut state = StreamState::collecting();
    let mut first = text_chunk(&["a"]);
    first.candidates.as_mut().unwrap()[0].grounding_metadata = Some(grounding(Some("u1"), Some("t1")));
    let mut second = text_chunk(&["b"]);
    second.candidates.as_mut().unwrap()[0].grounding_metadata = Some(grounding(Some("u2"), Some("t2")));
    state.apply_chunk(first).unwrap();
    state.apply_chunk(second).unwrap();
    state.apply_chunk(text_chunk(&["c"])).unwrap();
    assert_eq!(state.finish(), "abc\n\n[Sources]\n- t2 (u2)\n");
}

#[test]
fn streaming_state_keeps_no_text() {
    let mut state = StreamState::streaming();
    let texts = state.apply_chunk(text_chunk(&["x", "y"])).unwrap();
    assert_eq!(texts.len(), 2);
    assert!(state.into_grounding().is_none());
}

fn safety_chunk() -> StreamChunk {
    StreamChunk {
        candidates: Some(vec![Candidate {
            content: None,
            finish_reason: Some("SAFETY".to_string()),
            grounding_metadata: None,
        }]),
    }
}

#[test]
fn apply_chunks_hands_on_texts_in_order() {
    let mut state = StreamState::collecting();
    let (texts, outcome) =
        state.apply_chunks(vec![text_chunk(&["a", "b"]), StreamChunk { candidates: None }, text_chunk(&["c"])]);
    assert!(outcome.is_ok());
    assert_eq!(texts, vec!["a".to_string(), "b".to_string(), "c".to_string()]);
    assert_eq!(state.finish(), "abc");
}

#[test]
fn apply_chunks_stops_at_safety_block() {
    let mut state = StreamState::streaming();
    let (texts, outcome) =
        state.apply_chunks(vec![text_chunk(&["before"]), safety_chunk(), text_chunk(&["after"])]);
    assert_eq!(texts, vec!["before".to_string()]);
    assert!(matches!(outcome, Err(GeminiError::SafetyBlocked)));
    assert_eq!(state.finish(), "");
}

#[test]
fn batches_give_what_one_batch_gives() {
    let mut once = StreamState::collecting();
    let (all, _) = once.apply_chunks(vec![text_chunk(&["x"]), text_chunk(&["y"]), text_chunk(&["z"])]);
    let mut twice = StreamState::collecting();
    let (mut first, _) = twice.apply_chunks(vec![text_chunk(&["x"])]);
    let (second, _) = twice.apply_chunks(vec![text_chunk(&["y"]), text_chunk(&["z"])]);
    first.extend(second);
    assert_eq!(all, first);
    assert_eq!(once.finish(), twice.finish());
}

#[test]
fn collected_text_is_the_streamed_texts() {
    let events = || vec![text_chunk(&["one "]), text_chunk(&["two"])];
    let mut streaming = StreamState::streaming();
    let (streamed, _) = streaming.apply_chunks(events());
    let mut collecting = StreamState::collecting();
    collecting.apply_chunks(events());
    assert_eq!(collecting.finish(), streamed.concat());
}

#[test]
fn payload_from_decoded_text() {
    assert_eq!(payload_from_text("  data: {\"x\":2}\r").as_deref(), Some("{\"x\":2}"));
    assert_eq!(payload_from_text("data:{}"), None);
    assert_eq!(payload_from_text(": keep-alive"), None);
}

#[test]
fn closing_output_after_success_with_sources() {
    let mut state = StreamState::streaming();
    let mut chunk = text_chunk(&["answer"]);
    chunk.candidates.as_mut().unwrap()[0].grounding_metadata =
        Some(grounding(Some("https://example.com"), Some("Example")));
    state.apply_chunks(vec![chunk]);
    let (out, err) = state.closing_output::<GeminiError>(Ok(())).unwrap();
    assert_eq!(out, "\n");
    assert_eq!(err, "\n[Sources]\n- Example (https://example.com)\n");
}

#[test]
fn closing_output_after_success_without_grounding() {
    let state = StreamState::streaming();
    let (out, err) = state.closing_output::<GeminiError>(Ok(())).unwrap();
    assert_eq!(out, "\n");
    assert_eq!(err, "");
}

#[test]
fn closing_output_after_error_prints_nothing() {
    let mut state = StreamState::streaming();
    let mut chunk = text_chunk(&["partial"]);
    chunk.candidates.as_mut().unwrap()[0].grounding_metadata = Some(grounding(Some("u"), Some("t")));
    state.apply_chunks(vec![chunk]);
    let r = state.closing_output(Err(GeminiError::SafetyBlocked));
    assert!(matches!(r, Err(GeminiError::SafetyBlocked)));
}
