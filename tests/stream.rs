use llm_gateway::models::{Message, OllamaStreamChunk};
use llm_gateway::stream::{done_frame, sse_frame, sse_payload, LineBuffer, StreamTranslator};

fn chunk(content: &str, done: bool, p: Option<u32>, c: Option<u32>) -> OllamaStreamChunk {
    OllamaStreamChunk {
        model: "m".to_string(),
        message: Message { role: "assistant".to_string(), content: content.to_string() },
        done,
        prompt_eval_count: p,
        eval_count: c,
    }
}

#[test]
fn lines_split_across_reads_are_joined() {
    let mut b = LineBuffer::new();
    let first = b.push(b"{\"a\":1}\n{\"b\"");
    assert_eq!(first, vec![b"{\"a\":1}".to_vec()]);
    let second = b.push(b":2}\n\n  \n{\"c\":3}");
    assert_eq!(second, vec![b"{\"b\":2}".to_vec()]);
    assert_eq!(b.finish(), Some(b"{\"c\":3}".to_vec()));
    assert_eq!(b.finish(), None);
}

#[test]
fn blank_lines_are_dropped() {
    let mut b = LineBuffer::new();
    assert!(b.push(b"\n\r\n \t\n").is_empty());
    assert_eq!(b.push(b"   "), Vec::<Vec<u8>>::new());
    assert_eq!(b.finish(), None);
}

#[test]
fn frames_are_data_lines() {
    assert_eq!(sse_frame("{\"x\":1}"), "data: {\"x\":1}\n\n");
    assert_eq!(done_frame(), "data: [DONE]\n\n");
}

#[test]
fn streaming_translation_scenario() {
    let mut t = StreamTranslator::new("chatcmpl-1".to_string(), 1700, "m".to_string());
    let a = t.on_chunk(chunk("he", false, None, None)).unwrap();
    let b = t.on_chunk(chunk("llo", false, None, None)).unwrap();
    let c = t.on_chunk(chunk("", true, Some(3), Some(2))).unwrap();
    for x in [&a, &b, &c] {
        assert_eq!(x.id, "chatcmpl-1");
        assert_eq!(x.created, 1700);
        assert_eq!(x.model, "m");
        assert_eq!(x.object, "chat.completion.chunk");
        assert_eq!(x.choices.len(), 1);
        assert_eq!(x.choices[0].index, 0);
        assert!(x.choices[0].delta.role.is_none());
    }
    assert_eq!(a.choices[0].delta.content, "he");
    assert_eq!(b.choices[0].delta.content, "llo");
    assert!(a.choices[0].finish_reason.is_none() && a.usage.is_none());
    assert!(b.choices[0].finish_reason.is_none() && b.usage.is_none());
    assert_eq!(c.choices[0].delta.content, "");
    assert_eq!(c.choices[0].finish_reason.as_deref(), Some("stop"));
    let u = c.usage.unwrap();
    assert_eq!((u.prompt_tokens, u.completion_tokens, u.total_tokens), (3, 2, 5));
    assert!(t.end_of_input().is_none());
    assert_eq!(t.close(), "data: [DONE]\n\n");
    assert!(t.finished);
}

#[test]
fn empty_non_final_chunks_are_suppressed() {
    let t = StreamTranslator::new("id".to_string(), 0, "m".to_string());
    assert!(t.translate(chunk("", false, None, None)).is_none());
    assert!(t.translate(chunk(" ", false, None, None)).is_some());
}

#[test]
fn terminal_counts_default_to_zero() {
    let t = StreamTranslator::new("id".to_string(), 0, "m".to_string());
    let c = t.translate(chunk("end", true, None, Some(4))).unwrap();
    let u = c.usage.unwrap();
    assert_eq!((u.prompt_tokens, u.completion_tokens, u.total_tokens), (0, 4, 4));
}

#[test]
fn stream_ends_with_done_after_partial_line() {
    let mut t = StreamTranslator::new("id".to_string(), 0, "m".to_string());
    let lines = t.on_bytes(b"{\"x\":1}\n{\"y\"");
    assert_eq!(lines, vec![b"{\"x\":1}".to_vec()]);
    assert_eq!(t.end_of_input(), Some(b"{\"y\"".to_vec()));
    assert!(!t.finished);
    assert_eq!(t.close(), "data: [DONE]\n\n");
    assert!(t.finished);
}

#[test]
fn stop_appears_only_on_done_chunk() {
    let t = StreamTranslator::new("id".to_string(), 0, "m".to_string());
    let chunks = vec![
        chunk("a", false, None, None),
        chunk("", false, None, None),
        chunk("b", false, None, None),
        chunk("", true, Some(1), Some(2)),
    ];
    let out: Vec<_> = chunks.into_iter().filter_map(|c| t.translate(c)).collect();
    assert_eq!(out.len(), 3);
    let stops = out.iter().filter(|c| c.choices[0].finish_reason.is_some()).count();
    assert_eq!(stops, 1);
    assert!(out[2].choices[0].finish_reason.is_some());
}

#[test]
fn payloads_of_frames() {
    assert_eq!(sse_payload(b"data: {\"a\":1}\n\n"), Some(b"{\"a\":1}".to_vec()));
    assert_eq!(sse_payload(b"data: [DONE]\n\n"), None);
    assert_eq!(sse_payload(b"data: x\n"), None);
    assert_eq!(sse_payload(b"event: x\n\n"), None);
    assert_eq!(sse_payload(b"data: \n\n"), Some(Vec::new()));
    assert_eq!(sse_payload(b"data: ab\n\n"), Some(b"ab".to_vec()));
}
