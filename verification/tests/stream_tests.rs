use reason::{Classifier, Completion, Delta, Event, Id, LineBuffer, Mode, Output, Reply};

fn text_delta(s: &str) -> Delta {
    Delta::Text { content: s.to_string() }
}

/// A compact signature of an event, for comparing sequences.
fn sig(e: &Event) -> String {
    match e {
        Event::OutputAdded { output } => match output {
            Output::Reasoning(r) => format!("+reasoning({})", r.text),
            Output::Message(t) => format!("+message({t})"),
            Output::ToolCalls(calls) => format!("+calls({})", calls.len()),
        },
        Event::TextChanged { delta, .. } => format!("text({delta})"),
        Event::ToolCallAdded { id, name, arguments } => {
            format!("call({},{},{})", id.as_str(), name, arguments)
        }
        Event::ArgumentsChanged { delta, .. } => format!("args({delta})"),
    }
}

#[test]
fn line_buffer_joins_split_lines() {
    let mut buffer = LineBuffer::new();
    assert!(buffer.feed(b"ab").is_empty());
    let lines = buffer.feed(b"c\nde");
    assert_eq!(lines, vec![b"abc".to_vec()]);
    let lines = buffer.feed(b"\n");
    assert_eq!(lines, vec![b"de".to_vec()]);
}

#[test]
fn line_buffer_handles_exact_newline_boundary() {
    let mut buffer = LineBuffer::new();
    let lines = buffer.feed(b"one\ntwo\n");
    assert_eq!(lines, vec![b"one".to_vec(), b"two".to_vec()]);
    assert!(buffer.feed(b"three").is_empty());
    assert_eq!(buffer.feed(b"\n"), vec![b"three".to_vec()]);
}

#[test]
fn line_buffer_empty_lines_come_through() {
    let mut buffer = LineBuffer::new();
    let lines = buffer.feed(b"\n\nx\n");
    assert_eq!(lines, vec![b"".to_vec(), b"".to_vec(), b"x".to_vec()]);
}

#[test]
fn classifier_marker_sequence() {
    let mut classifier = Classifier::new();
    let mut sigs: Vec<String> = Vec::new();
    for (delta, now) in [
        (text_delta("<think>"), 10),
        (text_delta("a"), 20),
        (text_delta("</think>"), 30),
        (text_delta("b"), 45),
    ] {
        for e in classifier.step(&delta, now) {
            sigs.push(sig(&e));
        }
    }
    // The close marker opens the message output for the final answer
    // without emitting the marker text itself.
    assert_eq!(
        sigs,
        vec!["+reasoning()", "text(a)", "+message()", "text(b)"]
    );
}

#[test]
fn classifier_durations_report_time_in_mode() {
    let mut classifier = Classifier::new();
    classifier.step(&text_delta("<think>"), 100);
    let events = classifier.step(&text_delta("a"), 250);
    match &events[0] {
        Event::TextChanged { duration, .. } => assert_eq!(*duration, 150),
        _ => panic!("expected a text event"),
    }
    // The close marker restarts the clock.
    classifier.step(&text_delta("</think>"), 300);
    let events = classifier.step(&text_delta("b"), 360);
    match &events[0] {
        Event::TextChanged { duration, .. } => assert_eq!(*duration, 60),
        _ => panic!("expected a text event"),
    }
}

#[test]
fn classifier_opens_message_when_idle() {
    let mut classifier = Classifier::new();
    let events = classifier.step(&text_delta("hi"), 5);
    let sigs: Vec<String> = events.iter().map(sig).collect();
    assert_eq!(sigs, vec!["+message()", "text(hi)"]);
    assert_eq!(classifier.mode, Some(Mode::Messaging));
}

#[test]
fn classifier_drops_text_while_tool_calling() {
    let mut classifier = Classifier::new();
    let new_call = Delta::ToolCallNew {
        id: Id::new("c1".to_string()),
        name: "get".to_string(),
        arguments: String::new(),
    };
    let events = classifier.step(&new_call, 0);
    let sigs: Vec<String> = events.iter().map(sig).collect();
    assert_eq!(sigs, vec!["+calls(0)", "call(c1,get,)"]);
    assert!(classifier.step(&text_delta("stray"), 1).is_empty());
}

#[test]
fn classifier_tool_updates_extend_current_call() {
    let mut classifier = Classifier::new();
    classifier.step(
        &Delta::ToolCallNew {
            id: Id::new("c1".to_string()),
            name: "get".to_string(),
            arguments: "{".to_string(),
        },
        0,
    );
    let events = classifier.step(&Delta::ToolCallUpdate { arguments: "}".to_string() }, 7);
    let sigs: Vec<String> = events.iter().map(sig).collect();
    assert_eq!(sigs, vec!["args(})"]);
}

const SSE_PAYLOAD: &[u8] = b"data: {\"choices\":[{\"delta\":{\"content\":\"<think>\"}}]}\n\
data: {\"choices\":[{\"delta\":{\"content\":\"pondering\"}}]}\n\
data: {\"choices\":[{\"delta\":{\"content\":\"</think>\"}}]}\n\
data: {\"choices\":[{\"delta\":{\"content\":\"answer\"}}]}\n\
data: {\"choices\":[{\"delta\":{\"tool_calls\":[{\"id\":\"call-9\",\"function\":{\"name\":\"lookup\",\"arguments\":\"{\\\"a\\\":\"}}]}}]}\n\
data: {\"choices\":[{\"delta\":{\"tool_calls\":[{\"function\":{\"arguments\":\"1}\"}}]}}]}\n\
data: [DONE]\n";

fn run_completion(chunks: &[&[u8]]) -> Vec<String> {
    let mut completion = Completion::new();
    let mut sigs: Vec<String> = Vec::new();
    for chunk in chunks {
        for e in completion.feed_chunk(chunk, 0) {
            sigs.push(sig(&e));
        }
    }
    sigs
}

fn expected_sigs() -> Vec<String> {
    vec![
        "+reasoning()".to_string(),
        "text(pondering)".to_string(),
        "+message()".to_string(),
        "text(answer)".to_string(),
        "+calls(0)".to_string(),
        "call(call-9,lookup,{\"a\":)".to_string(),
        "args(1})".to_string(),
    ]
}

#[test]
fn completion_parses_whole_payload_at_once() {
    assert_eq!(run_completion(&[SSE_PAYLOAD]), expected_sigs());
}

#[test]
fn completion_one_byte_chunks_equal_one_chunk() {
    let byte_chunks: Vec<&[u8]> = SSE_PAYLOAD.chunks(1).collect();
    assert_eq!(run_completion(&byte_chunks), run_completion(&[SSE_PAYLOAD]));
}

#[test]
fn completion_uneven_chunks_equal_one_chunk() {
    let chunks: Vec<&[u8]> = SSE_PAYLOAD.chunks(7).collect();
    assert_eq!(run_completion(&chunks), run_completion(&[SSE_PAYLOAD]));
}

#[test]
fn completion_skips_malformed_and_terminator_lines() {
    let noisy: &[u8] = b"data: not json at all\n\
: comment\n\
data: [DONE]\n\
data: {\"choices\":[]}\n\
data: {\"choices\":[{\"delta\":{\"content\":\"ok\"}}]}\n";
    let sigs = run_completion(&[noisy]);
    assert_eq!(sigs, vec!["+message()".to_string(), "text(ok)".to_string()]);
}

#[test]
fn classifier_marker_inside_reasoning_is_plain_text() {
    // An open marker seen while already reasoning is not a transition:
    // the delta is emitted as ordinary reasoning text, marker and all.
    let mut classifier = Classifier::new();
    classifier.step(&text_delta("<think>"), 0);
    let events = classifier.step(&text_delta("so <think> is literal"), 1);
    let sigs: Vec<String> = events.iter().map(sig).collect();
    assert_eq!(sigs, vec!["text(so <think> is literal)"]);
}

#[test]
fn classifier_reopens_reasoning_from_messaging() {
    let mut classifier = Classifier::new();
    let mut sigs: Vec<String> = Vec::new();
    for delta in ["a", "<think>", "b"] {
        for e in classifier.step(&text_delta(delta), 0) {
            sigs.push(sig(&e));
        }
    }
    assert_eq!(
        sigs,
        vec!["+message()", "text(a)", "+reasoning()", "text(b)"]
    );
    assert_eq!(classifier.mode, Some(Mode::Reasoning));
}

#[test]
fn completion_empty_chunks_change_nothing() {
    let mut completion = Completion::new();
    assert!(completion.feed_chunk(b"", 0).is_empty());
    completion.feed_chunk(b"data: {\"choices\":[{\"delta\":{\"content\":\"hi\"", 0);
    assert!(completion.feed_chunk(b"", 1).is_empty());
    let events = completion.feed_chunk(b"}}]}\n", 2);
    let sigs: Vec<String> = events.iter().map(sig).collect();
    assert_eq!(sigs, vec!["+message()", "text(hi)"]);
}

#[test]
fn tool_call_split_across_chunks_reassembles() {
    let first = b"data: {\"choices\":[{\"delta\":{\"tool_calls\":[{\"id\":\"c2\",\"fun";
    let second = b"ction\":{\"name\":\"sum\",\"arguments\":\"[1,\"}}]}}]}\ndata: {\"choices\":[{\"delta\":{\"tool_calls\":[{\"function\":{\"arguments\":\"2]\"}}]}}]}\n";
    let mut completion = Completion::new();
    let mut sigs: Vec<String> = Vec::new();
    for e in completion.feed_chunk(first, 0) {
        sigs.push(sig(&e));
    }
    for e in completion.feed_chunk(second, 1) {
        sigs.push(sig(&e));
    }
    assert_eq!(
        sigs,
        vec!["+calls(0)", "call(c2,sum,[1,)", "args(2])"]
    );
}

#[test]
fn completion_ignores_lines_without_the_data_prefix() {
    // A long enough line whose suffix would decode still produces
    // nothing unless its first five bytes are the data prefix.
    let noisy: &[u8] = b"note: {\"choices\":[{\"delta\":{\"content\":\"no\"}}]}\ndata: {\"choices\":[{\"delta\":{\"content\":\"yes\"}}]}\n";
    let sigs = run_completion(&[noisy]);
    assert_eq!(sigs, vec!["+message()".to_string(), "text(yes)".to_string()]);
}

#[test]
fn reply_separates_reasoning_from_answer() {
    // Folding the canonical stream's events leaves the answer in its
    // own message output, not inside the reasoning text.
    let mut completion = Completion::new();
    let mut reply = Reply::new();
    for event in completion.feed_chunk(SSE_PAYLOAD, 0) {
        reply.update(&event);
    }
    assert_eq!(reply.outputs.len(), 3);
    match &reply.outputs[0] {
        Output::Reasoning(r) => assert_eq!(r.text, "pondering"),
        other => panic!("expected reasoning first, got {other:?}"),
    }
    match &reply.outputs[1] {
        Output::Message(text) => assert_eq!(text, "answer"),
        other => panic!("expected the answer as a message, got {other:?}"),
    }
    assert!(matches!(&reply.outputs[2], Output::ToolCalls(calls) if calls.len() == 1));
}
