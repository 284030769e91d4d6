use reason::{
    Backend, Call, Event, Function, Id, Message, Output, Reasoning, Reply, Response, Tool,
    file_stem, wire_messages,
};

#[test]
fn detect_picks_backend_by_vendor_marker() {
    assert_eq!(Backend::detect("NVIDIA GeForce RTX 4090"), Backend::Cuda);
    assert_eq!(Backend::detect("AMD Radeon RX 7900"), Backend::Rocm);
    assert_eq!(Backend::detect("Intel Arc A770"), Backend::Cpu);
    assert_eq!(Backend::detect(""), Backend::Cpu);
    // The NVIDIA marker wins over a later AMD mention.
    assert_eq!(Backend::detect("NVIDIA on AMD chipset"), Backend::Cuda);
}

#[test]
fn uses_gpu_only_for_accelerators() {
    assert!(Backend::Cuda.uses_gpu());
    assert!(Backend::Rocm.uses_gpu());
    assert!(!Backend::Cpu.uses_gpu());
}

#[test]
fn file_stem_cases() {
    assert_eq!(file_stem("models/llama-3.gguf"), "llama-3");
    assert_eq!(file_stem("/a/b/c.d.e"), "c.d");
    assert_eq!(file_stem(".hidden"), ".hidden");
    assert_eq!(file_stem("trailing."), "trailing");
    assert_eq!(file_stem("plain"), "plain");
    assert_eq!(file_stem(""), "");
}

#[test]
fn message_constructors_carry_text() {
    let system = Message::system("be brief");
    let user = Message::user("hello");
    let wires = wire_messages(&[system], &[user]);
    assert_eq!(wires.len(), 2);
    assert_eq!(wires[0].role, "system");
    assert_eq!(wires[0].content.as_deref(), Some("be brief"));
    assert_eq!(wires[1].role, "user");
    assert_eq!(wires[1].content.as_deref(), Some("hello"));
}

#[test]
fn wire_shapes_per_message_kind() {
    let reasoning = Message::Assistant(Output::Reasoning(Reasoning {
        text: "thought".to_string(),
        duration: 12,
    }));
    let answer = Message::Assistant(Output::Message("plain".to_string()));
    let calls = Message::Assistant(Output::ToolCalls(vec![Call::Function {
        id: Id::new("c7".to_string()),
        name: "get".to_string(),
        arguments: "{}".to_string(),
    }]));
    let tool = Message::Tool(Response { id: Id::new("c7".to_string()), content: "42".to_string() });
    let wires = wire_messages(&[reasoning, answer, calls, tool], &[]);

    assert_eq!(wires[0].role, "assistant");
    assert_eq!(wires[0].content.as_deref(), Some("thought"));
    assert!(wires[0].tool_calls.is_empty());

    assert_eq!(wires[1].role, "assistant");
    assert_eq!(wires[1].content.as_deref(), Some("plain"));

    assert_eq!(wires[2].role, "assistant");
    assert_eq!(wires[2].content, None);
    assert_eq!(wires[2].tool_calls.len(), 1);
    match &wires[2].tool_calls[0] {
        Call::Function { id, name, arguments } => {
            assert_eq!(id.as_str(), "c7");
            assert_eq!(name, "get");
            assert_eq!(arguments, "{}");
        }
    }

    assert_eq!(wires[3].role, "tool");
    assert_eq!(wires[3].content.as_deref(), Some("42"));
    assert_eq!(wires[3].tool_call_id.as_ref().map(|id| id.as_str()), Some("c7"));
}

fn tool_call_events() -> Vec<Event> {
    vec![
        Event::OutputAdded { output: Output::ToolCalls(Vec::new()) },
        Event::ToolCallAdded {
            id: Id::new("c1".to_string()),
            name: "calc".to_string(),
            arguments: "{\"a\":".to_string(),
        },
        Event::ArgumentsChanged { delta: "1}".to_string(), duration: 3 },
    ]
}

#[test]
fn arguments_concatenate_without_separators() {
    let mut reply = Reply::new();
    for event in tool_call_events() {
        reply.update(&event);
    }
    assert_eq!(reply.outputs.len(), 1);
    match &reply.outputs[0] {
        Output::ToolCalls(calls) => match &calls[0] {
            Call::Function { arguments, .. } => assert_eq!(arguments, "{\"a\":1}"),
        },
        other => panic!("expected tool calls, got {other:?}"),
    }
}

fn output_digest(output: &Output) -> String {
    match output {
        Output::Reasoning(r) => format!("reasoning:{}:{}", r.text, r.duration),
        Output::Message(t) => format!("message:{t}"),
        Output::ToolCalls(calls) => {
            let parts: Vec<String> = calls
                .iter()
                .map(|c| match c {
                    Call::Function { id, name, arguments } => {
                        format!("{}|{}|{}", id.as_str(), name, arguments)
                    }
                })
                .collect();
            format!("calls:{}", parts.join(","))
        }
    }
}

#[test]
fn reply_fold_is_split_insensitive() {
    let events: Vec<Event> = vec![
        Event::OutputAdded {
            output: Output::Reasoning(Reasoning { text: String::new(), duration: 0 }),
        },
        Event::TextChanged { delta: "th".to_string(), duration: 1 },
        Event::TextChanged { delta: "inking".to_string(), duration: 2 },
        Event::OutputAdded { output: Output::Message(String::new()) },
        Event::TextChanged { delta: "answer".to_string(), duration: 5 },
        Event::OutputAdded { output: Output::ToolCalls(Vec::new()) },
        Event::ToolCallAdded {
            id: Id::new("c1".to_string()),
            name: "f".to_string(),
            arguments: "[".to_string(),
        },
        Event::ArgumentsChanged { delta: "]".to_string(), duration: 9 },
    ];
    for split in 0..=events.len() {
        let mut by_parts = Reply::new();
        for event in &events[..split] {
            by_parts.update(event);
        }
        for event in &events[split..] {
            by_parts.update(event);
        }
        let mut at_once = Reply::new();
        for event in &events {
            at_once.update(event);
        }
        let a: Vec<String> = by_parts.outputs.iter().map(output_digest).collect();
        let b: Vec<String> = at_once.outputs.iter().map(output_digest).collect();
        assert_eq!(a, b);
    }
}

#[test]
fn stray_events_are_dropped_not_faulted() {
    let mut reply = Reply::new();
    // No output yet: text and argument deltas fall on the floor.
    reply.update(&Event::TextChanged { delta: "x".to_string(), duration: 0 });
    reply.update(&Event::ArgumentsChanged { delta: "y".to_string(), duration: 0 });
    assert!(reply.outputs.is_empty());
    // A text delta aimed at a tool-call output is ignored.
    reply.update(&Event::OutputAdded { output: Output::ToolCalls(Vec::new()) });
    reply.update(&Event::TextChanged { delta: "x".to_string(), duration: 0 });
    match &reply.outputs[0] {
        Output::ToolCalls(calls) => assert!(calls.is_empty()),
        other => panic!("expected tool calls, got {other:?}"),
    }
    // A call added while a message is current is ignored too.
    let mut reply = Reply::new();
    reply.update(&Event::OutputAdded { output: Output::Message(String::new()) });
    reply.update(&Event::ToolCallAdded {
        id: Id::new("c1".to_string()),
        name: "f".to_string(),
        arguments: String::new(),
    });
    match &reply.outputs[0] {
        Output::Message(text) => assert_eq!(text, ""),
        other => panic!("expected a message, got {other:?}"),
    }
}

#[test]
fn text_changed_updates_reasoning_duration() {
    let mut reply = Reply::new();
    reply.update(&Event::OutputAdded {
        output: Output::Reasoning(Reasoning { text: String::new(), duration: 0 }),
    });
    reply.update(&Event::TextChanged { delta: "deep".to_string(), duration: 250 });
    match &reply.outputs[0] {
        Output::Reasoning(r) => {
            assert_eq!(r.text, "deep");
            assert_eq!(r.duration, 250);
        }
        other => panic!("expected reasoning, got {other:?}"),
    }
}

#[test]
fn output_and_event_text_accessors() {
    let reasoning = Output::Reasoning(Reasoning { text: "why".to_string(), duration: 1 });
    assert_eq!(reasoning.text(), Some("why"));
    assert_eq!(Output::Message("hi".to_string()).text(), Some("hi"));
    assert_eq!(Output::ToolCalls(Vec::new()).text(), None);

    assert_eq!(Event::OutputAdded { output: reasoning }.text(), Some("why"));
    assert_eq!(
        Event::TextChanged { delta: "d".to_string(), duration: 0 }.text(),
        Some("d")
    );
    assert_eq!(
        Event::ToolCallAdded {
            id: Id::new("i".to_string()),
            name: "n".to_string(),
            arguments: String::new(),
        }
        .text(),
        None
    );
    assert_eq!(
        Event::ArgumentsChanged { delta: "a".to_string(), duration: 0 }.text(),
        None
    );
}

#[test]
fn tools_carry_their_schema() {
    let tool = Tool::Function {
        function: Function {
            name: "lookup".to_string(),
            description: "look a thing up".to_string(),
            parameters: skema::Schema::Null,
        },
    };
    match tool {
        Tool::Function { function } => {
            assert_eq!(function.name, "lookup");
            assert_eq!(function.description, "look a thing up");
            assert!(matches!(function.parameters, skema::Schema::Null));
        }
    }
}
