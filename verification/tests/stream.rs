use kiro_gateway::kiro::model::events::Event;
use kiro_gateway::kiro::stream::SseEmitter;
use kiro_gateway::kiro::stream::SseEvent;
use kiro_gateway::kiro::stream::StopReason;
use kiro_gateway::kiro::translate::convert_content;
use kiro_gateway::kiro::translate::convert_request;
use kiro_gateway::kiro::translate::Content;
use kiro_gateway::kiro::translate::ContentBlock;
use kiro_gateway::kiro::translate::Message;
use kiro_gateway::kiro::translate::MessagesRequest;
use kiro_gateway::kiro::translate::Part;
use kiro_gateway::kiro::translate::ResponseCollector;
use kiro_gateway::kiro::translate::Tool;
use kiro_gateway::kiro::translate::TranslateError;

fn text(s: &str) -> Event {
    Event::AssistantResponse { content: s.to_string() }
}

fn tool_start(id: &str, name: &str) -> Event {
    Event::ToolUseStart { tool_use_id: id.to_string(), name: name.to_string() }
}

fn tool_input(id: &str, input: &str) -> Event {
    Event::ToolUseInput { tool_use_id: id.to_string(), input: input.to_string() }
}

fn tool_end(id: &str) -> Event {
    Event::ToolUseEnd { tool_use_id: id.to_string() }
}

fn shown(e: &SseEvent) -> String {
    match e {
        SseEvent::MessageStart => "start".to_string(),
        SseEvent::TextBlockStart { index } => format!("text[{}]", index),
        SseEvent::ToolBlockStart { index, tool_use_id, name } => format!("tool[{}] {} {}", index, tool_use_id, name),
        SseEvent::TextDelta { index, text } => format!("+[{}] {}", index, text),
        SseEvent::InputJsonDelta { index, partial_json } => format!("json[{}] {}", index, partial_json),
        SseEvent::ContentBlockStop { index } => format!("stop[{}]", index),
        SseEvent::MessageDelta { stop_reason, input_tokens, output_tokens } => {
            format!("delta {:?} {} {}", stop_reason, input_tokens, output_tokens)
        }
        SseEvent::MessageStop => "end".to_string(),
        SseEvent::Error { kind, message } => format!("error {} {}", kind, message),
    }
}

fn run(emitter: &mut SseEmitter, events: Vec<Event>) -> Vec<String> {
    let mut out = Vec::new();
    for e in events {
        out.extend(emitter.push(e).iter().map(shown));
    }
    out
}

/// Whether every block is stopped before the next begins and nothing follows
/// the end.
fn in_order(events: &[String]) -> bool {
    let mut open: Option<u32> = None;
    let mut next = 0u32;
    let index = |s: &str| s[s.find('[').unwrap() + 1..s.find(']').unwrap()].parse::<u32>().unwrap();
    for (i, e) in events.iter().enumerate() {
        if i == 0 {
            if e != "start" {
                return false;
            }
            continue;
        }
        if e.starts_with("text[") || e.starts_with("tool[") {
            if open.is_some() || index(e) != next {
                return false;
            }
            open = Some(next);
            next += 1;
        } else if e.starts_with("+[") || e.starts_with("json[") {
            if open != Some(index(e)) {
                return false;
            }
        } else if e.starts_with("stop[") {
            if open != Some(index(e)) {
                return false;
            }
            open = None;
        } else if e.starts_with("delta") {
            if open.is_some() {
                return false;
            }
        } else if e == "end" || e.starts_with("error") {
            if open.is_some() || i + 1 != events.len() {
                return false;
            }
        } else {
            return false;
        }
    }
    true
}

#[test]
fn a_plain_answer_is_one_block_of_text() {
    let mut emitter = SseEmitter::new();
    emitter.set_output_tokens(7);
    let out = run(
        &mut emitter,
        vec![Event::ContextUsage { input_tokens: 40 }, text("Hel"), text("lo"), text(""), Event::Done, text("late")],
    );
    assert_eq!(
        out,
        vec!["start", "text[0]", "+[0] Hel", "+[0] lo", "+[0] ", "stop[0]", "delta EndTurn 40 7", "end"]
    );
    assert!(emitter.is_finished());
    assert!(in_order(&out));
}

#[test]
fn tool_uses_get_blocks_of_their_own() {
    let mut emitter = SseEmitter::new();
    let out = run(
        &mut emitter,
        vec![
            text("Let me look."),
            tool_start("t1", "search"),
            tool_input("t1", "{\"q\":"),
            tool_input("other", "dropped"),
            tool_input("t1", "\"x\"}"),
            tool_end("other"),
            tool_end("t1"),
            tool_input("t1", "late"),
            tool_start("t2", "read"),
            text("Done."),
            Event::Unknown { name: "meteringEvent".to_string(), raw: vec![1, 2] },
            Event::Done,
        ],
    );
    assert_eq!(
        out,
        vec![
            "start",
            "text[0]",
            "+[0] Let me look.",
            "stop[0]",
            "tool[1] t1 search",
            "json[1] {\"q\":",
            "json[1] \"x\"}",
            "stop[1]",
            "tool[2] t2 read",
            "stop[2]",
            "text[3]",
            "+[3] Done.",
            "stop[3]",
            "delta ToolUse 0 0",
            "end",
        ]
    );
    assert!(in_order(&out));
}

#[test]
fn an_error_ends_the_stream() {
    let mut emitter = SseEmitter::new();
    let out = run(
        &mut emitter,
        vec![
            text("partial"),
            Event::Error { kind: "throttling".to_string(), message: "slow down".to_string() },
            text("late"),
            Event::Done,
        ],
    );
    assert_eq!(out, vec!["start", "text[0]", "+[0] partial", "stop[0]", "delta Error 0 0", "error throttling slow down"]);
    assert!(in_order(&out));
    let mut emitter = SseEmitter::new();
    let out = run(&mut emitter, vec![Event::Error { kind: "k".to_string(), message: "m".to_string() }]);
    assert_eq!(out, vec!["start", "delta Error 0 0", "error k m"]);
    let mut emitter = SseEmitter::new();
    assert_eq!(run(&mut emitter, vec![Event::Done]), vec!["start", "delta EndTurn 0 0", "end"]);
    let mut emitter = SseEmitter::new();
    assert!(run(&mut emitter, vec![tool_input("t", "x"), tool_end("t")]).is_empty());
    assert!(!emitter.is_finished());
}

#[test]
fn every_stream_is_in_order() {
    let make = |k: u32| -> Event {
        match k % 9 {
            0 => text("a"),
            1 => tool_start("t1", "n"),
            2 => tool_input("t1", "i"),
            3 => tool_end("t1"),
            4 => tool_start("t2", "m"),
            5 => tool_input("t2", "j"),
            6 => tool_end("t2"),
            7 => Event::ContextUsage { input_tokens: 1 },
            _ => Event::Unknown { name: "u".to_string(), raw: vec![] },
        }
    };
    let mut seed = 12345u32;
    for _ in 0..300 {
        let mut emitter = SseEmitter::new();
        let mut events = Vec::new();
        for _ in 0..12 {
            seed = seed.wrapping_mul(1_103_515_245).wrapping_add(12345);
            events.push(make(seed >> 16));
        }
        seed = seed.wrapping_mul(1_103_515_245).wrapping_add(12345);
        events.push(if (seed >> 16) % 2 == 0 { Event::Done } else { Event::Error { kind: "k".to_string(), message: "m".to_string() } });
        let out = run(&mut emitter, events);
        assert!(in_order(&out), "out of order: {:?}", out);
    }
}

#[test]
fn events_go_by_their_wire_names() {
    assert_eq!(SseEvent::MessageStart.name(), "message_start");
    assert_eq!(SseEvent::TextBlockStart { index: 0 }.name(), "content_block_start");
    assert_eq!(
        SseEvent::ToolBlockStart { index: 0, tool_use_id: String::new(), name: String::new() }.name(),
        "content_block_start"
    );
    assert_eq!(SseEvent::TextDelta { index: 0, text: String::new() }.name(), "content_block_delta");
    assert_eq!(
        SseEvent::InputJsonDelta { index: 0, partial_json: String::new() }.name(),
        "content_block_delta"
    );
    assert_eq!(SseEvent::ContentBlockStop { index: 0 }.name(), "content_block_stop");
    assert_eq!(
        SseEvent::MessageDelta { stop_reason: StopReason::EndTurn, input_tokens: 0, output_tokens: 0 }.name(),
        "message_delta"
    );
    assert_eq!(SseEvent::MessageStop.name(), "message_stop");
    assert_eq!(SseEvent::Error { kind: String::new(), message: String::new() }.name(), "error");
}

#[test]
fn a_buffered_answer_collects_text_and_tool_uses() {
    let mut collector = ResponseCollector::new();
    for e in vec![
        text("Hel"),
        Event::ContextUsage { input_tokens: 55 },
        tool_start("t1", "search"),
        tool_input("t1", "{\"q\":"),
        text("lo"),
        tool_start("t2", "read"),
        tool_input("t1", "1}"),
        tool_input("t2", "{}"),
        tool_input("t3", "dropped"),
        tool_end("t1"),
        Event::Unknown { name: "x".to_string(), raw: vec![] },
        Event::Done,
        text(" late"),
        tool_start("t9", "late"),
    ] {
        collector.push(e);
    }
    let message = collector.finish(9);
    assert_eq!(message.role, "assistant");
    assert_eq!(message.text, "Hello");
    let tools: Vec<(String, String, String)> =
        message.tool_uses.iter().map(|t| (t.id.clone(), t.name.clone(), t.input.clone())).collect();
    assert_eq!(
        tools,
        vec![
            ("t1".to_string(), "search".to_string(), "{\"q\":1}".to_string()),
            ("t2".to_string(), "read".to_string(), "{}".to_string()),
        ]
    );
    assert_eq!(message.stop_reason, StopReason::ToolUse);
    assert_eq!((message.input_tokens, message.output_tokens), (55, 9));
    let mut plain = ResponseCollector::new();
    plain.push(text("only text"));
    let message = plain.finish(1);
    assert_eq!(message.stop_reason, StopReason::EndTurn);
    assert!(message.tool_uses.is_empty());
    let mut failed = ResponseCollector::new();
    failed.push(text("partial"));
    failed.push(Event::Error { kind: "k".to_string(), message: "m".to_string() });
    failed.push(text("late"));
    let message = failed.finish(0);
    assert_eq!(message.stop_reason, StopReason::Error);
    assert_eq!(message.text, "partial");
}

fn request(messages: Vec<Message>, system: Option<&str>, tools: Option<Vec<Tool>>) -> MessagesRequest {
    MessagesRequest {
        model: "sonnet".to_string(),
        max_tokens: 32,
        messages,
        system: system.map(|s| s.to_string()),
        tools,
        stream: false,
    }
}

fn plain(role: &str, text: &str) -> Message {
    Message { role: role.to_string(), content: Content::Plain(text.to_string()) }
}

#[test]
fn a_request_is_translated() {
    let blocks = Content::Blocks(vec![
        ContentBlock::Text { text: "see".to_string() },
        ContentBlock::ToolUse { id: "t1".to_string(), name: "search".to_string(), input: "{}".to_string() },
        ContentBlock::ToolResult { tool_use_id: "t1".to_string(), content: "found".to_string() },
    ]);
    let tools = vec![
        Tool { name: Some("search".to_string()), description: Some("finds".to_string()), input_schema: "{}".to_string() },
        Tool { name: Some("read".to_string()), description: None, input_schema: "{\"type\":\"object\"}".to_string() },
    ];
    let state = convert_request(&request(
        vec![plain("user", "Say hello."), Message { role: "assistant".to_string(), content: blocks }],
        Some("Be brief."),
        Some(tools),
    ))
    .unwrap();
    assert_eq!(state.model, "sonnet");
    assert_eq!(state.system_messages, vec!["Be brief.".to_string()]);
    assert_eq!(state.messages.len(), 2);
    assert_eq!(state.messages[0].role, "user");
    assert!(matches!(&state.messages[0].parts[..], [Part::Text { text }] if text == "Say hello."));
    assert_eq!(state.messages[1].role, "assistant");
    assert_eq!(state.messages[1].parts.len(), 3);
    assert!(matches!(&state.messages[1].parts[1], Part::ToolUse { tool_use_id, name, input }
        if tool_use_id == "t1" && name == "search" && input == "{}"));
    assert!(matches!(&state.messages[1].parts[2], Part::ToolResult { tool_use_id, content }
        if tool_use_id == "t1" && content == "found"));
    assert_eq!(state.tools.len(), 2);
    assert_eq!((state.tools[0].name.as_str(), state.tools[0].description.as_str()), ("search", "finds"));
    assert_eq!((state.tools[1].name.as_str(), state.tools[1].description.as_str()), ("read", ""));
    assert_eq!(state.tools[1].input_schema, "{\"type\":\"object\"}");
    let bare = convert_request(&request(vec![], None, None)).unwrap();
    assert!(bare.system_messages.is_empty() && bare.messages.is_empty() && bare.tools.is_empty());
}

#[test]
fn requests_that_cannot_be_translated_are_refused() {
    let image = Content::Blocks(vec![
        ContentBlock::Text { text: "see".to_string() },
        ContentBlock::Other { kind: "image".to_string() },
    ]);
    assert!(convert_content(&image).is_none());
    assert_eq!(
        convert_request(&request(
            vec![plain("user", "hi"), Message { role: "user".to_string(), content: image }],
            None,
            None
        ))
        .unwrap_err(),
        TranslateError::UnsupportedContentBlock
    );
    let nameless = vec![Tool { name: None, description: None, input_schema: "{}".to_string() }];
    assert_eq!(
        convert_request(&request(vec![plain("user", "hi")], None, Some(nameless))).unwrap_err(),
        TranslateError::MissingToolName
    );
    let empty_name = vec![
        Tool { name: Some("ok".to_string()), description: None, input_schema: "{}".to_string() },
        Tool { name: Some(String::new()), description: None, input_schema: "{}".to_string() },
    ];
    assert_eq!(
        convert_request(&request(vec![plain("user", "hi")], None, Some(empty_name))).unwrap_err(),
        TranslateError::MissingToolName
    );
    assert_eq!(convert_content(&Content::Blocks(vec![])).unwrap().len(), 0);
}
