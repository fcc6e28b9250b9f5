use kiro_gateway::admin::handlers::hex_char;
use kiro_gateway::admin::handlers::hex_text;
use kiro_gateway::admin::handlers::read_answer;
use kiro_gateway::admin::handlers::test_request;
use kiro_gateway::api_key_store::ApiKeyStore;
use kiro_gateway::kiro::model::credentials::KiroCredentials;
use kiro_gateway::kiro::model::events::Event;
use kiro_gateway::kiro::parser::frame::Frame;
use kiro_gateway::kiro::parser::frame::Header;
use kiro_gateway::kiro::parser::frame::HeaderValue;
use kiro_gateway::kiro::provider::call_outcome;
use kiro_gateway::kiro::provider::chat_url;
use kiro_gateway::kiro::provider::frame_kind;
use kiro_gateway::kiro::provider::text_header;
use kiro_gateway::kiro::provider::tool_use_events;
use kiro_gateway::kiro::provider::usage_limits_url;
use kiro_gateway::kiro::provider::FrameKind;
use kiro_gateway::kiro::token_manager::with_refresh;
use kiro_gateway::kiro::token_manager::CallOutcome;
use kiro_gateway::kiro::translate::convert_request;
use kiro_gateway::kiro::translate::Content;
use kiro_gateway::kiro::translate::Part;
use kiro_gateway::kiro::translate::TranslateError;
use kiro_gateway::model::config::Config;
use kiro_gateway::sync::manager::proxy_from_config;
use kiro_gateway::sync::types::DeviceCommand;
use kiro_gateway::sync::websocket::command_plan;
use kiro_gateway::sync::websocket::credential_to_add;
use kiro_gateway::sync::websocket::CommandPlan;

fn text(name: &str, value: &str) -> Header {
    Header { name: name.to_string(), value: HeaderValue::String(value.to_string()) }
}

fn frame(headers: Vec<Header>) -> Frame {
    Frame { headers, payload: b"{}".to_vec() }
}

fn credential(refresh_token: &str) -> KiroCredentials {
    KiroCredentials {
        id: Some(4),
        access_token: Some("old-access".to_string()),
        refresh_token: Some(refresh_token.to_string()),
        profile_arn: Some("arn".to_string()),
        expires_at: Some("2026-01-01T00:00:00Z".to_string()),
        auth_method: Some("social".to_string()),
        client_id: None,
        client_secret: None,
        priority: 3,
        region: Some("us-east-1".to_string()),
        auth_region: None,
        api_region: None,
        machine_id: None,
        email: Some("a@b.c".to_string()),
        proxy_url: None,
        proxy_username: None,
        proxy_password: None,
        disabled: false,
    }
}

#[test]
fn the_upstream_is_reached_in_the_region() {
    assert_eq!(chat_url("us-east-1"), "https://q.us-east-1.amazonaws.com/generateAssistantResponse");
    assert_eq!(
        usage_limits_url("eu-west-1"),
        "https://q.eu-west-1.amazonaws.com/getUsageLimits?origin=AI_EDITOR&resourceType=AGENTIC_REQUEST"
    );
}

#[test]
fn a_status_says_what_the_call_means_for_the_credential() {
    assert_eq!(call_outcome(None), Some(CallOutcome::NetworkError));
    assert_eq!(call_outcome(Some(200)), Some(CallOutcome::Success));
    assert_eq!(call_outcome(Some(299)), Some(CallOutcome::Success));
    assert_eq!(call_outcome(Some(401)), Some(CallOutcome::AuthExpired));
    assert_eq!(call_outcome(Some(403)), Some(CallOutcome::AuthExpired));
    assert_eq!(call_outcome(Some(429)), Some(CallOutcome::RateLimited));
    assert_eq!(call_outcome(Some(500)), Some(CallOutcome::ServerError));
    assert_eq!(call_outcome(Some(503)), Some(CallOutcome::ServerError));
    assert_eq!(call_outcome(Some(400)), None);
    assert_eq!(call_outcome(Some(404)), None);
    assert_eq!(call_outcome(Some(199)), None);
    assert_eq!(call_outcome(Some(302)), None);
}

#[test]
fn the_first_header_of_a_name_counts() {
    let f = frame(vec![
        text(":content-type", "application/json"),
        text(":event-type", "assistantResponseEvent"),
        text(":event-type", "toolUseEvent"),
        Header { name: ":count".to_string(), value: HeaderValue::Int32(3) },
    ]);
    assert_eq!(text_header(&f, ":event-type").as_deref(), Some("assistantResponseEvent"));
    assert_eq!(text_header(&f, ":content-type").as_deref(), Some("application/json"));
    assert_eq!(text_header(&f, ":count"), None);
    assert_eq!(text_header(&f, ":missing"), None);
    assert_eq!(text_header(&frame(Vec::new()), ":event-type"), None);
}

#[test]
fn a_frame_is_known_by_its_headers() {
    let kind = |headers: Vec<Header>| frame_kind(&frame(headers));
    assert_eq!(
        kind(vec![text(":message-type", "event"), text(":event-type", "assistantResponseEvent")]),
        FrameKind::AssistantResponse
    );
    assert_eq!(kind(vec![text(":event-type", "contextUsageEvent")]), FrameKind::ContextUsage);
    assert_eq!(kind(vec![text(":event-type", "toolUseEvent")]), FrameKind::ToolUse);
    assert_eq!(kind(vec![text(":event-type", "meteringEvent")]), FrameKind::Unknown("meteringEvent".to_string()));
    assert_eq!(kind(Vec::new()), FrameKind::Unknown(String::new()));
    assert_eq!(
        kind(vec![text(":message-type", "exception"), text(":exception-type", "ThrottlingException")]),
        FrameKind::Error("ThrottlingException".to_string())
    );
    assert_eq!(
        kind(vec![text(":message-type", "error"), text(":error-code", "E42"), text(":event-type", "toolUseEvent")]),
        FrameKind::Error("E42".to_string())
    );
    assert_eq!(kind(vec![text(":message-type", "error")]), FrameKind::Error("unknown".to_string()));
}

fn shown(events: &[Event]) -> Vec<String> {
    events
        .iter()
        .map(|e| match e {
            Event::ToolUseStart { tool_use_id, name } => format!("start {} {}", tool_use_id, name),
            Event::ToolUseInput { tool_use_id, input } => format!("input {} {}", tool_use_id, input),
            Event::ToolUseEnd { tool_use_id } => format!("end {}", tool_use_id),
            _ => "other".to_string(),
        })
        .collect()
}

#[test]
fn the_pieces_of_a_tool_use_become_its_events() {
    let (events, open) = tool_use_events("t1", "search", "", false, None);
    assert_eq!(shown(&events), vec!["start t1 search"]);
    assert_eq!(open.as_deref(), Some("t1"));
    let (events, open) = tool_use_events("t1", "search", "{\"q\":", false, Some("t1"));
    assert_eq!(shown(&events), vec!["input t1 {\"q\":"]);
    assert_eq!(open.as_deref(), Some("t1"));
    let (events, open) = tool_use_events("t1", "search", "1}", true, Some("t1"));
    assert_eq!(shown(&events), vec!["input t1 1}", "end t1"]);
    assert_eq!(open, None);
    let (events, open) = tool_use_events("t2", "read", "{}", true, Some("t1"));
    assert_eq!(shown(&events), vec!["start t2 read", "input t2 {}", "end t2"]);
    assert_eq!(open, None);
    let (events, open) = tool_use_events("t3", "read", "", true, Some("t3"));
    assert_eq!(shown(&events), vec!["end t3"]);
    assert_eq!(open, None);
}

#[test]
fn a_connectivity_test_asks_one_short_question() {
    let request = test_request("some-model");
    assert_eq!(request.model, "some-model");
    assert_eq!(request.max_tokens, 32);
    assert!(!request.stream);
    assert!(request.system.is_none());
    assert!(request.tools.is_none());
    assert_eq!(request.messages.len(), 1);
    assert_eq!(request.messages[0].role, "user");
    match &request.messages[0].content {
        Content::Plain(t) => assert_eq!(t, "Say hello in one short sentence."),
        Content::Blocks(_) => panic!("plain text expected"),
    }
    let state = convert_request(&request).unwrap();
    assert_eq!(state.model, "some-model");
    assert!(state.system_messages.is_empty());
    assert!(state.tools.is_empty());
    assert_eq!(state.messages.len(), 1);
    assert_eq!(state.messages[0].role, "user");
    match &state.messages[0].parts[..] {
        [Part::Text { text }] => assert_eq!(text, "Say hello in one short sentence."),
        _ => panic!("one part of text expected"),
    }
}

#[test]
fn translation_errors_have_words() {
    assert_eq!(TranslateError::UnsupportedContentBlock.message(), "unsupported content block");
    assert_eq!(TranslateError::MissingToolName.message(), "a tool has no name");
}

#[test]
fn an_answer_is_read_from_its_events() {
    let events = vec![
        Event::AssistantResponse { content: "Hel".to_string() },
        Event::ContextUsage { input_tokens: 7 },
        Event::Unknown { name: "meteringEvent".to_string(), raw: vec![1, 2] },
        Event::AssistantResponse { content: "lo!".to_string() },
        Event::ContextUsage { input_tokens: 12 },
    ];
    assert_eq!(read_answer(events), ("Hello!".to_string(), Some(12)));
    assert_eq!(read_answer(Vec::new()), (String::new(), None));
    assert_eq!(
        read_answer(vec![Event::AssistantResponse { content: "x".to_string() }]),
        ("x".to_string(), None)
    );
    let after_the_end = vec![
        Event::AssistantResponse { content: "a".to_string() },
        Event::Done,
        Event::AssistantResponse { content: "b".to_string() },
    ];
    assert_eq!(read_answer(after_the_end).0, "a");
}

#[test]
fn bytes_are_written_in_lower_case_hexadecimal() {
    assert_eq!(hex_text(&Vec::new()), "");
    assert_eq!(hex_text(&vec![0x00, 0x0f, 0x10, 0xab, 0xff]), "000f10abff");
    let all: Vec<u8> = (0..=255).collect();
    assert_eq!(hex_text(&all), hex::encode(&all));
    let digits: String = (0..16).map(hex_char).collect();
    assert_eq!(digits, "0123456789abcdef");
}

#[test]
fn a_store_without_ids_left_adds_nothing() {
    let mut full = ApiKeyStore::from_parts(u64::MAX, Vec::new());
    assert_eq!(full.try_add("sk-a".to_string(), "a".to_string(), false, None), None);
    assert!(full.is_empty());
    assert_eq!(full.next_id(), u64::MAX);
    let mut store = ApiKeyStore::from_parts(u64::MAX - 1, Vec::new());
    assert_eq!(store.try_add("sk-a".to_string(), "a".to_string(), true, None), Some(u64::MAX - 1));
    assert_eq!(store.next_id(), u64::MAX);
    assert_eq!(store.list().len(), 1);
    assert!(store.authenticate("sk-a").is_some());
    assert_eq!(store.try_add("sk-b".to_string(), "b".to_string(), false, None), None);
    assert_eq!(store.list().len(), 1);
}

#[test]
fn the_proxy_of_a_configuration() {
    let mut config = Config::default();
    config.proxy_url = None;
    config.proxy_username = Some("u".to_string());
    config.proxy_password = Some("p".to_string());
    assert!(proxy_from_config(&config).is_none());
    config.proxy_url = Some("socks5://h:1".to_string());
    let proxy = proxy_from_config(&config).unwrap();
    assert_eq!(proxy.url, "socks5://h:1");
    assert_eq!(proxy.username.as_deref(), Some("u"));
    assert_eq!(proxy.password.as_deref(), Some("p"));
    config.proxy_password = None;
    let proxy = proxy_from_config(&config).unwrap();
    assert_eq!(proxy.url, "socks5://h:1");
    assert_eq!(proxy.username, None);
    assert_eq!(proxy.password, None);
}

#[test]
fn only_an_added_credential_goes_through_a_refresh() {
    let add = DeviceCommand::AddCredential { credential: credential("r"), command_id: "c1".to_string() };
    let delete = DeviceCommand::DeleteCredential { credential_id: 4, command_id: "c2".to_string() };
    let disable = DeviceCommand::SetDisabled { credential_id: 4, disabled: true, command_id: "c3".to_string() };
    assert_eq!(command_plan(&add), CommandPlan::RefreshThenAdd);
    assert_eq!(command_plan(&delete), CommandPlan::Apply);
    assert_eq!(command_plan(&disable), CommandPlan::Apply);
    let c = credential_to_add(&add).unwrap();
    assert_eq!(c.refresh_token.as_deref(), Some("r"));
    assert_eq!(c.priority, 3);
    assert_eq!(c.email.as_deref(), Some("a@b.c"));
    assert!(credential_to_add(&delete).is_none());
    assert!(credential_to_add(&disable).is_none());
}

#[test]
fn a_refresh_replaces_the_tokens_and_nothing_else() {
    let out = with_refresh(
        credential("old-refresh"),
        "new-access".to_string(),
        Some("new-refresh".to_string()),
        "2026-02-02T00:00:00Z".to_string(),
    );
    assert_eq!(out.access_token.as_deref(), Some("new-access"));
    assert_eq!(out.refresh_token.as_deref(), Some("new-refresh"));
    assert_eq!(out.expires_at.as_deref(), Some("2026-02-02T00:00:00Z"));
    assert_eq!(out.id, Some(4));
    assert_eq!(out.profile_arn.as_deref(), Some("arn"));
    assert_eq!(out.auth_method.as_deref(), Some("social"));
    assert_eq!(out.priority, 3);
    assert_eq!(out.region.as_deref(), Some("us-east-1"));
    assert_eq!(out.email.as_deref(), Some("a@b.c"));
    assert!(!out.disabled);
    let kept = with_refresh(credential("old-refresh"), "n".to_string(), None, "t".to_string());
    assert_eq!(kept.access_token.as_deref(), Some("n"));
    assert_eq!(kept.refresh_token.as_deref(), Some("old-refresh"));
    assert_eq!(kept.expires_at.as_deref(), Some("t"));
}
