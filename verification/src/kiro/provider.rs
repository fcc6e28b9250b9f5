//! What is decided around a call of the upstream: where the request goes,
//! what the answer's status means for the credential that made the call, and
//! which kind of event a frame of the answer carries.

use vstd::prelude::*;
use crate::kiro::model::events::event_models;
use crate::kiro::model::events::Event;
use crate::kiro::model::events::EventModel;
use crate::kiro::parser::frame::Frame;
use crate::kiro::parser::frame::HeaderModel;
use crate::kiro::parser::frame::HeaderValue;
use crate::kiro::parser::frame::ValueModel;
use crate::kiro::token_manager::CallOutcome;
use crate::text::owned;
use crate::text::str_eq;

verus! {

// ------------------------------------------------------------------ addresses

/// The address of the chat endpoint in a region.
pub open spec fn chat_url_text(region: Seq<char>) -> Seq<char> {
    "https://q."@ + region + ".amazonaws.com/generateAssistantResponse"@
}

/// The address of the chat endpoint in a region.
pub fn chat_url(region: &str) -> (url: String)
    ensures
        url@ == chat_url_text(region@),
{
    let mut url = owned("https://q.");
    url.append(region);
    url.append(".amazonaws.com/generateAssistantResponse");
    url
}

/// The address at which a region tells what a credential has used.
pub open spec fn usage_limits_url_text(region: Seq<char>) -> Seq<char> {
    "https://q."@ + region
        + ".amazonaws.com/getUsageLimits?origin=AI_EDITOR&resourceType=AGENTIC_REQUEST"@
}

/// The address at which a region tells what a credential has used.
pub fn usage_limits_url(region: &str) -> (url: String)
    ensures
        url@ == usage_limits_url_text(region@),
{
    let mut url = owned("https://q.");
    url.append(region);
    url.append(".amazonaws.com/getUsageLimits?origin=AI_EDITOR&resourceType=AGENTIC_REQUEST");
    url
}

// -------------------------------------------------------------------- answers

/// What the status of an answer means for the credential, where `None` stands
/// for a call that got no answer. A status between 200 and 299 is a success,
/// 401 and 403 say that the access token was not accepted, 429 that the
/// credential is held back, 500 and above that the upstream failed. Any other
/// status is the request's own fault and means nothing for the credential.
pub open spec fn outcome_of_status(status: Option<u16>) -> Option<CallOutcome> {
    match status {
        None => Some(CallOutcome::NetworkError),
        Some(s) => if 200 <= s <= 299 {
            Some(CallOutcome::Success)
        } else if s == 401 || s == 403 {
            Some(CallOutcome::AuthExpired)
        } else if s == 429 {
            Some(CallOutcome::RateLimited)
        } else if s >= 500 {
            Some(CallOutcome::ServerError)
        } else {
            None
        },
    }
}

/// What the status of an answer means for the credential.
pub fn call_outcome(status: Option<u16>) -> (outcome: Option<CallOutcome>)
    ensures
        outcome == outcome_of_status(status),
{
    match status {
        None => Some(CallOutcome::NetworkError),
        Some(s) => {
            if 200 <= s && s <= 299 {
                Some(CallOutcome::Success)
            } else if s == 401 || s == 403 {
                Some(CallOutcome::AuthExpired)
            } else if s == 429 {
                Some(CallOutcome::RateLimited)
            } else if s >= 500 {
                Some(CallOutcome::ServerError)
            } else {
                None
            }
        },
    }
}

// --------------------------------------------------------------------- frames

/// The text of the first header from position `from` on that has the given
/// name; none if there is no such header or its value is no text.
pub open spec fn header_text_from(headers: Seq<HeaderModel>, name: Seq<char>, from: int) -> Option<
    Seq<char>,
>
    decreases headers.len() - from,
{
    if from < 0 || from >= headers.len() {
        None
    } else if headers[from].name == name {
        match headers[from].value {
            ValueModel::String(text) => Some(text),
            _ => None,
        }
    } else {
        header_text_from(headers, name, from + 1)
    }
}

/// The text of the first header that has the given name.
pub open spec fn header_text(headers: Seq<HeaderModel>, name: Seq<char>) -> Option<Seq<char>> {
    header_text_from(headers, name, 0)
}

/// The text of the first header of a frame that has the given name.
pub fn text_header(frame: &Frame, name: &str) -> (text: Option<String>)
    ensures
        match text {
            Some(t) => header_text(frame@.headers, name@) == Some(t@),
            None => header_text(frame@.headers, name@) is None,
        },
{
    let mut i: usize = 0;
    while i < frame.headers.len()
        invariant
            i <= frame.headers@.len(),
            frame@.headers.len() == frame.headers@.len(),
            header_text(frame@.headers, name@) == header_text_from(frame@.headers, name@, i as int),
        decreases frame.headers@.len() - i,
    {
        proof {
            assert(frame@.headers[i as int] == frame.headers@[i as int]@);
        }
        if str_eq(frame.headers[i].name.as_str(), name) {
            return match &frame.headers[i].value {
                HeaderValue::String(t) => Some(owned(t.as_str())),
                _ => None,
            };
        }
        i = i + 1;
    }
    None
}

/// The kind of event that a frame carries.
#[derive(Clone, Debug, PartialEq, Eq)]
pub enum FrameKind {
    /// A piece of the assistant's text.
    AssistantResponse,
    /// The share of the context in use.
    ContextUsage,
    /// A piece of a tool use.
    ToolUse,
    /// The upstream reports an error of this kind.
    Error(String),
    /// An event of a kind that is not known, by its name.
    Unknown(String),
}

/// The kind of a frame, as contracts see it.
pub enum KindModel {
    AssistantResponse,
    ContextUsage,
    ToolUse,
    Error(Seq<char>),
    Unknown(Seq<char>),
}

impl View for FrameKind {
    type V = KindModel;

    open spec fn view(&self) -> KindModel {
        match self {
            FrameKind::AssistantResponse => KindModel::AssistantResponse,
            FrameKind::ContextUsage => KindModel::ContextUsage,
            FrameKind::ToolUse => KindModel::ToolUse,
            FrameKind::Error(kind) => KindModel::Error(kind@),
            FrameKind::Unknown(name) => KindModel::Unknown(name@),
        }
    }
}

/// The kind of the event with the given name.
pub open spec fn kind_named(name: Seq<char>) -> KindModel {
    if name == "assistantResponseEvent"@ {
        KindModel::AssistantResponse
    } else if name == "contextUsageEvent"@ {
        KindModel::ContextUsage
    } else if name == "toolUseEvent"@ {
        KindModel::ToolUse
    } else {
        KindModel::Unknown(name)
    }
}

/// The kind of event that a frame with the given headers carries. A frame
/// whose message type is `error` or `exception` reports an error, of the kind
/// that its header `:exception-type` or else `:error-code` names. Any other
/// frame is known by its header `:event-type`; without one its name is
/// empty.
pub open spec fn kind_of(headers: Seq<HeaderModel>) -> KindModel {
    let message_type = header_text(headers, ":message-type"@);
    if message_type == Some("error"@) || message_type == Some("exception"@) {
        KindModel::Error(
            match header_text(headers, ":exception-type"@) {
                Some(kind) => kind,
                None => match header_text(headers, ":error-code"@) {
                    Some(code) => code,
                    None => "unknown"@,
                },
            },
        )
    } else {
        match header_text(headers, ":event-type"@) {
            Some(name) => kind_named(name),
            None => KindModel::Unknown(Seq::empty()),
        }
    }
}

/// The kind of event that a frame carries.
pub fn frame_kind(frame: &Frame) -> (kind: FrameKind)
    ensures
        kind@ == kind_of(frame@.headers),
{
    let failed = match text_header(frame, ":message-type") {
        Some(t) => str_eq(t.as_str(), "error") || str_eq(t.as_str(), "exception"),
        None => false,
    };
    if failed {
        match text_header(frame, ":exception-type") {
            Some(kind) => FrameKind::Error(kind),
            None => match text_header(frame, ":error-code") {
                Some(code) => FrameKind::Error(code),
                None => FrameKind::Error(owned("unknown")),
            },
        }
    } else {
        match text_header(frame, ":event-type") {
            Some(name) => {
                if str_eq(name.as_str(), "assistantResponseEvent") {
                    FrameKind::AssistantResponse
                } else if str_eq(name.as_str(), "contextUsageEvent") {
                    FrameKind::ContextUsage
                } else if str_eq(name.as_str(), "toolUseEvent") {
                    FrameKind::ToolUse
                } else {
                    FrameKind::Unknown(name)
                }
            },
            None => FrameKind::Unknown(String::new()),
        }
    }
}

// ------------------------------------------------------------------ tool uses

/// The events that one piece of a tool use stands for, where `open` is the
/// tool use that the pieces before it left open: the start of the tool use
/// unless it is the open one, its input unless that is empty, and its end if
/// the piece is the last.
pub open spec fn tool_events(
    tool_use_id: Seq<char>,
    name: Seq<char>,
    input: Seq<char>,
    stop: bool,
    open: Option<Seq<char>>,
) -> Seq<EventModel> {
    let start = if open == Some(tool_use_id) {
        Seq::<EventModel>::empty()
    } else {
        seq![EventModel::ToolUseStart { tool_use_id, name }]
    };
    let middle = if input.len() > 0 {
        seq![EventModel::ToolUseInput { tool_use_id, input }]
    } else {
        Seq::<EventModel>::empty()
    };
    let end = if stop {
        seq![EventModel::ToolUseEnd { tool_use_id }]
    } else {
        Seq::<EventModel>::empty()
    };
    start + middle + end
}

/// The tool use that a piece leaves open: its own, unless it is the last.
pub open spec fn open_after(tool_use_id: Seq<char>, stop: bool) -> Option<Seq<char>> {
    if stop {
        None
    } else {
        Some(tool_use_id)
    }
}

/// The events that one piece of a tool use stands for, and the tool use that
/// it leaves open.
pub fn tool_use_events(
    tool_use_id: &str,
    name: &str,
    input: &str,
    stop: bool,
    open: Option<&str>,
) -> (out: (Vec<Event>, Option<String>))
    ensures
        event_models(out.0@) == tool_events(
            tool_use_id@,
            name@,
            input@,
            stop,
            match open {
                Some(o) => Some(o@),
                None => None,
            },
        ),
        match out.1 {
            Some(o) => open_after(tool_use_id@, stop) == Some(o@),
            None => open_after(tool_use_id@, stop) is None,
        },
{
    let mut events: Vec<Event> = Vec::new();
    let is_open = match open {
        Some(o) => str_eq(o, tool_use_id),
        None => false,
    };
    if !is_open {
        events.push(Event::ToolUseStart { tool_use_id: owned(tool_use_id), name: owned(name) });
    }
    if input.unicode_len() > 0 {
        events.push(Event::ToolUseInput { tool_use_id: owned(tool_use_id), input: owned(input) });
    }
    if stop {
        events.push(Event::ToolUseEnd { tool_use_id: owned(tool_use_id) });
    }
    proof {
        assert(event_models(events@) =~= tool_events(
            tool_use_id@,
            name@,
            input@,
            stop,
            match open {
                Some(o) => Some(o@),
                None => None,
            },
        ));
    }
    let left = if stop {
        None
    } else {
        Some(owned(tool_use_id))
    };
    (events, left)
}

} // verus!
