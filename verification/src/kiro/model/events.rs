//! The events that the upstream sends, once their frames are decoded.

use vstd::prelude::*;

verus! {

/// An event of the upstream's answer.
#[derive(Clone, Debug)]
pub enum Event {
    /// A piece of the assistant's text.
    AssistantResponse { content: String },
    /// How much of the context is in use, as the number of input tokens that
    /// the share amounts to.
    ContextUsage { input_tokens: i32 },
    /// The assistant starts to use a tool.
    ToolUseStart { tool_use_id: String, name: String },
    /// A piece of the input of a tool use, as JSON text.
    ToolUseInput { tool_use_id: String, input: String },
    /// The input of a tool use is complete.
    ToolUseEnd { tool_use_id: String },
    /// The upstream reports an error.
    Error { kind: String, message: String },
    /// The answer is complete.
    Done,
    /// An event of a kind that is not known; it is kept and passed over.
    Unknown { name: String, raw: Vec<u8> },
}

/// An event, as contracts see it.
pub enum EventModel {
    AssistantResponse { content: Seq<char> },
    ContextUsage { input_tokens: i32 },
    ToolUseStart { tool_use_id: Seq<char>, name: Seq<char> },
    ToolUseInput { tool_use_id: Seq<char>, input: Seq<char> },
    ToolUseEnd { tool_use_id: Seq<char> },
    Error { kind: Seq<char>, message: Seq<char> },
    Done,
    Unknown { name: Seq<char>, raw: Seq<u8> },
}

impl View for Event {
    type V = EventModel;

    open spec fn view(&self) -> EventModel {
        match self {
            Event::AssistantResponse { content } => EventModel::AssistantResponse {
                content: content@,
            },
            Event::ContextUsage { input_tokens } => EventModel::ContextUsage {
                input_tokens: *input_tokens,
            },
            Event::ToolUseStart { tool_use_id, name } => EventModel::ToolUseStart {
                tool_use_id: tool_use_id@,
                name: name@,
            },
            Event::ToolUseInput { tool_use_id, input } => EventModel::ToolUseInput {
                tool_use_id: tool_use_id@,
                input: input@,
            },
            Event::ToolUseEnd { tool_use_id } => EventModel::ToolUseEnd {
                tool_use_id: tool_use_id@,
            },
            Event::Error { kind, message } => EventModel::Error { kind: kind@, message: message@ },
            Event::Done => EventModel::Done,
            Event::Unknown { name, raw } => EventModel::Unknown { name: name@, raw: raw@ },
        }
    }
}

pub open spec fn event_models(v: Seq<Event>) -> Seq<EventModel> {
    v.map_values(|e: Event| e@)
}

} // verus!
