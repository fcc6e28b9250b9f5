//! The translators: a canonical request becomes the request that the upstream
//! takes, and the upstream's events become the canonical answer.

use vstd::prelude::*;
use crate::kiro::model::events::Event;
use crate::kiro::model::events::EventModel;
use crate::kiro::stream::closing;
use crate::kiro::stream::initial;
use crate::kiro::stream::opening;
use crate::kiro::stream::run;
use crate::kiro::stream::step;
use crate::kiro::stream::EmitterModel;
use crate::kiro::stream::SseModel;
use crate::kiro::stream::StopReason;
use crate::text::owned;
use crate::text::str_eq;
use crate::text::text_of;

verus! {

// ---------------------------------------------------------------- requests

/// A block of structured content.
#[derive(Clone, Debug)]
pub enum ContentBlock {
    Text { text: String },
    /// The assistant used a tool; the input is JSON text.
    ToolUse { id: String, name: String, input: String },
    /// What a tool gave back.
    ToolResult { tool_use_id: String, content: String },
    /// A block of a kind that is not supported.
    Other { kind: String },
}

pub enum BlockModel {
    Text { text: Seq<char> },
    ToolUse { id: Seq<char>, name: Seq<char>, input: Seq<char> },
    ToolResult { tool_use_id: Seq<char>, content: Seq<char> },
    Other { kind: Seq<char> },
}

impl View for ContentBlock {
    type V = BlockModel;

    open spec fn view(&self) -> BlockModel {
        match self {
            ContentBlock::Text { text } => BlockModel::Text { text: text@ },
            ContentBlock::ToolUse { id, name, input } => BlockModel::ToolUse {
                id: id@,
                name: name@,
                input: input@,
            },
            ContentBlock::ToolResult { tool_use_id, content } => BlockModel::ToolResult {
                tool_use_id: tool_use_id@,
                content: content@,
            },
            ContentBlock::Other { kind } => BlockModel::Other { kind: kind@ },
        }
    }
}

pub open spec fn block_models(v: Seq<ContentBlock>) -> Seq<BlockModel> {
    v.map_values(|b: ContentBlock| b@)
}

/// The content of a message: plain text, or blocks.
#[derive(Clone, Debug)]
pub enum Content {
    Plain(String),
    Blocks(Vec<ContentBlock>),
}

pub enum ContentModel {
    Plain(Seq<char>),
    Blocks(Seq<BlockModel>),
}

impl View for Content {
    type V = ContentModel;

    open spec fn view(&self) -> ContentModel {
        match self {
            Content::Plain(t) => ContentModel::Plain(t@),
            Content::Blocks(b) => ContentModel::Blocks(block_models(b@)),
        }
    }
}

/// A message of a conversation.
#[derive(Clone, Debug)]
pub struct Message {
    pub role: String,
    pub content: Content,
}

pub struct MessageModel {
    pub role: Seq<char>,
    pub content: ContentModel,
}

impl View for Message {
    type V = MessageModel;

    open spec fn view(&self) -> MessageModel {
        MessageModel { role: self.role@, content: self.content@ }
    }
}

pub open spec fn message_models(v: Seq<Message>) -> Seq<MessageModel> {
    v.map_values(|m: Message| m@)
}

/// A tool that the assistant may use. The input schema is JSON text.
#[derive(Clone, Debug)]
pub struct Tool {
    pub name: Option<String>,
    pub description: Option<String>,
    pub input_schema: String,
}

pub struct ToolModel {
    pub name: Option<Seq<char>>,
    pub description: Option<Seq<char>>,
    pub input_schema: Seq<char>,
}

impl View for Tool {
    type V = ToolModel;

    open spec fn view(&self) -> ToolModel {
        ToolModel {
            name: text_of(self.name),
            description: text_of(self.description),
            input_schema: self.input_schema@,
        }
    }
}

pub open spec fn tool_models(v: Seq<Tool>) -> Seq<ToolModel> {
    v.map_values(|t: Tool| t@)
}

/// A canonical request.
#[derive(Clone, Debug)]
pub struct MessagesRequest {
    pub model: String,
    pub max_tokens: u32,
    pub messages: Vec<Message>,
    pub system: Option<String>,
    pub tools: Option<Vec<Tool>>,
    pub stream: bool,
}

/// A part of an upstream message.
#[derive(Clone, Debug)]
pub enum Part {
    Text { text: String },
    ToolUse { tool_use_id: String, name: String, input: String },
    ToolResult { tool_use_id: String, content: String },
}

pub enum PartModel {
    Text { text: Seq<char> },
    ToolUse { tool_use_id: Seq<char>, name: Seq<char>, input: Seq<char> },
    ToolResult { tool_use_id: Seq<char>, content: Seq<char> },
}

impl View for Part {
    type V = PartModel;

    open spec fn view(&self) -> PartModel {
        match self {
            Part::Text { text } => PartModel::Text { text: text@ },
            Part::ToolUse { tool_use_id, name, input } => PartModel::ToolUse {
                tool_use_id: tool_use_id@,
                name: name@,
                input: input@,
            },
            Part::ToolResult { tool_use_id, content } => PartModel::ToolResult {
                tool_use_id: tool_use_id@,
                content: content@,
            },
        }
    }
}

pub open spec fn part_models(v: Seq<Part>) -> Seq<PartModel> {
    v.map_values(|p: Part| p@)
}

/// A message as the upstream takes it.
#[derive(Clone, Debug)]
pub struct UpstreamMessage {
    pub role: String,
    pub parts: Vec<Part>,
}

pub struct UpstreamMessageModel {
    pub role: Seq<char>,
    pub parts: Seq<PartModel>,
}

impl View for UpstreamMessage {
    type V = UpstreamMessageModel;

    open spec fn view(&self) -> UpstreamMessageModel {
        UpstreamMessageModel { role: self.role@, parts: part_models(self.parts@) }
    }
}

pub open spec fn upstream_message_models(v: Seq<UpstreamMessage>) -> Seq<UpstreamMessageModel> {
    v.map_values(|m: UpstreamMessage| m@)
}

/// A tool as the upstream takes it.
#[derive(Clone, Debug)]
pub struct UpstreamTool {
    pub name: String,
    pub description: String,
    pub input_schema: String,
}

pub struct UpstreamToolModel {
    pub name: Seq<char>,
    pub description: Seq<char>,
    pub input_schema: Seq<char>,
}

impl View for UpstreamTool {
    type V = UpstreamToolModel;

    open spec fn view(&self) -> UpstreamToolModel {
        UpstreamToolModel {
            name: self.name@,
            description: self.description@,
            input_schema: self.input_schema@,
        }
    }
}

pub open spec fn upstream_tool_models(v: Seq<UpstreamTool>) -> Seq<UpstreamToolModel> {
    v.map_values(|t: UpstreamTool| t@)
}

/// The state of a conversation as the upstream takes it.
#[derive(Clone, Debug)]
pub struct ConversationState {
    pub model: String,
    pub system_messages: Vec<String>,
    pub messages: Vec<UpstreamMessage>,
    pub tools: Vec<UpstreamTool>,
}

pub struct ConversationModel {
    pub model: Seq<char>,
    pub system_messages: Seq<Seq<char>>,
    pub messages: Seq<UpstreamMessageModel>,
    pub tools: Seq<UpstreamToolModel>,
}

impl View for ConversationState {
    type V = ConversationModel;

    open spec fn view(&self) -> ConversationModel {
        ConversationModel {
            model: self.model@,
            system_messages: self.system_messages@.map_values(|s: String| s@),
            messages: upstream_message_models(self.messages@),
            tools: upstream_tool_models(self.tools@),
        }
    }
}

/// Why a request cannot be translated.
#[derive(Clone, Copy, Debug, PartialEq, Eq, Structural)]
pub enum TranslateError {
    UnsupportedContentBlock,
    MissingToolName,
}

impl TranslateError {
    /// The error in words.
    pub open spec fn text(self) -> Seq<char> {
        match self {
            TranslateError::UnsupportedContentBlock => "unsupported content block"@,
            TranslateError::MissingToolName => "a tool has no name"@,
        }
    }

    /// The error in words.
    pub fn message(&self) -> (message: String)
        ensures
            message@ == self.text(),
    {
        match self {
            TranslateError::UnsupportedContentBlock => owned("unsupported content block"),
            TranslateError::MissingToolName => owned("a tool has no name"),
        }
    }
}

/// The part that a block becomes; none for a block that is not supported.
pub open spec fn part_of(b: BlockModel) -> Option<PartModel> {
    match b {
        BlockModel::Text { text } => Some(PartModel::Text { text }),
        BlockModel::ToolUse { id, name, input } => Some(
            PartModel::ToolUse { tool_use_id: id, name, input },
        ),
        BlockModel::ToolResult { tool_use_id, content } => Some(
            PartModel::ToolResult { tool_use_id, content },
        ),
        BlockModel::Other { .. } => None,
    }
}

/// The parts that blocks become, if every block is supported.
pub open spec fn parts_of(bs: Seq<BlockModel>) -> Option<Seq<PartModel>>
    decreases bs.len(),
{
    if bs.len() == 0 {
        Some(Seq::empty())
    } else {
        match (parts_of(bs.drop_last()), part_of(bs.last())) {
            (Some(ps), Some(p)) => Some(ps.push(p)),
            _ => None,
        }
    }
}

/// The parts that a content becomes: plain text becomes a single part of
/// text; blocks pass through.
pub open spec fn content_parts(c: ContentModel) -> Option<Seq<PartModel>> {
    match c {
        ContentModel::Plain(text) => Some(seq![PartModel::Text { text }]),
        ContentModel::Blocks(bs) => parts_of(bs),
    }
}

/// The messages as the upstream takes them, if every block is supported.
pub open spec fn messages_of(ms: Seq<MessageModel>) -> Option<Seq<UpstreamMessageModel>>
    decreases ms.len(),
{
    if ms.len() == 0 {
        Some(Seq::empty())
    } else {
        match (messages_of(ms.drop_last()), content_parts(ms.last().content)) {
            (Some(out), Some(parts)) => Some(
                out.push(UpstreamMessageModel { role: ms.last().role, parts }),
            ),
            _ => None,
        }
    }
}

/// The tools as the upstream takes them, if every tool has a name that is not
/// empty. A tool without a description gets an empty one.
pub open spec fn tools_of(ts: Seq<ToolModel>) -> Option<Seq<UpstreamToolModel>>
    decreases ts.len(),
{
    if ts.len() == 0 {
        Some(Seq::empty())
    } else {
        match (tools_of(ts.drop_last()), ts.last().name) {
            (Some(out), Some(name)) => if name.len() > 0 {
                Some(
                    out.push(
                        UpstreamToolModel {
                            name,
                            description: match ts.last().description {
                                Some(d) => d,
                                None => Seq::empty(),
                            },
                            input_schema: ts.last().input_schema,
                        },
                    ),
                )
            } else {
                None
            },
            _ => None,
        }
    }
}

/// The models of optional tools.
pub open spec fn optional_tools(tools: Option<Vec<Tool>>) -> Option<Seq<ToolModel>> {
    match tools {
        Some(ts) => Some(tool_models(ts@)),
        None => None,
    }
}

/// What a canonical request becomes. The system prompt, if there is one, is
/// the first and only system message.
pub open spec fn translated(
    model: Seq<char>,
    system: Option<Seq<char>>,
    messages: Seq<MessageModel>,
    tools: Option<Seq<ToolModel>>,
) -> Result<ConversationModel, TranslateError> {
    match messages_of(messages) {
        None => Err(TranslateError::UnsupportedContentBlock),
        Some(ms) => match tools_of(
            match tools {
                Some(ts) => ts,
                None => Seq::empty(),
            },
        ) {
            None => Err(TranslateError::MissingToolName),
            Some(ts) => Ok(
                ConversationModel {
                    model,
                    system_messages: match system {
                        Some(s) => seq![s],
                        None => Seq::empty(),
                    },
                    messages: ms,
                    tools: ts,
                },
            ),
        },
    }
}

/// The parts that a content becomes.
pub fn convert_content(content: &Content) -> (out: Option<Vec<Part>>)
    ensures
        match out {
            Some(parts) => content_parts(content@) == Some(part_models(parts@)),
            None => content_parts(content@) is None,
        },
{
    let mut parts: Vec<Part> = Vec::new();
    match content {
        Content::Plain(text) => {
            parts.push(Part::Text { text: text.clone() });
            proof {
                assert(part_models(parts@) =~= seq![PartModel::Text { text: text@ }]);
            }
            Some(parts)
        },
        Content::Blocks(blocks) => {
            let ghost bs = block_models(blocks@);
            let mut i: usize = 0;
            proof {
                assert(bs.take(0) =~= Seq::<BlockModel>::empty());
                assert(part_models(parts@) =~= Seq::<PartModel>::empty());
            }
            while i < blocks.len()
                invariant
                    i <= blocks.len(),
                    bs == block_models(blocks@),
                    content@ == ContentModel::Blocks(bs),
                    parts_of(bs.take(i as int)) == Some(part_models(parts@)),
                decreases blocks.len() - i,
            {
                let ghost before = part_models(parts@);
                proof {
                    assert(bs[i as int] == blocks@[i as int]@);
                    assert(bs.take(i + 1).drop_last() =~= bs.take(i as int));
                    assert(bs.take(i + 1).last() == bs[i as int]);
                }
                let part = match &blocks[i] {
                    ContentBlock::Text { text } => Part::Text { text: text.clone() },
                    ContentBlock::ToolUse { id, name, input } => Part::ToolUse {
                        tool_use_id: id.clone(),
                        name: name.clone(),
                        input: input.clone(),
                    },
                    ContentBlock::ToolResult { tool_use_id, content } => Part::ToolResult {
                        tool_use_id: tool_use_id.clone(),
                        content: content.clone(),
                    },
                    ContentBlock::Other { .. } => {
                        proof {
                            lemma_parts_fail(bs, i + 1);
                        }
                        return None;
                    },
                };
                let ghost shown = part@;
                parts.push(part);
                proof {
                    assert(part_models(parts@) =~= before.push(shown));
                }
                i = i + 1;
            }
            proof {
                assert(bs.take(bs.len() as int) =~= bs);
            }
            Some(parts)
        },
    }
}

/// Blocks that begin with blocks that cannot be translated cannot be
/// translated.
pub proof fn lemma_parts_fail(bs: Seq<BlockModel>, k: int)
    requires
        0 <= k <= bs.len(),
        parts_of(bs.take(k)) is None,
    ensures
        parts_of(bs) is None,
    decreases bs.len() - k,
{
    if k < bs.len() {
        assert(bs.take(k + 1).drop_last() =~= bs.take(k));
        lemma_parts_fail(bs, k + 1);
    } else {
        assert(bs.take(k) =~= bs);
    }
}

/// Messages that begin with messages that cannot be translated cannot be
/// translated.
pub proof fn lemma_messages_fail(ms: Seq<MessageModel>, k: int)
    requires
        0 <= k <= ms.len(),
        messages_of(ms.take(k)) is None,
    ensures
        messages_of(ms) is None,
    decreases ms.len() - k,
{
    if k < ms.len() {
        assert(ms.take(k + 1).drop_last() =~= ms.take(k));
        lemma_messages_fail(ms, k + 1);
    } else {
        assert(ms.take(k) =~= ms);
    }
}

/// Tools that begin with tools that cannot be translated cannot be
/// translated.
pub proof fn lemma_tools_fail(ts: Seq<ToolModel>, k: int)
    requires
        0 <= k <= ts.len(),
        tools_of(ts.take(k)) is None,
    ensures
        tools_of(ts) is None,
    decreases ts.len() - k,
{
    if k < ts.len() {
        assert(ts.take(k + 1).drop_last() =~= ts.take(k));
        lemma_tools_fail(ts, k + 1);
    } else {
        assert(ts.take(k) =~= ts);
    }
}

/// Translates a canonical request.
pub fn convert_request(request: &MessagesRequest) -> (out: Result<ConversationState, TranslateError>)
    ensures
        match out {
            Ok(state) => translated(
                request.model@,
                text_of(request.system),
                message_models(request.messages@),
                optional_tools(request.tools),
            ) == Ok::<ConversationModel, TranslateError>(state@),
            Err(e) => translated(
                request.model@,
                text_of(request.system),
                message_models(request.messages@),
                optional_tools(request.tools),
            ) == Err::<ConversationModel, TranslateError>(e),
        },
{
    let ghost ms = message_models(request.messages@);
    let mut messages: Vec<UpstreamMessage> = Vec::new();
    let mut i: usize = 0;
    proof {
        assert(ms.take(0) =~= Seq::<MessageModel>::empty());
        assert(upstream_message_models(messages@) =~= Seq::<UpstreamMessageModel>::empty());
    }
    while i < request.messages.len()
        invariant
            i <= request.messages.len(),
            ms == message_models(request.messages@),
            messages_of(ms.take(i as int)) == Some(upstream_message_models(messages@)),
        decreases request.messages.len() - i,
    {
        let ghost before = upstream_message_models(messages@);
        proof {
            assert(ms[i as int] == request.messages@[i as int]@);
            assert(ms.take(i + 1).drop_last() =~= ms.take(i as int));
            assert(ms.take(i + 1).last() == ms[i as int]);
        }
        match convert_content(&request.messages[i].content) {
            Some(parts) => {
                let m = UpstreamMessage { role: request.messages[i].role.clone(), parts };
                let ghost shown = m@;
                messages.push(m);
                proof {
                    assert(upstream_message_models(messages@) =~= before.push(shown));
                }
            },
            None => {
                proof {
                    lemma_messages_fail(ms, i + 1);
                }
                return Err(TranslateError::UnsupportedContentBlock);
            },
        }
        i = i + 1;
    }
    proof {
        assert(ms.take(ms.len() as int) =~= ms);
    }
    let mut tools: Vec<UpstreamTool> = Vec::new();
    let ghost ts = match optional_tools(request.tools) {
        Some(t) => t,
        None => Seq::empty(),
    };
    proof {
        assert(upstream_tool_models(tools@) =~= Seq::<UpstreamToolModel>::empty());
    }
    match &request.tools {
        Some(given) => {
            let mut k: usize = 0;
            proof {
                assert(ts.take(0) =~= Seq::<ToolModel>::empty());
            }
            while k < given.len()
                invariant
                    k <= given.len(),
                    ts == tool_models(given@),
                    optional_tools(request.tools) == Some(ts),
                    ms == message_models(request.messages@),
                    messages_of(ms) is Some,
                    tools_of(ts.take(k as int)) == Some(upstream_tool_models(tools@)),
                decreases given.len() - k,
            {
                let ghost before = upstream_tool_models(tools@);
                proof {
                    assert(ts[k as int] == given@[k as int]@);
                    assert(ts.take(k + 1).drop_last() =~= ts.take(k as int));
                    assert(ts.take(k + 1).last() == ts[k as int]);
                }
                let name = match &given[k].name {
                    Some(n) => {
                        if n.as_str().unicode_len() == 0 {
                            proof {
                                lemma_tools_fail(ts, k + 1);
                            }
                            return Err(TranslateError::MissingToolName);
                        }
                        n.clone()
                    },
                    None => {
                        proof {
                            lemma_tools_fail(ts, k + 1);
                        }
                        return Err(TranslateError::MissingToolName);
                    },
                };
                let t = UpstreamTool {
                    name,
                    description: match &given[k].description {
                        Some(d) => d.clone(),
                        None => String::new(),
                    },
                    input_schema: given[k].input_schema.clone(),
                };
                let ghost shown = t@;
                tools.push(t);
                proof {
                    assert(upstream_tool_models(tools@) =~= before.push(shown));
                }
                k = k + 1;
            }
            proof {
                assert(ts.take(ts.len() as int) =~= ts);
            }
        },
        None => {},
    }
    let mut system_messages: Vec<String> = Vec::new();
    match &request.system {
        Some(s) => {
            system_messages.push(s.clone());
            proof {
                assert(system_messages@.map_values(|s: String| s@) =~= seq![s@]);
            }
        },
        None => {
            proof {
                assert(system_messages@.map_values(|s: String| s@) =~= Seq::<Seq<char>>::empty());
            }
        },
    }
    Ok(ConversationState { model: request.model.clone(), system_messages, messages, tools })
}

/// A request that is translated keeps its roles: the upstream gets as many
/// messages as the request has, each with the role it had.
pub proof fn lemma_roles_kept(ms: Seq<MessageModel>, i: int)
    requires
        messages_of(ms) is Some,
        0 <= i < ms.len(),
    ensures
        messages_of(ms)->0.len() == ms.len(),
        messages_of(ms)->0[i].role == ms[i].role,
    decreases ms.len(),
{
    let front = ms.drop_last();
    lemma_len_kept(ms);
    if i < front.len() {
        lemma_len_kept(front);
        lemma_roles_kept(front, i);
    }
}

/// A request that is translated keeps the number of its messages.
pub proof fn lemma_len_kept(ms: Seq<MessageModel>)
    requires
        messages_of(ms) is Some,
    ensures
        messages_of(ms)->0.len() == ms.len(),
    decreases ms.len(),
{
    if ms.len() > 0 {
        lemma_len_kept(ms.drop_last());
    }
}

// ----------------------------------------------------------------- answers

/// The use of a tool in an answer. The input is JSON text.
#[derive(Clone, Debug)]
pub struct ToolUse {
    pub id: String,
    pub name: String,
    pub input: String,
}

pub struct ToolUseModel {
    pub id: Seq<char>,
    pub name: Seq<char>,
    pub input: Seq<char>,
}

impl View for ToolUse {
    type V = ToolUseModel;

    open spec fn view(&self) -> ToolUseModel {
        ToolUseModel { id: self.id@, name: self.name@, input: self.input@ }
    }
}

pub open spec fn tool_use_models(v: Seq<ToolUse>) -> Seq<ToolUseModel> {
    v.map_values(|t: ToolUse| t@)
}

/// The canonical answer: the assistant's text in one block, the tool uses,
/// the reason why the answer ended, and the tokens it used.
#[derive(Clone, Debug)]
pub struct AssistantMessage {
    pub role: String,
    pub text: String,
    pub tool_uses: Vec<ToolUse>,
    pub stop_reason: StopReason,
    pub input_tokens: i32,
    pub output_tokens: i32,
}

/// The answer so far, as contracts see it.
pub struct AnswerModel {
    pub text: Seq<char>,
    pub tool_uses: Seq<ToolUseModel>,
    pub failed: bool,
    pub finished: bool,
    pub input_tokens: i32,
}

/// An answer before the first event.
pub open spec fn no_answer() -> AnswerModel {
    AnswerModel {
        text: Seq::empty(),
        tool_uses: Seq::empty(),
        failed: false,
        finished: false,
        input_tokens: 0,
    }
}

/// The index of the first of the first `n` tool uses with the given id.
pub open spec fn tool_at(ts: Seq<ToolUseModel>, id: Seq<char>, n: int) -> Option<int>
    decreases n,
{
    if n <= 0 {
        None
    } else {
        match tool_at(ts, id, n - 1) {
            Some(i) => Some(i),
            None => if ts[n - 1].id == id {
                Some(n - 1)
            } else {
                None
            },
        }
    }
}

/// The answer after one more event. Text is added to the text; a tool use is
/// added to the tool uses, and its input grows with each piece that names its
/// id; the share of the context in use tells the input tokens. The end of the
/// answer or an error ends it, and what comes later changes nothing.
pub open spec fn absorbed(a: AnswerModel, e: EventModel) -> AnswerModel {
    if a.finished {
        a
    } else {
        match e {
            EventModel::AssistantResponse { content } => AnswerModel { text: a.text + content, ..a },
            EventModel::ContextUsage { input_tokens } => AnswerModel { input_tokens, ..a },
            EventModel::ToolUseStart { tool_use_id, name } => AnswerModel {
                tool_uses: a.tool_uses.push(
                    ToolUseModel { id: tool_use_id, name, input: Seq::empty() },
                ),
                ..a
            },
            EventModel::ToolUseInput { tool_use_id, input } => match tool_at(
                a.tool_uses,
                tool_use_id,
                a.tool_uses.len() as int,
            ) {
                Some(i) => AnswerModel {
                    tool_uses: a.tool_uses.update(
                        i,
                        ToolUseModel { input: a.tool_uses[i].input + input, ..a.tool_uses[i] },
                    ),
                    ..a
                },
                None => a,
            },
            EventModel::ToolUseEnd { .. } => a,
            EventModel::Error { .. } => AnswerModel { failed: true, finished: true, ..a },
            EventModel::Done => AnswerModel { finished: true, ..a },
            EventModel::Unknown { .. } => a,
        }
    }
}

/// The answer after a run of events.
pub open spec fn collected(a: AnswerModel, events: Seq<EventModel>) -> AnswerModel
    decreases events.len(),
{
    if events.len() == 0 {
        a
    } else {
        absorbed(collected(a, events.drop_last()), events.last())
    }
}

/// Why an answer ended.
pub open spec fn stop_reason_of(a: AnswerModel) -> StopReason {
    if a.failed {
        StopReason::Error
    } else if a.tool_uses.len() > 0 {
        StopReason::ToolUse
    } else {
        StopReason::EndTurn
    }
}

/// The collector of a buffered answer.
pub struct ResponseCollector {
    text: String,
    tool_uses: Vec<ToolUse>,
    failed: bool,
    finished: bool,
    input_tokens: i32,
}

impl View for ResponseCollector {
    type V = AnswerModel;

    closed spec fn view(&self) -> AnswerModel {
        AnswerModel {
            text: self.text@,
            tool_uses: tool_use_models(self.tool_uses@),
            failed: self.failed,
            finished: self.finished,
            input_tokens: self.input_tokens,
        }
    }
}

impl ResponseCollector {
    /// A collector before the first event.
    pub fn new() -> (collector: Self)
        ensures
            collector@ == no_answer(),
    {
        let collector = ResponseCollector {
            text: String::new(),
            tool_uses: Vec::new(),
            failed: false,
            finished: false,
            input_tokens: 0,
        };
        proof {
            assert(tool_use_models(collector.tool_uses@) =~= Seq::<ToolUseModel>::empty());
        }
        collector
    }

    /// Takes an upstream event.
    pub fn push(&mut self, event: Event)
        ensures
            final(self)@ == absorbed(old(self)@, event@),
    {
        if self.finished {
            return ;
        }
        let ghost tools = tool_use_models(self.tool_uses@);
        match event {
            Event::AssistantResponse { content } => {
                self.text.append(content.as_str());
            },
            Event::ContextUsage { input_tokens } => {
                self.input_tokens = input_tokens;
            },
            Event::ToolUseStart { tool_use_id, name } => {
                let t = ToolUse { id: tool_use_id, name, input: String::new() };
                let ghost shown = t@;
                self.tool_uses.push(t);
                proof {
                    assert(tool_use_models(self.tool_uses@) =~= tools.push(shown));
                }
            },
            Event::ToolUseInput { tool_use_id, input } => {
                let mut i: usize = 0;
                let mut found: Option<usize> = None;
                while i < self.tool_uses.len() && found.is_none()
                    invariant
                        i <= self.tool_uses.len(),
                        tools == tool_use_models(self.tool_uses@),
                        self@ == old(self)@,
                        match found {
                            Some(f) => tool_at(tools, tool_use_id@, i as int) == Some(f as int)
                                && f < i,
                            None => tool_at(tools, tool_use_id@, i as int) is None,
                        },
                    decreases self.tool_uses.len() - i + if found is None {
                        1int
                    } else {
                        0
                    },
                {
                    proof {
                        assert(tools[i as int] == self.tool_uses@[i as int]@);
                    }
                    if str_eq(self.tool_uses[i].id.as_str(), tool_use_id.as_str()) {
                        found = Some(i);
                    }
                    i = i + 1;
                }
                proof {
                    lemma_tool_at_stable(tools, tool_use_id@, i as int);
                }
                match found {
                    Some(f) => {
                        proof {
                            assert(tools[f as int] == self.tool_uses@[f as int]@);
                        }
                        let mut t = self.tool_uses.remove(f);
                        t.input.append(input.as_str());
                        let ghost shown = t@;
                        self.tool_uses.insert(f, t);
                        proof {
                            assert(tool_use_models(self.tool_uses@) =~= tools.update(
                                f as int,
                                shown,
                            ));
                        }
                    },
                    None => {},
                }
            },
            Event::ToolUseEnd { .. } => {},
            Event::Error { .. } => {
                self.failed = true;
                self.finished = true;
            },
            Event::Done => {
                self.finished = true;
            },
            Event::Unknown { .. } => {},
        }
    }

    /// The canonical answer, with the given estimate of the output tokens.
    pub fn finish(self, output_tokens: i32) -> (message: AssistantMessage)
        ensures
            message.role@ == "assistant"@,
            message.text@ == self@.text,
            tool_use_models(message.tool_uses@) == self@.tool_uses,
            message.stop_reason == stop_reason_of(self@),
            message.input_tokens == self@.input_tokens,
            message.output_tokens == output_tokens,
    {
        let stop_reason = if self.failed {
            StopReason::Error
        } else if self.tool_uses.len() > 0 {
            StopReason::ToolUse
        } else {
            StopReason::EndTurn
        };
        AssistantMessage {
            role: owned("assistant"),
            text: self.text,
            tool_uses: self.tool_uses,
            stop_reason,
            input_tokens: self.input_tokens,
            output_tokens,
        }
    }
}

/// Once a tool use is found among the first entries it is the one found among
/// all.
pub proof fn lemma_tool_at_stable(ts: Seq<ToolUseModel>, id: Seq<char>, k: int)
    requires
        0 <= k <= ts.len(),
        tool_at(ts, id, k) is Some || k == ts.len(),
    ensures
        tool_at(ts, id, ts.len() as int) == tool_at(ts, id, k),
    decreases ts.len() - k,
{
    if k < ts.len() {
        lemma_tool_at_stable(ts, id, k + 1);
    }
}

/// The text of the events: the pieces of the assistant's text up to the end
/// of the answer, one after another.
pub open spec fn text_of_events(events: Seq<EventModel>) -> Seq<char> {
    collected(no_answer(), events).text
}

/// The canonical answer has the text that the events hold, piece after
/// piece: an answer made of pieces of text alone is their concatenation.
pub proof fn lemma_text_is_concatenation(events: Seq<EventModel>, content: Seq<char>)
    requires
        !collected(no_answer(), events).finished,
    ensures
        text_of_events(events.push(EventModel::AssistantResponse { content })) == text_of_events(
            events,
        ) + content,
{
    let more = events.push(EventModel::AssistantResponse { content });
    assert(more.drop_last() =~= events);
}

/// The id and the name of each tool use.
pub open spec fn tool_heads(ts: Seq<ToolUseModel>) -> Seq<(Seq<char>, Seq<char>)> {
    Seq::new(ts.len(), |i: int| (ts[i].id, ts[i].name))
}

/// The id and the name of each tool use that the events start before the
/// answer ends, in order.
pub open spec fn tool_starts(events: Seq<EventModel>) -> Seq<(Seq<char>, Seq<char>)>
    decreases events.len(),
{
    if events.len() == 0 {
        Seq::empty()
    } else if collected(no_answer(), events.drop_last()).finished {
        tool_starts(events.drop_last())
    } else {
        match events.last() {
            EventModel::ToolUseStart { tool_use_id, name } => tool_starts(events.drop_last()).push(
                (tool_use_id, name),
            ),
            _ => tool_starts(events.drop_last()),
        }
    }
}

/// The canonical answer names the tool uses that the events start, with their
/// ids, in the order in which they start.
pub proof fn lemma_tool_uses_kept(events: Seq<EventModel>)
    ensures
        tool_heads(collected(no_answer(), events).tool_uses) == tool_starts(events),
    decreases events.len(),
{
    if events.len() > 0 {
        let front = events.drop_last();
        lemma_tool_uses_kept(front);
        let before = collected(no_answer(), front);
        let after = collected(no_answer(), events);
        if !before.finished {
            match events.last() {
                EventModel::ToolUseStart { tool_use_id, name } => {
                    assert(tool_heads(after.tool_uses) =~= tool_heads(before.tool_uses).push(
                        (tool_use_id, name),
                    ));
                },
                EventModel::ToolUseInput { tool_use_id, input } => {
                    lemma_tool_at(
                        before.tool_uses,
                        tool_use_id,
                        before.tool_uses.len() as int,
                    );
                    assert(tool_heads(after.tool_uses) =~= tool_heads(before.tool_uses));
                },
                _ => {},
            }
        }
    } else {
        assert(tool_heads(collected(no_answer(), events).tool_uses) =~= tool_starts(events));
    }
}

/// `tool_at` gives an index of the sequence, if it gives one.
pub proof fn lemma_tool_at(ts: Seq<ToolUseModel>, id: Seq<char>, n: int)
    requires
        0 <= n <= ts.len(),
    ensures
        match tool_at(ts, id, n) {
            Some(i) => 0 <= i < n && ts[i].id == id,
            None => true,
        },
    decreases n,
{
    if n > 0 {
        lemma_tool_at(ts, id, n - 1);
    }
}

/// The text that a stream carries: the pieces of its text deltas, one after
/// another.
pub open spec fn text_out(events: Seq<SseModel>) -> Seq<char>
    decreases events.len(),
{
    if events.len() == 0 {
        Seq::empty()
    } else {
        text_out(events.drop_last()) + match events.last() {
            SseModel::TextDelta { index, text } => text,
            _ => Seq::empty(),
        }
    }
}

/// The text of a stream made of two parts is the text of the parts.
pub proof fn lemma_text_out_append(a: Seq<SseModel>, b: Seq<SseModel>)
    ensures
        text_out(a + b) == text_out(a) + text_out(b),
    decreases b.len(),
{
    if b.len() == 0 {
        assert(a + b =~= a);
        assert(text_out(a) + Seq::<char>::empty() =~= text_out(a));
    } else {
        assert((a + b).drop_last() =~= a + b.drop_last());
        assert((a + b).last() == b.last());
        lemma_text_out_append(a, b.drop_last());
        let piece = match b.last() {
            SseModel::TextDelta { index, text } => text,
            _ => Seq::<char>::empty(),
        };
        assert(text_out(a) + (text_out(b.drop_last()) + piece) =~= (text_out(a) + text_out(
            b.drop_last(),
        )) + piece);
    }
}

/// What begins a stream and what closes a block carries no text.
pub proof fn lemma_lead_in_is_silent(s: EmitterModel)
    ensures
        text_out(opening(s) + closing(s)) == Seq::<char>::empty(),
        text_out(opening(s)) == Seq::<char>::empty(),
        text_out(closing(s)) == Seq::<char>::empty(),
{
    reveal_with_fuel(text_out, 3);
    lemma_text_out_append(opening(s), closing(s));
    assert(opening(s).len() <= 1 && closing(s).len() <= 1);
    if opening(s).len() == 1 {
        assert(opening(s).drop_last() =~= Seq::<SseModel>::empty());
    }
    if closing(s).len() == 1 {
        assert(closing(s).drop_last() =~= Seq::<SseModel>::empty());
    }
    assert(Seq::<char>::empty() + Seq::<char>::empty() =~= Seq::<char>::empty());
}

/// The text that one event sends out is the text that it brings in.
pub proof fn lemma_step_keeps_text(s: EmitterModel, a: AnswerModel, e: EventModel)
    requires
        s.finished == a.finished,
        s.next_index < u32::MAX,
    ensures
        text_out(step(s, e).1) == absorbed(a, e).text.skip(a.text.len() as int),
        absorbed(a, e).text.take(a.text.len() as int) == a.text,
        step(s, e).0.finished == absorbed(a, e).finished,
        step(s, e).0.next_index <= s.next_index + 1,
{
    reveal_with_fuel(text_out, 3);
    lemma_lead_in_is_silent(s);
    let out = step(s, e).1;
    let lead = opening(s) + closing(s);
    assert(a.text.skip(a.text.len() as int) =~= Seq::<char>::empty());
    assert(a.text.take(a.text.len() as int) =~= a.text);
    if !s.finished {
        match e {
            EventModel::AssistantResponse { content } => {
                assert((a.text + content).skip(a.text.len() as int) =~= content);
                assert((a.text + content).take(a.text.len() as int) =~= a.text);
                if s.open is Some && s.open->0 is Text {
                    let delta = SseModel::TextDelta {
                        index: crate::kiro::stream::open_index(s),
                        text: content,
                    };
                    assert(out == opening(s).push(delta));
                    assert(out.drop_last() =~= opening(s));
                    assert(Seq::<char>::empty() + content =~= content);
                } else {
                    let start = SseModel::TextBlockStart { index: s.next_index };
                    let delta = SseModel::TextDelta { index: s.next_index, text: content };
                    assert(out == lead.push(start).push(delta));
                    assert(out.drop_last() =~= lead.push(start));
                    assert(lead.push(start).drop_last() =~= lead);
                    assert(Seq::<char>::empty() + Seq::<char>::empty() + content =~= content);
                }
            },
            EventModel::ToolUseStart { tool_use_id, name } => {
                let start = SseModel::ToolBlockStart { index: s.next_index, tool_use_id, name };
                assert(out.drop_last() =~= lead);
                assert(Seq::<char>::empty() + Seq::<char>::empty() =~= Seq::<char>::empty());
            },
            EventModel::ToolUseInput { tool_use_id, input } => {
                reveal_with_fuel(text_out, 2);
                if out.len() == 1 {
                    assert(out.drop_last() =~= Seq::<SseModel>::empty());
                }
                assert(Seq::<char>::empty() + Seq::<char>::empty() =~= Seq::<char>::empty());
            },
            EventModel::Done => {
                assert(out.drop_last().drop_last() =~= lead);
                assert(Seq::<char>::empty() + Seq::<char>::empty() =~= Seq::<char>::empty());
            },
            EventModel::Error { kind, message } => {
                assert(out.drop_last().drop_last() =~= lead);
                assert(Seq::<char>::empty() + Seq::<char>::empty() =~= Seq::<char>::empty());
            },
            _ => {},
        }
    }
}

/// Streaming keeps the text: the text that the client's stream carries is the
/// text of the canonical answer, which is the text that the upstream sent.
pub proof fn lemma_stream_keeps_text(events: Seq<EventModel>)
    requires
        events.len() < u32::MAX,
    ensures
        text_out(run(initial(), events).1) == collected(no_answer(), events).text,
        run(initial(), events).0.finished == collected(no_answer(), events).finished,
        run(initial(), events).0.next_index <= events.len(),
    decreases events.len(),
{
    if events.len() > 0 {
        let front = events.drop_last();
        lemma_stream_keeps_text(front);
        let s = run(initial(), front).0;
        let a = collected(no_answer(), front);
        lemma_step_keeps_text(s, a, events.last());
        lemma_text_out_append(run(initial(), front).1, step(s, events.last()).1);
        let grown = absorbed(a, events.last()).text;
        assert(grown =~= grown.take(a.text.len() as int) + grown.skip(a.text.len() as int));
    }
}

} // verus!
