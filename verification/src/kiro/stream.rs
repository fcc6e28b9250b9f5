//! The streaming side of the response translator: upstream events go in, and
//! the events of the client's stream come out, content block by content
//! block.

use vstd::prelude::*;
use crate::kiro::model::events::Event;
use crate::kiro::model::events::EventModel;
use crate::text::str_eq;

verus! {

/// Why an answer ended.
#[derive(Clone, Copy, Debug, PartialEq, Eq, Structural)]
pub enum StopReason {
    EndTurn,
    ToolUse,
    Error,
}

/// An event of the client's stream.
#[derive(Clone, Debug)]
pub enum SseEvent {
    MessageStart,
    /// A block of text begins.
    TextBlockStart { index: u32 },
    /// A tool use begins.
    ToolBlockStart { index: u32, tool_use_id: String, name: String },
    /// A piece of the text of a block.
    TextDelta { index: u32, text: String },
    /// A piece of the input of a tool use, as JSON text.
    InputJsonDelta { index: u32, partial_json: String },
    ContentBlockStop { index: u32 },
    MessageDelta { stop_reason: StopReason, input_tokens: i32, output_tokens: i32 },
    MessageStop,
    Error { kind: String, message: String },
}

/// An event of the client's stream, as contracts see it.
pub enum SseModel {
    MessageStart,
    TextBlockStart { index: u32 },
    ToolBlockStart { index: u32, tool_use_id: Seq<char>, name: Seq<char> },
    TextDelta { index: u32, text: Seq<char> },
    InputJsonDelta { index: u32, partial_json: Seq<char> },
    ContentBlockStop { index: u32 },
    MessageDelta { stop_reason: StopReason, input_tokens: i32, output_tokens: i32 },
    MessageStop,
    Error { kind: Seq<char>, message: Seq<char> },
}

impl View for SseEvent {
    type V = SseModel;

    open spec fn view(&self) -> SseModel {
        match self {
            SseEvent::MessageStart => SseModel::MessageStart,
            SseEvent::TextBlockStart { index } => SseModel::TextBlockStart { index: *index },
            SseEvent::ToolBlockStart { index, tool_use_id, name } => SseModel::ToolBlockStart {
                index: *index,
                tool_use_id: tool_use_id@,
                name: name@,
            },
            SseEvent::TextDelta { index, text } => SseModel::TextDelta {
                index: *index,
                text: text@,
            },
            SseEvent::InputJsonDelta { index, partial_json } => SseModel::InputJsonDelta {
                index: *index,
                partial_json: partial_json@,
            },
            SseEvent::ContentBlockStop { index } => SseModel::ContentBlockStop { index: *index },
            SseEvent::MessageDelta { stop_reason, input_tokens, output_tokens } => {
                SseModel::MessageDelta {
                    stop_reason: *stop_reason,
                    input_tokens: *input_tokens,
                    output_tokens: *output_tokens,
                }
            },
            SseEvent::MessageStop => SseModel::MessageStop,
            SseEvent::Error { kind, message } => SseModel::Error {
                kind: kind@,
                message: message@,
            },
        }
    }
}

pub open spec fn sse_models(v: Seq<SseEvent>) -> Seq<SseModel> {
    v.map_values(|e: SseEvent| e@)
}

impl SseEvent {
    /// The name that the event goes by on the wire.
    pub fn name(&self) -> (name: &'static str)
        ensures
            name@ == match self@ {
                SseModel::MessageStart => "message_start"@,
                SseModel::TextBlockStart { .. } => "content_block_start"@,
                SseModel::ToolBlockStart { .. } => "content_block_start"@,
                SseModel::TextDelta { .. } => "content_block_delta"@,
                SseModel::InputJsonDelta { .. } => "content_block_delta"@,
                SseModel::ContentBlockStop { .. } => "content_block_stop"@,
                SseModel::MessageDelta { .. } => "message_delta"@,
                SseModel::MessageStop => "message_stop"@,
                SseModel::Error { .. } => "error"@,
            },
    {
        match self {
            SseEvent::MessageStart => "message_start",
            SseEvent::TextBlockStart { .. } => "content_block_start",
            SseEvent::ToolBlockStart { .. } => "content_block_start",
            SseEvent::TextDelta { .. } => "content_block_delta",
            SseEvent::InputJsonDelta { .. } => "content_block_delta",
            SseEvent::ContentBlockStop { .. } => "content_block_stop",
            SseEvent::MessageDelta { .. } => "message_delta",
            SseEvent::MessageStop => "message_stop",
            SseEvent::Error { .. } => "error",
        }
    }
}

// ----------------------------------------------------------- specification

/// The block that is open.
pub enum OpenBlock {
    /// A block of text.
    Text,
    /// The use of the tool with this id.
    Tool(Seq<char>),
}

/// The emitter, as contracts see it.
pub struct EmitterModel {
    /// Whether the stream has begun.
    pub started: bool,
    /// Whether the stream has ended.
    pub finished: bool,
    /// The block that is open, if one is. Its index is the one before
    /// `next_index`.
    pub open: Option<OpenBlock>,
    /// The index of the next block.
    pub next_index: u32,
    /// Whether the assistant used a tool.
    pub used_tool: bool,
    pub input_tokens: i32,
    pub output_tokens: i32,
}

/// An emitter before the first event.
pub open spec fn initial() -> EmitterModel {
    EmitterModel {
        started: false,
        finished: false,
        open: None,
        next_index: 0,
        used_tool: false,
        input_tokens: 0,
        output_tokens: 0,
    }
}

/// The index of the open block.
pub open spec fn open_index(s: EmitterModel) -> u32 {
    (s.next_index - 1) as u32
}

/// What begins the stream, if it has not begun.
pub open spec fn opening(s: EmitterModel) -> Seq<SseModel> {
    if s.started {
        Seq::empty()
    } else {
        seq![SseModel::MessageStart]
    }
}

/// What closes the open block, if one is open.
pub open spec fn closing(s: EmitterModel) -> Seq<SseModel> {
    if s.open is Some {
        seq![SseModel::ContentBlockStop { index: open_index(s) }]
    } else {
        Seq::empty()
    }
}

/// What one event does: the emitter afterwards, and what it emits. An event
/// after the end of the stream does nothing; neither does an unknown event,
/// nor a piece of tool input for a tool use that is not open, nor an event
/// that needs a new block when the block numbers are used up. Text goes to
/// the open block of text, or opens one, closing an open tool use first. A
/// tool use opens a block of its own. The end of the answer, or an error,
/// closes the open block and ends the stream.
pub open spec fn step(s: EmitterModel, e: EventModel) -> (EmitterModel, Seq<SseModel>) {
    if s.finished {
        (s, Seq::empty())
    } else {
        match e {
            EventModel::Unknown { .. } => (s, Seq::empty()),
            EventModel::ContextUsage { input_tokens } => (
                EmitterModel { input_tokens, ..s },
                Seq::empty(),
            ),
            EventModel::AssistantResponse { content } => {
                if s.open is Some && s.open->0 is Text {
                    (
                        EmitterModel { started: true, ..s },
                        opening(s).push(
                            SseModel::TextDelta { index: open_index(s), text: content },
                        ),
                    )
                } else if s.next_index == u32::MAX {
                    (s, Seq::empty())
                } else {
                    (
                        EmitterModel {
                            started: true,
                            open: Some(OpenBlock::Text),
                            next_index: (s.next_index + 1) as u32,
                            ..s
                        },
                        (opening(s) + closing(s)).push(
                            SseModel::TextBlockStart { index: s.next_index },
                        ).push(SseModel::TextDelta { index: s.next_index, text: content }),
                    )
                }
            },
            EventModel::ToolUseStart { tool_use_id, name } => {
                if s.next_index == u32::MAX {
                    (s, Seq::empty())
                } else {
                    (
                        EmitterModel {
                            started: true,
                            open: Some(OpenBlock::Tool(tool_use_id)),
                            next_index: (s.next_index + 1) as u32,
                            used_tool: true,
                            ..s
                        },
                        (opening(s) + closing(s)).push(
                            SseModel::ToolBlockStart { index: s.next_index, tool_use_id, name },
                        ),
                    )
                }
            },
            EventModel::ToolUseInput { tool_use_id, input } => {
                if s.open == Some(OpenBlock::Tool(tool_use_id)) {
                    (
                        s,
                        seq![
                            SseModel::InputJsonDelta { index: open_index(s), partial_json: input },
                        ],
                    )
                } else {
                    (s, Seq::empty())
                }
            },
            EventModel::ToolUseEnd { tool_use_id } => {
                if s.open == Some(OpenBlock::Tool(tool_use_id)) {
                    (EmitterModel { open: None, ..s }, closing(s))
                } else {
                    (s, Seq::empty())
                }
            },
            EventModel::Done => (
                EmitterModel { started: true, finished: true, open: None, ..s },
                (opening(s) + closing(s)).push(
                    SseModel::MessageDelta {
                        stop_reason: if s.used_tool {
                            StopReason::ToolUse
                        } else {
                            StopReason::EndTurn
                        },
                        input_tokens: s.input_tokens,
                        output_tokens: s.output_tokens,
                    },
                ).push(SseModel::MessageStop),
            ),
            EventModel::Error { kind, message } => (
                EmitterModel { started: true, finished: true, open: None, ..s },
                (opening(s) + closing(s)).push(
                    SseModel::MessageDelta {
                        stop_reason: StopReason::Error,
                        input_tokens: s.input_tokens,
                        output_tokens: s.output_tokens,
                    },
                ).push(SseModel::Error { kind, message }),
            ),
        }
    }
}

/// What a run of events does.
pub open spec fn run(s: EmitterModel, events: Seq<EventModel>) -> (EmitterModel, Seq<SseModel>)
    decreases events.len(),
{
    if events.len() == 0 {
        (s, Seq::empty())
    } else {
        let before = run(s, events.drop_last());
        let last = step(before.0, events.last());
        (last.0, before.1 + last.1)
    }
}

// ---------------------------------------------------------------- ordering

/// Where a reader of the client's stream stands.
pub struct Reader {
    pub started: bool,
    pub ended: bool,
    /// The index of the block that is open, if one is.
    pub open: Option<u32>,
    /// How many blocks were opened so far.
    pub opened: nat,
}

/// A reader before the first event.
pub open spec fn fresh_reader() -> Reader {
    Reader { started: false, ended: false, open: None, opened: 0 }
}

/// The reader after one event, if the event is in order. The stream begins
/// with `message_start`. Blocks are opened with the indices 0, 1, 2 and so on,
/// and only while no other block is open; deltas and the stop of a block come
/// only while that block is open; the message ends only when no block is
/// open, and nothing follows its end.
pub open spec fn read(r: Reader, e: SseModel) -> Option<Reader> {
    if r.ended {
        None
    } else {
        match e {
            SseModel::MessageStart => if r.started {
                None
            } else {
                Some(Reader { started: true, ..r })
            },
            SseModel::TextBlockStart { index } => if r.started && r.open is None && index
                == r.opened {
                Some(Reader { open: Some(index), opened: r.opened + 1, ..r })
            } else {
                None
            },
            SseModel::ToolBlockStart { index, .. } => if r.started && r.open is None && index
                == r.opened {
                Some(Reader { open: Some(index), opened: r.opened + 1, ..r })
            } else {
                None
            },
            SseModel::TextDelta { index, .. } => if r.open == Some(index) {
                Some(r)
            } else {
                None
            },
            SseModel::InputJsonDelta { index, .. } => if r.open == Some(index) {
                Some(r)
            } else {
                None
            },
            SseModel::ContentBlockStop { index } => if r.open == Some(index) {
                Some(Reader { open: None, ..r })
            } else {
                None
            },
            SseModel::MessageDelta { .. } => if r.started && r.open is None {
                Some(r)
            } else {
                None
            },
            SseModel::MessageStop => if r.started && r.open is None {
                Some(Reader { ended: true, ..r })
            } else {
                None
            },
            SseModel::Error { .. } => if r.started && r.open is None {
                Some(Reader { ended: true, ..r })
            } else {
                None
            },
        }
    }
}

/// The reader after a run of events, if all of them are in order.
pub open spec fn read_run(r: Reader, events: Seq<SseModel>) -> Option<Reader>
    decreases events.len(),
{
    if events.len() == 0 {
        Some(r)
    } else {
        match read_run(r, events.drop_last()) {
            Some(before) => read(before, events.last()),
            None => None,
        }
    }
}

/// Whether a reader stands where an emitter stands.
pub open spec fn in_step(s: EmitterModel, r: Reader) -> bool {
    &&& r.started == s.started
    &&& r.ended == s.finished
    &&& r.opened == s.next_index
    &&& match s.open {
        Some(_) => s.next_index > 0 && r.open == Some(open_index(s)),
        None => r.open is None,
    }
    &&& s.finished ==> s.started && s.open is None
}

/// Reading goes through runs piece by piece.
pub proof fn lemma_read_run_append(r: Reader, a: Seq<SseModel>, b: Seq<SseModel>)
    ensures
        read_run(r, a + b) == match read_run(r, a) {
            Some(mid) => read_run(mid, b),
            None => None,
        },
    decreases b.len(),
{
    if b.len() == 0 {
        assert(a + b =~= a);
    } else {
        assert((a + b).drop_last() =~= a + b.drop_last());
        assert((a + b).last() == b.last());
        lemma_read_run_append(r, a, b.drop_last());
    }
}

/// Reading a run of one, two, three or four events.
pub proof fn lemma_read_short(r: Reader, events: Seq<SseModel>)
    requires
        events.len() <= 4,
    ensures
        events.len() == 0 ==> read_run(r, events) == Some(r),
        events.len() == 1 ==> read_run(r, events) == read(r, events[0]),
        events.len() == 2 ==> read_run(r, events) == match read(r, events[0]) {
            Some(a) => read(a, events[1]),
            None => None,
        },
        events.len() == 3 ==> read_run(r, events) == match read(r, events[0]) {
            Some(a) => match read(a, events[1]) {
                Some(b) => read(b, events[2]),
                None => None,
            },
            None => None,
        },
        events.len() == 4 ==> read_run(r, events) == match read(r, events[0]) {
            Some(a) => match read(a, events[1]) {
                Some(b) => match read(b, events[2]) {
                    Some(c) => read(c, events[3]),
                    None => None,
                },
                None => None,
            },
            None => None,
        },
    decreases events.len(),
{
    if events.len() > 0 {
        let front = events.drop_last();
        lemma_read_short(r, front);
        assert(forall|i: int| 0 <= i < front.len() ==> front[i] == events[i]);
    }
}

/// What an emitter emits for one event is in order for a reader that stands
/// where the emitter stands, and afterwards the two stand together again.
pub proof fn lemma_step_in_order(s: EmitterModel, r: Reader, e: EventModel)
    requires
        in_step(s, r),
    ensures
        read_run(r, step(s, e).1) is Some,
        in_step(step(s, e).0, read_run(r, step(s, e).1)->0),
{
    let out = step(s, e).1;
    assert(out.len() <= 4);
    lemma_read_short(r, out);
}

/// Whatever events come in, the stream that goes out is in order: it begins
/// with `message_start`, and a block is stopped before the next one is
/// started.
pub proof fn lemma_stream_in_order(events: Seq<EventModel>)
    ensures
        read_run(fresh_reader(), run(initial(), events).1) is Some,
        in_step(run(initial(), events).0, read_run(fresh_reader(), run(initial(), events).1)->0),
    decreases events.len(),
{
    if events.len() > 0 {
        let front = events.drop_last();
        lemma_stream_in_order(front);
        let before = run(initial(), front);
        let mid = read_run(fresh_reader(), before.1)->0;
        lemma_step_in_order(before.0, mid, events.last());
        lemma_read_run_append(fresh_reader(), before.1, step(before.0, events.last()).1);
    }
}

/// The index of the block that an event belongs to.
pub open spec fn block_of(e: SseModel) -> Option<u32> {
    match e {
        SseModel::TextBlockStart { index } => Some(index),
        SseModel::ToolBlockStart { index, .. } => Some(index),
        SseModel::TextDelta { index, .. } => Some(index),
        SseModel::InputJsonDelta { index, .. } => Some(index),
        SseModel::ContentBlockStop { index } => Some(index),
        _ => None,
    }
}

/// Whether an event starts a block.
pub open spec fn starts_block(e: SseModel) -> bool {
    e is TextBlockStart || e is ToolBlockStart
}

/// While block `i` is open a reader leaves it open, unless it reads the stop
/// of block `i`.
pub proof fn lemma_open_until_stop(r: Reader, events: Seq<SseModel>, i: u32)
    requires
        r.open == Some(i),
        read_run(r, events) is Some,
        read_run(r, events)->0.open != Some(i) || read_run(r, events)->0.opened != r.opened,
    ensures
        exists|k: int| 0 <= k < events.len() && events[k] == (SseModel::ContentBlockStop {
            index: i,
        }),
    decreases events.len(),
{
    if events.len() > 0 {
        let front = events.drop_last();
        let mid = read_run(r, front)->0;
        if mid.open == Some(i) && mid.opened == r.opened {
            assert(events[events.len() - 1] == (SseModel::ContentBlockStop { index: i }));
        } else {
            lemma_open_until_stop(r, front, i);
            let k = choose|k: int| 0 <= k < front.len() && front[k] == (SseModel::ContentBlockStop {
                index: i,
            });
            assert(events[k] == front[k]);
        }
    }
}

/// A reader that reads a whole run has read every beginning of it.
pub proof fn lemma_read_prefix(r: Reader, events: Seq<SseModel>, k: int)
    requires
        0 <= k <= events.len(),
        read_run(r, events) is Some,
    ensures
        read_run(r, events.take(k)) is Some,
    decreases events.len(),
{
    if k < events.len() {
        lemma_read_prefix(r, events.drop_last(), k);
        assert(events.drop_last().take(k) =~= events.take(k));
    } else {
        assert(events.take(k) =~= events);
    }
}

/// In a stream that is in order, a block is stopped before the next one
/// begins: between the start of block `i` and any later event of block
/// `i + 1` stands the stop of block `i`.
pub proof fn lemma_stop_before_next(events: Seq<SseModel>, p: int, q: int, i: u32)
    requires
        read_run(fresh_reader(), events) is Some,
        0 <= p < q < events.len(),
        starts_block(events[p]),
        block_of(events[p]) == Some(i),
        i < u32::MAX,
        block_of(events[q]) == Some((i + 1) as u32),
    ensures
        exists|k: int| p < k < q && events[k] == (SseModel::ContentBlockStop { index: i }),
{
    let head = events.take(p);
    let upto_p = events.take(p + 1);
    let between = events.subrange(p + 1, q);
    let upto_q = events.take(q);
    let with_q = events.take(q + 1);
    lemma_read_prefix(fresh_reader(), events, p);
    lemma_read_prefix(fresh_reader(), events, p + 1);
    lemma_read_prefix(fresh_reader(), events, q);
    lemma_read_prefix(fresh_reader(), events, q + 1);
    assert(upto_p.drop_last() =~= head);
    assert(upto_p.last() == events[p]);
    assert(with_q.drop_last() =~= upto_q);
    assert(with_q.last() == events[q]);
    assert(upto_q =~= upto_p + between);
    lemma_read_run_append(fresh_reader(), upto_p, between);
    let at_p = read_run(fresh_reader(), upto_p)->0;
    let before_q = read_run(fresh_reader(), upto_q)->0;
    assert(at_p.open == Some(i));
    assert(read(before_q, events[q]) is Some);
    lemma_open_until_stop(at_p, between, i);
    let k = choose|k: int| 0 <= k < between.len() && between[k] == (SseModel::ContentBlockStop {
        index: i,
    });
    assert(events[p + 1 + k] == between[k]);
}

// ----------------------------------------------------------------- emitter

/// The block that is open.
#[derive(Clone, Debug)]
pub enum Open {
    Text,
    Tool(String),
}

/// The emitter of the client's stream.
pub struct SseEmitter {
    started: bool,
    finished: bool,
    open: Option<Open>,
    next_index: u32,
    used_tool: bool,
    input_tokens: i32,
    output_tokens: i32,
}

impl View for SseEmitter {
    type V = EmitterModel;

    closed spec fn view(&self) -> EmitterModel {
        EmitterModel {
            started: self.started,
            finished: self.finished,
            open: match self.open {
                Some(Open::Text) => Some(OpenBlock::Text),
                Some(Open::Tool(id)) => Some(OpenBlock::Tool(id@)),
                None => None,
            },
            next_index: self.next_index,
            used_tool: self.used_tool,
            input_tokens: self.input_tokens,
            output_tokens: self.output_tokens,
        }
    }
}

impl SseEmitter {
    /// An emitter before the first event.
    pub fn new() -> (emitter: Self)
        ensures
            emitter@ == initial(),
            emitter.wf(),
    {
        SseEmitter {
            started: false,
            finished: false,
            open: None,
            next_index: 0,
            used_tool: false,
            input_tokens: 0,
            output_tokens: 0,
        }
    }

    /// A block is open only after it was given an index.
    pub closed spec fn wf(&self) -> bool {
        self.open is Some ==> self.next_index > 0
    }

    /// Whether the stream has ended.
    pub fn is_finished(&self) -> (finished: bool)
        ensures
            finished == self@.finished,
    {
        self.finished
    }

    /// Tells the emitter the estimate of the output tokens to report at the
    /// end of the stream.
    pub fn set_output_tokens(&mut self, output_tokens: i32)
        requires
            old(self).wf(),
        ensures
            final(self).wf(),
            final(self)@ == (EmitterModel { output_tokens, ..old(self)@ }),
    {
        self.output_tokens = output_tokens;
    }

    /// Appends what begins the stream and what closes the open block.
    fn lead_in(&self, out: &mut Vec<SseEvent>, close: bool)
        requires
            self.wf(),
        ensures
            sse_models(final(out)@) == sse_models(old(out)@) + opening(self@) + if close {
                closing(self@)
            } else {
                Seq::empty()
            },
    {
        let ghost before = sse_models(out@);
        if !self.started {
            out.push(SseEvent::MessageStart);
        }
        proof {
            assert(sse_models(out@) =~= before + opening(self@));
        }
        if close && self.open.is_some() {
            out.push(SseEvent::ContentBlockStop { index: self.next_index - 1 });
        }
        proof {
            assert(sse_models(out@) =~= before + opening(self@) + if close {
                closing(self@)
            } else {
                Seq::empty()
            });
        }
    }

    /// Takes an upstream event and gives the events of the client's stream
    /// that it amounts to.
    pub fn push(&mut self, event: Event) -> (out: Vec<SseEvent>)
        requires
            old(self).wf(),
        ensures
            final(self).wf(),
            final(self)@ == step(old(self)@, event@).0,
            sse_models(out@) == step(old(self)@, event@).1,
    {
        let mut out: Vec<SseEvent> = Vec::new();
        proof {
            assert(sse_models(out@) =~= Seq::<SseModel>::empty());
        }
        if self.finished {
            return out;
        }
        let ghost s = self@;
        match event {
            Event::Unknown { .. } => {},
            Event::ContextUsage { input_tokens } => {
                self.input_tokens = input_tokens;
            },
            Event::AssistantResponse { content } => {
                let in_text = match &self.open {
                    Some(Open::Text) => true,
                    _ => false,
                };
                if in_text {
                    self.lead_in(&mut out, false);
                    let ghost before = sse_models(out@);
                    out.push(SseEvent::TextDelta { index: self.next_index - 1, text: content });
                    self.started = true;
                    proof {
                        assert(sse_models(out@) =~= step(s, event@).1);
                    }
                } else if self.next_index < u32::MAX {
                    self.lead_in(&mut out, true);
                    let index = self.next_index;
                    out.push(SseEvent::TextBlockStart { index });
                    out.push(SseEvent::TextDelta { index, text: content });
                    self.started = true;
                    self.open = Some(Open::Text);
                    self.next_index = index + 1;
                    proof {
                        assert(sse_models(out@) =~= step(s, event@).1);
                    }
                }
            },
            Event::ToolUseStart { tool_use_id, name } => {
                if self.next_index < u32::MAX {
                    self.lead_in(&mut out, true);
                    let index = self.next_index;
                    out.push(
                        SseEvent::ToolBlockStart { index, tool_use_id: tool_use_id.clone(), name },
                    );
                    self.started = true;
                    self.open = Some(Open::Tool(tool_use_id));
                    self.next_index = index + 1;
                    self.used_tool = true;
                    proof {
                        assert(sse_models(out@) =~= step(s, event@).1);
                    }
                }
            },
            Event::ToolUseInput { tool_use_id, input } => {
                let mine = match &self.open {
                    Some(Open::Tool(id)) => str_eq(id.as_str(), tool_use_id.as_str()),
                    _ => false,
                };
                if mine {
                    out.push(
                        SseEvent::InputJsonDelta {
                            index: self.next_index - 1,
                            partial_json: input,
                        },
                    );
                    proof {
                        assert(sse_models(out@) =~= step(s, event@).1);
                    }
                }
            },
            Event::ToolUseEnd { tool_use_id } => {
                let mine = match &self.open {
                    Some(Open::Tool(id)) => str_eq(id.as_str(), tool_use_id.as_str()),
                    _ => false,
                };
                if mine {
                    out.push(SseEvent::ContentBlockStop { index: self.next_index - 1 });
                    self.open = None;
                    proof {
                        assert(sse_models(out@) =~= step(s, event@).1);
                    }
                }
            },
            Event::Done => {
                self.lead_in(&mut out, true);
                out.push(
                    SseEvent::MessageDelta {
                        stop_reason: if self.used_tool {
                            StopReason::ToolUse
                        } else {
                            StopReason::EndTurn
                        },
                        input_tokens: self.input_tokens,
                        output_tokens: self.output_tokens,
                    },
                );
                out.push(SseEvent::MessageStop);
                self.started = true;
                self.finished = true;
                self.open = None;
                proof {
                    assert(sse_models(out@) =~= step(s, event@).1);
                }
            },
            Event::Error { kind, message } => {
                self.lead_in(&mut out, true);
                out.push(
                    SseEvent::MessageDelta {
                        stop_reason: StopReason::Error,
                        input_tokens: self.input_tokens,
                        output_tokens: self.output_tokens,
                    },
                );
                out.push(SseEvent::Error { kind, message });
                self.started = true;
                self.finished = true;
                self.open = None;
                proof {
                    assert(sse_models(out@) =~= step(s, event@).1);
                }
            },
        }
        out
    }
}

} // verus!
