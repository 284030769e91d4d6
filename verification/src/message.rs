//! The conversation data model: messages, assistant outputs, streamed
//! events, and the reply accumulator that folds events into outputs.

use vstd::prelude::*;
use vstd::string::StringExecFns;

use crate::tool::{Call, CallView, Id, Response, ResponseView, call_views};

verus! {

/// One reasoning segment of an assistant turn: the text produced while
/// the model was thinking, and how long that mode lasted, in milliseconds.
#[derive(Debug)]
pub struct Reasoning {
    pub text: String,
    pub duration: u64,
}

#[verifier::ext_equal]
pub struct ReasoningView {
    pub text: Seq<char>,
    pub duration: u64,
}

impl View for Reasoning {
    type V = ReasoningView;

    open spec fn view(&self) -> ReasoningView {
        ReasoningView { text: self.text@, duration: self.duration }
    }
}

impl Default for Reasoning {
    fn default() -> (r: Self)
        ensures
            r@ == (ReasoningView { text: Seq::<char>::empty(), duration: 0 }),
    {
        Reasoning { text: String::new(), duration: 0 }
    }
}

impl Clone for Reasoning {
    fn clone(&self) -> (r: Self)
        ensures
            r@ == self@,
    {
        Reasoning { text: self.text.clone(), duration: self.duration }
    }
}

/// One piece of an assistant turn's content: a reasoning segment, a
/// plain text message, or an ordered list of tool calls.
#[derive(Debug)]
pub enum Output {
    Reasoning(Reasoning),
    Message(String),
    ToolCalls(Vec<Call>),
}

#[verifier::ext_equal]
pub enum OutputView {
    Reasoning(ReasoningView),
    Message(Seq<char>),
    ToolCalls(Seq<CallView>),
}

impl View for Output {
    type V = OutputView;

    open spec fn view(&self) -> OutputView {
        match self {
            Output::Reasoning(r) => OutputView::Reasoning(r@),
            Output::Message(t) => OutputView::Message(t@),
            Output::ToolCalls(calls) => OutputView::ToolCalls(call_views(calls@)),
        }
    }
}

/// The views of a sequence of outputs, in order.
pub open spec fn output_views(s: Seq<Output>) -> Seq<OutputView> {
    s.map_values(|o: Output| o@)
}

pub proof fn lemma_output_views_push(s: Seq<Output>, o: Output)
    ensures
        output_views(s.push(o)) == output_views(s).push(o@),
{
    assert(output_views(s.push(o)) =~= output_views(s).push(o@));
}

pub proof fn lemma_output_views_replace_last(s: Seq<Output>, o: Output)
    requires
        s.len() > 0,
    ensures
        output_views(s.drop_last().push(o)) == output_views(s).update(s.len() - 1, o@),
{
    assert(output_views(s.drop_last().push(o)) =~= output_views(s).update(s.len() - 1, o@));
}

/// The text carried by an output view, if it carries any.
pub open spec fn output_text(output: OutputView) -> Option<Seq<char>> {
    match output {
        OutputView::Reasoning(r) => Some(r.text),
        OutputView::Message(t) => Some(t),
        OutputView::ToolCalls(_) => None,
    }
}

impl Output {
    /// The text of a reasoning or message output; tool calls carry none.
    pub fn text(&self) -> (t: Option<&str>)
        ensures
            match t {
                Some(s) => output_text(self@) == Some(s@),
                None => output_text(self@) is None,
            },
    {
        match self {
            Output::Reasoning(reasoning) => Some(reasoning.text.as_str()),
            Output::Message(text) => Some(text.as_str()),
            Output::ToolCalls(_) => None,
        }
    }
}

impl Clone for Output {
    fn clone(&self) -> (r: Self)
        ensures
            r@ == self@,
    {
        match self {
            Output::Reasoning(reasoning) => Output::Reasoning(reasoning.clone()),
            Output::Message(text) => Output::Message(text.clone()),
            Output::ToolCalls(calls) => Output::ToolCalls(clone_calls(calls)),
        }
    }
}

fn clone_calls(calls: &Vec<Call>) -> (r: Vec<Call>)
    ensures
        call_views(r@) == call_views(calls@),
{
    let mut r: Vec<Call> = Vec::new();
    let mut i: usize = 0;
    while i < calls.len()
        invariant
            i <= calls.len(),
            r@.len() == i,
            forall|k: int| 0 <= k < i ==> call_views(r@)[k] == call_views(calls@)[k],
        decreases calls.len() - i,
    {
        r.push(calls[i].clone());
        i += 1;
    }
    assert(call_views(r@) =~= call_views(calls@));
    r
}

/// One message of a conversation, in the literal turn order sent to
/// the backend.
#[derive(Debug)]
pub enum Message {
    System(String),
    Assistant(Output),
    User(String),
    Tool(Response),
}

#[verifier::ext_equal]
pub enum MessageView {
    System(Seq<char>),
    Assistant(OutputView),
    User(Seq<char>),
    Tool(ResponseView),
}

impl View for Message {
    type V = MessageView;

    open spec fn view(&self) -> MessageView {
        match self {
            Message::System(t) => MessageView::System(t@),
            Message::Assistant(o) => MessageView::Assistant(o@),
            Message::User(t) => MessageView::User(t@),
            Message::Tool(r) => MessageView::Tool(r@),
        }
    }
}

impl Message {
    /// A system prompt message.
    pub fn system(prompt: &str) -> (m: Self)
        ensures
            m@ == MessageView::System(prompt@),
    {
        Message::System(String::from_str(prompt))
    }

    /// A user prompt message.
    pub fn user(prompt: &str) -> (m: Self)
        ensures
            m@ == MessageView::User(prompt@),
    {
        Message::User(String::from_str(prompt))
    }
}

impl Clone for Message {
    fn clone(&self) -> (r: Self)
        ensures
            r@ == self@,
    {
        match self {
            Message::System(t) => Message::System(t.clone()),
            Message::Assistant(o) => Message::Assistant(o.clone()),
            Message::User(t) => Message::User(t.clone()),
            Message::Tool(resp) => Message::Tool(resp.clone()),
        }
    }
}

/// One message in the provider's wire shape: the role string, plain
/// text content if any, the tool calls of an assistant tool-call
/// turn, and the answered call id of a tool-result turn. The shell
/// serializes this shape verbatim, each call carried as a function
/// call object.
#[derive(Debug)]
pub struct WireMessage {
    pub role: String,
    pub content: Option<String>,
    pub tool_calls: Vec<Call>,
    pub tool_call_id: Option<Id>,
}

#[verifier::ext_equal]
pub struct WireMessageView {
    pub role: Seq<char>,
    pub content: Option<Seq<char>>,
    pub tool_calls: Seq<CallView>,
    pub tool_call_id: Option<Seq<char>>,
}

impl View for WireMessage {
    type V = WireMessageView;

    open spec fn view(&self) -> WireMessageView {
        WireMessageView {
            role: self.role@,
            content: match &self.content {
                Some(c) => Some(c@),
                None => None,
            },
            tool_calls: call_views(self.tool_calls@),
            tool_call_id: match &self.tool_call_id {
                Some(id) => Some(id@),
                None => None,
            },
        }
    }
}

/// How each message maps to the wire: system, user and tool messages
/// carry their text directly; an assistant turn carries its
/// reasoning or message text as assistant content, or its calls as
/// an assistant tool-call turn; a tool result names the call it
/// answers.
pub open spec fn wire_of(m: MessageView) -> WireMessageView {
    match m {
        MessageView::System(content) => WireMessageView {
            role: "system"@,
            content: Some(content),
            tool_calls: Seq::empty(),
            tool_call_id: None,
        },
        MessageView::Assistant(output) => match output {
            OutputView::Reasoning(r) => WireMessageView {
                role: "assistant"@,
                content: Some(r.text),
                tool_calls: Seq::empty(),
                tool_call_id: None,
            },
            OutputView::Message(text) => WireMessageView {
                role: "assistant"@,
                content: Some(text),
                tool_calls: Seq::empty(),
                tool_call_id: None,
            },
            OutputView::ToolCalls(calls) => WireMessageView {
                role: "assistant"@,
                content: None,
                tool_calls: calls,
                tool_call_id: None,
            },
        },
        MessageView::User(content) => WireMessageView {
            role: "user"@,
            content: Some(content),
            tool_calls: Seq::empty(),
            tool_call_id: None,
        },
        MessageView::Tool(response) => WireMessageView {
            role: "tool"@,
            content: Some(response.content),
            tool_calls: Seq::empty(),
            tool_call_id: Some(response.id),
        },
    }
}

/// The wire shapes of a run of messages, in order.
pub open spec fn wires_of(ms: Seq<Message>) -> Seq<WireMessageView> {
    ms.map_values(|m: Message| wire_of(m@))
}

/// The views of a sequence of wire messages, in order.
pub open spec fn wire_views(ws: Seq<WireMessage>) -> Seq<WireMessageView> {
    ws.map_values(|w: WireMessage| w@)
}

impl Message {
    /// This message in the provider's wire shape.
    pub fn to_wire(&self) -> (w: WireMessage)
        ensures
            w@ == wire_of(self@),
    {
        let w = match self {
            Message::System(content) => WireMessage {
                role: String::from_str("system"),
                content: Some(content.clone()),
                tool_calls: Vec::new(),
                tool_call_id: None,
            },
            Message::Assistant(output) => match output {
                Output::Reasoning(reasoning) => WireMessage {
                    role: String::from_str("assistant"),
                    content: Some(reasoning.text.clone()),
                    tool_calls: Vec::new(),
                    tool_call_id: None,
                },
                Output::Message(text) => WireMessage {
                    role: String::from_str("assistant"),
                    content: Some(text.clone()),
                    tool_calls: Vec::new(),
                    tool_call_id: None,
                },
                Output::ToolCalls(calls) => WireMessage {
                    role: String::from_str("assistant"),
                    content: None,
                    tool_calls: clone_calls(calls),
                    tool_call_id: None,
                },
            },
            Message::User(content) => WireMessage {
                role: String::from_str("user"),
                content: Some(content.clone()),
                tool_calls: Vec::new(),
                tool_call_id: None,
            },
            Message::Tool(response) => WireMessage {
                role: String::from_str("tool"),
                content: Some(response.content.clone()),
                tool_calls: Vec::new(),
                tool_call_id: Some(response.id.clone()),
            },
        };
        assert(w@.tool_calls =~= wire_of(self@).tool_calls);
        w
    }
}

/// The whole conversation for one request: the base messages followed
/// by the appended ones, each in wire shape, in order.
pub fn wire_messages(messages: &[Message], append: &[Message]) -> (wires: Vec<WireMessage>)
    ensures
        wire_views(wires@) == wires_of(messages@ + append@),
{
    let mut wires: Vec<WireMessage> = Vec::new();
    let mut i: usize = 0;
    while i < messages.len()
        invariant
            i <= messages@.len(),
            wires@.len() == i,
            forall|k: int| 0 <= k < i ==> wire_views(wires@)[k] == wire_of(messages@[k]@),
        decreases messages@.len() - i,
    {
        let ghost pre = wires@;
        let w = messages[i].to_wire();
        wires.push(w);
        proof {
            assert forall|k: int| 0 <= k < i + 1 implies wire_views(wires@)[k] == wire_of(
                messages@[k]@,
            ) by {
                assert(wires@[k] == pre.push(w)[k]);
                if k < i {
                    assert(wire_views(pre)[k] == wire_of(messages@[k]@));
                }
            }
        }
        i += 1;
    }
    let mut j: usize = 0;
    while j < append.len()
        invariant
            j <= append@.len(),
            wires@.len() == messages@.len() + j,
            forall|k: int|
                0 <= k < messages@.len() ==> wire_views(wires@)[k] == wire_of(messages@[k]@),
            forall|k: int|
                0 <= k < j ==> wire_views(wires@)[messages@.len() + k] == wire_of(append@[k]@),
        decreases append@.len() - j,
    {
        let ghost pre = wires@;
        let w = append[j].to_wire();
        wires.push(w);
        proof {
            assert forall|k: int| 0 <= k < messages@.len() implies wire_views(wires@)[k]
                == wire_of(messages@[k]@) by {
                assert(wires@[k] == pre.push(w)[k]);
                assert(wire_views(pre)[k] == wire_of(messages@[k]@));
            }
            assert forall|k: int| 0 <= k < j + 1 implies wire_views(wires@)[messages@.len() + k]
                == wire_of(append@[k]@) by {
                assert(wires@[messages@.len() + k] == pre.push(w)[messages@.len() + k]);
                if k < j {
                    assert(wire_views(pre)[messages@.len() + k] == wire_of(append@[k]@));
                }
            }
        }
        j += 1;
    }
    assert(wire_views(wires@) =~= wires_of(messages@ + append@));
    wires
}

/// One streamed notification of the completion engine.
#[derive(Debug)]
pub enum Event {
    OutputAdded { output: Output },
    TextChanged { delta: String, duration: u64 },
    ToolCallAdded { id: Id, name: String, arguments: String },
    ArgumentsChanged { delta: String, duration: u64 },
}

#[verifier::ext_equal]
pub enum EventView {
    OutputAdded { output: OutputView },
    TextChanged { delta: Seq<char>, duration: u64 },
    ToolCallAdded { id: Seq<char>, name: Seq<char>, arguments: Seq<char> },
    ArgumentsChanged { delta: Seq<char>, duration: u64 },
}

impl View for Event {
    type V = EventView;

    open spec fn view(&self) -> EventView {
        match self {
            Event::OutputAdded { output } => EventView::OutputAdded { output: output@ },
            Event::TextChanged { delta, duration } => EventView::TextChanged {
                delta: delta@,
                duration: *duration,
            },
            Event::ToolCallAdded { id, name, arguments } => EventView::ToolCallAdded {
                id: id@,
                name: name@,
                arguments: arguments@,
            },
            Event::ArgumentsChanged { delta, duration } => EventView::ArgumentsChanged {
                delta: delta@,
                duration: *duration,
            },
        }
    }
}

/// The views of a sequence of events, in order.
pub open spec fn event_views(s: Seq<Event>) -> Seq<EventView> {
    s.map_values(|e: Event| e@)
}

/// The text carried by an event view, if it carries any.
pub open spec fn event_text(event: EventView) -> Option<Seq<char>> {
    match event {
        EventView::OutputAdded { output } => output_text(output),
        EventView::TextChanged { delta, .. } => Some(delta),
        EventView::ToolCallAdded { .. } => None,
        EventView::ArgumentsChanged { .. } => None,
    }
}

impl Event {
    /// The text this event contributes, if any: the text of an added
    /// output, or a text delta.
    pub fn text(&self) -> (t: Option<&str>)
        ensures
            match t {
                Some(s) => event_text(self@) == Some(s@),
                None => event_text(self@) is None,
            },
    {
        match self {
            Event::OutputAdded { output } => output.text(),
            Event::TextChanged { delta, .. } => Some(delta.as_str()),
            Event::ToolCallAdded { .. } => None,
            Event::ArgumentsChanged { .. } => None,
        }
    }
}

impl Clone for Event {
    fn clone(&self) -> (r: Self)
        ensures
            r@ == self@,
    {
        match self {
            Event::OutputAdded { output } => Event::OutputAdded { output: output.clone() },
            Event::TextChanged { delta, duration } => Event::TextChanged {
                delta: delta.clone(),
                duration: *duration,
            },
            Event::ToolCallAdded { id, name, arguments } => Event::ToolCallAdded {
                id: id.clone(),
                name: name.clone(),
                arguments: arguments.clone(),
            },
            Event::ArgumentsChanged { delta, duration } => Event::ArgumentsChanged {
                delta: delta.clone(),
                duration: *duration,
            },
        }
    }
}

/// How one event changes the accumulated outputs:
/// an added output is appended; a text delta extends the trailing
/// reasoning or message output; a new tool call is appended to a
/// trailing tool-call output; an arguments delta extends the last call
/// of a trailing tool-call output. An event aimed at an output kind
/// that is not current leaves the outputs unchanged.
pub open spec fn updated_outputs(outputs: Seq<OutputView>, event: EventView) -> Seq<
    OutputView,
> {
    match event {
        EventView::OutputAdded { output } => outputs.push(output),
        EventView::TextChanged { delta, duration } => {
            if outputs.len() == 0 {
                outputs
            } else {
                match outputs.last() {
                    OutputView::Reasoning(r) => outputs.update(
                        outputs.len() - 1,
                        OutputView::Reasoning(
                            ReasoningView { text: r.text + delta, duration },
                        ),
                    ),
                    OutputView::Message(t) => outputs.update(
                        outputs.len() - 1,
                        OutputView::Message(t + delta),
                    ),
                    OutputView::ToolCalls(_) => outputs,
                }
            }
        },
        EventView::ToolCallAdded { id, name, arguments } => {
            if outputs.len() > 0 && outputs.last() is ToolCalls {
                let calls = outputs.last()->ToolCalls_0;
                outputs.update(
                    outputs.len() - 1,
                    OutputView::ToolCalls(calls.push(CallView::Function { id, name, arguments })),
                )
            } else {
                outputs
            }
        },
        EventView::ArgumentsChanged { delta, .. } => {
            if outputs.len() > 0 && outputs.last() is ToolCalls {
                let calls = outputs.last()->ToolCalls_0;
                if calls.len() > 0 {
                    match calls.last() {
                        CallView::Function { id, name, arguments } => outputs.update(
                            outputs.len() - 1,
                            OutputView::ToolCalls(
                                calls.update(
                                    calls.len() - 1,
                                    CallView::Function { id, name, arguments: arguments + delta },
                                ),
                            ),
                        ),
                    }
                } else {
                    outputs
                }
            } else {
                outputs
            }
        },
    }
}

/// The outputs after folding a whole event sequence, left to right.
pub open spec fn outputs_after(outputs: Seq<OutputView>, events: Seq<EventView>) -> Seq<
    OutputView,
>
    decreases events.len(),
{
    if events.len() == 0 {
        outputs
    } else {
        outputs_after(updated_outputs(outputs, events[0]), events.drop_first())
    }
}

/// Reply accumulation is a faithful left fold: folding an event
/// sequence in two runs, however it is split, gives the same outputs
/// as folding it in one run.
pub proof fn lemma_fold_split(
    outputs: Seq<OutputView>,
    first: Seq<EventView>,
    second: Seq<EventView>,
)
    ensures
        outputs_after(outputs, first + second) == outputs_after(
            outputs_after(outputs, first),
            second,
        ),
    decreases first.len(),
{
    if first.len() == 0 {
        assert(first + second =~= second);
    } else {
        assert((first + second).drop_first() =~= first.drop_first() + second);
        lemma_fold_split(updated_outputs(outputs, first[0]), first.drop_first(), second);
    }
}

/// The fully-accumulated structured result of one completion cycle.
#[derive(Debug)]
pub struct Reply {
    pub outputs: Vec<Output>,
}

impl View for Reply {
    type V = Seq<OutputView>;

    open spec fn view(&self) -> Seq<OutputView> {
        output_views(self.outputs@)
    }
}

impl Reply {
    /// An empty reply, the seed of the fold.
    pub fn new() -> (r: Self)
        ensures
            r@ == Seq::<OutputView>::empty(),
    {
        let r = Reply { outputs: Vec::new() };
        assert(r@ =~= Seq::<OutputView>::empty());
        r
    }

    /// Fold one event into the accumulated outputs.
    pub fn update(&mut self, event: &Event)
        ensures
            final(self)@ == updated_outputs(old(self)@, event@),
    {
        let ghost prior = self@;
        let ghost pre = self.outputs@;
        match event {
            Event::OutputAdded { output } => {
                let added = output.clone();
                proof {
                    lemma_output_views_push(pre, added);
                }
                self.outputs.push(added);
            },
            Event::TextChanged { delta, duration } => {
                if self.outputs.len() == 0 {
                    return ;
                }
                let last = self.outputs.pop().unwrap();
                match last {
                    Output::Reasoning(mut reasoning) => {
                        reasoning.text.append(delta.as_str());
                        reasoning.duration = *duration;
                        let replaced = Output::Reasoning(reasoning);
                        proof {
                            lemma_output_views_replace_last(pre, replaced);
                        }
                        self.outputs.push(replaced);
                    },
                    Output::Message(mut text) => {
                        text.append(delta.as_str());
                        let replaced = Output::Message(text);
                        proof {
                            lemma_output_views_replace_last(pre, replaced);
                        }
                        self.outputs.push(replaced);
                    },
                    Output::ToolCalls(calls) => {
                        self.outputs.push(Output::ToolCalls(calls));
                        assert(self.outputs@ =~= pre);
                    },
                }
            },
            Event::ToolCallAdded { id, name, arguments } => {
                if self.outputs.len() == 0 {
                    return ;
                }
                let last = self.outputs.pop().unwrap();
                match last {
                    Output::ToolCalls(mut calls) => {
                        let ghost calls_pre = calls@;
                        let added = Call::Function {
                            id: id.clone(),
                            name: name.clone(),
                            arguments: arguments.clone(),
                        };
                        proof {
                            crate::tool::lemma_call_views_push(calls_pre, added);
                        }
                        calls.push(added);
                        let replaced = Output::ToolCalls(calls);
                        proof {
                            lemma_output_views_replace_last(pre, replaced);
                        }
                        self.outputs.push(replaced);
                    },
                    other => {
                        self.outputs.push(other);
                        assert(self.outputs@ =~= pre);
                    },
                }
            },
            Event::ArgumentsChanged { delta, .. } => {
                if self.outputs.len() == 0 {
                    return ;
                }
                let last = self.outputs.pop().unwrap();
                match last {
                    Output::ToolCalls(mut calls) => {
                        if calls.len() == 0 {
                            self.outputs.push(Output::ToolCalls(calls));
                            assert(self.outputs@ =~= pre);
                        } else {
                            let ghost calls_pre = calls@;
                            let call = calls.pop().unwrap();
                            match call {
                                Call::Function { id, name, mut arguments } => {
                                    arguments.append(delta.as_str());
                                    let extended = Call::Function { id, name, arguments };
                                    proof {
                                        crate::tool::lemma_call_views_replace_last(
                                            calls_pre,
                                            extended,
                                        );
                                    }
                                    calls.push(extended);
                                },
                            }
                            let replaced = Output::ToolCalls(calls);
                            proof {
                                lemma_output_views_replace_last(pre, replaced);
                            }
                            self.outputs.push(replaced);
                        }
                    },
                    other => {
                        self.outputs.push(other);
                        assert(self.outputs@ =~= pre);
                    },
                }
            },
        }
    }
}

} // verus!
