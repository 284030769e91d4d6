//! The streaming completion engine's pure core: incremental line
//! framing over a byte stream, and the mode classifier that turns
//! parsed deltas into typed events.

use vstd::prelude::*;
use vstd::string::StrSliceExecFns;

use crate::message::{Event, EventView, Output, OutputView, ReasoningView, event_views};
use crate::message::Reasoning;
use crate::text::{contains_str, contains_sub};
use crate::tool::Id;

verus! {

/// The newline byte that terminates one line of the event stream.
pub const LINE_END: u8 = 0x0A;

/// What framing a run of bytes yields: the complete lines, and the
/// unterminated remainder that seeds the next run.
#[verifier::ext_equal]
pub struct Framed {
    pub lines: Seq<Seq<u8>>,
    pub rest: Seq<u8>,
}

/// Frame `bytes` arriving after the unterminated partial line `cur`:
/// every newline byte closes a line; bytes after the last newline
/// remain pending.
pub open spec fn frame_from(cur: Seq<u8>, bytes: Seq<u8>) -> Framed
    decreases bytes.len(),
{
    if bytes.len() == 0 {
        Framed { lines: Seq::empty(), rest: cur }
    } else if bytes[0] == LINE_END {
        let f = frame_from(Seq::empty(), bytes.drop_first());
        Framed { lines: seq![cur] + f.lines, rest: f.rest }
    } else {
        frame_from(cur.push(bytes[0]), bytes.drop_first())
    }
}

/// Framing a concatenation equals framing the first part and then the
/// second, seeded with what the first left pending.
pub proof fn lemma_frame_append(cur: Seq<u8>, a: Seq<u8>, b: Seq<u8>)
    ensures
        frame_from(cur, a + b) == (Framed {
            lines: frame_from(cur, a).lines + frame_from(frame_from(cur, a).rest, b).lines,
            rest: frame_from(frame_from(cur, a).rest, b).rest,
        }),
    decreases a.len(),
{
    if a.len() == 0 {
        assert(a + b =~= b);
        assert(frame_from(cur, a + b) =~= Framed {
            lines: frame_from(cur, a).lines + frame_from(frame_from(cur, a).rest, b).lines,
            rest: frame_from(frame_from(cur, a).rest, b).rest,
        });
    } else {
        assert((a + b).drop_first() =~= a.drop_first() + b);
        assert((a + b)[0] == a[0]);
        if a[0] == LINE_END {
            lemma_frame_append(Seq::empty(), a.drop_first(), b);
            assert(frame_from(cur, a + b) =~= Framed {
                lines: frame_from(cur, a).lines + frame_from(frame_from(cur, a).rest, b).lines,
                rest: frame_from(frame_from(cur, a).rest, b).rest,
            });
        } else {
            lemma_frame_append(cur.push(a[0]), a.drop_first(), b);
            assert(frame_from(cur, a + b) =~= Framed {
                lines: frame_from(cur, a).lines + frame_from(frame_from(cur, a).rest, b).lines,
                rest: frame_from(frame_from(cur, a).rest, b).rest,
            });
        }
    }
}

/// Frame a sequence of chunks one after another, each seeded with the
/// remainder the previous chunk left pending.
pub open spec fn frame_chunks(cur: Seq<u8>, chunks: Seq<Seq<u8>>) -> Framed
    decreases chunks.len(),
{
    if chunks.len() == 0 {
        Framed { lines: Seq::empty(), rest: cur }
    } else {
        let f = frame_from(cur, chunks[0]);
        let g = frame_chunks(f.rest, chunks.drop_first());
        Framed { lines: f.lines + g.lines, rest: g.rest }
    }
}

/// However a byte stream is cut into chunks, framing the chunks one by
/// one yields exactly the lines of the whole stream: no line is lost,
/// duplicated, or reordered by chunk boundaries.
pub proof fn lemma_frame_chunking(cur: Seq<u8>, chunks: Seq<Seq<u8>>)
    ensures
        frame_chunks(cur, chunks) == frame_from(cur, chunks.flatten()),
    decreases chunks.len(),
{
    if chunks.len() == 0 {
        assert(chunks.flatten() =~= Seq::<u8>::empty());
        assert(frame_chunks(cur, chunks) =~= frame_from(cur, chunks.flatten()));
    } else {
        let f = frame_from(cur, chunks[0]);
        lemma_frame_chunking(f.rest, chunks.drop_first());
        assert(chunks.flatten() == chunks[0] + chunks.drop_first().flatten());
        lemma_frame_append(cur, chunks[0], chunks.drop_first().flatten());
        assert(frame_chunks(cur, chunks) =~= frame_from(cur, chunks.flatten()));
    }
}

/// The views of a sequence of byte vectors, in order.
pub open spec fn line_views(s: Seq<Vec<u8>>) -> Seq<Seq<u8>> {
    s.map_values(|v: Vec<u8>| v@)
}

/// The incremental framing buffer: it retains the bytes after the last
/// newline seen so far, and hands out each line exactly once.
pub struct LineBuffer {
    buf: Vec<u8>,
}

impl View for LineBuffer {
    type V = Seq<u8>;

    closed spec fn view(&self) -> Seq<u8> {
        self.buf@
    }
}

impl LineBuffer {
    /// An empty buffer with no pending bytes.
    pub fn new() -> (r: Self)
        ensures
            r@ == Seq::<u8>::empty(),
    {
        LineBuffer { buf: Vec::new() }
    }

    /// Feed one chunk of bytes; returns the lines it completes, in
    /// order, and retains the unterminated remainder.
    pub fn feed(&mut self, chunk: &[u8]) -> (lines: Vec<Vec<u8>>)
        ensures
            line_views(lines@) == frame_from(old(self)@, chunk@).lines,
            final(self)@ == frame_from(old(self)@, chunk@).rest,
    {
        let ghost buf0 = self.buf@;
        let mut lines: Vec<Vec<u8>> = Vec::new();
        let mut i: usize = 0;
        while i < chunk.len()
            invariant
                i <= chunk.len(),
                line_views(lines@) == frame_from(buf0, chunk@.subrange(0, i as int)).lines,
                self.buf@ == frame_from(buf0, chunk@.subrange(0, i as int)).rest,
            decreases chunk.len() - i,
        {
            let ghost done = chunk@.subrange(0, i as int);
            let b = chunk[i];
            proof {
                lemma_frame_append(buf0, done, seq![b]);
                assert(chunk@.subrange(0, i + 1) =~= done + seq![b]);
                assert(seq![b].drop_first() =~= Seq::<u8>::empty());
            }
            if b == LINE_END {
                let mut line: Vec<u8> = Vec::new();
                core::mem::swap(&mut line, &mut self.buf);
                lines.push(line);
                proof {
                    let f0 = frame_from(buf0, done);
                    assert(frame_from(f0.rest, seq![b]) =~~= (Framed {
                        lines: seq![f0.rest],
                        rest: Seq::<u8>::empty(),
                    })) by {
                        reveal_with_fuel(frame_from, 3);
                    }
                    assert(line_views(lines@) =~~= frame_from(
                        buf0,
                        chunk@.subrange(0, i + 1),
                    ).lines);
                }
            } else {
                self.buf.push(b);
                proof {
                    let f0 = frame_from(buf0, done);
                    assert(frame_from(f0.rest, seq![b]) =~~= (Framed {
                        lines: Seq::<Seq<u8>>::empty(),
                        rest: f0.rest.push(b),
                    })) by {
                        reveal_with_fuel(frame_from, 3);
                    }
                    assert(line_views(lines@) =~~= frame_from(
                        buf0,
                        chunk@.subrange(0, i + 1),
                    ).lines);
                }
            }
            i += 1;
        }
        proof {
            assert(chunk@.subrange(0, chunk@.len() as int) =~= chunk@);
        }
        lines
    }
}

/// The classifier's reading of the stream: reasoning text, final
/// answer text, or tool-call construction.
#[derive(Debug, Clone, Copy, PartialEq, Eq, Structural)]
pub enum Mode {
    Reasoning,
    Messaging,
    ToolCalling,
}

/// One decoded line of the completion stream: either a text fragment,
/// or a tool-call fragment that opens a new call or extends the
/// current one.
#[derive(Debug)]
pub enum Delta {
    Text { content: String },
    ToolCallNew { id: Id, name: String, arguments: String },
    ToolCallUpdate { arguments: String },
}

#[verifier::ext_equal]
pub enum DeltaView {
    Text { content: Seq<char> },
    ToolCallNew { id: Seq<char>, name: Seq<char>, arguments: Seq<char> },
    ToolCallUpdate { arguments: Seq<char> },
}

impl View for Delta {
    type V = DeltaView;

    open spec fn view(&self) -> DeltaView {
        match self {
            Delta::Text { content } => DeltaView::Text { content: content@ },
            Delta::ToolCallNew { id, name, arguments } => DeltaView::ToolCallNew {
                id: id@,
                name: name@,
                arguments: arguments@,
            },
            Delta::ToolCallUpdate { arguments } => DeltaView::ToolCallUpdate {
                arguments: arguments@,
            },
        }
    }
}

/// The classifier after one delta: the next mode, when that mode
/// started, and the events emitted for the delta.
#[verifier::ext_equal]
pub struct Classified {
    pub mode: Option<Mode>,
    pub started_at: u64,
    pub events: Seq<EventView>,
}

/// The mode transition rules, applied to one delta at time `now`
/// (milliseconds on the caller's monotonic clock):
/// - text containing the reasoning-open marker while idle or messaging
///   opens a reasoning output and swallows the marker text;
/// - text containing the reasoning-close marker while reasoning
///   switches to messaging, opening an empty message output for the
///   final answer, and swallows the marker text;
/// - any other text while idle opens an empty message output and then
///   emits the text; while reasoning or messaging it just emits the
///   text; while tool-calling it is dropped;
/// - a tool-call fragment first opens a tool-call output if one is not
///   current, then either adds a new call or extends the latest one.
/// Durations report time in the current mode, so every mode switch
/// restarts the clock.
pub open spec fn classified(
    mode: Option<Mode>,
    started_at: u64,
    delta: DeltaView,
    now: u64,
) -> Classified {
    match delta {
        DeltaView::Text { content } => {
            if (mode is None || mode == Some(Mode::Messaging)) && contains_sub(
                content,
                "<think>"@,
            ) {
                Classified {
                    mode: Some(Mode::Reasoning),
                    started_at: now,
                    events: seq![
                        EventView::OutputAdded {
                            output: OutputView::Reasoning(
                                ReasoningView { text: Seq::empty(), duration: 0 },
                            ),
                        },
                    ],
                }
            } else if mode == Some(Mode::Reasoning) && contains_sub(content, "</think>"@) {
                Classified {
                    mode: Some(Mode::Messaging),
                    started_at: now,
                    events: seq![
                        EventView::OutputAdded { output: OutputView::Message(Seq::empty()) },
                    ],
                }
            } else if mode is None {
                Classified {
                    mode: Some(Mode::Messaging),
                    started_at: now,
                    events: seq![
                        EventView::OutputAdded { output: OutputView::Message(Seq::empty()) },
                        EventView::TextChanged { delta: content, duration: 0 },
                    ],
                }
            } else if mode == Some(Mode::ToolCalling) {
                Classified { mode, started_at, events: seq![] }
            } else {
                Classified {
                    mode,
                    started_at,
                    events: seq![
                        EventView::TextChanged {
                            delta: content,
                            duration: (now - started_at) as u64,
                        },
                    ],
                }
            }
        },
        DeltaView::ToolCallNew { id, name, arguments } => {
            if mode == Some(Mode::ToolCalling) {
                Classified {
                    mode,
                    started_at,
                    events: seq![EventView::ToolCallAdded { id, name, arguments }],
                }
            } else {
                Classified {
                    mode: Some(Mode::ToolCalling),
                    started_at: now,
                    events: seq![
                        EventView::OutputAdded { output: OutputView::ToolCalls(Seq::empty()) },
                        EventView::ToolCallAdded { id, name, arguments },
                    ],
                }
            }
        },
        DeltaView::ToolCallUpdate { arguments } => {
            if mode == Some(Mode::ToolCalling) {
                Classified {
                    mode,
                    started_at,
                    events: seq![
                        EventView::ArgumentsChanged {
                            delta: arguments,
                            duration: (now - started_at) as u64,
                        },
                    ],
                }
            } else {
                Classified {
                    mode: Some(Mode::ToolCalling),
                    started_at: now,
                    events: seq![
                        EventView::OutputAdded { output: OutputView::ToolCalls(Seq::empty()) },
                        EventView::ArgumentsChanged { delta: arguments, duration: 0 },
                    ],
                }
            }
        },
    }
}

/// The mode state machine, fed one parsed delta at a time.
pub struct Classifier {
    pub mode: Option<Mode>,
    pub started_at: u64,
}

impl Classifier {
    /// A classifier in the idle mode.
    pub fn new() -> (r: Self)
        ensures
            r.mode is None,
            r.started_at == 0,
    {
        Classifier { mode: None, started_at: 0 }
    }

    /// Classify one delta observed at time `now`, emitting the events
    /// it gives rise to. The clock must not run backwards.
    pub fn step(&mut self, delta: &Delta, now: u64) -> (events: Vec<Event>)
        requires
            old(self).started_at <= now,
        ensures
            final(self).mode == classified(old(self).mode, old(self).started_at, delta@, now).mode,
            final(self).started_at == classified(
                old(self).mode,
                old(self).started_at,
                delta@,
                now,
            ).started_at,
            event_views(events@) == classified(
                old(self).mode,
                old(self).started_at,
                delta@,
                now,
            ).events,
            final(self).started_at <= now,
    {
        let ghost c = classified(self.mode, self.started_at, delta@, now);
        let mut events: Vec<Event> = Vec::new();
        match delta {
            Delta::Text { content } => {
                let idle_or_messaging = match self.mode {
                    None => true,
                    Some(Mode::Messaging) => true,
                    _ => false,
                };
                if idle_or_messaging && contains_str(content.as_str(), "<think>") {
                    self.mode = Some(Mode::Reasoning);
                    self.started_at = now;
                    events.push(
                        Event::OutputAdded { output: Output::Reasoning(Reasoning::default()) },
                    );
                    assert(event_views(events@) =~~= c.events);
                    return events;
                }
                let reasoning = match self.mode {
                    Some(Mode::Reasoning) => true,
                    _ => false,
                };
                if reasoning && contains_str(content.as_str(), "</think>") {
                    self.mode = Some(Mode::Messaging);
                    self.started_at = now;
                    events.push(
                        Event::OutputAdded { output: Output::Message(String::new()) },
                    );
                    assert(event_views(events@) =~~= c.events);
                    return events;
                }
                match self.mode {
                    None => {
                        self.mode = Some(Mode::Messaging);
                        self.started_at = now;
                        events.push(
                            Event::OutputAdded { output: Output::Message(String::new()) },
                        );
                        events.push(
                            Event::TextChanged { delta: content.clone(), duration: 0 },
                        );
                        assert(event_views(events@) =~~= c.events);
                    },
                    Some(Mode::ToolCalling) => {
                        assert(event_views(events@) =~~= c.events);
                    },
                    Some(Mode::Reasoning) | Some(Mode::Messaging) => {
                        events.push(
                            Event::TextChanged {
                                delta: content.clone(),
                                duration: now - self.started_at,
                            },
                        );
                        assert(event_views(events@) =~~= c.events);
                    },
                }
            },
            Delta::ToolCallNew { id, name, arguments } => {
                let tool_calling = match self.mode {
                    Some(Mode::ToolCalling) => true,
                    _ => false,
                };
                if !tool_calling {
                    self.mode = Some(Mode::ToolCalling);
                    self.started_at = now;
                    events.push(Event::OutputAdded { output: Output::ToolCalls(Vec::new()) });
                }
                events.push(
                    Event::ToolCallAdded {
                        id: id.clone(),
                        name: name.clone(),
                        arguments: arguments.clone(),
                    },
                );
                assert(event_views(events@) =~~= c.events);
            },
            Delta::ToolCallUpdate { arguments } => {
                let tool_calling = match self.mode {
                    Some(Mode::ToolCalling) => true,
                    _ => false,
                };
                if !tool_calling {
                    self.mode = Some(Mode::ToolCalling);
                    self.started_at = now;
                    events.push(Event::OutputAdded { output: Output::ToolCalls(Vec::new()) });
                }
                events.push(
                    Event::ArgumentsChanged {
                        delta: arguments.clone(),
                        duration: now - self.started_at,
                    },
                );
                assert(event_views(events@) =~~= c.events);
            },
        }
        events
    }
}

/// What decoding one stream line's JSON payload yields. The payload
/// is everything after the five-byte data prefix of the line; the
/// result depends on those bytes alone.
pub uninterp spec fn delta_of(payload: Seq<u8>) -> Option<DeltaView>;

/// Relies on serde_json::from_slice: decodes one line's payload into
/// the first choice's delta — a text fragment, or exactly one
/// new-or-updated tool call. Anything malformed decodes to nothing
/// and is skipped by the caller.
#[verifier::external_body]
fn parse_delta(payload: &[u8]) -> (r: Option<Delta>)
    ensures
        match r {
            Some(d) => delta_of(payload@) == Some(d@),
            None => delta_of(payload@) is None,
        },
{
    let v: serde_json::Value = serde_json::from_slice(payload).ok()?;
    let d = &v["choices"][0]["delta"];
    if let Some(t) = d["content"].as_str() {
        return Some(Delta::Text { content: t.into() });
    }
    let c = match d["tool_calls"].as_array()?.as_slice() { [c] => c, _ => return None };
    let arguments: String = c["function"]["arguments"].as_str()?.into();
    match (c["id"].as_str(), c["function"]["name"].as_str()) {
        (Some(i), Some(n)) => Some(Delta::ToolCallNew { id: Id::new(i.into()), name: n.into(), arguments }),
        _ => Some(Delta::ToolCallUpdate { arguments }),
    }
}

/// Whether a line begins with the five-byte data prefix `data:`
/// (the ASCII bytes 100, 97, 116, 97, 58); only such lines carry
/// payloads of the stream.
pub open spec fn is_data_line(line: Seq<u8>) -> bool {
    &&& line.len() >= 5
    &&& line[0] == 100u8
    &&& line[1] == 97u8
    &&& line[2] == 116u8
    &&& line[3] == 97u8
    &&& line[4] == 58u8
}

/// What one complete line does to the classifier: lines that do not
/// begin with the data prefix are ignored; otherwise the bytes after
/// the prefix are decoded, an undecodable payload is skipped, and a
/// decoded delta is classified.
pub open spec fn line_outcome(
    mode: Option<Mode>,
    started_at: u64,
    line: Seq<u8>,
    now: u64,
) -> Classified {
    if !is_data_line(line) {
        Classified { mode, started_at, events: seq![] }
    } else {
        match delta_of(line.skip(5)) {
            None => Classified { mode, started_at, events: seq![] },
            Some(d) => classified(mode, started_at, d, now),
        }
    }
}

/// A run of complete lines, folded through the classifier in order.
pub open spec fn lines_outcome(
    mode: Option<Mode>,
    started_at: u64,
    lines: Seq<Seq<u8>>,
    now: u64,
) -> Classified
    decreases lines.len(),
{
    if lines.len() == 0 {
        Classified { mode, started_at, events: seq![] }
    } else {
        let first = line_outcome(mode, started_at, lines[0], now);
        let rest = lines_outcome(first.mode, first.started_at, lines.drop_first(), now);
        Classified {
            mode: rest.mode,
            started_at: rest.started_at,
            events: first.events + rest.events,
        }
    }
}

proof fn lemma_lines_outcome_snoc(
    mode: Option<Mode>,
    started_at: u64,
    lines: Seq<Seq<u8>>,
    line: Seq<u8>,
    now: u64,
)
    ensures
        ({
            let c = lines_outcome(mode, started_at, lines, now);
            let l = line_outcome(c.mode, c.started_at, line, now);
            lines_outcome(mode, started_at, lines.push(line), now) == Classified {
                mode: l.mode,
                started_at: l.started_at,
                events: c.events + l.events,
            }
        }),
    decreases lines.len(),
{
    reveal_with_fuel(lines_outcome, 3);
    if lines.len() == 0 {
        assert(lines.push(line)[0] == line);
        assert(lines.push(line).drop_first() =~= Seq::<Seq<u8>>::empty());
        let c = lines_outcome(mode, started_at, lines, now);
        let l = line_outcome(c.mode, c.started_at, line, now);
        assert(lines_outcome(mode, started_at, lines.push(line), now) =~= Classified {
            mode: l.mode,
            started_at: l.started_at,
            events: c.events + l.events,
        });
    } else {
        assert(lines.push(line)[0] == lines[0]);
        assert(lines.push(line).drop_first() =~= lines.drop_first().push(line));
        let first = line_outcome(mode, started_at, lines[0], now);
        lemma_lines_outcome_snoc(first.mode, first.started_at, lines.drop_first(), line, now);
        let c = lines_outcome(mode, started_at, lines, now);
        let l = line_outcome(c.mode, c.started_at, line, now);
        assert(lines_outcome(mode, started_at, lines.push(line), now) =~= Classified {
            mode: l.mode,
            started_at: l.started_at,
            events: c.events + l.events,
        });
    }
}

/// The streaming completion engine's state: the framing buffer and
/// the mode classifier.
pub struct Completion {
    buffer: LineBuffer,
    classifier: Classifier,
}

#[verifier::ext_equal]
pub struct CompletionView {
    pub rest: Seq<u8>,
    pub mode: Option<Mode>,
    pub started_at: u64,
}

impl View for Completion {
    type V = CompletionView;

    closed spec fn view(&self) -> CompletionView {
        CompletionView {
            rest: self.buffer@,
            mode: self.classifier.mode,
            started_at: self.classifier.started_at,
        }
    }
}

/// What one chunk of response bytes does to the engine: the chunk is
/// framed after the pending remainder, and each completed line runs
/// through decoding and classification in order.
pub open spec fn chunk_outcome(st: CompletionView, chunk: Seq<u8>, now: u64) -> (
    CompletionView,
    Seq<EventView>,
) {
    let f = frame_from(st.rest, chunk);
    let c = lines_outcome(st.mode, st.started_at, f.lines, now);
    (CompletionView { rest: f.rest, mode: c.mode, started_at: c.started_at }, c.events)
}

impl Completion {
    /// A fresh engine: nothing pending, no mode entered.
    pub fn new() -> (r: Self)
        ensures
            r@ == (CompletionView { rest: Seq::<u8>::empty(), mode: None, started_at: 0 }),
    {
        Completion { buffer: LineBuffer::new(), classifier: Classifier::new() }
    }

    /// Feed one chunk of the response body, observed at time `now`
    /// (milliseconds on the caller's monotonic clock), and collect
    /// the events its completed lines give rise to.
    pub fn feed_chunk(&mut self, chunk: &[u8], now: u64) -> (events: Vec<Event>)
        requires
            old(self)@.started_at <= now,
        ensures
            final(self)@ == chunk_outcome(old(self)@, chunk@, now).0,
            event_views(events@) == chunk_outcome(old(self)@, chunk@, now).1,
            final(self)@.started_at <= now,
    {
        let ghost st0 = self@;
        let lines = self.buffer.feed(chunk);
        let ghost framed_lines = line_views(lines@);
        let mut events: Vec<Event> = Vec::new();
        let mut k: usize = 0;
        while k < lines.len()
            invariant
                k <= lines.len(),
                framed_lines == line_views(lines@),
                framed_lines.len() == lines@.len(),
                self.classifier.started_at <= now,
                self@.rest == frame_from(st0.rest, chunk@).rest,
                ({
                    let c = lines_outcome(
                        st0.mode,
                        st0.started_at,
                        framed_lines.subrange(0, k as int),
                        now,
                    );
                    &&& self.classifier.mode == c.mode
                    &&& self.classifier.started_at == c.started_at
                    &&& event_views(events@) == c.events
                }),
            decreases lines.len() - k,
        {
            let ghost done = framed_lines.subrange(0, k as int);
            proof {
                lemma_lines_outcome_snoc(st0.mode, st0.started_at, done, framed_lines[k as int], now);
                assert(framed_lines.subrange(0, k + 1) =~= done.push(framed_lines[k as int]));
            }
            let line = &lines[k];
            let data_line = line.len() >= 5 && line[0] == 100 && line[1] == 97 && line[2]
                == 116 && line[3] == 97 && line[4] == 58;
            if data_line {
                let (_, payload) = line.as_slice().split_at(5);
                assert(payload@ =~= framed_lines[k as int].skip(5));
                match parse_delta(payload) {
                    Some(delta) => {
                        let mut emitted = self.classifier.step(&delta, now);
                        events.append(&mut emitted);
                        assert(event_views(events@) =~~= lines_outcome(
                            st0.mode,
                            st0.started_at,
                            framed_lines.subrange(0, k + 1),
                            now,
                        ).events);
                    },
                    None => {
                        assert(event_views(events@) =~~= lines_outcome(
                            st0.mode,
                            st0.started_at,
                            framed_lines.subrange(0, k + 1),
                            now,
                        ).events);
                    },
                }
            } else {
                assert(event_views(events@) =~~= lines_outcome(
                    st0.mode,
                    st0.started_at,
                    framed_lines.subrange(0, k + 1),
                    now,
                ).events);
            }
            k += 1;
        }
        proof {
            assert(framed_lines.subrange(0, framed_lines.len() as int) =~= framed_lines);
        }
        events
    }
}

proof fn lemma_lines_outcome_append(
    mode: Option<Mode>,
    started_at: u64,
    first: Seq<Seq<u8>>,
    second: Seq<Seq<u8>>,
    now: u64,
)
    ensures
        ({
            let a = lines_outcome(mode, started_at, first, now);
            let b = lines_outcome(a.mode, a.started_at, second, now);
            lines_outcome(mode, started_at, first + second, now) == Classified {
                mode: b.mode,
                started_at: b.started_at,
                events: a.events + b.events,
            }
        }),
    decreases first.len(),
{
    if first.len() == 0 {
        assert(first + second =~= second);
        let a = lines_outcome(mode, started_at, first, now);
        let b = lines_outcome(a.mode, a.started_at, second, now);
        assert(lines_outcome(mode, started_at, first + second, now) =~= Classified {
            mode: b.mode,
            started_at: b.started_at,
            events: a.events + b.events,
        });
    } else {
        assert((first + second)[0] == first[0]);
        assert((first + second).drop_first() =~= first.drop_first() + second);
        let head = line_outcome(mode, started_at, first[0], now);
        lemma_lines_outcome_append(head.mode, head.started_at, first.drop_first(), second, now);
        let a = lines_outcome(mode, started_at, first, now);
        let b = lines_outcome(a.mode, a.started_at, second, now);
        assert(lines_outcome(mode, started_at, first + second, now) =~= Classified {
            mode: b.mode,
            started_at: b.started_at,
            events: a.events + b.events,
        });
    }
}

/// The engine's state and events after a run of chunks, fed one
/// after another at time `now`.
pub open spec fn chunks_outcome(st: CompletionView, chunks: Seq<Seq<u8>>, now: u64) -> (
    CompletionView,
    Seq<EventView>,
)
    decreases chunks.len(),
{
    if chunks.len() == 0 {
        (st, Seq::empty())
    } else {
        let (st1, events1) = chunk_outcome(st, chunks[0], now);
        let (st2, events2) = chunks_outcome(st1, chunks.drop_first(), now);
        (st2, events1 + events2)
    }
}

/// However the response body is cut into chunks, the engine ends in
/// the same state and emits exactly the same events, in the same
/// order, as it would have for the whole body in one chunk: chunk
/// boundaries never lose, duplicate or reorder anything.
pub proof fn lemma_chunking_preserves_events(
    st: CompletionView,
    chunks: Seq<Seq<u8>>,
    now: u64,
)
    ensures
        chunks_outcome(st, chunks, now) == chunk_outcome(st, chunks.flatten(), now),
    decreases chunks.len(),
{
    if chunks.len() == 0 {
        assert(chunks.flatten() =~= Seq::<u8>::empty());
        let (st2, events) = chunk_outcome(st, chunks.flatten(), now);
        assert(st2 =~= st);
        assert(events =~= Seq::<EventView>::empty());
        assert(chunks_outcome(st, chunks, now) == (st2, events));
    } else {
        let rest_flat = chunks.drop_first().flatten();
        assert(chunks.flatten() == chunks[0] + rest_flat);
        lemma_frame_append(st.rest, chunks[0], rest_flat);
        let f1 = frame_from(st.rest, chunks[0]);
        let f2 = frame_from(f1.rest, rest_flat);
        lemma_lines_outcome_append(st.mode, st.started_at, f1.lines, f2.lines, now);
        let (st1, events1) = chunk_outcome(st, chunks[0], now);
        lemma_chunking_preserves_events(st1, chunks.drop_first(), now);
        let (st2, events2) = chunk_outcome(st1, rest_flat, now);
        let (whole_st, whole_events) = chunk_outcome(st, chunks.flatten(), now);
        assert(whole_st =~= st2);
        assert(whole_events =~= events1 + events2);
    }
}

} // verus!
