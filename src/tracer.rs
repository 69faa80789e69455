//! Domain events, and the two ends of the event transport: the reader of the
//! producer's lines and the consumer that turns records into domain events.
use vstd::prelude::*;
use vstd::utf8::{decode_utf8, valid_utf8};
use crate::event::{EventKind, FileEvent, PATH_MAX};
use crate::text::{decimal, push_decimal, push_signed_decimal, signed_decimal, trim, trimmed, utf8_to_string};

verus! {

/// A semantic event of a trace.
#[derive(Clone, Debug)]
pub enum Event {
    /// The transport broke; no event follows.
    ProcessFailed { error: String },
    FileOpen { pid: u64, fd: u64, path: String },
    FileOpenFail { pid: u64, errno: i64, path: String },
    FileClose { pid: u64, fd: u64 },
}

/// An event with its texts as character sequences.
pub enum EventView {
    ProcessFailed { error: Seq<char> },
    FileOpen { pid: u64, fd: u64, path: Seq<char> },
    FileOpenFail { pid: u64, errno: i64, path: Seq<char> },
    FileClose { pid: u64, fd: u64 },
}

impl View for Event {
    type V = EventView;

    open spec fn view(&self) -> EventView {
        match self {
            Event::ProcessFailed { error } => EventView::ProcessFailed { error: error@ },
            Event::FileOpen { pid, fd, path } => EventView::FileOpen { pid: *pid, fd: *fd, path: path@ },
            Event::FileOpenFail { pid, errno, path } => EventView::FileOpenFail {
                pid: *pid,
                errno: *errno,
                path: path@,
            },
            Event::FileClose { pid, fd } => EventView::FileClose { pid: *pid, fd: *fd },
        }
    }
}

/// `b` without its trailing zero bytes.
pub open spec fn without_trailing_nul(b: Seq<u8>) -> Seq<u8>
    decreases b.len(),
{
    if b.len() > 0 && b.last() == 0 {
        without_trailing_nul(b.drop_last())
    } else {
        b
    }
}

/// What names a record in an error: its pid and descriptor.
pub open spec fn record_context(ev: FileEvent) -> Seq<char> {
    "record of pid "@ + decimal(ev.pid as nat) + ", fd "@ + signed_decimal(ev.fd as int) + ": "@
}

/// The error of a record whose path is not UTF-8.
pub open spec fn invalid_path_error(ev: FileEvent) -> Seq<char> {
    record_context(ev) + "path is not valid UTF-8"@
}

/// The error of a failed open whose descriptor is no negated errno.
pub open spec fn errno_range_error(ev: FileEvent) -> Seq<char> {
    record_context(ev) + "no errno is that large"@
}

/// The domain event that a record stands for. A path that is not UTF-8 once
/// its NUL padding is dropped is a transport failure; so is a failed open
/// whose descriptor, `i64::MIN`, negates to no `i64`. A failed open carries
/// the errno, the negated descriptor.
pub open spec fn raw_event_view(ev: FileEvent) -> EventView {
    let bytes = without_trailing_nul(ev.path@);
    if !valid_utf8(bytes) {
        EventView::ProcessFailed { error: invalid_path_error(ev) }
    } else {
        let path = decode_utf8(bytes);
        match ev.kind {
            EventKind::Open => if ev.fd == i64::MIN {
                EventView::ProcessFailed { error: errno_range_error(ev) }
            } else if ev.fd < 0 {
                EventView::FileOpenFail { pid: ev.pid, errno: (-ev.fd) as i64, path }
            } else {
                EventView::FileOpen { pid: ev.pid, fd: ev.fd as u64, path }
            },
            EventKind::Close => EventView::FileClose { pid: ev.pid, fd: ev.fd as u64 },
        }
    }
}

/// The path bytes of `ev` up to its NUL padding.
fn path_bytes(ev: &FileEvent) -> (r: Vec<u8>)
    ensures
        r@ == without_trailing_nul(ev.path@),
{
    let mut end: usize = PATH_MAX;
    assert(ev.path@.subrange(0, end as int) =~= ev.path@);
    while end > 0 && ev.path[end - 1] == 0
        invariant
            end <= PATH_MAX,
            ev.path@.len() == PATH_MAX,
            without_trailing_nul(ev.path@) == without_trailing_nul(ev.path@.subrange(0, end as int)),
        decreases end,
    {
        assert(ev.path@.subrange(0, end as int).drop_last() =~= ev.path@.subrange(0, end - 1));
        end = end - 1;
    }
    let mut r: Vec<u8> = Vec::new();
    let mut i: usize = 0;
    while i < end
        invariant
            i <= end <= PATH_MAX,
            ev.path@.len() == PATH_MAX,
            r@ == ev.path@.subrange(0, i as int),
        decreases end - i,
    {
        r.push(ev.path[i]);
        i = i + 1;
        assert(r@ =~= ev.path@.subrange(0, i as int));
    }
    r
}

/// `record_context(ev)` followed by `tail`.
fn record_error(ev: &FileEvent, tail: &str) -> (r: String)
    ensures
        r@ == record_context(*ev) + tail@,
{
    let mut m = "record of pid ".to_owned();
    push_decimal(&mut m, ev.pid);
    m.append(", fd ");
    push_signed_decimal(&mut m, ev.fd);
    m.append(": ");
    m.append(tail);
    m
}

impl Event {
    /// The domain event that the record `ev` stands for.
    pub fn from_raw(ev: &FileEvent) -> (r: Event)
        ensures
            r@ == raw_event_view(*ev),
    {
        let bytes = path_bytes(ev);
        let path = match utf8_to_string(bytes) {
            Some(p) => p,
            None => {
                return Event::ProcessFailed { error: record_error(ev, "path is not valid UTF-8") };
            },
        };
        match ev.kind {
            EventKind::Open => {
                if ev.fd == i64::MIN {
                    Event::ProcessFailed { error: record_error(ev, "no errno is that large") }
                } else if ev.fd < 0 {
                    Event::FileOpenFail { pid: ev.pid, errno: -ev.fd, path }
                } else {
                    Event::FileOpen { pid: ev.pid, fd: ev.fd as u64, path }
                }
            },
            EventKind::Close => Event::FileClose { pid: ev.pid, fd: ev.fd as u64 },
        }
    }
}

/// What the consumer receives from the transport.
pub enum Received {
    /// A record from the producer.
    Record(FileEvent),
    /// The producer failed, with its message.
    Failure(String),
    /// The producer is gone and the channel is closed.
    Closed,
}

pub enum ReceivedView {
    Record(FileEvent),
    Failure(Seq<char>),
    Closed,
}

impl View for Received {
    type V = ReceivedView;

    open spec fn view(&self) -> ReceivedView {
        match self {
            Received::Record(ev) => ReceivedView::Record(*ev),
            Received::Failure(m) => ReceivedView::Failure(m@),
            Received::Closed => ReceivedView::Closed,
        }
    }
}

pub open spec fn event_option_view(e: Option<Event>) -> Option<EventView> {
    match e {
        Some(e) => Some(e@),
        None => None,
    }
}

/// One step of the consumer: whether it is finished afterwards, and the event
/// it yields. A failure yields a last `ProcessFailed`; after the end nothing
/// more is yielded.
pub open spec fn tracer_step(finished: bool, received: ReceivedView) -> (bool, Option<EventView>) {
    if finished {
        (true, None)
    } else {
        match received {
            ReceivedView::Record(ev) => {
                let e = raw_event_view(ev);
                (e is ProcessFailed, Some(e))
            },
            ReceivedView::Failure(m) => (true, Some(EventView::ProcessFailed { error: m })),
            ReceivedView::Closed => (true, None),
        }
    }
}

/// What the consumer yields for each of `received`, in order.
pub open spec fn run_tracer(finished: bool, received: Seq<ReceivedView>) -> Seq<Option<EventView>>
    decreases received.len(),
{
    if received.len() == 0 {
        seq![]
    } else {
        let (f, e) = tracer_step(finished, received[0]);
        seq![e] + run_tracer(f, received.drop_first())
    }
}

/// The consumer end of a trace of one process: it turns what the transport
/// delivers into domain events until the trace ends.
pub struct Tracer {
    pid: u64,
    finished: bool,
}

impl Tracer {
    pub closed spec fn spec_pid(&self) -> u64 {
        self.pid
    }

    pub closed spec fn is_finished(&self) -> bool {
        self.finished
    }

    /// A consumer for the trace of `pid`.
    pub fn new(pid: u64) -> (r: Tracer)
        ensures
            r.spec_pid() == pid,
            !r.is_finished(),
    {
        Tracer { pid, finished: false }
    }

    /// The traced pid.
    pub fn pid(&self) -> (r: u64)
        ensures
            r == self.spec_pid(),
    {
        self.pid
    }

    /// Whether the trace has ended.
    pub fn finished(&self) -> (r: bool)
        ensures
            r == self.is_finished(),
    {
        self.finished
    }

    /// The next domain event, given what the transport delivered; `None` once
    /// the trace has ended.
    pub fn next(&mut self, received: Received) -> (r: Option<Event>)
        ensures
            final(self).spec_pid() == old(self).spec_pid(),
            (final(self).is_finished(), event_option_view(r)) == tracer_step(
                old(self).is_finished(),
                received@,
            ),
    {
        if self.finished {
            return None;
        }
        match received {
            Received::Record(ev) => {
                let e = Event::from_raw(&ev);
                self.finished = matches!(e, Event::ProcessFailed { .. });
                Some(e)
            },
            Received::Failure(m) => {
                self.finished = true;
                Some(Event::ProcessFailed { error: m })
            },
            Received::Closed => {
                self.finished = true;
                None
            },
        }
    }
}

/// What the reader of the producer's output learns next.
pub enum ProbeInput {
    /// The producer exited; `diagnostics` is all it wrote to its error stream.
    Exited { success: bool, diagnostics: String },
    /// A line of its output, and what decoding it as a wire event gave.
    Line { text: String, decoded: Result<FileEvent, String> },
}

pub enum ProbeInputView {
    Exited { success: bool, diagnostics: Seq<char> },
    Line { text: Seq<char>, decoded: Result<FileEvent, Seq<char>> },
}

impl View for ProbeInput {
    type V = ProbeInputView;

    open spec fn view(&self) -> ProbeInputView {
        match self {
            ProbeInput::Exited { success, diagnostics } => ProbeInputView::Exited {
                success: *success,
                diagnostics: diagnostics@,
            },
            ProbeInput::Line { text, decoded } => ProbeInputView::Line {
                text: text@,
                decoded: match decoded {
                    Ok(ev) => Ok(*ev),
                    Err(e) => Err(e@),
                },
            },
        }
    }
}

/// What the reader does next.
#[derive(Debug)]
pub enum ProbeAction {
    /// Hand the record to the consumer.
    Forward(FileEvent),
    /// Nothing to do; read on.
    Skip,
    /// Hand this failure to the consumer, then stop.
    Fail(String),
    /// Stop reading.
    Stop,
}

pub enum ProbeActionView {
    Forward(FileEvent),
    Skip,
    Fail(Seq<char>),
    Stop,
}

impl View for ProbeAction {
    type V = ProbeActionView;

    open spec fn view(&self) -> ProbeActionView {
        match self {
            ProbeAction::Forward(ev) => ProbeActionView::Forward(*ev),
            ProbeAction::Skip => ProbeActionView::Skip,
            ProbeAction::Fail(m) => ProbeActionView::Fail(m@),
            ProbeAction::Stop => ProbeActionView::Stop,
        }
    }
}

/// The failure reported for a line that does not decode: the decoder's error
/// and the raw line.
pub open spec fn decode_failure_message(error: Seq<char>, line: Seq<char>) -> Seq<char> {
    "cannot decode file event ("@ + error + "): "@ + line
}

/// One step of the reader: whether it has stopped afterwards, and its action.
pub open spec fn reader_step(stopped: bool, input: ProbeInputView) -> (bool, ProbeActionView) {
    if stopped {
        (true, ProbeActionView::Stop)
    } else {
        match input {
            ProbeInputView::Exited { success, diagnostics } => if success {
                (true, ProbeActionView::Stop)
            } else {
                (true, ProbeActionView::Fail(trimmed(diagnostics)))
            },
            ProbeInputView::Line { text, decoded } => if text.len() == 0 {
                (false, ProbeActionView::Skip)
            } else {
                match decoded {
                    Ok(ev) => (false, ProbeActionView::Forward(ev)),
                    Err(e) => (true, ProbeActionView::Fail(decode_failure_message(e, text))),
                }
            },
        }
    }
}

/// The reader's actions for each of `inputs`, in order.
pub open spec fn run_reader(stopped: bool, inputs: Seq<ProbeInputView>) -> Seq<ProbeActionView>
    decreases inputs.len(),
{
    if inputs.len() == 0 {
        seq![]
    } else {
        let (s, a) = reader_step(stopped, inputs[0]);
        seq![a] + run_reader(s, inputs.drop_first())
    }
}

/// The reader of the producer subprocess's output lines.
pub struct ProbeReader {
    stopped: bool,
}

impl ProbeReader {
    pub closed spec fn is_stopped(&self) -> bool {
        self.stopped
    }

    pub fn new() -> (r: ProbeReader)
        ensures
            !r.is_stopped(),
    {
        ProbeReader { stopped: false }
    }

    /// Whether the reader has stopped.
    pub fn stopped(&self) -> (r: bool)
        ensures
            r == self.is_stopped(),
    {
        self.stopped
    }

    /// Decides what to do with the next thing read from the producer.
    pub fn step(&mut self, input: ProbeInput) -> (r: ProbeAction)
        ensures
            (final(self).is_stopped(), r@) == reader_step(old(self).is_stopped(), input@),
    {
        if self.stopped {
            return ProbeAction::Stop;
        }
        match input {
            ProbeInput::Exited { success, diagnostics } => {
                self.stopped = true;
                if success {
                    ProbeAction::Stop
                } else {
                    ProbeAction::Fail(trim(diagnostics.as_str()))
                }
            },
            ProbeInput::Line { text, decoded } => {
                if text.as_str().is_empty() {
                    return ProbeAction::Skip;
                }
                match decoded {
                    Ok(ev) => ProbeAction::Forward(ev),
                    Err(e) => {
                        self.stopped = true;
                        let mut m = "cannot decode file event (".to_owned();
                        m.append(e.as_str());
                        m.append("): ");
                        m.append(text.as_str());
                        ProbeAction::Fail(m)
                    },
                }
            },
        }
    }
}

/// A stopped reader only ever stops.
pub proof fn lemma_stopped_reader_stays(inputs: Seq<ProbeInputView>)
    ensures
        run_reader(true, inputs).len() == inputs.len(),
        forall|i: int| 0 <= i < inputs.len() ==> run_reader(true, inputs)[i] == ProbeActionView::Stop,
    decreases inputs.len(),
{
    if inputs.len() > 0 {
        lemma_stopped_reader_stays(inputs.drop_first());
        let rest = run_reader(true, inputs.drop_first());
        assert forall|i: int| 0 <= i < inputs.len() implies run_reader(true, inputs)[i]
            == ProbeActionView::Stop by {
            if i > 0 {
                assert(run_reader(true, inputs)[i] == rest[i - 1]);
            }
        }
    }
}

/// A finished consumer yields nothing more.
pub proof fn lemma_finished_tracer_stays(received: Seq<ReceivedView>)
    ensures
        run_tracer(true, received).len() == received.len(),
        forall|i: int| 0 <= i < received.len() ==> run_tracer(true, received)[i] is None,
    decreases received.len(),
{
    if received.len() > 0 {
        lemma_finished_tracer_stays(received.drop_first());
        let rest = run_tracer(true, received.drop_first());
        assert forall|i: int| 0 <= i < received.len() implies run_tracer(true, received)[i] is None by {
            if i > 0 {
                assert(run_tracer(true, received)[i] == rest[i - 1]);
            }
        }
    }
}

/// Nonempty lines that decode.
pub open spec fn decodable_lines(inputs: Seq<ProbeInputView>) -> bool {
    forall|i: int|
        0 <= i < inputs.len() ==> {
            &&& #[trigger] inputs[i] is Line
            &&& inputs[i]->Line_text.len() > 0
            &&& inputs[i]->Line_decoded is Ok
        }
}

/// The record that a decodable line holds.
pub open spec fn line_record(input: ProbeInputView) -> FileEvent {
    input->Line_decoded->Ok_0
}

/// A running reader forwards the record of each decodable line in turn.
pub proof fn lemma_reader_forwards(good: Seq<ProbeInputView>, rest: Seq<ProbeInputView>)
    requires
        decodable_lines(good),
    ensures
        run_reader(false, good + rest) == good.map_values(|x: ProbeInputView| ProbeActionView::Forward(line_record(x)))
            + run_reader(false, rest),
    decreases good.len(),
{
    let f = |x: ProbeInputView| ProbeActionView::Forward(line_record(x));
    if good.len() == 0 {
        assert(good + rest =~= rest);
        assert(good.map_values(f) + run_reader(false, rest) =~= run_reader(false, rest));
    } else {
        let tail = good.drop_first();
        assert(decodable_lines(tail)) by {
            assert forall|i: int| 0 <= i < tail.len() implies #[trigger] tail[i] is Line && tail[i]->Line_text.len() > 0
                && tail[i]->Line_decoded is Ok by {
                assert(tail[i] == good[i + 1]);
            }
        }
        lemma_reader_forwards(tail, rest);
        assert(good[0] is Line);
        assert((good + rest)[0] == good[0]);
        assert((good + rest).drop_first() =~= tail + rest);
        assert(good.map_values(f) =~= seq![f(good[0])] + tail.map_values(f));
        assert(run_reader(false, good + rest) =~= good.map_values(f) + run_reader(false, rest));
    }
}

/// A consumer yields the event of each record in turn, while none of them is
/// a transport failure.
pub proof fn lemma_tracer_yields(records: Seq<FileEvent>, rest: Seq<ReceivedView>)
    requires
        forall|i: int| 0 <= i < records.len() ==> !(raw_event_view(#[trigger] records[i]) is ProcessFailed),
    ensures
        run_tracer(false, records.map_values(|e: FileEvent| ReceivedView::Record(e)) + rest)
            == records.map_values(|e: FileEvent| Some(raw_event_view(e))) + run_tracer(false, rest),
    decreases records.len(),
{
    let g = |e: FileEvent| ReceivedView::Record(e);
    let h = |e: FileEvent| Some(raw_event_view(e));
    if records.len() == 0 {
        assert(records.map_values(g) + rest =~= rest);
        assert(records.map_values(h) + run_tracer(false, rest) =~= run_tracer(false, rest));
    } else {
        let tail = records.drop_first();
        assert forall|i: int| 0 <= i < tail.len() implies !(raw_event_view(#[trigger] tail[i]) is ProcessFailed) by {
            assert(tail[i] == records[i + 1]);
        }
        lemma_tracer_yields(tail, rest);
        assert(!(raw_event_view(records[0]) is ProcessFailed));
        let all = records.map_values(g) + rest;
        assert(all[0] == ReceivedView::Record(records[0]));
        assert(all.drop_first() =~= tail.map_values(g) + rest);
        assert(records.map_values(h) =~= seq![h(records[0])] + tail.map_values(h));
        assert(run_tracer(false, all) =~= records.map_values(h) + run_tracer(false, rest));
    }
}

/// A line that fails to decode ends the trace. The reader forwards the
/// records of the decodable lines before it, then hands on a failure naming
/// the line, then forwards nothing, whatever it reads next. A consumer that
/// receives what the reader handed on yields the events of those records,
/// then one `ProcessFailed` event carrying the failure, then no event at all.
pub proof fn lemma_undecodable_line_ends_trace(
    good: Seq<ProbeInputView>,
    line: Seq<char>,
    error: Seq<char>,
    later_inputs: Seq<ProbeInputView>,
    later_received: Seq<ReceivedView>,
)
    requires
        decodable_lines(good),
        forall|i: int| 0 <= i < good.len() ==> !(raw_event_view(line_record(#[trigger] good[i])) is ProcessFailed),
        line.len() > 0,
    ensures
        ({
            let n = good.len() as int;
            let inputs = good + seq![ProbeInputView::Line { text: line, decoded: Err(error) }] + later_inputs;
            let actions = run_reader(false, inputs);
            let message = decode_failure_message(error, line);
            let records = good.map_values(|x: ProbeInputView| line_record(x));
            let received = records.map_values(|e: FileEvent| ReceivedView::Record(e)) + seq![
                ReceivedView::Failure(message),
            ] + later_received;
            let events = run_tracer(false, received);
            &&& actions.len() == inputs.len()
            &&& forall|i: int| 0 <= i < n ==> actions[i] == ProbeActionView::Forward(line_record(good[i]))
            &&& actions[n] == ProbeActionView::Fail(message)
            &&& forall|i: int| n < i < actions.len() ==> actions[i] == ProbeActionView::Stop
            &&& events.len() == received.len()
            &&& forall|i: int| 0 <= i < n ==> events[i] == Some(raw_event_view(line_record(good[i])))
            &&& events[n] == Some(EventView::ProcessFailed { error: message })
            &&& forall|i: int| n < i < events.len() ==> events[i] is None
        }),
{
    let n = good.len() as int;
    let bad = seq![ProbeInputView::Line { text: line, decoded: Err(error) }];
    let rest = bad + later_inputs;
    let inputs = good + bad + later_inputs;
    assert(inputs =~= good + rest);
    let message = decode_failure_message(error, line);
    let records = good.map_values(|x: ProbeInputView| line_record(x));
    let fail = seq![ReceivedView::Failure(message)];
    let rest_received = fail + later_received;
    let received = records.map_values(|e: FileEvent| ReceivedView::Record(e)) + fail + later_received;
    assert(received =~= records.map_values(|e: FileEvent| ReceivedView::Record(e)) + rest_received);

    lemma_reader_forwards(good, rest);
    assert(rest.drop_first() =~= later_inputs);
    lemma_stopped_reader_stays(later_inputs);
    let tail_actions = run_reader(false, rest);
    assert(tail_actions[0] == ProbeActionView::Fail(message));
    let actions = run_reader(false, inputs);
    assert forall|i: int| n < i < actions.len() implies actions[i] == ProbeActionView::Stop by {
        assert(actions[i] == tail_actions[i - n]);
        assert(tail_actions[i - n] == run_reader(true, later_inputs)[i - n - 1]);
    }
    assert(actions[n] == tail_actions[0]);

    assert forall|i: int| 0 <= i < records.len() implies !(raw_event_view(#[trigger] records[i]) is ProcessFailed) by {
        assert(records[i] == line_record(good[i]));
    }
    lemma_tracer_yields(records, rest_received);
    assert(rest_received.drop_first() =~= later_received);
    lemma_finished_tracer_stays(later_received);
    let tail_events = run_tracer(false, rest_received);
    let events = run_tracer(false, received);
    assert forall|i: int| 0 <= i < n implies events[i] == Some(raw_event_view(line_record(good[i]))) by {
        assert(records[i] == line_record(good[i]));
    }
    assert(events[n] == tail_events[0]);
    assert forall|i: int| n < i < events.len() implies events[i] is None by {
        assert(events[i] == tail_events[i - n]);
        assert(tail_events[i - n] == run_tracer(true, later_received)[i - n - 1]);
    }
}

} // verus!
