//! Recording of terminal sessions as asciinema cast files (version 2), one file per session.
use vstd::prelude::*;

use crate::json::{items_view, Json, JsonView};
use crate::outside::{base64_bytes, base64_decode};
use crate::relay::auth::{read_text, utf8_text};
use crate::strmap::StrMap;
use crate::text::{decimal, decimal_u64, join3};

verus! {

/// What terminal data says, given the bytes that it decodes to; data that is no base64 says itself.
pub open spec fn terminal_data(decoded: Option<Seq<u8>>, raw: Seq<char>) -> Seq<char> {
    match decoded {
        Some(b) => utf8_text(b),
        None => raw,
    }
}

/// What terminal data says, given the bytes that it decodes to.
pub fn terminal_text(decoded: &Option<Vec<u8>>, raw: &str) -> (r: String)
    ensures
        r@ == terminal_data(
            match *decoded {
                Some(b) => Some(b@),
                None => None,
            },
            raw@,
        ),
{
    match decoded {
        Some(b) => read_text(b.as_slice()),
        None => raw.to_owned(),
    }
}

/// The terminal bytes that `s` stands for in base64, as text; `s` itself where it is no base64.
pub fn decode_terminal_data(s: &str) -> (r: String)
    ensures
        r@ == terminal_data(base64_bytes(s@), s@),
{
    let decoded = base64_decode(s);
    terminal_text(&decoded, s)
}

/// One terminal event.
#[derive(Debug, PartialEq)]
pub enum RecordEvent {
    /// What the terminal wrote.
    Output(String),
    /// What was typed.
    Input(String),
}

pub enum RecordEventView {
    Output(Seq<char>),
    Input(Seq<char>),
}

impl View for RecordEvent {
    type V = RecordEventView;

    open spec fn view(&self) -> RecordEventView {
        match self {
            RecordEvent::Output(s) => RecordEventView::Output(s@),
            RecordEvent::Input(s) => RecordEventView::Input(s@),
        }
    }
}

impl RecordEventView {
    pub open spec fn stream(self) -> Seq<char> {
        match self {
            RecordEventView::Output(_) => "o"@,
            RecordEventView::Input(_) => "i"@,
        }
    }

    pub open spec fn data(self) -> Seq<char> {
        match self {
            RecordEventView::Output(s) => s,
            RecordEventView::Input(s) => s,
        }
    }
}

impl RecordEvent {
    /// The stream that a cast file names for the event.
    pub fn stream_char(&self) -> (r: &'static str)
        ensures
            r@ == self@.stream(),
    {
        match self {
            RecordEvent::Output(_) => "o",
            RecordEvent::Input(_) => "i",
        }
    }

    pub fn data(&self) -> (r: &str)
        ensures
            r@ == self@.data(),
    {
        match self {
            RecordEvent::Output(s) => s.as_str(),
            RecordEvent::Input(s) => s.as_str(),
        }
    }
}

/// The name of a session's cast file.
pub open spec fn cast_name(session_id: Seq<char>, timestamp: u64) -> Seq<char> {
    session_id + "_"@ + decimal(timestamp as nat) + ".cast"@
}

/// The name of a session's cast file: `{session}_{unix seconds}.cast`.
pub fn cast_file_name(session_id: &str, timestamp: u64) -> (r: String)
    ensures
        r@ == cast_name(session_id@, timestamp),
{
    let mut s = join3(session_id, "_", decimal_u64(timestamp).as_str());
    s.append(".cast");
    s
}

/// The first line of a cast file.
pub open spec fn header_line(timestamp: u64) -> JsonView {
    JsonView::object().with("version"@, JsonView::Int(2)).with("width"@, JsonView::Int(80)).with(
        "height"@,
        JsonView::Int(24),
    ).with("timestamp"@, JsonView::Int(timestamp as int))
}

pub fn cast_header(timestamp: u64) -> (r: Json)
    ensures
        r@ == header_line(timestamp),
{
    Json::object().with("version", Json::Int(2)).with("width", Json::Int(80)).with(
        "height",
        Json::Int(24),
    ).with("timestamp", Json::Int(timestamp as i128))
}

/// The line of one event: the seconds since the recording began, the stream and the data.
pub open spec fn event_line(elapsed: Seq<char>, ev: RecordEventView) -> JsonView {
    JsonView::Arr(
        seq![JsonView::Float(elapsed), JsonView::Str(ev.stream()), JsonView::Str(ev.data())],
    )
}

pub fn cast_event(elapsed: String, ev: &RecordEvent) -> (r: Json)
    ensures
        r@ == event_line(elapsed@, ev@),
{
    let mut items: Vec<Json> = Vec::new();
    let ghost text = elapsed@;
    items.push(Json::Float(elapsed));
    items.push(Json::text(ev.stream_char()));
    items.push(Json::text(ev.data()));
    proof {
        crate::json::lemma_items_view(items@);
        assert(items_view(items@) =~= seq![
            JsonView::Float(text),
            JsonView::Str(ev@.stream()),
            JsonView::Str(ev@.data()),
        ]);
    }
    Json::Arr(items)
}

/// What is asked of the writers of cast files.
#[derive(Debug, PartialEq)]
pub enum RecordStep {
    /// Begin the file of a session.
    Open(String),
    /// Append an event to the file of a session.
    Append(String, RecordEvent),
    /// Flush and close the file of a session.
    Close(String),
}

pub enum RecordStepView {
    Open(Seq<char>),
    Append(Seq<char>, RecordEventView),
    Close(Seq<char>),
}

impl View for RecordStep {
    type V = RecordStepView;

    open spec fn view(&self) -> RecordStepView {
        match self {
            RecordStep::Open(s) => RecordStepView::Open(s@),
            RecordStep::Append(s, e) => RecordStepView::Append(s@, e@),
            RecordStep::Close(s) => RecordStepView::Close(s@),
        }
    }
}

pub open spec fn steps_view(v: Seq<RecordStep>) -> Seq<RecordStepView> {
    v.map_values(|s: RecordStep| s@)
}

/// Which sessions are being recorded, and what the writers have still to do.
pub struct Recorder {
    dir: String,
    writers: StrMap<bool>,
    steps: Vec<RecordStep>,
}

#[verifier::ext_equal]
pub struct RecorderView {
    pub dir: Seq<char>,
    pub open: Set<Seq<char>>,
    pub steps: Seq<RecordStepView>,
}

impl RecorderView {
    /// Recording an event begins a session's file where it has none.
    pub open spec fn record(self, session_id: Seq<char>, ev: RecordEventView) -> RecorderView {
        let steps = if self.open.contains(session_id) {
            self.steps
        } else {
            self.steps.push(RecordStepView::Open(session_id))
        };
        RecorderView {
            open: self.open.insert(session_id),
            steps: steps.push(RecordStepView::Append(session_id, ev)),
            ..self
        }
    }

    /// Closing ends a session's file, if it has one.
    pub open spec fn close(self, session_id: Seq<char>) -> RecorderView {
        if self.open.contains(session_id) {
            RecorderView {
                open: self.open.remove(session_id),
                steps: self.steps.push(RecordStepView::Close(session_id)),
                ..self
            }
        } else {
            self
        }
    }
}

/// A session is recorded from its first event until it is closed, whatever happens to others.
pub proof fn recording_lifecycle(
    r: RecorderView,
    session_id: Seq<char>,
    ev: RecordEventView,
    other: Seq<char>,
)
    ensures
        r.record(session_id, ev).open.contains(session_id),
        !r.close(session_id).open.contains(session_id),
        other != session_id ==> r.record(session_id, ev).open.contains(other) == r.open.contains(
            other,
        ) && r.close(session_id).open.contains(other) == r.open.contains(other),
{
}

impl View for Recorder {
    type V = RecorderView;

    closed spec fn view(&self) -> RecorderView {
        RecorderView {
            dir: self.dir@,
            open: self.writers@.dom(),
            steps: steps_view(self.steps@),
        }
    }
}

impl Recorder {
    /// A recorder of files under `dir`.
    pub fn new(dir: String) -> (r: Self)
        ensures
            r@ == (RecorderView { dir: dir@, open: Set::empty(), steps: Seq::empty() }),
    {
        let r = Recorder { dir, writers: StrMap::new(), steps: Vec::new() };
        assert(r@ =~= RecorderView { dir: dir@, open: Set::empty(), steps: Seq::empty() });
        r
    }

    /// Where the files go.
    pub fn dir(&self) -> (r: &str)
        ensures
            r@ == self@.dir,
    {
        self.dir.as_str()
    }

    /// Records an event of a session.
    pub fn record(&mut self, session_id: &str, ev: RecordEvent)
        ensures
            final(self)@ == old(self)@.record(session_id@, ev@),
    {
        let ghost before = self@;
        let ghost doc = ev@;
        if !self.writers.contains_key(session_id) {
            self.writers.insert(session_id.to_owned(), true);
            self.steps.push(RecordStep::Open(session_id.to_owned()));
            assert(steps_view(self.steps@) =~= before.steps.push(
                RecordStepView::Open(session_id@),
            ));
        }
        let ghost mid = steps_view(self.steps@);
        self.steps.push(RecordStep::Append(session_id.to_owned(), ev));
        assert(steps_view(self.steps@) =~= mid.push(RecordStepView::Append(session_id@, doc)));
        assert(self@ =~= before.record(session_id@, doc));
    }

    /// Whether a session is being recorded.
    pub fn is_recording(&self, session_id: &str) -> (r: bool)
        ensures
            r == self@.open.contains(session_id@),
    {
        self.writers.contains_key(session_id)
    }

    /// Ends the recording of a session, if there is one.
    pub fn close(&mut self, session_id: &str)
        ensures
            final(self)@ == old(self)@.close(session_id@),
    {
        let ghost before = self@;
        match self.writers.remove(session_id) {
            Some(_) => {
                self.steps.push(RecordStep::Close(session_id.to_owned()));
                assert(steps_view(self.steps@) =~= before.steps.push(
                    RecordStepView::Close(session_id@),
                ));
                assert(self@ =~= before.close(session_id@));
            },
            None => {
                assert(self@ =~= before);
            },
        }
    }

    /// Takes what the writers have still to do.
    pub fn take_steps(&mut self) -> (r: Vec<RecordStep>)
        ensures
            steps_view(r@) == old(self)@.steps,
            final(self)@ == (RecorderView { steps: Seq::empty(), ..old(self)@ }),
    {
        let mut steps: Vec<RecordStep> = Vec::new();
        std::mem::swap(&mut steps, &mut self.steps);
        assert(self@ =~= RecorderView { steps: Seq::empty(), ..old(self)@ });
        steps
    }
}

} // verus!
