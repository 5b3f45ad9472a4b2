//! The run reporter: a gated run reports its progress as an ordered sequence
//! of events, the last of which carries a summary. Each event travels as one
//! line of JSON.

use vstd::prelude::*;
use vstd::string::*;
use crate::clock::{current_stamp, fallback_stamp, is_rfc3339};
use crate::config::AppConfig;
use crate::entitlements::Entitlements;
use crate::json::{decimal, json_string, no_line_feed, number, push_text, quote};

verus! {

/// The least time, in milliseconds, between two events of a run as they are
/// handed to the consumer.
pub const INTER_EVENT_DELAY_MS: u64 = 200;

/// The content type of an event stream: newline-delimited JSON.
pub const CONTENT_TYPE: &'static str = "application/x-ndjson";

/// What a caller asks for when starting a run.
#[derive(Debug)]
pub struct CiRunRequest {
    pub mode: String,
}

/// The class of an event.
#[derive(Clone, Copy, Debug, PartialEq, Eq, Structural)]
pub enum Level {
    /// Progress while the run goes on.
    Info,
    /// The run is over.
    Done,
}

/// The counts that close a run.
#[derive(Clone, Copy, Debug, PartialEq, Eq, Structural)]
pub struct Summary {
    pub hosts: u64,
    pub stacks: u64,
    pub changed: u64,
    pub failed: u64,
}

/// One progress record of a run.
#[derive(Debug)]
pub struct RunEvent {
    pub level: Level,
    pub ts: Option<String>,
    pub msg: Option<String>,
    pub edition: Option<String>,
    pub summary: Option<Summary>,
}

/// What an event is, as a mathematical value.
pub struct RunEventView {
    pub level: Level,
    pub ts: Option<Seq<char>>,
    pub msg: Option<Seq<char>>,
    pub edition: Option<Seq<char>>,
    pub summary: Option<Summary>,
}

/// The view of an optional text.
pub open spec fn text_view(t: Option<String>) -> Option<Seq<char>> {
    match t {
        Some(s) => Some(s@),
        None => None,
    }
}

impl View for RunEvent {
    type V = RunEventView;

    open spec fn view(&self) -> RunEventView {
        RunEventView {
            level: self.level,
            ts: text_view(self.ts),
            msg: text_view(self.msg),
            edition: text_view(self.edition),
            summary: self.summary,
        }
    }
}

/// The views of a sequence of events, in order.
pub open spec fn event_views(events: Seq<RunEvent>) -> Seq<RunEventView> {
    events.map_values(|e: RunEvent| e@)
}

fn clone_text(t: &Option<String>) -> (r: Option<String>)
    ensures
        r == *t,
{
    match t {
        Some(s) => Some(s.clone()),
        None => None,
    }
}

impl Clone for RunEvent {
    fn clone(&self) -> (r: Self)
        ensures
            r == *self,
    {
        RunEvent {
            level: self.level,
            ts: clone_text(&self.ts),
            msg: clone_text(&self.msg),
            edition: clone_text(&self.edition),
            summary: self.summary,
        }
    }
}

/// Why a run was not started.
#[derive(Clone, Copy, Debug, PartialEq, Eq, Structural)]
pub enum RunError {
    /// The license does not grant runs.
    NotEntitled,
}

impl RunError {
    /// The message shown for this error.
    pub fn message(&self) -> (r: String)
        ensures
            r@ == "the license does not grant runs"@,
    {
        String::from_str("the license does not grant runs")
    }
}

/// An event that ends a run.
pub open spec fn is_terminal(e: RunEventView) -> bool {
    e.level == Level::Done
}

/// A finished report: at least one event, the last one terminal and with a
/// summary, none before it terminal.
pub open spec fn is_complete_run(events: Seq<RunEventView>) -> bool {
    &&& events.len() > 0
    &&& is_terminal(events.last())
    &&& events.last().summary is Some
    &&& forall|i: int| 0 <= i < events.len() - 1 ==> !is_terminal(#[trigger] events[i])
}

/// A progress event that carries only a message.
pub open spec fn note(msg: Seq<char>) -> RunEventView {
    RunEventView { level: Level::Info, ts: None, msg: Some(msg), edition: None, summary: None }
}

/// The event that opens the scripted run: when it started and under which
/// edition.
pub open spec fn opening(edition: Seq<char>, started: Seq<char>) -> RunEventView {
    RunEventView {
        level: Level::Info,
        ts: Some(started),
        msg: Some("run started"@),
        edition: Some(edition),
        summary: None,
    }
}

/// The terminal event with its summary.
pub open spec fn closing(summary: Summary) -> RunEventView {
    RunEventView { level: Level::Done, ts: None, msg: None, edition: None, summary: Some(summary) }
}

/// The scripted run: started, planning, nothing to change, done with a
/// summary of zeros.
pub open spec fn script(edition: Seq<char>, started: Seq<char>) -> Seq<RunEventView> {
    seq![
        opening(edition, started),
        note("planning"@),
        note("nothing to change"@),
        closing(Summary { hosts: 0, stacks: 0, changed: 0, failed: 0 }),
    ]
}

/// The scripted run is a finished report, whatever the edition and the time.
pub proof fn law_script_is_complete(edition: Seq<char>, started: Seq<char>)
    ensures
        is_complete_run(script(edition, started)),
        script(edition, started).len() == 4,
{
}

/// Tells whether `events` is a finished report.
pub fn is_complete(events: &Vec<RunEvent>) -> (r: bool)
    ensures
        r == is_complete_run(event_views(events@)),
{
    let n = events.len();
    if n == 0 {
        return false;
    }
    let last = &events[n - 1];
    let closed = match last.level {
        Level::Done => last.summary.is_some(),
        Level::Info => false,
    };
    if !closed {
        return false;
    }
    let mut i: usize = 0;
    while i < n - 1
        invariant
            n == events.len(),
            n > 0,
            i <= n - 1,
            forall|k: int| 0 <= k < i ==> !is_terminal(#[trigger] event_views(events@)[k]),
        decreases n - 1 - i,
    {
        match events[i].level {
            Level::Done => {
                assert(is_terminal(event_views(events@)[i as int]));
                return false;
            },
            Level::Info => {},
        }
        i += 1;
    }
    true
}

/// Builds the events of the scripted run.
pub fn scripted_events(edition: &str, started: String) -> (events: Vec<RunEvent>)
    ensures
        event_views(events@) == script(edition@, started@),
{
    let mut events: Vec<RunEvent> = Vec::new();
    events.push(
        RunEvent {
            level: Level::Info,
            ts: Some(started),
            msg: Some(String::from_str("run started")),
            edition: Some(String::from_str(edition)),
            summary: None,
        },
    );
    events.push(
        RunEvent {
            level: Level::Info,
            ts: None,
            msg: Some(String::from_str("planning")),
            edition: None,
            summary: None,
        },
    );
    events.push(
        RunEvent {
            level: Level::Info,
            ts: None,
            msg: Some(String::from_str("nothing to change")),
            edition: None,
            summary: None,
        },
    );
    events.push(
        RunEvent {
            level: Level::Done,
            ts: None,
            msg: None,
            edition: None,
            summary: Some(Summary { hosts: 0, stacks: 0, changed: 0, failed: 0 }),
        },
    );
    assert(event_views(events@) =~= script(edition@, started@));
    events
}

/// The JSON object of a summary, keys in alphabetical order.
pub open spec fn summary_json(s: Summary) -> Seq<char> {
    "{\"changed\":"@ + decimal(s.changed as nat) + ",\"failed\":"@ + decimal(s.failed as nat)
        + ",\"hosts\":"@ + decimal(s.hosts as nat) + ",\"stacks\":"@ + decimal(s.stacks as nat)
        + "}"@
}

/// The `edition` member with the comma that follows it, or nothing.
pub open spec fn edition_part(edition: Option<Seq<char>>) -> Seq<char> {
    match edition {
        Some(t) => "\"edition\":"@ + json_string(t) + ","@,
        None => Seq::empty(),
    }
}

/// The `level` member.
pub open spec fn level_part(level: Level) -> Seq<char> {
    match level {
        Level::Info => "\"level\":\"info\""@,
        Level::Done => "\"level\":\"done\""@,
    }
}

/// The `msg` member with the comma before it, or nothing.
pub open spec fn msg_part(msg: Option<Seq<char>>) -> Seq<char> {
    match msg {
        Some(t) => ",\"msg\":"@ + json_string(t),
        None => Seq::empty(),
    }
}

/// The `summary` member with the comma before it, or nothing.
pub open spec fn summary_part(summary: Option<Summary>) -> Seq<char> {
    match summary {
        Some(s) => ",\"summary\":"@ + summary_json(s),
        None => Seq::empty(),
    }
}

/// The `ts` member with the comma before it, or nothing.
pub open spec fn ts_part(ts: Option<Seq<char>>) -> Seq<char> {
    match ts {
        Some(t) => ",\"ts\":"@ + json_string(t),
        None => Seq::empty(),
    }
}

/// The JSON object of an event: the members that are present, keys in
/// alphabetical order (`edition`, `level`, `msg`, `summary`, `ts`).
pub open spec fn event_json(e: RunEventView) -> Seq<char> {
    "{"@ + edition_part(e.edition) + level_part(e.level) + msg_part(e.msg) + summary_part(
        e.summary,
    ) + ts_part(e.ts) + "}"@
}

/// The line of an event: its JSON object and a line feed.
pub open spec fn event_line(e: RunEventView) -> Seq<char> {
    event_json(e) + "\n"@
}

/// A text that is one line: it ends with a line feed and holds no other.
pub open spec fn is_single_line(line: Seq<char>) -> bool {
    &&& line.len() > 0
    &&& line.last() == '\n'
    &&& no_line_feed(line.drop_last())
}

fn encode_summary(s: &Summary) -> (r: String)
    ensures
        r@ == summary_json(*s),
        no_line_feed(r@),
{
    proof {
        reveal_strlit("{\"changed\":");
        reveal_strlit(",\"failed\":");
        reveal_strlit(",\"hosts\":");
        reveal_strlit(",\"stacks\":");
        reveal_strlit("}");
    }
    let mut out = String::from_str("{\"changed\":");
    push_text(&mut out, number(s.changed).as_str());
    push_text(&mut out, ",\"failed\":");
    push_text(&mut out, number(s.failed).as_str());
    push_text(&mut out, ",\"hosts\":");
    push_text(&mut out, number(s.hosts).as_str());
    push_text(&mut out, ",\"stacks\":");
    push_text(&mut out, number(s.stacks).as_str());
    push_text(&mut out, "}");
    out
}

fn encode_edition(edition: &Option<String>) -> (r: String)
    ensures
        r@ == edition_part(text_view(*edition)),
        no_line_feed(r@),
{
    match edition {
        Some(t) => {
            proof {
                reveal_strlit("\"edition\":");
                reveal_strlit(",");
            }
            let mut out = String::from_str("\"edition\":");
            push_text(&mut out, quote(t.as_str()).as_str());
            push_text(&mut out, ",");
            out
        },
        None => String::new(),
    }
}

fn encode_level(level: Level) -> (r: &'static str)
    ensures
        r@ == level_part(level),
        no_line_feed(r@),
{
    proof {
        reveal_strlit("\"level\":\"info\"");
        reveal_strlit("\"level\":\"done\"");
    }
    match level {
        Level::Info => "\"level\":\"info\"",
        Level::Done => "\"level\":\"done\"",
    }
}

fn encode_msg(msg: &Option<String>) -> (r: String)
    ensures
        r@ == msg_part(text_view(*msg)),
        no_line_feed(r@),
{
    match msg {
        Some(t) => {
            proof {
                reveal_strlit(",\"msg\":");
            }
            let mut out = String::from_str(",\"msg\":");
            push_text(&mut out, quote(t.as_str()).as_str());
            out
        },
        None => String::new(),
    }
}

fn encode_summary_part(summary: &Option<Summary>) -> (r: String)
    ensures
        r@ == summary_part(*summary),
        no_line_feed(r@),
{
    match summary {
        Some(s) => {
            proof {
                reveal_strlit(",\"summary\":");
            }
            let mut out = String::from_str(",\"summary\":");
            push_text(&mut out, encode_summary(s).as_str());
            out
        },
        None => String::new(),
    }
}

fn encode_ts(ts: &Option<String>) -> (r: String)
    ensures
        r@ == ts_part(text_view(*ts)),
        no_line_feed(r@),
{
    match ts {
        Some(t) => {
            proof {
                reveal_strlit(",\"ts\":");
            }
            let mut out = String::from_str(",\"ts\":");
            push_text(&mut out, quote(t.as_str()).as_str());
            out
        },
        None => String::new(),
    }
}

impl RunEvent {
    /// Writes the event as one line of JSON. The line ends with a line feed
    /// and holds no other, so a consumer can split a stream of events at the
    /// line feeds.
    pub fn to_line(&self) -> (line: String)
        ensures
            line@ == event_line(self@),
            is_single_line(line@),
    {
        proof {
            reveal_strlit("{");
            reveal_strlit("}");
            reveal_strlit("\n");
        }
        let mut out = String::from_str("{");
        push_text(&mut out, encode_edition(&self.edition).as_str());
        push_text(&mut out, encode_level(self.level));
        push_text(&mut out, encode_msg(&self.msg).as_str());
        push_text(&mut out, encode_summary_part(&self.summary).as_str());
        push_text(&mut out, encode_ts(&self.ts).as_str());
        push_text(&mut out, "}");
        let ghost body = out@;
        push_text(&mut out, "\n");
        assert(out@.drop_last() =~= body);
        out
    }
}

/// The events of one run, handed out one at a time and in order. A stream is
/// finite, and once an event has been handed out it does not come again.
/// Every stream holds a finished report: its last event is terminal and
/// carries a summary, and no earlier event is terminal.
#[derive(Debug)]
pub struct RunStream {
    events: Vec<RunEvent>,
    next: usize,
}

impl RunStream {
    #[verifier::type_invariant]
    spec fn well_formed(self) -> bool {
        &&& self.next <= self.events@.len()
        &&& is_complete_run(event_views(self.events@))
    }

    /// All events of the run, in the order in which they are emitted.
    pub closed spec fn events(&self) -> Seq<RunEventView> {
        event_views(self.events@)
    }

    /// How many events have been handed out so far.
    pub closed spec fn emitted(&self) -> nat {
        self.next as nat
    }

    /// A stream over `events`, where they are a finished report; `None` where
    /// they are not.
    pub fn from_events(events: Vec<RunEvent>) -> (r: Option<RunStream>)
        ensures
            r is Some <==> is_complete_run(event_views(events@)),
            r matches Some(run) ==> run.events() == event_views(events@) && run.emitted() == 0,
    {
        if is_complete(&events) {
            Some(RunStream { events, next: 0 })
        } else {
            None
        }
    }

    /// The stream of the scripted run.
    pub fn scripted(edition: &str, started: String) -> (run: RunStream)
        ensures
            run.events() == script(edition@, started@),
            run.emitted() == 0,
            is_complete_run(run.events()),
    {
        let events = scripted_events(edition, started);
        proof {
            law_script_is_complete(edition@, started@);
        }
        RunStream { events, next: 0 }
    }

    /// How many events are still to come.
    pub fn remaining(&self) -> (n: usize)
        ensures
            n == self.events().len() - self.emitted(),
            self.emitted() <= self.events().len(),
            is_complete_run(self.events()),
    {
        proof {
            use_type_invariant(self);
        }
        self.events.len() - self.next
    }

    /// Hands out the next event: the one right after the last one handed
    /// out, each exactly once. After the terminal event there is nothing
    /// more, however often this is called.
    pub fn next_event(&mut self) -> (r: Option<RunEvent>)
        ensures
            final(self).events() == old(self).events(),
            is_complete_run(final(self).events()),
            old(self).emitted() <= old(self).events().len(),
            old(self).emitted() < old(self).events().len() ==> {
                &&& r matches Some(e)
                &&& e@ == old(self).events()[old(self).emitted() as int]
                &&& final(self).emitted() == old(self).emitted() + 1
            },
            old(self).emitted() == old(self).events().len() ==> {
                &&& r is None
                &&& final(self).emitted() == old(self).emitted()
            },
    {
        proof {
            use_type_invariant(&*self);
        }
        if self.next < self.events.len() {
            let event = self.events[self.next].clone();
            self.next = self.next + 1;
            Some(event)
        } else {
            None
        }
    }

    /// Hands out the next event as a line of JSON; see `next_event`.
    pub fn next_line(&mut self) -> (r: Option<String>)
        ensures
            final(self).events() == old(self).events(),
            is_complete_run(final(self).events()),
            old(self).emitted() <= old(self).events().len(),
            old(self).emitted() < old(self).events().len() ==> {
                &&& r matches Some(line)
                &&& line@ == event_line(old(self).events()[old(self).emitted() as int])
                &&& is_single_line(line@)
                &&& final(self).emitted() == old(self).emitted() + 1
            },
            old(self).emitted() == old(self).events().len() ==> {
                &&& r is None
                &&& final(self).emitted() == old(self).emitted()
            },
    {
        match self.next_event() {
            Some(event) => Some(event.to_line()),
            None => None,
        }
    }

    /// Hands out, as lines, all events that are still to come, in order. The
    /// last line is that of the terminal event.
    pub fn into_lines(self) -> (lines: Vec<String>)
        ensures
            self.emitted() <= self.events().len(),
            lines@.len() == self.events().len() - self.emitted(),
            forall|k: int|
                0 <= k < lines@.len() ==> (#[trigger] lines@[k])@ == event_line(
                    self.events()[self.emitted() + k],
                ) && is_single_line(lines@[k]@),
    {
        let mut run = self;
        let mut lines: Vec<String> = Vec::new();
        proof {
            use_type_invariant(&run);
        }
        loop
            invariant
                run.events() == self.events(),
                self.emitted() <= run.emitted() <= run.events().len(),
                lines@.len() == run.emitted() - self.emitted(),
                forall|k: int|
                    0 <= k < lines@.len() ==> (#[trigger] lines@[k])@ == event_line(
                        self.events()[self.emitted() + k],
                    ) && is_single_line(lines@[k]@),
            ensures
                run.emitted() == run.events().len(),
            decreases run.events().len() - run.emitted(),
        {
            match run.next_line() {
                Some(line) => {
                    lines.push(line);
                },
                None => {
                    break ;
                },
            }
        }
        lines
    }
}

/// Starts a run at a given time, under a given license. Without the run
/// capability the run is refused before any event exists; with it the run is
/// the scripted one, opened under the license's edition at `started`.
pub fn start_run(ents: &Entitlements, req: &CiRunRequest, started: String) -> (r: Result<
    RunStream,
    RunError,
>)
    ensures
        r is Ok <==> ents.features.ci_api,
        r matches Err(e) ==> e == RunError::NotEntitled,
        r matches Ok(run) ==> {
            &&& run.events() == script(ents.edition@, started@)
            &&& run.emitted() == 0
            &&& is_complete_run(run.events())
        },
{
    if !ents.grants_runs() {
        return Err(RunError::NotEntitled);
    }
    Ok(RunStream::scripted(ents.edition.as_str(), started))
}

/// Starts a run now. Without the run capability the run is refused before
/// the clock is read or any event exists. With it the run is the scripted
/// one, opened under the license's edition and stamped with the time that
/// the clock gives, as an RFC 3339 text, or with `now` where that time cannot
/// be written so.
pub fn ci_run(cfg: &AppConfig, ents: &Entitlements, req: &CiRunRequest) -> (r: Result<
    RunStream,
    RunError,
>)
    ensures
        r is Ok <==> ents.features.ci_api,
        r matches Err(e) ==> e == RunError::NotEntitled,
        r matches Ok(run) ==> {
            &&& exists|started: Seq<char>|
                (is_rfc3339(started) || started == fallback_stamp()) && run.events() == script(
                    ents.edition@,
                    started,
                )
            &&& run.emitted() == 0
            &&& is_complete_run(run.events())
        },
{
    if !ents.grants_runs() {
        return Err(RunError::NotEntitled);
    }
    let started = current_stamp();
    start_run(ents, req, started)
}

} // verus!
