//! The line-framed JSON-RPC exchange with a server: classifying incoming
//! lines, the bounded scan for a response, the requests a session sends,
//! and the phases of a one-shot inspection session.

use vstd::prelude::*;
use crate::json::{json_member, json_quoted, member_text, quote};
use crate::text::{blank, is_blank};

verus! {

/// How many lines a scan reads at most before it gives up.
pub const ATTEMPT_BUDGET: u64 = 20;

/// How long one read waits for a line, in milliseconds, whatever the
/// phase's deadline.
pub const READ_WAIT_MILLIS: u64 = 300;

/// What one line of a server's output is to the protocol.
#[derive(Debug, Clone, Copy, PartialEq, Eq, Structural)]
pub enum LineKind {
    /// Nothing but white space.
    Blank,
    /// Output that is not a protocol message: log text, or JSON without the
    /// protocol marker.
    Noise,
    /// A JSON object that carries the protocol marker.
    Response,
}

/// The kind of a line: blank, a JSON object with a `jsonrpc` member, or
/// anything else.
pub open spec fn line_kind(line: Seq<char>) -> LineKind {
    if blank(line) {
        LineKind::Blank
    } else if json_member(line, "jsonrpc"@) is Some {
        LineKind::Response
    } else {
        LineKind::Noise
    }
}

/// Classifies one line read from a server: a line is a response when it is a
/// JSON object with a `jsonrpc` member.
pub fn classify_line(line: &str) -> (r: LineKind)
    ensures
        r == line_kind(line@),
{
    if is_blank(line) {
        return LineKind::Blank;
    }
    match member_text(line, "jsonrpc") {
        Some(_) => LineKind::Response,
        None => LineKind::Noise,
    }
}

/// What happened on one read from a server's output.
#[derive(Debug, Clone, Copy, PartialEq, Eq, Structural)]
pub enum ReadEvent {
    /// A line arrived.
    Line(LineKind),
    /// The short per-line wait ran out with nothing read.
    WaitElapsed,
    /// The phase's deadline has passed.
    DeadlinePassed,
    /// The stream ended.
    Closed,
    /// The read failed.
    IoFailure,
}

/// Why an exchange failed.
#[derive(Debug, Clone, Copy, PartialEq, Eq, Structural)]
pub enum ExchangeError {
    /// No response within the attempt budget or the phase deadline.
    Timeout,
    /// The stream ended before a response came.
    StreamClosed,
    /// Reading the stream failed.
    Io,
    /// The server answered with a JSON-RPC error object.
    Protocol,
}

/// Where a scan stands after a read.
#[derive(Debug, Clone, Copy, PartialEq, Eq, Structural)]
pub enum ScanStep {
    /// Read another line.
    ReadNext,
    /// The line just read is the response.
    Matched,
    /// The scan is over without a response.
    Failed(ExchangeError),
}

/// The outcome of a scan over a sequence of reads.
pub enum ScanOutcome {
    /// The response came after this many lines that were not.
    Matched(nat),
    Failed(ExchangeError),
    /// The reads ran out with the scan still going.
    Waiting,
}

/// The step a scan takes on `event` after `used` of its `budget` attempts
/// were spent on lines that were not the response. A line that is not the
/// response spends an attempt; a per-line wait that runs out spends none
/// and, under `retry_on_wait`, reads on, the phase deadline bounding it.
pub open spec fn scan_step(used: nat, budget: nat, retry_on_wait: bool, event: ReadEvent) -> ScanStep {
    match event {
        ReadEvent::Line(LineKind::Response) => ScanStep::Matched,
        ReadEvent::Line(_) => if used + 1 >= budget {
            ScanStep::Failed(ExchangeError::Timeout)
        } else {
            ScanStep::ReadNext
        },
        ReadEvent::WaitElapsed => if retry_on_wait {
            ScanStep::ReadNext
        } else {
            ScanStep::Failed(ExchangeError::Timeout)
        },
        ReadEvent::DeadlinePassed => ScanStep::Failed(ExchangeError::Timeout),
        ReadEvent::Closed => ScanStep::Failed(ExchangeError::StreamClosed),
        ReadEvent::IoFailure => ScanStep::Failed(ExchangeError::Io),
    }
}

/// The attempts spent once `event` has been read on.
pub open spec fn spent_after(used: nat, event: ReadEvent) -> nat {
    if event == ReadEvent::WaitElapsed {
        used
    } else {
        used + 1
    }
}

/// The outcome of a scan that has spent `used` reads and meets `events` next.
pub open spec fn scan_from(used: nat, budget: nat, retry_on_wait: bool, events: Seq<ReadEvent>) -> ScanOutcome
    decreases events.len(),
{
    if events.len() == 0 {
        ScanOutcome::Waiting
    } else {
        match scan_step(used, budget, retry_on_wait, events[0]) {
            ScanStep::Matched => ScanOutcome::Matched(used),
            ScanStep::Failed(e) => ScanOutcome::Failed(e),
            ScanStep::ReadNext => scan_from(spent_after(used, events[0]), budget, retry_on_wait, events.drop_first()),
        }
    }
}

/// The bounded scan for one response: each line read that is not the
/// response spends one attempt, and the scan fails once the budget is spent.
pub struct ResponseScanner {
    pub used: u64,
    pub budget: u64,
    /// Whether a per-line wait that runs out spends an attempt rather than
    /// ending the scan.
    pub retry_on_wait: bool,
}

impl ResponseScanner {
    pub open spec fn wf(&self) -> bool {
        self.used < self.budget
    }

    /// A scan that has read nothing yet.
    pub fn new(budget: u64, retry_on_wait: bool) -> (r: ResponseScanner)
        requires
            budget > 0,
        ensures
            r.wf(),
            r.used == 0,
            r.budget == budget,
            r.retry_on_wait == retry_on_wait,
    {
        ResponseScanner { used: 0, budget, retry_on_wait }
    }

    /// Takes the next read into account.
    pub fn step(&mut self, event: ReadEvent) -> (r: ScanStep)
        requires
            old(self).wf(),
        ensures
            r == scan_step(old(self).used as nat, old(self).budget as nat, old(self).retry_on_wait, event),
            final(self).budget == old(self).budget,
            final(self).retry_on_wait == old(self).retry_on_wait,
            r == ScanStep::ReadNext ==> final(self).wf() && final(self).used == spent_after(old(self).used as nat, event),
            r != ScanStep::ReadNext ==> final(self).used == old(self).used,
    {
        let r = match event {
            ReadEvent::Line(LineKind::Response) => ScanStep::Matched,
            ReadEvent::Line(_) => if self.used + 1 >= self.budget {
                ScanStep::Failed(ExchangeError::Timeout)
            } else {
                ScanStep::ReadNext
            },
            ReadEvent::WaitElapsed => if self.retry_on_wait {
                ScanStep::ReadNext
            } else {
                ScanStep::Failed(ExchangeError::Timeout)
            },
            ReadEvent::DeadlinePassed => ScanStep::Failed(ExchangeError::Timeout),
            ReadEvent::Closed => ScanStep::Failed(ExchangeError::StreamClosed),
            ReadEvent::IoFailure => ScanStep::Failed(ExchangeError::Io),
        };
        if r == ScanStep::ReadNext && event != ReadEvent::WaitElapsed {
            self.used = self.used + 1;
        }
        r
    }
}

/// What a finished or unfinished scan reports: `None` while it still waits.
pub open spec fn scan_report(o: ScanOutcome) -> Option<Result<usize, ExchangeError>> {
    match o {
        ScanOutcome::Matched(i) => Some(Ok(i as usize)),
        ScanOutcome::Failed(e) => Some(Err(e)),
        ScanOutcome::Waiting => None,
    }
}

/// Runs a scan over a sequence of reads: how many lines came before the
/// response, why there is none, or `None` when the reads end with the scan
/// still waiting.
pub fn scan_events(events: &Vec<ReadEvent>, budget: u64, retry_on_wait: bool) -> (r: Option<
    Result<usize, ExchangeError>,
>)
    requires
        budget > 0,
    ensures
        r == scan_report(scan_from(0, budget as nat, retry_on_wait, events@)),
{
    let mut scanner = ResponseScanner::new(budget, retry_on_wait);
    let mut i: usize = 0;
    assert(events@.subrange(0, events@.len() as int) == events@);
    while i < events.len()
        invariant
            scanner.wf(),
            scanner.budget == budget,
            scanner.retry_on_wait == retry_on_wait,
            i <= events@.len(),
            scanner.used <= i,
            scan_from(0, budget as nat, retry_on_wait, events@) == scan_from(
                scanner.used as nat,
                budget as nat,
                retry_on_wait,
                events@.subrange(i as int, events@.len() as int),
            ),
        decreases events@.len() - i,
    {
        let ghost rest = events@.subrange(i as int, events@.len() as int);
        assert(rest[0] == events@[i as int]);
        match scanner.step(events[i]) {
            ScanStep::Matched => {
                return Some(Ok(scanner.used as usize));
            },
            ScanStep::Failed(e) => {
                return Some(Err(e));
            },
            ScanStep::ReadNext => {
                assert(rest.drop_first() == events@.subrange(i + 1, events@.len() as int));
            },
        }
        i = i + 1;
    }
    assert(events@.subrange(i as int, events@.len() as int).len() == 0);
    None
}

/// The reads that a stream holding `kinds` and then ending gives.
pub open spec fn reads_then_close(kinds: Seq<LineKind>) -> Seq<ReadEvent> {
    Seq::new(kinds.len(), |i: int| ReadEvent::Line(kinds[i])).push(ReadEvent::Closed)
}

/// The kinds of a list of lines.
pub open spec fn kinds_of(lines: Seq<String>) -> Seq<LineKind> {
    Seq::new(lines.len(), |i: int| line_kind(lines[i]@))
}

/// Scans lines already read from a stream that then ended: how many lines
/// came before the response, or why there is none.
pub fn scan_lines(lines: &Vec<String>, budget: u64) -> (r: Result<usize, ExchangeError>)
    requires
        budget > 0,
    ensures
        Some(r) == scan_report(scan_from(0, budget as nat, false, reads_then_close(kinds_of(lines@)))),
{
    let mut events: Vec<ReadEvent> = Vec::new();
    let mut i: usize = 0;
    while i < lines.len()
        invariant
            i <= lines@.len(),
            events@ == Seq::new(i as nat, |j: int| ReadEvent::Line(kinds_of(lines@)[j])),
        decreases lines@.len() - i,
    {
        let kind = classify_line(lines[i].as_str());
        events.push(ReadEvent::Line(kind));
        assert(events@ =~= Seq::new((i + 1) as nat, |j: int| ReadEvent::Line(kinds_of(lines@)[j])));
        i = i + 1;
    }
    events.push(ReadEvent::Closed);
    assert(events@ =~= reads_then_close(kinds_of(lines@)));
    let report = scan_events(&events, budget, false);
    proof {
        lemma_closed_stream_ends_scan(0, budget as nat, false, kinds_of(lines@));
    }
    match report {
        Some(r) => r,
        None => Err(ExchangeError::StreamClosed),
    }
}

/// A scan over a stream that ends always finishes.
pub proof fn lemma_closed_stream_ends_scan(used: nat, budget: nat, retry_on_wait: bool, kinds: Seq<LineKind>)
    ensures
        scan_from(used, budget, retry_on_wait, reads_then_close(kinds)) != ScanOutcome::Waiting,
    decreases kinds.len(),
{
    let ev = reads_then_close(kinds);
    if kinds.len() > 0 {
        assert(ev.drop_first() == reads_then_close(kinds.drop_first()));
        lemma_closed_stream_ends_scan(used + 1, budget, retry_on_wait, kinds.drop_first());
    }
}

/// `k` lines of noise and then a response, read from a fresh scan: the
/// response is found exactly when `k` is below the attempt budget, and the
/// scan times out otherwise.
pub proof fn lemma_noise_then_response(k: nat, budget: nat, retry_on_wait: bool)
    requires
        budget > 0,
    ensures
        scan_from(0, budget, retry_on_wait, Seq::new(k, |i: int| ReadEvent::Line(LineKind::Noise)).push(
            ReadEvent::Line(LineKind::Response),
        )) == if k < budget {
            ScanOutcome::Matched(k)
        } else {
            ScanOutcome::Failed(ExchangeError::Timeout)
        },
{
    lemma_noise_run(0, k, budget, retry_on_wait);
}

proof fn lemma_noise_run(used: nat, k: nat, budget: nat, retry_on_wait: bool)
    requires
        used < budget,
    ensures
        scan_from(used, budget, retry_on_wait, Seq::new(k, |i: int| ReadEvent::Line(LineKind::Noise)).push(
            ReadEvent::Line(LineKind::Response),
        )) == if used + k < budget {
            ScanOutcome::Matched(used + k)
        } else {
            ScanOutcome::Failed(ExchangeError::Timeout)
        },
    decreases k,
{
    let ev = Seq::new(k, |i: int| ReadEvent::Line(LineKind::Noise)).push(ReadEvent::Line(LineKind::Response));
    if k > 0 {
        let rest = Seq::new((k - 1) as nat, |i: int| ReadEvent::Line(LineKind::Noise)).push(
            ReadEvent::Line(LineKind::Response),
        );
        assert(ev.drop_first() == rest);
        if used + 1 < budget {
            lemma_noise_run(used + 1, (k - 1) as nat, budget, retry_on_wait);
        }
    }
}

/// The `initialize` request, sent first, naming this client as `client`.
pub open spec fn initialize_text(client: Seq<char>) -> Seq<char> {
    "{\"id\":1,\"jsonrpc\":\"2.0\",\"method\":\"initialize\",\"params\":{\"capabilities\":{},\"clientInfo\":{\"name\":"@
        + json_quoted(client) + ",\"version\":\"1.0.0\"},\"protocolVersion\":\"2024-11-05\"}}"@
}

/// The notification that ends the handshake.
pub open spec fn initialized_text() -> Seq<char> {
    "{\"jsonrpc\":\"2.0\",\"method\":\"notifications/initialized\"}"@
}

/// The request for a server's tool catalog.
pub open spec fn list_tools_text() -> Seq<char> {
    "{\"id\":2,\"jsonrpc\":\"2.0\",\"method\":\"tools/list\",\"params\":{}}"@
}

/// The request that calls tool `name` with `arguments` (JSON text).
pub open spec fn call_tool_text(name: Seq<char>, arguments: Seq<char>) -> Seq<char> {
    "{\"id\":2,\"jsonrpc\":\"2.0\",\"method\":\"tools/call\",\"params\":{\"arguments\":"@ + arguments
        + ",\"name\":"@ + json_quoted(name) + "}}"@
}

/// The `initialize` request line for a client called `client`.
pub fn initialize_request(client: &str) -> (r: String)
    ensures
        r@ == initialize_text(client@),
{
    let head = String::from_str(
        "{\"id\":1,\"jsonrpc\":\"2.0\",\"method\":\"initialize\",\"params\":{\"capabilities\":{},\"clientInfo\":{\"name\":",
    );
    let name = quote(client);
    head.concat(name.as_str()).concat(",\"version\":\"1.0.0\"},\"protocolVersion\":\"2024-11-05\"}}")
}

/// The `notifications/initialized` line.
pub fn initialized_notification() -> (r: String)
    ensures
        r@ == initialized_text(),
{
    String::from_str("{\"jsonrpc\":\"2.0\",\"method\":\"notifications/initialized\"}")
}

/// The `tools/list` request line.
pub fn list_tools_request() -> (r: String)
    ensures
        r@ == list_tools_text(),
{
    String::from_str("{\"id\":2,\"jsonrpc\":\"2.0\",\"method\":\"tools/list\",\"params\":{}}")
}

/// The `tools/call` request line for tool `name`, with `arguments` given as
/// JSON text.
pub fn call_tool_request(name: &str, arguments: &str) -> (r: String)
    ensures
        r@ == call_tool_text(name@, arguments@),
{
    let head = String::from_str("{\"id\":2,\"jsonrpc\":\"2.0\",\"method\":\"tools/call\",\"params\":{\"arguments\":");
    let quoted = quote(name);
    head.concat(arguments).concat(",\"name\":").concat(quoted.as_str()).concat("}}")
}

/// The one domain request an inspection session makes.
#[derive(Debug, Clone, Copy, PartialEq, Eq, Structural)]
pub enum DomainRequest {
    ListTools,
    CallTool,
}

/// Where an inspection session stands.
#[derive(Debug, Clone, Copy, PartialEq, Eq, Structural)]
pub enum SessionPhase {
    /// The process runs; nothing was sent yet.
    Spawned,
    /// `initialize` was sent, or its response is awaited.
    Initializing,
    /// The handshake is done.
    Initialized,
    /// The domain request was sent, or its response is awaited.
    Busy(DomainRequest),
    /// The session is over and its process is to be terminated.
    Closed,
}

/// What the session asks its driver to do next.
#[derive(Debug, Clone, PartialEq, Eq)]
pub enum SessionAction {
    /// Write this line, then a newline, to the server.
    Send(String),
    /// Scan the server's output for one response within this many seconds,
    /// each read waiting at most `READ_WAIT_MILLIS`.
    Await(u64),
    /// Terminate the process: the session succeeded (`None`), or failed with
    /// the error.
    Close(Option<ExchangeError>),
}

/// One short-lived session: the handshake, one domain request, and its
/// response, after which the process is terminated whatever happened.
pub struct InspectionSession {
    pub request: DomainRequest,
    /// The domain request line.
    pub request_line: String,
    /// How many steps of the session are done.
    pub stage: u64,
    /// The client name sent in `initialize`.
    pub client: String,
}

/// Seconds each read may wait for the response to `initialize`.
pub const INITIALIZE_WAIT_SECS: u64 = 15;

/// Seconds each read may wait for the response to the domain request.
pub open spec fn domain_wait(request: DomainRequest) -> u64 {
    match request {
        DomainRequest::ListTools => 10,
        DomainRequest::CallTool => 30,
    }
}

impl InspectionSession {
    /// The phase a session is in after `stage` steps.
    pub open spec fn phase_at(request: DomainRequest, stage: nat) -> SessionPhase {
        if stage == 0 {
            SessionPhase::Spawned
        } else if stage <= 2 {
            SessionPhase::Initializing
        } else if stage == 3 {
            SessionPhase::Initialized
        } else if stage <= 5 {
            SessionPhase::Busy(request)
        } else {
            SessionPhase::Closed
        }
    }

    /// The phase the session is in.
    pub fn phase(&self) -> (r: SessionPhase)
        ensures
            r == Self::phase_at(self.request, self.stage as nat),
    {
        if self.stage == 0 {
            SessionPhase::Spawned
        } else if self.stage <= 2 {
            SessionPhase::Initializing
        } else if self.stage == 3 {
            SessionPhase::Initialized
        } else if self.stage <= 5 {
            SessionPhase::Busy(self.request)
        } else {
            SessionPhase::Closed
        }
    }

    /// Whether `a` is the action of step `stage` when every earlier step
    /// succeeded.
    pub open spec fn planned(&self, stage: nat, a: SessionAction) -> bool {
        if stage == 0 {
            a matches SessionAction::Send(l) && l@ == initialize_text(self.client@)
        } else if stage == 1 {
            a == SessionAction::Await(INITIALIZE_WAIT_SECS)
        } else if stage == 2 {
            a matches SessionAction::Send(l) && l@ == initialized_text()
        } else if stage == 3 {
            a matches SessionAction::Send(l) && l@ == self.request_line@
        } else if stage == 4 {
            a == SessionAction::Await(domain_wait(self.request))
        } else {
            a == SessionAction::Close(None)
        }
    }

    /// A session that will list the server's tools.
    pub fn list_tools(client: &str) -> (r: InspectionSession)
        ensures
            r.stage == 0,
            r.request == DomainRequest::ListTools,
            r.client@ == client@,
            r.request_line@ == list_tools_text(),
    {
        InspectionSession {
            request: DomainRequest::ListTools,
            request_line: list_tools_request(),
            stage: 0,
            client: client.to_owned(),
        }
    }

    /// A session that will call tool `name` with `arguments` (JSON text).
    pub fn call_tool(client: &str, name: &str, arguments: &str) -> (r: InspectionSession)
        ensures
            r.stage == 0,
            r.request == DomainRequest::CallTool,
            r.client@ == client@,
            r.request_line@ == call_tool_text(name@, arguments@),
    {
        InspectionSession {
            request: DomainRequest::CallTool,
            request_line: call_tool_request(name, arguments),
            stage: 0,
            client: client.to_owned(),
        }
    }

    /// The first action, taken once the process has started.
    pub fn begin(&mut self) -> (r: SessionAction)
        requires
            old(self).stage == 0,
        ensures
            final(self).stage == 1,
            final(self).request == old(self).request,
            final(self).request_line == old(self).request_line,
            final(self).client == old(self).client,
            old(self).planned(0, r),
    {
        self.stage = 1;
        SessionAction::Send(initialize_request(self.client.as_str()))
    }

    /// The next action, given how the last one went. Any failure closes the
    /// session with that failure.
    pub fn advance(&mut self, outcome: Result<(), ExchangeError>) -> (r: SessionAction)
        requires
            1 <= old(self).stage <= 5,
        ensures
            final(self).request == old(self).request,
            final(self).request_line == old(self).request_line,
            final(self).client == old(self).client,
            outcome matches Err(e) ==> r == SessionAction::Close(Some(e)) && final(self).stage == 6,
            outcome is Ok ==> old(self).planned(old(self).stage as nat, r) && final(self).stage
                == old(self).stage + 1,
    {
        if let Err(e) = outcome {
            self.stage = 6;
            return SessionAction::Close(Some(e));
        }
        let stage = self.stage;
        self.stage = stage + 1;
        if stage == 1 {
            SessionAction::Await(INITIALIZE_WAIT_SECS)
        } else if stage == 2 {
            SessionAction::Send(initialized_notification())
        } else if stage == 3 {
            SessionAction::Send(self.request_line.clone())
        } else if stage == 4 {
            SessionAction::Await(
                match self.request {
                    DomainRequest::ListTools => 10,
                    DomainRequest::CallTool => 30,
                },
            )
        } else {
            SessionAction::Close(None)
        }
    }

    /// The context that failure messages name at this point of the session.
    pub fn context(&self) -> (r: String)
        ensures
            r@ == phase_context(self.request, self.stage as nat),
    {
        if self.stage <= 2 {
            String::from_str("initialization")
        } else {
            match self.request {
                DomainRequest::ListTools => String::from_str("tools/list"),
                DomainRequest::CallTool => String::from_str("tools/call"),
            }
        }
    }

    /// Whether the session is over.
    pub fn is_closed(&self) -> (r: bool)
        ensures
            r == (Self::phase_at(self.request, self.stage as nat) == SessionPhase::Closed),
    {
        self.stage >= 6
    }
}

/// The context named in failure messages after `stage` steps of a session.
pub open spec fn phase_context(request: DomainRequest, stage: nat) -> Seq<char> {
    if stage <= 2 {
        "initialization"@
    } else {
        match request {
            DomainRequest::ListTools => "tools/list"@,
            DomainRequest::CallTool => "tools/call"@,
        }
    }
}

/// The message for an exchange that failed with `error` during `context`.
pub open spec fn failure_text(error: ExchangeError, context: Seq<char>) -> Seq<char> {
    match error {
        ExchangeError::Timeout => "Timeout waiting for response during "@ + context,
        ExchangeError::StreamClosed => "Server closed connection during "@ + context,
        ExchangeError::Io => "IO error during "@ + context,
        ExchangeError::Protocol => "Server returned an error during "@ + context,
    }
}

/// The message for an exchange that failed with `error` during `context`.
pub fn describe_failure(error: ExchangeError, context: &str) -> (r: String)
    ensures
        r@ == failure_text(error, context@),
{
    let head = match error {
        ExchangeError::Timeout => String::from_str("Timeout waiting for response during "),
        ExchangeError::StreamClosed => String::from_str("Server closed connection during "),
        ExchangeError::Io => String::from_str("IO error during "),
        ExchangeError::Protocol => String::from_str("Server returned an error during "),
    };
    head.concat(context)
}

/// The listing a domain response without a `result` member stands for.
pub open spec fn empty_listing(request: DomainRequest) -> Seq<char> {
    match request {
        DomainRequest::ListTools => "{\"tools\":[]}"@,
        DomainRequest::CallTool => "{\"content\":[]}"@,
    }
}

/// The `result` member of the domain response `response`, or the empty
/// listing of the request's kind when it has none.
pub open spec fn result_of(response: Seq<char>, request: DomainRequest) -> Seq<char> {
    match json_member(response, "result"@) {
        Some(t) => t,
        None => empty_listing(request),
    }
}

/// The `result` member of a domain response (as compact JSON text), or an
/// empty listing of the request's kind (`tools` or `content`).
pub fn extract_result(response: &str, request: DomainRequest) -> (r: String)
    ensures
        r@ == result_of(response@, request),
{
    match member_text(response, "result") {
        Some(result) => result,
        None => match request {
            DomainRequest::ListTools => String::from_str("{\"tools\":[]}"),
            DomainRequest::CallTool => String::from_str("{\"content\":[]}"),
        },
    }
}

/// The JSON-RPC error object of a response, as compact JSON text, if it
/// carries one.
pub fn error_text(response: &str) -> (r: Option<String>)
    ensures
        r is Some <==> json_member(response@, "error"@) is Some,
        r matches Some(t) ==> json_member(response@, "error"@) == Some(t@),
{
    member_text(response, "error")
}

/// What a domain response yields: its result, or a protocol error when the
/// server answered with an error object.
pub fn domain_result(response: &str, request: DomainRequest) -> (r: Result<String, ExchangeError>)
    ensures
        json_member(response@, "error"@) is Some ==> r == Err::<String, ExchangeError>(ExchangeError::Protocol),
        json_member(response@, "error"@) is None ==> (r matches Ok(t) && t@ == result_of(response@, request)),
{
    match error_text(response) {
        Some(_) => Err(ExchangeError::Protocol),
        None => Ok(extract_result(response, request)),
    }
}

} // verus!
