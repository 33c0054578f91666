//! Live log streaming over WebSocket and server-sent events, as decisions from the stream's
//! state and what just happened to what it sends next; and pages of stored job logs.
use vstd::prelude::*;
use crate::error::{ApiError, ErrorKind};
use crate::text::{concat2, decimal, join, join_seq, owned, str_eq, u64_to_string, views};

verus! {

/// A frame received from the client.
pub enum ClientFrame {
    /// A text frame holding the client's `auth` message with this token.
    AuthText(String),
    /// A text frame holding the client's `close` message.
    CloseText,
    /// A text frame holding the client's `ping` message.
    PingText,
    /// A text frame that is no client message.
    OtherText,
    /// A WebSocket close frame.
    Close,
    /// A WebSocket ping frame.
    Ping,
    /// A receive error, with its text.
    Error(String),
    /// Any other frame.
    Other,
}

/// What waiting for authentication does with a frame.
pub enum AuthStep {
    /// Validate this token; its outcome ends the wait.
    Validate(String),
    /// Authentication failed with this reason.
    Fail(String),
    /// Keep waiting.
    Continue,
}

/// Authentication is the first thing a client sends: an `auth` message is validated, a
/// close or an error ends the wait, anything else is skipped.
pub fn auth_step(frame: ClientFrame) -> (r: AuthStep)
    ensures
        match frame {
            ClientFrame::AuthText(t) => r matches AuthStep::Validate(v) && v@ == t@,
            ClientFrame::Close => r matches AuthStep::Fail(m) && m@
                == "Connection closed before authentication"@,
            ClientFrame::Error(e) => r matches AuthStep::Fail(m) && m@ == "WebSocket error: "@ + e@,
            _ => r is Continue,
        },
{
    match frame {
        ClientFrame::AuthText(t) => AuthStep::Validate(t),
        ClientFrame::Close => AuthStep::Fail(owned("Connection closed before authentication")),
        ClientFrame::Error(e) => AuthStep::Fail(concat2("WebSocket error: ", e.as_str())),
        _ => AuthStep::Continue,
    }
}

/// Reason given when the client's stream ends while waiting for authentication.
pub fn auth_stream_ended() -> (r: String)
    ensures
        r@ == "Connection closed before authentication"@,
{
    owned("Connection closed before authentication")
}

/// The error message sent before closing when authentication does not succeed: the reason
/// of a failure, or the timeout.
pub fn auth_error_message(failure: Option<&str>) -> (r: String)
    ensures
        r@ == match failure {
            Some(e) => "Authentication failed: "@ + e@,
            None => "Authentication timeout - send auth message within 10 seconds"@,
        },
{
    match failure {
        Some(e) => concat2("Authentication failed: ", e),
        None => owned("Authentication timeout - send auth message within 10 seconds"),
    }
}

/// Whose logs a stream carries.
#[derive(Debug, Clone, Copy, PartialEq, Eq, Structural)]
pub enum StreamKind {
    Run,
    Job,
}

/// State of a log stream.
pub struct LogStreamState {
    pub kind: StreamKind,
    /// Line the client asked to start after.
    pub from_line: u64,
    /// Keep streaming instead of ending after a batch.
    pub follow: bool,
    /// Number of the last line sent.
    pub line_number: u64,
}

/// A log line to send (the sender stamps the time).
pub struct LogLineOut {
    pub line_number: u64,
    pub level: String,
    pub job_name: Option<String>,
    pub step_name: Option<String>,
    pub content: String,
}

/// What the stream does next.
pub enum StreamAction {
    /// Send this line and go on (stop if sending fails).
    SendLog(LogLineOut),
    /// Send this line, then an `end` message with this final status, then stop.
    SendLogThenEnd(LogLineOut, String),
    /// Send this line, then stop.
    SendLogThenStop(LogLineOut),
    /// Answer a WebSocket ping with a pong frame.
    Pong,
    /// Answer a `ping` message with a `pong` message.
    PongText,
    /// Stop streaming.
    Stop,
    /// Nothing to do.
    Ignore,
}

/// Lines a stream sends after its start before it ends, unless it follows.
pub open spec fn batch_len(kind: StreamKind) -> int {
    match kind {
        StreamKind::Run => 50,
        StreamKind::Job => 30,
    }
}

/// Step label of a job log line: `step-1` to `step-3` in turn.
pub open spec fn job_step_label(n: u64) -> Seq<char> {
    "step-"@ + decimal(((n % 3) + 1) as nat)
}

/// The line a stream sends as line `n`.
pub open spec fn line_ok(l: LogLineOut, kind: StreamKind, n: u64) -> bool {
    &&& l.line_number == n
    &&& l.level@ == "INFO"@
    &&& match kind {
        StreamKind::Run => {
            &&& l.job_name matches Some(j) && j@ == "build"@
            &&& l.step_name matches Some(s) && s@ == "compile"@
            &&& l.content@ == "Processing line "@ + decimal(n as nat) + "..."@
        },
        StreamKind::Job => {
            &&& l.job_name is None
            &&& l.step_name matches Some(s) && s@ == job_step_label(n)
            &&& l.content@ == "Job log line "@ + decimal(n as nat) + "..."@
        },
    }
}

fn make_line(kind: StreamKind, n: u64) -> (l: LogLineOut)
    ensures
        line_ok(l, kind, n),
{
    let digits = u64_to_string(n);
    match kind {
        StreamKind::Run => {
            let mut c = owned("Processing line ");
            c.append(digits.as_str());
            c.append("...");
            LogLineOut {
                line_number: n,
                level: owned("INFO"),
                job_name: Some(owned("build")),
                step_name: Some(owned("compile")),
                content: c,
            }
        },
        StreamKind::Job => {
            let mut c = owned("Job log line ");
            c.append(digits.as_str());
            c.append("...");
            let step_no = u64_to_string(n % 3 + 1);
            LogLineOut {
                line_number: n,
                level: owned("INFO"),
                job_name: None,
                step_name: Some(concat2("step-", step_no.as_str())),
                content: c,
            }
        },
    }
}

/// One step of a log stream. On a tick the next line is sent; a stream that does not
/// follow ends once it has sent its batch after `from_line` (a run stream with an `end`
/// message, status `completed`). A close (frame or message) or an error stops it; pings are
/// answered in kind; anything else is ignored.
pub fn log_stream_step(s: &mut LogStreamState, tick: bool, frame: Option<ClientFrame>) -> (a:
    StreamAction)
    requires
        old(s).line_number < u64::MAX,
        old(s).from_line + batch_len(old(s).kind) <= u64::MAX,
    ensures
        final(s).kind == old(s).kind,
        final(s).from_line == old(s).from_line,
        final(s).follow == old(s).follow,
        tick ==> final(s).line_number == old(s).line_number + 1,
        !tick ==> final(s).line_number == old(s).line_number,
        tick ==> {
            let n = final(s).line_number;
            let done = n >= old(s).from_line + batch_len(old(s).kind) && !old(s).follow;
            &&& !done ==> (a matches StreamAction::SendLog(l) && line_ok(l, old(s).kind, n))
            &&& (done && old(s).kind == StreamKind::Run) ==> (a matches StreamAction::SendLogThenEnd(
                l,
                st,
            ) && line_ok(l, old(s).kind, n) && st@ == "completed"@)
            &&& (done && old(s).kind == StreamKind::Job) ==> (a matches StreamAction::SendLogThenStop(
                l,
            ) && line_ok(l, old(s).kind, n))
        },
        !tick ==> match frame {
            Some(ClientFrame::Close) => a is Stop,
            Some(ClientFrame::CloseText) => a is Stop,
            Some(ClientFrame::Error(_)) => a is Stop,
            Some(ClientFrame::Ping) => a is Pong,
            Some(ClientFrame::PingText) => a is PongText,
            _ => a is Ignore,
        },
{
    if tick {
        s.line_number = s.line_number + 1;
        let n = s.line_number;
        let line = make_line(s.kind, n);
        let limit: u64 = match s.kind {
            StreamKind::Run => s.from_line + 50,
            StreamKind::Job => s.from_line + 30,
        };
        if n >= limit && !s.follow {
            match s.kind {
                StreamKind::Run => StreamAction::SendLogThenEnd(line, owned("completed")),
                StreamKind::Job => StreamAction::SendLogThenStop(line),
            }
        } else {
            StreamAction::SendLog(line)
        }
    } else {
        match frame {
            Some(ClientFrame::Close) | Some(ClientFrame::CloseText) | Some(ClientFrame::Error(_)) => {
                StreamAction::Stop
            },
            Some(ClientFrame::Ping) => StreamAction::Pong,
            Some(ClientFrame::PingText) => StreamAction::PongText,
            _ => StreamAction::Ignore,
        }
    }
}

/// One step of the server-sent-events fallback from the last line sent: `None` ends the
/// stream (at line 50 when not following), else the next run log line.
pub fn sse_log_step(line_number: u64, follow: bool) -> (r: Option<LogLineOut>)
    requires
        line_number < u64::MAX,
    ensures
        (line_number >= 50 && !follow) ==> r is None,
        !(line_number >= 50 && !follow) ==> (r matches Some(l) && line_ok(
            l,
            StreamKind::Run,
            (line_number + 1) as u64,
        )),
{
    if line_number >= 50 && !follow {
        return None;
    }
    Some(make_line(StreamKind::Run, line_number + 1))
}

/// A stored log page is read with one entry more than asked for; this is the page made of
/// the contents read.
pub struct JobLogPage {
    /// Entries kept on the page (at most `limit`).
    pub taken: usize,
    /// More entries follow the page.
    pub has_more: bool,
    /// The kept entries' text joined by newlines.
    pub content: String,
}

/// Makes a page of at most `limit` entries from the stored contents read for it.
pub fn job_log_page(contents: &Vec<String>, limit: u64) -> (p: JobLogPage)
    ensures
        p.has_more == (contents@.len() > limit),
        p.taken == (if contents@.len() > limit {
            limit as int
        } else {
            contents@.len() as int
        }),
        p.content@ == join_seq(views(contents@.take(p.taken as int)), "\n"@),
{
    let n = contents.len();
    let has_more = (n as u64) > limit;
    let taken: usize = if has_more {
        limit as usize
    } else {
        n
    };
    let mut kept: Vec<String> = Vec::new();
    let mut i: usize = 0;
    while i < taken
        invariant
            taken <= contents@.len(),
            i <= taken,
            views(kept@) == views(contents@.take(i as int)),
        decreases taken - i,
    {
        kept.push(contents[i].clone());
        proof {
            assert(views(contents@.take(i + 1)) =~= views(contents@.take(i as int)).push(
                contents@[i as int]@,
            ));
        }
        i = i + 1;
    }
    let content = join(&kept, "\n");
    JobLogPage { taken, has_more, content }
}

/// Level of a stored log entry: `stderr` for the standard-error stream, else `stdout`.
pub fn log_level(stream: &str) -> (l: &'static str)
    ensures
        l@ == (if stream@ == "stderr"@ {
            "stderr"@
        } else {
            "stdout"@
        }),
{
    if str_eq(stream, "stderr") {
        "stderr"
    } else {
        "stdout"
    }
}

/// A job run read for a log request must belong to the run named in the path.
pub fn check_job_run_in_run(job_run_run_id: &str, run_id: &str) -> (r: Result<(), ApiError>)
    ensures
        r is Ok <==> job_run_run_id@ == run_id@,
        r matches Err(e) ==> e.is(ErrorKind::NotFound, "job run not found for this pipeline run"@),
{
    if !str_eq(job_run_run_id, run_id) {
        return Err(ApiError::not_found("job run not found for this pipeline run"));
    }
    Ok(())
}

} // verus!
