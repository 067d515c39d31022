//! The worker's bookkeeping rules: when the API client is rebuilt, how long
//! to wait before reconnecting to the event stream, what the event stream's
//! lines mean, the headers sent with every request, and how log lines look.
use vstd::prelude::*;
use crate::consts::NANOS_PER_SEC;
use crate::text::chars_of;
use crate::types::LogLevel;

verus! {

/// Age after which the API client is built anew, in seconds.
pub const CLIENT_REFRESH_SECS: u64 = 250;

/// Shortest and longest wait before reconnecting to the event stream, in
/// seconds.
pub const MIN_BACKOFF_SECS: u64 = 1;
pub const MAX_BACKOFF_SECS: u64 = 8;

/// A stream connection that lasted longer than this many seconds counts as
/// a long one.
pub const LONG_STREAM_SECS: u64 = 10;

/// The API client is built when there is none yet, or when the one there is
/// has reached the refresh age.
pub fn client_needs_rebuild(has_client: bool, age_ns: u64) -> (b: bool)
    ensures
        b == (!has_client || age_ns >= CLIENT_REFRESH_SECS * NANOS_PER_SEC),
{
    !has_client || age_ns >= CLIENT_REFRESH_SECS * NANOS_PER_SEC
}

/// A stream connection is a long one when it lasted more than ten seconds.
pub fn is_long_stream(elapsed_ns: u64) -> (b: bool)
    ensures
        b == (elapsed_ns > LONG_STREAM_SECS * NANOS_PER_SEC),
{
    elapsed_ns > LONG_STREAM_SECS * NANOS_PER_SEC
}

/// The wait before the next reconnection: back to one second after a stream
/// that ended without error and lasted long; otherwise twice the last wait,
/// at most eight seconds.
pub open spec fn next_backoff_spec(delay: u64, stream_ok: bool, long_stream: bool) -> u64 {
    if stream_ok && long_stream {
        1
    } else if 2 * delay < 8 {
        (2 * delay) as u64
    } else {
        8
    }
}

/// The wait, in seconds, before the next reconnection.
pub fn next_backoff_secs(delay: u64, stream_ok: bool, long_stream: bool) -> (r: u64)
    ensures
        r == next_backoff_spec(delay, stream_ok, long_stream),
{
    if stream_ok && long_stream {
        MIN_BACKOFF_SECS
    } else if delay < MAX_BACKOFF_SECS / 2 {
        2 * delay
    } else {
        MAX_BACKOFF_SECS
    }
}

/// A wait the worker uses: one, two, four or eight seconds.
pub open spec fn is_backoff_step(d: u64) -> bool {
    d == 1 || d == 2 || d == 4 || d == 8
}

/// Starting from one second, the wait is always one, two, four or eight
/// seconds; it is one second again after any long stream that ended without
/// error, and it never decreases otherwise.
pub proof fn lemma_backoff_bounded(delay: u64, stream_ok: bool, long_stream: bool)
    requires
        is_backoff_step(delay),
    ensures
        is_backoff_step(next_backoff_spec(delay, stream_ok, long_stream)),
        stream_ok && long_stream ==> next_backoff_spec(delay, stream_ok, long_stream) == 1,
        !(stream_ok && long_stream) ==> next_backoff_spec(delay, stream_ok, long_stream) >= delay,
{
}

/// Only a long stream that ended without error resets the wait to one
/// second. After any other stream the wait doubles, up to eight seconds,
/// whether the stream call reported success or not: a short successful
/// stream backs off exactly as a failed one does.
pub proof fn lemma_backoff_doubles_unless_long_and_ok(delay: u64, stream_ok: bool, long_stream: bool)
    ensures
        stream_ok && long_stream ==> next_backoff_spec(delay, stream_ok, long_stream) == 1,
        !(stream_ok && long_stream) && 2 * delay <= 8 ==> next_backoff_spec(delay, stream_ok, long_stream)
            == 2 * delay,
        !(stream_ok && long_stream) && 2 * delay > 8 ==> next_backoff_spec(delay, stream_ok, long_stream)
            == 8,
        next_backoff_spec(delay, true, false) == next_backoff_spec(delay, false, false),
        next_backoff_spec(delay, false, true) == next_backoff_spec(delay, false, false),
{
}

/// After `k` failed or short streams in a row, starting from one second, the
/// wait is `2^k` seconds, at most eight.
pub open spec fn backoff_after_failures(k: nat) -> u64
    decreases k,
{
    if k == 0 {
        1
    } else {
        next_backoff_spec(backoff_after_failures((k - 1) as nat), false, false)
    }
}

/// The wait doubles with each failure until it reaches eight seconds, and
/// stays at eight from the third failure on.
pub proof fn lemma_backoff_doubles(k: nat)
    ensures
        k == 0 ==> backoff_after_failures(k) == 1,
        k == 1 ==> backoff_after_failures(k) == 2,
        k == 2 ==> backoff_after_failures(k) == 4,
        k >= 3 ==> backoff_after_failures(k) == 8,
    decreases k,
{
    if k > 0 {
        lemma_backoff_doubles((k - 1) as nat);
    }
}

/// How the worker answers the status of the event stream request.
#[derive(Clone, Copy, Debug, PartialEq, Eq, Structural)]
pub enum StreamStart {
    /// 401: the worker key was refused.
    Unauthorized,
    /// Any status other than 200 and 401.
    UnexpectedStatus,
    /// 200: read the stream.
    Listen,
}

/// How the worker answers the status of the event stream request.
pub fn stream_start(status: u16) -> (r: StreamStart)
    ensures
        r == (if status == 401 {
            StreamStart::Unauthorized
        } else if status != 200 {
            StreamStart::UnexpectedStatus
        } else {
            StreamStart::Listen
        }),
{
    if status == 401 {
        StreamStart::Unauthorized
    } else if status != 200 {
        StreamStart::UnexpectedStatus
    } else {
        StreamStart::Listen
    }
}

/// A line of the server-sent event stream.
#[derive(Debug)]
pub enum EventLine<'a> {
    /// A line that starts with `:`.
    Comment,
    /// A line that starts with `data: `; what follows it.
    Data(&'a str),
    /// Any other line.
    Other,
}

/// What a line of the event stream is: a comment when it starts with `:`,
/// data when it starts with `data: ` (with what follows), anything else
/// otherwise.
pub open spec fn event_line_kind(line: Seq<char>) -> Option<Option<Seq<char>>> {
    if line.len() > 0 && line[0] == ':' {
        None
    } else if line.len() >= 6 && line.take(6) == "data: "@ {
        Some(Some(line.skip(6)))
    } else {
        Some(None)
    }
}

/// What a line of the event stream is.
pub fn classify_event_line<'a>(line: &'a str) -> (r: EventLine<'a>)
    ensures
        match r {
            EventLine::Comment => event_line_kind(line@) == None::<Option<Seq<char>>>,
            EventLine::Data(d) => event_line_kind(line@) == Some(Some(d@)),
            EventLine::Other => event_line_kind(line@) == Some(None::<Seq<char>>),
        },
{
    let cs = chars_of(line);
    let n = cs.len();
    if n > 0 && cs[0] == ':' {
        return EventLine::Comment;
    }
    let prefix = chars_of("data: ");
    proof {
        reveal_strlit("data: ");
    }
    if n >= 6 && cs[0] == prefix[0] && cs[1] == prefix[1] && cs[2] == prefix[2] && cs[3]
        == prefix[3] && cs[4] == prefix[4] && cs[5] == prefix[5] {
        assert(cs@.take(6) =~= "data: "@);
        return EventLine::Data(line.substring_char(6, n));
    }
    if n >= 6 {
        assert(cs@.take(6) != "data: "@) by {
            if cs@.take(6) == "data: "@ {
                assert(cs@.take(6)[0] == prefix@[0]);
                assert(cs@.take(6)[1] == prefix@[1]);
                assert(cs@.take(6)[2] == prefix@[2]);
                assert(cs@.take(6)[3] == prefix@[3]);
                assert(cs@.take(6)[4] == prefix@[4]);
                assert(cs@.take(6)[5] == prefix@[5]);
            }
        }
    }
    EventLine::Other
}

/// The digit `d` as a character.
pub open spec fn digit_char(d: int) -> char {
    (48 + d) as char
}

/// The decimal text of `n`, without leading zeros.
pub open spec fn decimal(n: nat) -> Seq<char>
    decreases n,
{
    if n < 10 {
        seq![digit_char(n as int)]
    } else {
        decimal(n / 10).push(digit_char((n % 10) as int))
    }
}

/// The digit `d` as a one-character string.
fn digit_str(d: u64) -> (s: &'static str)
    requires
        d < 10,
    ensures
        s@ == seq![digit_char(d as int)],
{
    proof {
        reveal_strlit("0");
        reveal_strlit("1");
        reveal_strlit("2");
        reveal_strlit("3");
        reveal_strlit("4");
        reveal_strlit("5");
        reveal_strlit("6");
        reveal_strlit("7");
        reveal_strlit("8");
        reveal_strlit("9");
    }
    let s = match d {
        0 => "0",
        1 => "1",
        2 => "2",
        3 => "3",
        4 => "4",
        5 => "5",
        6 => "6",
        7 => "7",
        8 => "8",
        _ => "9",
    };
    assert(s@ =~= seq![digit_char(d as int)]);
    s
}

/// The decimal text of `n`.
pub fn decimal_string(n: u64) -> (s: String)
    ensures
        s@ == decimal(n as nat),
    decreases n,
{
    if n < 10 {
        digit_str(n).to_owned()
    } else {
        let mut s = decimal_string(n / 10);
        s.append(digit_str(n % 10));
        s
    }
}

/// The user agent: the alias, a slash, and the version.
pub fn user_agent(alias: &str, version: &str) -> (s: String)
    ensures
        s@ == alias@ + "/"@ + version@,
{
    let mut s = alias.to_owned();
    s.append("/");
    s.append(version);
    s
}

/// The health value sent in the `X-Worker-Health` header of every request:
/// `ok`.
pub open spec fn worker_health() -> Seq<char> {
    "ok"@
}

/// The headers sent with every API request, in order: the user agent, the
/// worker key, the number of jobs completed so far in decimal, the worker
/// identity, and the worker's health.
pub open spec fn worker_headers_spec(agent: Seq<char>, worker_key: Seq<char>, jobs_completed: u64, ident: Seq<char>) -> Seq<(Seq<char>, Seq<char>)> {
    seq![
        ("User-Agent"@, agent),
        ("X-Worker-Key"@, worker_key),
        ("X-Worker-Jobs"@, decimal(jobs_completed as nat)),
        ("X-Worker-Ident"@, ident),
        ("X-Worker-Health"@, worker_health()),
    ]
}

/// The view of a list of header names and values.
pub open spec fn headers_view(h: Seq<(String, String)>) -> Seq<(Seq<char>, Seq<char>)> {
    h.map_values(|p: (String, String)| (p.0@, p.1@))
}

/// The headers sent with every API request.
pub fn worker_headers(agent: &str, worker_key: &str, jobs_completed: u64, ident: &str) -> (h: Vec<(String, String)>)
    ensures
        headers_view(h@) == worker_headers_spec(agent@, worker_key@, jobs_completed, ident@),
{
    let mut h: Vec<(String, String)> = Vec::new();
    h.push(("User-Agent".to_owned(), agent.to_owned()));
    h.push(("X-Worker-Key".to_owned(), worker_key.to_owned()));
    h.push(("X-Worker-Jobs".to_owned(), decimal_string(jobs_completed)));
    h.push(("X-Worker-Ident".to_owned(), ident.to_owned()));
    h.push(("X-Worker-Health".to_owned(), "ok".to_owned()));
    proof {
        reveal_strlit("ok");
    }
    assert(headers_view(h@) =~= worker_headers_spec(agent@, worker_key@, jobs_completed, ident@));
    h
}

/// The tag a log line of a level carries.
pub open spec fn level_label(level: LogLevel) -> Seq<char> {
    match level {
        LogLevel::Success => "OK"@,
        LogLevel::Warn => "WARNING"@,
        LogLevel::Error => "ERR"@,
    }
}

/// A log line: the level's tag in brackets, a space, and the message.
pub fn log_line(level: LogLevel, message: &str) -> (s: String)
    ensures
        s@ == "["@ + level_label(level) + "] "@ + message@,
{
    let label = match level {
        LogLevel::Success => "OK",
        LogLevel::Warn => "WARNING",
        LogLevel::Error => "ERR",
    };
    let mut s = "[".to_owned();
    s.append(label);
    s.append("] ");
    s.append(message);
    s
}

/// Success lines go to standard output, warnings and errors to standard
/// error.
pub fn logs_to_stdout(level: LogLevel) -> (b: bool)
    ensures
        b == (level == LogLevel::Success),
{
    match level {
        LogLevel::Success => true,
        _ => false,
    }
}

/// A request to the login manager to hold off sleep while the worker runs.
#[derive(Debug)]
pub struct InhibitRequest {
    pub what: String,
    pub who: String,
    pub why: String,
    pub mode: String,
}

/// The sleep inhibitor the worker asks the login manager for: it blocks
/// `sleep`, in the worker's name, for the sake of the event stream.
pub fn inhibit_request(alias: &str) -> (r: InhibitRequest)
    ensures
        r.what@ == "sleep"@,
        r.who@ == alias@,
        r.why@ == "Required for sustained streaming operation."@,
        r.mode@ == "block"@,
{
    InhibitRequest {
        what: "sleep".to_owned(),
        who: alias.to_owned(),
        why: "Required for sustained streaming operation.".to_owned(),
        mode: "block".to_owned(),
    }
}

} // verus!
