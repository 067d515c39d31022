use vstd::prelude::*;

verus! {

/// A print job as announced on the printer event stream. Every byte field
/// arrives encrypted and base64-encoded; the transfer timeout is handled by
/// the caller and is not part of this value.
#[derive(Debug)]
pub struct Job {
    pub id: Option<String>,
    pub printer_host: Option<String>,
    pub printer_queue: Option<String>,
    pub q_cmd: Option<String>,
    pub cf_hdr: Option<String>,
    pub ctl: Option<String>,
    pub df_hdr: Option<String>,
    pub payload: Option<String>,
}

/// Severity of a log line.
#[derive(Clone, Copy, Debug, PartialEq, Eq, Structural)]
pub enum LogLevel {
    Success,
    Warn,
    Error,
}

/// Body of a job claim request.
pub struct ClaimJobRequestBody<'a> {
    pub id: &'a str,
}

/// Body of a job claim reply.
#[derive(Clone, Copy, Debug)]
pub struct ClaimJobResponseBody {
    pub claimed: Option<bool>,
}

} // verus!
