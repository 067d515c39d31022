use vstd::prelude::*;

verus! {

/// TCP port on which the line printer daemon listens (RFC 1179).
pub const DEF_LPR_PORT: u16 = 515;

/// The single zero byte that terminates a control file or a data file.
pub const NUL_BYTE: u8 = 0u8;

/// Nanoseconds in a second.
pub const NANOS_PER_SEC: u64 = 1_000_000_000;

/// Time allowed for the printer to accept a connection when checking that it
/// is online, in milliseconds.
pub const ONLINE_CHECK_TIMEOUT_MS: u64 = 1000;

/// Time allowed for a job transfer when the job sets none, in seconds.
pub const DEFAULT_JOB_TIMEOUT_SECS: u64 = 60;

/// Primary API base URL used when none is configured.
pub const DEF_API_URL: &'static str = "https://api.preconnect.app/";

/// The single zero byte that terminates a control file or a data file, as a buffer.
pub fn nul() -> (r: [u8; 1])
    ensures
        r@ == seq![0u8],
{
    [NUL_BYTE]
}

} // verus!
