//! Handling of one announced print job: where it goes, whether the claim
//! was granted, and the decrypted buffers that are handed to the printer.
use vstd::prelude::*;
use crate::crypto::{decrypt, decrypt_spec, opt_str_view, CryptoError};
use crate::lpr::{lpr_ops, LprOp, LprPart, TransferOutcome};
use crate::types::{ClaimJobResponseBody, Job};

verus! {

/// The zero byte that ends a control file or a data file.
pub const TERMINATOR: [u8; 1] = [0u8];

/// Where an announced job goes.
#[derive(Debug)]
pub struct JobTarget {
    pub id: String,
    pub host: String,
    pub queue: String,
}

/// The text of `v` when it is present and not empty, else `default`.
pub open spec fn non_empty_or(v: Option<String>, default: Seq<char>) -> Seq<char> {
    match v {
        Some(s) => if s@.len() > 0 {
            s@
        } else {
            default
        },
        None => default,
    }
}

/// The view of an optional string.
pub open spec fn opt_string_view(v: Option<String>) -> Option<Seq<char>> {
    match v {
        Some(s) => Some(s@),
        None => None,
    }
}

/// A copy of `v` when it is present and not empty, else of `default`.
fn non_empty_or_default(v: &Option<String>, default: &str) -> (r: String)
    ensures
        r@ == non_empty_or(*v, default@),
{
    match v {
        Some(s) => if s.as_str().is_empty() {
            default.to_owned()
        } else {
            s.clone()
        },
        None => default.to_owned(),
    }
}

/// Where a job goes: nowhere when it has no id or an empty one; otherwise
/// its own printer host and queue, each replaced by the default when absent
/// or empty.
pub fn job_target(job: &Job, def_host: &str, def_queue: &str) -> (r: Option<JobTarget>)
    ensures
        r is Some <==> (job.id matches Some(id) && id@.len() > 0),
        r matches Some(t) ==> {
            &&& job.id matches Some(id) && t.id@ == id@
            &&& t.host@ == non_empty_or(job.printer_host, def_host@)
            &&& t.queue@ == non_empty_or(job.printer_queue, def_queue@)
        },
{
    let id = match &job.id {
        Some(id) => id,
        None => {
            return None;
        },
    };
    if id.as_str().is_empty() {
        return None;
    }
    Some(
        JobTarget {
            id: id.clone(),
            host: non_empty_or_default(&job.printer_host, def_host),
            queue: non_empty_or_default(&job.printer_queue, def_queue),
        },
    )
}

/// The view of an optional string as an optional string slice.
fn as_opt_str(v: &Option<String>) -> (r: Option<&str>)
    ensures
        opt_str_view(r) == opt_string_view(*v),
{
    match v {
        Some(s) => Some(s.as_str()),
        None => None,
    }
}

/// The decrypted buffers of a job.
#[derive(Debug)]
pub struct LprPayload {
    pub q_cmd: Vec<u8>,
    pub cf_hdr: Vec<u8>,
    pub ctl: Vec<u8>,
    pub df_hdr: Vec<u8>,
    pub payload: Vec<u8>,
}

/// The decrypted buffers of a job as byte sequences.
pub struct PayloadView {
    pub q_cmd: Seq<u8>,
    pub cf_hdr: Seq<u8>,
    pub ctl: Seq<u8>,
    pub df_hdr: Seq<u8>,
    pub payload: Seq<u8>,
}

impl View for LprPayload {
    type V = PayloadView;

    open spec fn view(&self) -> PayloadView {
        PayloadView {
            q_cmd: self.q_cmd@,
            cf_hdr: self.cf_hdr@,
            ctl: self.ctl@,
            df_hdr: self.df_hdr@,
            payload: self.payload@,
        }
    }
}

/// What decrypting the five buffers of a job gives, in the order queue
/// command, control-file header, control file, data-file header, data file:
/// the first error, or all five buffers.
pub open spec fn decrypt_job_spec(job: Job, job_id: Seq<char>, worker_key: Seq<char>) -> Result<PayloadView, CryptoError> {
    let q = decrypt_spec(opt_string_view(job.q_cmd), job_id, worker_key);
    let c = decrypt_spec(opt_string_view(job.cf_hdr), job_id, worker_key);
    let l = decrypt_spec(opt_string_view(job.ctl), job_id, worker_key);
    let d = decrypt_spec(opt_string_view(job.df_hdr), job_id, worker_key);
    let p = decrypt_spec(opt_string_view(job.payload), job_id, worker_key);
    match q {
        Err(e) => Err(e),
        Ok(q) => match c {
            Err(e) => Err(e),
            Ok(c) => match l {
                Err(e) => Err(e),
                Ok(l) => match d {
                    Err(e) => Err(e),
                    Ok(d) => match p {
                        Err(e) => Err(e),
                        Ok(p) => Ok(PayloadView { q_cmd: q, cf_hdr: c, ctl: l, df_hdr: d, payload: p }),
                    },
                },
            },
        },
    }
}

/// Decrypting a job decrypts each field into the buffer of the same name:
/// it succeeds exactly when all five fields decrypt, each buffer is then the
/// decryption of its own field, and a failure is the error of a field that
/// failed.
pub proof fn lemma_decrypt_job_fieldwise(job: Job, job_id: Seq<char>, worker_key: Seq<char>)
    ensures
        decrypt_job_spec(job, job_id, worker_key) is Ok <==> {
            &&& decrypt_spec(opt_string_view(job.q_cmd), job_id, worker_key) is Ok
            &&& decrypt_spec(opt_string_view(job.cf_hdr), job_id, worker_key) is Ok
            &&& decrypt_spec(opt_string_view(job.ctl), job_id, worker_key) is Ok
            &&& decrypt_spec(opt_string_view(job.df_hdr), job_id, worker_key) is Ok
            &&& decrypt_spec(opt_string_view(job.payload), job_id, worker_key) is Ok
        },
        decrypt_job_spec(job, job_id, worker_key) matches Ok(p) ==> {
            &&& decrypt_spec(opt_string_view(job.q_cmd), job_id, worker_key) == Ok::<Seq<u8>, CryptoError>(p.q_cmd)
            &&& decrypt_spec(opt_string_view(job.cf_hdr), job_id, worker_key) == Ok::<Seq<u8>, CryptoError>(p.cf_hdr)
            &&& decrypt_spec(opt_string_view(job.ctl), job_id, worker_key) == Ok::<Seq<u8>, CryptoError>(p.ctl)
            &&& decrypt_spec(opt_string_view(job.df_hdr), job_id, worker_key) == Ok::<Seq<u8>, CryptoError>(p.df_hdr)
            &&& decrypt_spec(opt_string_view(job.payload), job_id, worker_key) == Ok::<Seq<u8>, CryptoError>(p.payload)
        },
        decrypt_job_spec(job, job_id, worker_key) matches Err(e) ==> {
            ||| decrypt_spec(opt_string_view(job.q_cmd), job_id, worker_key) == Err::<Seq<u8>, CryptoError>(e)
            ||| decrypt_spec(opt_string_view(job.cf_hdr), job_id, worker_key) == Err::<Seq<u8>, CryptoError>(e)
            ||| decrypt_spec(opt_string_view(job.ctl), job_id, worker_key) == Err::<Seq<u8>, CryptoError>(e)
            ||| decrypt_spec(opt_string_view(job.df_hdr), job_id, worker_key) == Err::<Seq<u8>, CryptoError>(e)
            ||| decrypt_spec(opt_string_view(job.payload), job_id, worker_key) == Err::<Seq<u8>, CryptoError>(e)
        },
{
}

/// A job whose fields were sealed from five plaintexts (each field decrypts
/// to its plaintext, as `encrypt_with_iv` promises of its result) decrypts to
/// those plaintexts, each in the buffer of its own field.
pub proof fn lemma_decrypt_job_round_trip(
    job: Job,
    job_id: Seq<char>,
    worker_key: Seq<char>,
    q_cmd: Seq<u8>,
    cf_hdr: Seq<u8>,
    ctl: Seq<u8>,
    df_hdr: Seq<u8>,
    payload: Seq<u8>,
)
    requires
        decrypt_spec(opt_string_view(job.q_cmd), job_id, worker_key) == Ok::<Seq<u8>, CryptoError>(q_cmd),
        decrypt_spec(opt_string_view(job.cf_hdr), job_id, worker_key) == Ok::<Seq<u8>, CryptoError>(cf_hdr),
        decrypt_spec(opt_string_view(job.ctl), job_id, worker_key) == Ok::<Seq<u8>, CryptoError>(ctl),
        decrypt_spec(opt_string_view(job.df_hdr), job_id, worker_key) == Ok::<Seq<u8>, CryptoError>(df_hdr),
        decrypt_spec(opt_string_view(job.payload), job_id, worker_key) == Ok::<Seq<u8>, CryptoError>(payload),
    ensures
        decrypt_job_spec(job, job_id, worker_key) == Ok::<PayloadView, CryptoError>(
            PayloadView { q_cmd, cf_hdr, ctl, df_hdr, payload },
        ),
{
}

/// Decrypts the five buffers of a job with its id and the worker key.
pub fn decrypt_job(job: &Job, job_id: &str, worker_key: &str) -> (r: Result<LprPayload, CryptoError>)
    ensures
        match r {
            Ok(p) => decrypt_job_spec(*job, job_id@, worker_key@) == Ok::<PayloadView, CryptoError>(p@),
            Err(e) => decrypt_job_spec(*job, job_id@, worker_key@) == Err::<PayloadView, CryptoError>(e),
        },
        r matches Ok(p) ==> {
            &&& decrypt_spec(opt_string_view(job.q_cmd), job_id@, worker_key@) == Ok::<Seq<u8>, CryptoError>(p.q_cmd@)
            &&& decrypt_spec(opt_string_view(job.cf_hdr), job_id@, worker_key@) == Ok::<Seq<u8>, CryptoError>(p.cf_hdr@)
            &&& decrypt_spec(opt_string_view(job.ctl), job_id@, worker_key@) == Ok::<Seq<u8>, CryptoError>(p.ctl@)
            &&& decrypt_spec(opt_string_view(job.df_hdr), job_id@, worker_key@) == Ok::<Seq<u8>, CryptoError>(p.df_hdr@)
            &&& decrypt_spec(opt_string_view(job.payload), job_id@, worker_key@) == Ok::<Seq<u8>, CryptoError>(p.payload@)
        },
{
    let q_cmd = decrypt(as_opt_str(&job.q_cmd), job_id, worker_key)?;
    let cf_hdr = decrypt(as_opt_str(&job.cf_hdr), job_id, worker_key)?;
    let ctl = decrypt(as_opt_str(&job.ctl), job_id, worker_key)?;
    let df_hdr = decrypt(as_opt_str(&job.df_hdr), job_id, worker_key)?;
    let payload = decrypt(as_opt_str(&job.payload), job_id, worker_key)?;
    Ok(LprPayload { q_cmd, cf_hdr, ctl, df_hdr, payload })
}

/// The bytes sent for a part of the transfer.
pub open spec fn part_bytes(p: PayloadView, part: LprPart) -> Seq<u8> {
    match part {
        LprPart::QueueCommand => p.q_cmd,
        LprPart::ControlHeader => p.cf_hdr,
        LprPart::ControlFile => p.ctl,
        LprPart::DataHeader => p.df_hdr,
        LprPart::Payload => p.payload,
        LprPart::Terminator => seq![0u8],
    }
}

/// The bytes sent by a sequence of operations, in order.
pub open spec fn sent_bytes(p: PayloadView, ops: Seq<LprOp>) -> Seq<u8>
    decreases ops.len(),
{
    if ops.len() == 0 {
        Seq::empty()
    } else {
        sent_bytes(p, ops.drop_last()) + match ops.last() {
            LprOp::Send(part) => part_bytes(p, part),
            LprOp::ReceiveAck => Seq::empty(),
        }
    }
}

/// A complete transfer sends the queue command, the control-file header, the
/// control file and a zero byte, the data-file header, and the data file and
/// a zero byte, in that order and nothing else.
pub proof fn lemma_transfer_stream(p: PayloadView)
    ensures
        sent_bytes(p, lpr_ops()) == p.q_cmd + p.cf_hdr + p.ctl + seq![0u8] + p.df_hdr + p.payload
            + seq![0u8],
{
    reveal_with_fuel(sent_bytes, 13);
}

impl LprPayload {
    /// The bytes sent for a part of the transfer.
    pub fn part(&self, part: LprPart) -> (b: &[u8])
        ensures
            b@ == part_bytes(self@, part),
    {
        match part {
            LprPart::QueueCommand => self.q_cmd.as_slice(),
            LprPart::ControlHeader => self.cf_hdr.as_slice(),
            LprPart::ControlFile => self.ctl.as_slice(),
            LprPart::DataHeader => self.df_hdr.as_slice(),
            LprPart::Payload => self.payload.as_slice(),
            LprPart::Terminator => {
                let t: &[u8] = &TERMINATOR;
                assert(t@ =~= seq![0u8]);
                t
            },
        }
    }
}

/// What became of a claim request.
pub enum ClaimReply {
    /// The request could not be sent.
    SendFailed,
    /// The server answered with this status; the body, if it parsed.
    Received { status: u16, body: Option<ClaimJobResponseBody> },
}

/// A claim is granted exactly when the server answered 200 with a body that
/// parsed and says `claimed: true`.
pub open spec fn claim_granted_spec(reply: ClaimReply) -> bool {
    match reply {
        ClaimReply::SendFailed => false,
        ClaimReply::Received { status, body } => status == 200 && match body {
            Some(bd) => bd.claimed == Some(true),
            None => false,
        },
    }
}

/// Whether the claim was granted.
pub fn claim_granted(reply: &ClaimReply) -> (b: bool)
    ensures
        b == claim_granted_spec(*reply),
{
    match reply {
        ClaimReply::SendFailed => false,
        ClaimReply::Received { status, body } => {
            if *status != 200 {
                return false;
            }
            match body {
                None => false,
                Some(bd) => match bd.claimed {
                    Some(c) => c,
                    None => false,
                },
            }
        },
    }
}

/// Where the handling of a job stands.
#[derive(Clone, Copy, Debug, PartialEq, Eq, Structural)]
pub enum JobStage {
    /// Check that the printer host answers.
    CheckOnline,
    /// Claim the job from the server.
    Claim,
    /// Decrypt the job's buffers.
    Decrypt,
    /// Connect to the printer.
    Connect,
    /// Hand the job to the printer.
    Transfer,
    /// Nothing more to do.
    Done,
}

/// How the work of a stage went.
#[derive(Clone, Copy, Debug, PartialEq, Eq, Structural)]
pub enum JobEvent {
    Online(bool),
    Claimed(bool),
    Decrypted(bool),
    Connected(bool),
    TransferEnded(TransferOutcome),
    /// The stage's work failed with an error.
    Failed,
}

/// The stage after an event: each stage moves on to the next only when its
/// own work succeeded; anything else ends the handling.
pub open spec fn job_next_spec(stage: JobStage, event: JobEvent) -> JobStage {
    match (stage, event) {
        (JobStage::CheckOnline, JobEvent::Online(true)) => JobStage::Claim,
        (JobStage::Claim, JobEvent::Claimed(true)) => JobStage::Decrypt,
        (JobStage::Decrypt, JobEvent::Decrypted(true)) => JobStage::Connect,
        (JobStage::Connect, JobEvent::Connected(true)) => JobStage::Transfer,
        _ => JobStage::Done,
    }
}

/// The stage after an event.
pub fn job_next(stage: JobStage, event: JobEvent) -> (r: JobStage)
    ensures
        r == job_next_spec(stage, event),
{
    match (stage, event) {
        (JobStage::CheckOnline, JobEvent::Online(true)) => JobStage::Claim,
        (JobStage::Claim, JobEvent::Claimed(true)) => JobStage::Decrypt,
        (JobStage::Decrypt, JobEvent::Decrypted(true)) => JobStage::Connect,
        (JobStage::Connect, JobEvent::Connected(true)) => JobStage::Transfer,
        _ => JobStage::Done,
    }
}

/// The stage after a sequence of events, from the first stage.
pub open spec fn job_run(events: Seq<JobEvent>) -> JobStage
    decreases events.len(),
{
    if events.len() == 0 {
        JobStage::CheckOnline
    } else {
        job_next_spec(job_run(events.drop_last()), events.last())
    }
}

/// The successful events of the stages before the transfer, in order.
pub open spec fn job_preconditions() -> Seq<JobEvent> {
    seq![
        JobEvent::Online(true),
        JobEvent::Claimed(true),
        JobEvent::Decrypted(true),
        JobEvent::Connected(true),
    ]
}

/// The stage reached after the first `k` successful events.
pub open spec fn stage_after(k: int) -> JobStage {
    if k == 0 {
        JobStage::CheckOnline
    } else if k == 1 {
        JobStage::Claim
    } else if k == 2 {
        JobStage::Decrypt
    } else if k == 3 {
        JobStage::Connect
    } else {
        JobStage::Transfer
    }
}

proof fn lemma_job_run_prefix(events: Seq<JobEvent>)
    ensures
        job_run(events) != JobStage::Done <==> (events.len() <= 4 && events
            =~= job_preconditions().take(events.len() as int)),
        job_run(events) != JobStage::Done ==> job_run(events) == stage_after(events.len() as int),
    decreases events.len(),
{
    if events.len() > 0 {
        let p = events.drop_last();
        lemma_job_run_prefix(p);
        let k = p.len() as int;
        let pre = job_preconditions();
        if events.len() <= 4 && events =~= pre.take(events.len() as int) {
            assert(p =~= pre.take(k));
            assert(events.last() == pre[k]);
        }
        if job_run(events) != JobStage::Done {
            assert(job_run(p) != JobStage::Done);
            assert(k < 4);
            assert(events.last() == pre[k]);
            assert(events =~= pre.take(k + 1));
        }
    }
}

/// A job reaches the transfer exactly when its events are, in order, that
/// the printer is online, that the claim was granted, that the buffers
/// decrypted, and that the connection was made: no other sequence of events
/// ever hands a job to a printer, and any event that is not the next success
/// ends the handling.
pub proof fn lemma_transfer_needs_claim(events: Seq<JobEvent>)
    ensures
        job_run(events) == JobStage::Transfer <==> events == job_preconditions(),
        job_run(events) != JobStage::Done <==> (events.len() <= 4 && events
            == job_preconditions().take(events.len() as int)),
{
    lemma_job_run_prefix(events);
    if events == job_preconditions() {
        assert(job_preconditions().take(4) =~= job_preconditions());
    }
    if job_run(events) == JobStage::Transfer {
        assert(events.len() == 4);
        assert(job_preconditions().take(4) =~= job_preconditions());
    }
}

/// A handled job counts as completed exactly when the printer took all of it.
pub fn counts_as_completed(outcome: TransferOutcome) -> (b: bool)
    ensures
        b == (outcome == TransferOutcome::Transferred),
{
    match outcome {
        TransferOutcome::Transferred => true,
        _ => false,
    }
}

} // verus!
