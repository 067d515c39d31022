use preprintd::crypto::{encrypt_with_iv, CryptoError};
use preprintd::job::{
    claim_granted, counts_as_completed, decrypt_job, job_next, job_target, ClaimReply, JobEvent,
    JobStage,
};
use preprintd::lpr::TransferOutcome;
use preprintd::types::{ClaimJobRequestBody, ClaimJobResponseBody, Job};

fn job(id: Option<&str>, host: Option<&str>, queue: Option<&str>) -> Job {
    Job {
        id: id.map(String::from),
        printer_host: host.map(String::from),
        printer_queue: queue.map(String::from),
        q_cmd: None,
        cf_hdr: None,
        ctl: None,
        df_hdr: None,
        payload: None,
    }
}

#[test]
fn target_needs_an_id() {
    assert!(job_target(&job(None, Some("h"), Some("q")), "dh", "dq").is_none());
    assert!(job_target(&job(Some(""), Some("h"), Some("q")), "dh", "dq").is_none());
}

#[test]
fn target_uses_defaults_for_missing_host_and_queue() {
    let t = job_target(&job(Some("7"), None, Some("")), "10.0.0.5", "raw").unwrap();
    assert_eq!(t.id, "7");
    assert_eq!(t.host, "10.0.0.5");
    assert_eq!(t.queue, "raw");
}

#[test]
fn target_uses_the_jobs_own_printer() {
    let t = job_target(&job(Some("7"), Some("printer.lan"), Some("q1")), "10.0.0.5", "raw").unwrap();
    assert_eq!(t.host, "printer.lan");
    assert_eq!(t.queue, "q1");
}

#[test]
fn decrypt_job_of_empty_fields() {
    let p = decrypt_job(&job(Some("7"), None, None), "7", "k").unwrap();
    assert!(p.q_cmd.is_empty() && p.cf_hdr.is_empty() && p.ctl.is_empty());
    assert!(p.df_hdr.is_empty() && p.payload.is_empty());
}

#[test]
fn decrypt_job_of_sealed_fields() {
    let iv = [7u8; 16];
    let mut j = job(Some("7"), None, None);
    j.q_cmd = Some(encrypt_with_iv("\u{2}lp\n", "7", "k", iv));
    j.payload = Some(encrypt_with_iv("%!PS", "7", "k", iv));
    let p = decrypt_job(&j, "7", "k").unwrap();
    assert_eq!(p.q_cmd, b"\x02lp\n".to_vec());
    assert_eq!(p.payload, b"%!PS".to_vec());
    assert!(p.ctl.is_empty());
}

#[test]
fn decrypt_job_reports_a_bad_field() {
    let mut j = job(Some("7"), None, None);
    j.df_hdr = Some("***".to_string());
    assert_eq!(decrypt_job(&j, "7", "k").err(), Some(CryptoError::InvalidBase64));
}

#[test]
fn claim_decisions() {
    assert!(!claim_granted(&ClaimReply::SendFailed));
    let reply = |status, body| ClaimReply::Received { status, body };
    let ok = |c| Some(ClaimJobResponseBody { claimed: c });
    assert!(claim_granted(&reply(200, ok(Some(true)))));
    assert!(!claim_granted(&reply(200, ok(Some(false)))));
    assert!(!claim_granted(&reply(200, ok(None))));
    assert!(!claim_granted(&reply(200, None)));
    assert!(!claim_granted(&reply(409, ok(Some(true)))));
}

#[test]
fn claim_request_body_holds_the_id() {
    let b = ClaimJobRequestBody { id: "42" };
    assert_eq!(b.id, "42");
}

#[test]
fn job_stages_in_order() {
    let mut s = JobStage::CheckOnline;
    for e in [
        JobEvent::Online(true),
        JobEvent::Claimed(true),
        JobEvent::Decrypted(true),
        JobEvent::Connected(true),
    ] {
        s = job_next(s, e);
    }
    assert_eq!(s, JobStage::Transfer);
    assert_eq!(job_next(s, JobEvent::TransferEnded(TransferOutcome::Transferred)), JobStage::Done);
}

#[test]
fn job_stops_when_offline_or_unclaimed() {
    assert_eq!(job_next(JobStage::CheckOnline, JobEvent::Online(false)), JobStage::Done);
    assert_eq!(job_next(JobStage::CheckOnline, JobEvent::Failed), JobStage::Done);
    assert_eq!(job_next(JobStage::Claim, JobEvent::Claimed(false)), JobStage::Done);
    assert_eq!(job_next(JobStage::Claim, JobEvent::Online(true)), JobStage::Done);
    assert_eq!(job_next(JobStage::Connect, JobEvent::Connected(false)), JobStage::Done);
}

#[test]
fn only_full_transfers_count() {
    assert!(counts_as_completed(TransferOutcome::Transferred));
    assert!(!counts_as_completed(TransferOutcome::Unsuccessful));
    assert!(!counts_as_completed(TransferOutcome::ConnectionFailed));
}
