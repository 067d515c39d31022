use preprintd::job::LprPayload;
use preprintd::lpr::{lpr_op, LprAction, LprOp, LprOpResult, LprPart, LprTransfer, TransferOutcome, LPR_OP_COUNT};

fn drive(results: &[LprOpResult]) -> (Vec<LprOp>, TransferOutcome) {
    let mut t = LprTransfer::new();
    let mut performed = Vec::new();
    let mut i = 0;
    loop {
        match t.next_action() {
            LprAction::Perform(op) => {
                performed.push(op);
                t.record(results[i]);
                i += 1;
            }
            LprAction::Finish(o) => return (performed, o),
        }
    }
}

fn expected_ops() -> Vec<LprOp> {
    vec![
        LprOp::Send(LprPart::QueueCommand),
        LprOp::ReceiveAck,
        LprOp::Send(LprPart::ControlHeader),
        LprOp::ReceiveAck,
        LprOp::Send(LprPart::ControlFile),
        LprOp::Send(LprPart::Terminator),
        LprOp::ReceiveAck,
        LprOp::Send(LprPart::DataHeader),
        LprOp::ReceiveAck,
        LprOp::Send(LprPart::Payload),
        LprOp::Send(LprPart::Terminator),
        LprOp::ReceiveAck,
    ]
}

#[test]
fn op_order() {
    let ops: Vec<LprOp> = (0..LPR_OP_COUNT).map(lpr_op).collect();
    assert_eq!(ops, expected_ops());
}

#[test]
fn all_successes_transfer() {
    let (ops, outcome) = drive(&[LprOpResult::Completed(true); 12]);
    assert_eq!(ops, expected_ops());
    assert_eq!(outcome, TransferOutcome::Transferred);
}

#[test]
fn a_refused_ack_stops_the_transfer() {
    let mut results = [LprOpResult::Completed(true); 12];
    results[3] = LprOpResult::Completed(false);
    let (ops, outcome) = drive(&results);
    assert_eq!(ops, expected_ops()[..4].to_vec());
    assert_eq!(outcome, TransferOutcome::Unsuccessful);
}

#[test]
fn a_connection_failure_stops_the_transfer() {
    let mut results = [LprOpResult::Completed(true); 12];
    results[9] = LprOpResult::Failed;
    let (ops, outcome) = drive(&results);
    assert_eq!(ops.len(), 10);
    assert_eq!(outcome, TransferOutcome::ConnectionFailed);
}

#[test]
fn an_ended_transfer_stays_ended() {
    let mut t = LprTransfer::new();
    t.record(LprOpResult::Failed);
    t.record(LprOpResult::Completed(true));
    assert_eq!(t.next_action(), LprAction::Finish(TransferOutcome::ConnectionFailed));
}

#[test]
fn stream_of_a_full_transfer() {
    let p = LprPayload {
        q_cmd: b"\x02lp\n".to_vec(),
        cf_hdr: b"\x02 12 cfA001host\n".to_vec(),
        ctl: b"Hhost\nPuser\n".to_vec(),
        df_hdr: b"\x03 5 dfA001host\n".to_vec(),
        payload: b"hello".to_vec(),
    };
    let mut stream = Vec::new();
    for op in expected_ops() {
        if let LprOp::Send(part) = op {
            stream.extend_from_slice(p.part(part));
        }
    }
    let mut expected = Vec::new();
    expected.extend_from_slice(&p.q_cmd);
    expected.extend_from_slice(&p.cf_hdr);
    expected.extend_from_slice(&p.ctl);
    expected.push(0);
    expected.extend_from_slice(&p.df_hdr);
    expected.extend_from_slice(&p.payload);
    expected.push(0);
    assert_eq!(stream, expected);
    assert_eq!(p.part(LprPart::Terminator), &[0u8]);
}
