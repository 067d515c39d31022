//! The hand-off of a print job to a line printer daemon (RFC 1179): the
//! order of the sends and acknowledgements, driven one operation at a time,
//! stopping at the first operation that does not succeed.
use vstd::prelude::*;

verus! {

/// A buffer that is sent to the printer.
#[derive(Clone, Copy, Debug, PartialEq, Eq, Structural)]
pub enum LprPart {
    /// The "receive a printer job" command.
    QueueCommand,
    /// The "receive control file" subcommand.
    ControlHeader,
    /// The control file.
    ControlFile,
    /// The "receive data file" subcommand.
    DataHeader,
    /// The data file.
    Payload,
    /// The zero byte that ends a control file or a data file.
    Terminator,
}

/// One operation on the printer connection.
#[derive(Clone, Copy, Debug, PartialEq, Eq, Structural)]
pub enum LprOp {
    Send(LprPart),
    ReceiveAck,
}

/// How one operation went: it completed and reported success or failure,
/// or the connection failed.
#[derive(Clone, Copy, Debug, PartialEq, Eq, Structural)]
pub enum LprOpResult {
    Completed(bool),
    Failed,
}

/// How a transfer ended.
#[derive(Clone, Copy, Debug, PartialEq, Eq, Structural)]
pub enum TransferOutcome {
    /// Every operation succeeded.
    Transferred,
    /// An operation completed without success.
    Unsuccessful,
    /// The connection failed during an operation.
    ConnectionFailed,
}

/// What the caller is to do next.
#[derive(Clone, Copy, Debug, PartialEq, Eq, Structural)]
pub enum LprAction {
    Perform(LprOp),
    Finish(TransferOutcome),
}

/// Number of operations in a transfer.
pub const LPR_OP_COUNT: usize = 12;

/// The operations of a transfer, in order: queue command, acknowledgement;
/// control-file subcommand, acknowledgement; control file and its zero byte,
/// acknowledgement; data-file subcommand, acknowledgement; data file and its
/// zero byte, acknowledgement.
pub open spec fn lpr_ops() -> Seq<LprOp> {
    seq![
        LprOp::Send(LprPart::QueueCommand),
        LprOp::ReceiveAck,
        LprOp::Send(LprPart::ControlHeader),
        LprOp::ReceiveAck,
        LprOp::Send(LprPart::ControlFile),
        LprOp::Send(LprPart::Terminator),
        LprOp::ReceiveAck,
        LprOp::Send(LprPart::DataHeader),
        LprOp::ReceiveAck,
        LprOp::Send(LprPart::Payload),
        LprOp::Send(LprPart::Terminator),
        LprOp::ReceiveAck,
    ]
}

/// Operation `i` of a transfer.
pub fn lpr_op(i: usize) -> (op: LprOp)
    requires
        i < LPR_OP_COUNT,
    ensures
        op == lpr_ops()[i as int],
{
    match i {
        0 => LprOp::Send(LprPart::QueueCommand),
        1 => LprOp::ReceiveAck,
        2 => LprOp::Send(LprPart::ControlHeader),
        3 => LprOp::ReceiveAck,
        4 => LprOp::Send(LprPart::ControlFile),
        5 => LprOp::Send(LprPart::Terminator),
        6 => LprOp::ReceiveAck,
        7 => LprOp::Send(LprPart::DataHeader),
        8 => LprOp::ReceiveAck,
        9 => LprOp::Send(LprPart::Payload),
        10 => LprOp::Send(LprPart::Terminator),
        _ => LprOp::ReceiveAck,
    }
}

/// Where a transfer stands: how many operations succeeded, and how it ended
/// if it has.
pub struct LprState {
    pub done: nat,
    pub outcome: Option<TransferOutcome>,
}

/// The state of a transfer that has not started.
pub open spec fn lpr_start() -> LprState {
    LprState { done: 0, outcome: None }
}

/// The state after the result of the next operation: success moves to the
/// next operation and ends the transfer after the last one; anything else
/// ends it at once. An ended transfer stays as it is.
pub open spec fn lpr_step(s: LprState, result: LprOpResult) -> LprState {
    match s.outcome {
        Some(_) => s,
        None => match result {
            LprOpResult::Completed(true) => if s.done + 1 == 12 {
                LprState { done: 12, outcome: Some(TransferOutcome::Transferred) }
            } else {
                LprState { done: s.done + 1, outcome: None }
            },
            LprOpResult::Completed(false) => LprState {
                done: s.done,
                outcome: Some(TransferOutcome::Unsuccessful),
            },
            LprOpResult::Failed => LprState {
                done: s.done,
                outcome: Some(TransferOutcome::ConnectionFailed),
            },
        },
    }
}

/// The state after a sequence of operation results, from the start.
pub open spec fn lpr_run(results: Seq<LprOpResult>) -> LprState
    decreases results.len(),
{
    if results.len() == 0 {
        lpr_start()
    } else {
        lpr_step(lpr_run(results.drop_last()), results.last())
    }
}

/// What the caller is to do in a state.
pub open spec fn lpr_action(s: LprState) -> LprAction {
    match s.outcome {
        Some(o) => LprAction::Finish(o),
        None => LprAction::Perform(lpr_ops()[s.done as int]),
    }
}

/// Every result so far reported success.
pub open spec fn all_succeeded(results: Seq<LprOpResult>, n: int) -> bool {
    forall|i: int| 0 <= i < n ==> #[trigger] results[i] == LprOpResult::Completed(true)
}

/// A transfer driven by a sequence of results is one of three things: still
/// running after only successes, fewer than twelve of them; transferred,
/// exactly when its first twelve results are successes; or ended by its
/// first result that is not a success, which decides how it ended. It never
/// performs more than twelve operations.
pub proof fn lemma_run_short_circuits(results: Seq<LprOpResult>)
    ensures
        lpr_run(results).done <= 12,
        lpr_run(results).done <= results.len(),
        lpr_run(results).outcome is None <==> results.len() < 12 && all_succeeded(results, results.len() as int),
        lpr_run(results).outcome == Some(TransferOutcome::Transferred) <==> results.len() >= 12
            && all_succeeded(results, 12),
        lpr_run(results).outcome == Some(TransferOutcome::Transferred) ==> lpr_run(results).done == 12,
        lpr_run(results).outcome is None ==> lpr_run(results).done == results.len(),
        lpr_run(results).outcome == Some(TransferOutcome::Unsuccessful) <==> ({
            let k = lpr_run(results).done as int;
            &&& k < 12 && k < results.len()
            &&& all_succeeded(results, k)
            &&& results[k] == LprOpResult::Completed(false)
        }),
        lpr_run(results).outcome == Some(TransferOutcome::ConnectionFailed) <==> ({
            let k = lpr_run(results).done as int;
            &&& k < 12 && k < results.len()
            &&& all_succeeded(results, k)
            &&& results[k] == LprOpResult::Failed
        }),
    decreases results.len(),
{
    if results.len() > 0 {
        let p = results.drop_last();
        lemma_run_short_circuits(p);
        assert forall|i: int| 0 <= i < p.len() implies p[i] == results[i] by {}
        let s = lpr_run(p);
        let n = p.len() as int;
        if s.outcome is None {
            assert(all_succeeded(results, n));
        }
        if s.outcome is Some {
            assert(!all_succeeded(results, results.len() as int) || s.outcome == Some(TransferOutcome::Transferred));
            if s.outcome == Some(TransferOutcome::Transferred) {
                assert(all_succeeded(results, 12));
            }
            if all_succeeded(results, 12) && results.len() >= 12 {
                if s.done < 12 {
                    let k = s.done as int;
                    assert(results[k] == LprOpResult::Completed(true));
                }
            }
        }
    }
}

/// A transfer, driven one operation at a time: ask for the next action,
/// perform it, and record its result.
pub struct LprTransfer {
    done: usize,
    outcome: Option<TransferOutcome>,
}

impl View for LprTransfer {
    type V = LprState;

    closed spec fn view(&self) -> LprState {
        LprState { done: self.done as nat, outcome: self.outcome }
    }
}

impl LprTransfer {
    #[verifier::type_invariant]
    spec fn wf(self) -> bool {
        &&& self.done <= 12
        &&& self.outcome is None ==> self.done < 12
        &&& self.outcome == Some(TransferOutcome::Transferred) <==> self.done == 12
    }

    /// A transfer that has not started.
    pub fn new() -> (t: Self)
        ensures
            t@ == lpr_start(),
    {
        LprTransfer { done: 0, outcome: None }
    }

    /// What the caller is to do next.
    pub fn next_action(&self) -> (a: LprAction)
        ensures
            a == lpr_action(self@),
    {
        proof {
            use_type_invariant(self);
        }
        match self.outcome {
            Some(o) => LprAction::Finish(o),
            None => LprAction::Perform(lpr_op(self.done)),
        }
    }

    /// Records the result of the operation last asked for.
    pub fn record(&mut self, result: LprOpResult)
        ensures
            final(self)@ == lpr_step(old(self)@, result),
    {
        proof {
            use_type_invariant(&*self);
        }
        if self.outcome.is_none() {
            match result {
                LprOpResult::Completed(true) => {
                    if self.done + 1 == LPR_OP_COUNT {
                        *self = LprTransfer {
                            done: LPR_OP_COUNT,
                            outcome: Some(TransferOutcome::Transferred),
                        };
                    } else {
                        *self = LprTransfer { done: self.done + 1, outcome: None };
                    }
                },
                LprOpResult::Completed(false) => {
                    *self = LprTransfer {
                        done: self.done,
                        outcome: Some(TransferOutcome::Unsuccessful),
                    };
                },
                LprOpResult::Failed => {
                    *self = LprTransfer {
                        done: self.done,
                        outcome: Some(TransferOutcome::ConnectionFailed),
                    };
                },
            }
        }
    }
}

} // verus!
