//! The decisions of a consensus connection served to an application that
//! takes whole blocks (`ApplicationXX`).
//!
//! For each request read, `on_packet` advances the connection's consensus
//! queue and returns the steps to perform, in order: handler calls,
//! responses to write, `Flush` answers. Requests read before the
//! connection has seen `InitChain` are simply dispatched.

use vstd::prelude::*;

use crate::error::Error;
use crate::finalized::{finalized_block_of, RequestFinalizedBlock, ResponseFinalizedBlock};
use crate::state::{
    accepts_block, block_packets, transition, ConsensusQueue, ConsensusState, QueueModel,
};
use crate::types::{
    is_empty_begin_block, is_empty_begin_block_response, is_empty_deliver_tx_response, Request,
    RequestBeginBlock, RequestCommit, RequestDeliverTx, RequestEndBlock, RequestValue, Response,
    ResponseBeginBlock, ResponseDeliverTx, ResponseValue,
};

verus! {

/// One thing to do for a request read.
#[derive(Debug)]
pub enum Step {
    /// Dispatch the request to the application and write its answer.
    Dispatch(Request),
    /// Hand the block to the application, then write the answers that
    /// `block_responses` makes of its receipts.
    Finalize(RequestFinalizedBlock),
    /// Write this response.
    Send(Response),
    /// Write a `Flush` answer.
    Flush,
}

/// Why a consensus connection cannot go on.
#[derive(Debug, Clone, Copy, PartialEq, Eq, Structural)]
pub enum SessionFault {
    /// The consensus state machine refused the request.
    Transition(Error),
    /// A block is complete but its `BeginBlock` lacked a header or commit
    /// info.
    IncompleteBlock,
    /// The `InitChain` request to answer was not there.
    NoPacket(Error),
}

/// `p` opens the consensus connection.
pub open spec fn is_init_chain(p: Request) -> bool {
    p.value matches Some(RequestValue::InitChain(_))
}

/// The steps for a block that has just been completed in `q1`.
pub open spec fn deliver_block_steps(q1: QueueModel, steps: Seq<Step>) -> bool {
    &&& steps.len() == 2
    &&& steps[0] matches Step::Finalize(fb) && finalized_block_of(q1.block, q1.txs, fb)
    &&& steps[1] == Step::Flush
}

/// The steps that answer a `BeginBlock`: an empty answer and a `Flush`.
pub open spec fn begin_block_steps(steps: Seq<Step>) -> bool {
    &&& steps.len() == 2
    &&& steps[0] matches Step::Send(resp) && (resp.value matches Some(ResponseValue::BeginBlock(b))
        && is_empty_begin_block_response(b))
    &&& steps[1] == Step::Flush
}

/// What `on_packet` does with a request fed to an existing queue `q`:
/// the result and the queue afterwards.
pub open spec fn fed_to_queue(
    q: QueueModel,
    p: Request,
    r: Result<Vec<Step>, SessionFault>,
    after: QueueModel,
) -> bool {
    match p.value {
        None => r matches Err(f) && f == SessionFault::Transition(Error::ABCIFormatError) && after == q,
        Some(v) => match transition(q, v) {
            None => r matches Err(f) && f == SessionFault::Transition(Error::ABCIPacketError) && after == q,
            Some(q1) => match q1.state {
                ConsensusState::DeliverBlock => if q1.block.header is Some
                    && q1.block.last_commit_info is Some {
                    &&& r matches Ok(steps) && deliver_block_steps(q1, steps@)
                    &&& is_empty_begin_block(after.block)
                    &&& after.txs.len() == 0
                    &&& after.state == q1.state
                    &&& after.packet == q1.packet
                } else {
                    r matches Err(f) && f == SessionFault::IncompleteBlock && after == q1
                },
                ConsensusState::ConsensusBeginFlush => {
                    &&& after == (QueueModel { packet: None, ..q1 })
                    &&& match q1.packet {
                        Some(pk) => r matches Ok(steps) && steps@ == seq![Step::Dispatch(pk), Step::Flush],
                        None => r matches Err(f) && f == SessionFault::NoPacket(Error::ABCIPacketError),
                    }
                },
                ConsensusState::BlockBeginFlush => {
                    &&& r matches Ok(steps) && begin_block_steps(steps@)
                    &&& after == q1
                },
                ConsensusState::BlockCommitFlush => {
                    &&& r matches Ok(steps) && steps@ == seq![
                        Step::Dispatch(Request { value: Some(RequestValue::Commit(RequestCommit {})) }),
                        Step::Flush,
                    ]
                    &&& after == q1
                },
                _ => r matches Ok(steps) && steps@.len() == 0 && after == q1,
            },
        },
    }
}

/// An empty `DeliverTx` answer.
pub open spec fn is_empty_deliver_tx_answer(r: Response) -> bool {
    r.value matches Some(ResponseValue::DeliverTx(d)) && is_empty_deliver_tx_response(d)
}

/// The answers written for a finalized block of `tx_len` transactions:
/// the application's receipts, empty `DeliverTx` answers for the
/// transactions it gave no receipt, then its `EndBlock` answer.
pub open spec fn is_block_responses(tx_len: int, res: ResponseFinalizedBlock, out: Seq<Response>) -> bool {
    let n = res.tx_receipt@.len();
    &&& out.len() == tx_len + 1
    &&& forall|i: int| 0 <= i < n ==> #[trigger] out[i] == (Response {
        value: Some(ResponseValue::DeliverTx(res.tx_receipt@[i])),
    })
    &&& forall|i: int| n <= i < tx_len ==> is_empty_deliver_tx_answer(#[trigger] out[i])
    &&& out[tx_len] == (Response { value: Some(ResponseValue::EndBlock(res.end_recepit)) })
}

/// Feeds a request read from a consensus connection to its queue and
/// returns what to do. `session` is the connection's queue, `None` until
/// the connection sees `InitChain`, which creates a fresh queue.
pub fn on_packet(session: &mut Option<ConsensusQueue>, p: Request) -> (r: Result<Vec<Step>, SessionFault>)
    ensures
        *old(session) is None && !is_init_chain(p) ==> {
            &&& r matches Ok(steps) && steps@ == seq![Step::Dispatch(p)]
            &&& *final(session) is None
        },
        *old(session) is None && is_init_chain(p) ==> {
            &&& r matches Ok(steps) && steps@.len() == 0
            &&& *final(session) matches Some(q) && {
                &&& is_empty_begin_block(q.block)
                &&& q.txs@.len() == 0
                &&& q.state == ConsensusState::ConsensusBegin
                &&& q.packet == Some(p)
            }
        },
        *old(session) matches Some(q) ==> *final(session) matches Some(q2) && fed_to_queue(q@, p, r, q2@),
{
    if session.is_none() && ConsensusQueue::is_consensus(&p) {
        // `ConsensusQueue::new` of an `InitChain` request is a fresh queue.
        *session = Some(ConsensusQueue::default());
    }
    match session {
        None => Ok(vec![Step::Dispatch(p)]),
        Some(st) => {
            if let Err(e) = st.add_pkt(p) {
                return Err(SessionFault::Transition(e));
            }
            if st.is_deliver_block() {
                if st.block.header.is_none() || st.block.last_commit_info.is_none() {
                    return Err(SessionFault::IncompleteBlock);
                }
                let fbp = match st.to_block() {
                    Ok(b) => b,
                    Err(e) => return Err(SessionFault::Transition(e)),
                };
                return Ok(vec![Step::Finalize(fbp), Step::Flush]);
            }
            if st.is_sendable() {
                let request = match st.to_packet() {
                    Ok(r) => r,
                    Err(e) => return Err(SessionFault::NoPacket(e)),
                };
                return Ok(vec![Step::Dispatch(request), Step::Flush]);
            }
            if st.is_begin_block_flush() {
                let resp = Response {
                    value: Some(ResponseValue::BeginBlock(ResponseBeginBlock::default())),
                };
                return Ok(vec![Step::Send(resp), Step::Flush]);
            }
            if st.is_commit_flush() {
                let req = Request { value: Some(RequestValue::Commit(RequestCommit {})) };
                return Ok(vec![Step::Dispatch(req), Step::Flush]);
            }
            Ok(Vec::new())
        },
    }
}

/// The answers to write for a finalized block of `tx_len` transactions,
/// given the application's answer; it must not hold more receipts than
/// transactions.
pub fn block_responses(tx_len: usize, res: ResponseFinalizedBlock) -> (out: Vec<Response>)
    requires
        res.tx_receipt@.len() <= tx_len,
    ensures
        is_block_responses(tx_len as int, res, out@),
{
    let ghost res0 = res;
    let ResponseFinalizedBlock { tx_receipt, end_recepit } = res;
    let filled_tx = tx_len - tx_receipt.len();
    let mut out: Vec<Response> = Vec::new();
    for tx in it: tx_receipt
        invariant
            it.seq() == res0.tx_receipt@,
            out@.len() == it.index(),
            forall|i: int| 0 <= i < it.index() ==> #[trigger] out@[i] == (Response {
                value: Some(ResponseValue::DeliverTx(res0.tx_receipt@[i])),
            }),
    {
        out.push(Response { value: Some(ResponseValue::DeliverTx(tx)) });
    }
    let n = out.len();
    for _k in 0..filled_tx
        invariant
            n == res0.tx_receipt@.len(),
            filled_tx == tx_len - n,
            out@.len() == n + _k,
            forall|i: int| 0 <= i < n ==> #[trigger] out@[i] == (Response {
                value: Some(ResponseValue::DeliverTx(res0.tx_receipt@[i])),
            }),
            forall|i: int| n <= i < n + _k ==> is_empty_deliver_tx_answer(#[trigger] out@[i]),
    {
        out.push(Response { value: Some(ResponseValue::DeliverTx(ResponseDeliverTx::default())) });
    }
    out.push(Response { value: Some(ResponseValue::EndBlock(end_recepit)) });
    out
}


// ---------------------------------------------------------------------------
// Laws of a consensus session
// ---------------------------------------------------------------------------

/// The requests the consensus engine sends for one block.
pub open spec fn block_requests(
    b: RequestBeginBlock,
    ts: Seq<RequestDeliverTx>,
    e: RequestEndBlock,
) -> Seq<Request> {
    block_packets(b, ts, e).map_values(|v: RequestValue| Request { value: Some(v) })
}

/// `qs[0], ps[0], rs[0], qs[1], ps[1], ...` is a run of `on_packet` on a
/// connection that has a consensus queue: each result and queue follow
/// from the previous queue and the request.
pub open spec fn is_session_run(
    qs: Seq<QueueModel>,
    ps: Seq<Request>,
    rs: Seq<Result<Vec<Step>, SessionFault>>,
) -> bool {
    &&& qs.len() == ps.len() + 1
    &&& rs.len() == ps.len()
    &&& forall|i: int| #![trigger rs[i]] 0 <= i < ps.len() ==> fed_to_queue(qs[i], ps[i], rs[i], qs[i + 1])
}

/// A successful step with nothing to do.
pub open spec fn is_no_steps(r: Result<Vec<Step>, SessionFault>) -> bool {
    r matches Ok(steps) && steps@.len() == 0
}

/// The queue while the transactions of a block arrive.
spec fn gathering(q0: QueueModel, b: RequestBeginBlock, ts: Seq<RequestDeliverTx>, j: int) -> QueueModel {
    QueueModel {
        block: b,
        txs: q0.txs + ts.take(j),
        state: if j == 0 { ConsensusState::BlockBeginFlush } else { ConsensusState::TxReceived },
        packet: q0.packet,
    }
}

proof fn lemma_session_txs(
    qs: Seq<QueueModel>,
    ps: Seq<Request>,
    rs: Seq<Result<Vec<Step>, SessionFault>>,
    b: RequestBeginBlock,
    ts: Seq<RequestDeliverTx>,
    e: RequestEndBlock,
    j: int,
)
    requires
        ps == block_requests(b, ts, e),
        is_session_run(qs, ps, rs),
        0 <= j <= ts.len(),
        qs[2 + j] == gathering(qs[0], b, ts, j),
    ensures
        qs[2 + ts.len() as int] == gathering(qs[0], b, ts, ts.len() as int),
        forall|i: int| 2 + j <= i < 2 + ts.len() ==> is_no_steps(#[trigger] rs[i]),
    decreases ts.len() - j,
{
    if j < ts.len() {
        let i = 2 + j;
        assert(fed_to_queue(qs[i], ps[i], rs[i], qs[i + 1]));
        assert(block_packets(b, ts, e)[i] == RequestValue::DeliverTx(ts[j]));
        assert(ps[i] == Request { value: Some(RequestValue::DeliverTx(ts[j])) });
        assert(ts.take(j).push(ts[j]) == ts.take(j + 1));
        assert(qs[i + 1] == gathering(qs[0], b, ts, j + 1));
        lemma_session_txs(qs, ps, rs, b, ts, e, j + 1);
    }
}

/// Law: on a consensus connection ready for a block, the block's requests
/// are all accepted; the application is asked for nothing until the
/// block's last `Flush`, except that the first `Flush` is answered with an
/// empty `BeginBlock` answer; at the last `Flush` the whole block, with its
/// transactions in order, is handed over once, followed by a `Flush`
/// answer, and the queue is left without block or transactions.
pub proof fn lemma_block_handed_over_once(
    qs: Seq<QueueModel>,
    ps: Seq<Request>,
    rs: Seq<Result<Vec<Step>, SessionFault>>,
    b: RequestBeginBlock,
    ts: Seq<RequestDeliverTx>,
    e: RequestEndBlock,
)
    requires
        ps == block_requests(b, ts, e),
        is_session_run(qs, ps, rs),
        accepts_block(qs[0].state),
        b.header is Some,
        b.last_commit_info is Some,
    ensures
        is_no_steps(rs[0]),
        rs[1] matches Ok(steps) && begin_block_steps(steps@),
        forall|i: int| 2 <= i < ps.len() - 1 ==> is_no_steps(#[trigger] rs[i]),
        rs.last() matches Ok(steps) && deliver_block_steps(
            QueueModel { block: b, txs: qs[0].txs + ts, state: ConsensusState::DeliverBlock, packet: qs[0].packet },
            steps@,
        ),
        is_empty_begin_block(qs.last().block),
        qs.last().txs.len() == 0,
        qs.last().state == ConsensusState::DeliverBlock,
{
    let n = ts.len() as int;
    let vs = block_packets(b, ts, e);
    assert(ps.len() == n + 4);
    assert(vs[0] == RequestValue::BeginBlock(b));
    assert(vs[1] == RequestValue::Flush(crate::types::RequestFlush {}));
    assert(vs[2 + n] == RequestValue::EndBlock(e));
    assert(vs[3 + n] == RequestValue::Flush(crate::types::RequestFlush {}));
    assert(fed_to_queue(qs[0], ps[0], rs[0], qs[1]));
    assert(qs[1] == QueueModel { block: b, state: ConsensusState::BlockBegin, ..qs[0] });
    assert(fed_to_queue(qs[1], ps[1], rs[1], qs[2]));
    assert(qs[2] == gathering(qs[0], b, ts, 0));
    lemma_session_txs(qs, ps, rs, b, ts, e, 0);
    assert(ts.take(n) == ts);
    let i = 2 + n;
    assert(fed_to_queue(qs[i], ps[i], rs[i], qs[i + 1]));
    assert(qs[i + 1] == QueueModel {
        block: b,
        txs: qs[0].txs + ts,
        state: ConsensusState::BlockEnd,
        packet: qs[0].packet,
    });
    assert(fed_to_queue(qs[i + 1], ps[i + 1], rs[i + 1], qs[i + 2]));
    assert(rs.last() == rs[i + 1]);
    assert(qs.last() == qs[i + 2]);
}


/// What a consensus connection keeps while every request succeeds: the
/// queue holds transactions only while a block's transactions are being
/// received (`TxReceived`) or the block has ended but not yet been handed
/// over (`BlockEnd`).
pub open spec fn session_inv(q: QueueModel) -> bool {
    q.state != ConsensusState::TxReceived && q.state != ConsensusState::BlockEnd ==> q.txs.len() == 0
}

/// A successful `on_packet` keeps `session_inv`.
pub proof fn lemma_session_step_keeps_invariant(
    q: QueueModel,
    p: Request,
    r: Result<Vec<Step>, SessionFault>,
    q2: QueueModel,
)
    requires
        session_inv(q),
        fed_to_queue(q, p, r, q2),
        r is Ok,
    ensures
        session_inv(q2),
{
}

/// Law: on a consensus connection, from the queue that `InitChain`
/// creates (state `ConsensusBegin`, no transactions) on, as long as every
/// request succeeds, the queue holds no transactions whenever a block may
/// begin, so each block that is handed over carries exactly its own
/// transactions.
pub proof fn lemma_session_blocks_start_empty(
    qs: Seq<QueueModel>,
    ps: Seq<Request>,
    rs: Seq<Result<Vec<Step>, SessionFault>>,
)
    requires
        is_session_run(qs, ps, rs),
        session_inv(qs[0]),
        forall|i: int| 0 <= i < rs.len() ==> (#[trigger] rs[i]) is Ok,
    ensures
        forall|i: int| 0 <= i < qs.len() ==> session_inv(#[trigger] qs[i]),
        forall|i: int| 0 <= i < qs.len() && accepts_block((#[trigger] qs[i]).state) ==> qs[i].txs.len() == 0,
    decreases ps.len(),
{
    if ps.len() > 0 {
        let n = ps.len() - 1;
        let qs1 = qs.take(n + 1);
        let ps1 = ps.take(n);
        let rs1 = rs.take(n);
        assert forall|i: int| #![trigger rs1[i]] 0 <= i < ps1.len() implies fed_to_queue(qs1[i], ps1[i], rs1[i], qs1[i + 1]) by {
            assert(rs[i] == rs1[i]);
            assert(fed_to_queue(qs[i], ps[i], rs[i], qs[i + 1]));
        }
        assert forall|i: int| 0 <= i < rs1.len() implies (#[trigger] rs1[i]) is Ok by {
            assert(rs[i] == rs1[i]);
        }
        lemma_session_blocks_start_empty(qs1, ps1, rs1);
        assert(session_inv(qs1[n]));
        assert(fed_to_queue(qs[n], ps[n], rs[n], qs[n + 1]));
        assert(rs[n] is Ok);
        lemma_session_step_keeps_invariant(qs[n], ps[n], rs[n], qs[n + 1]);
        assert forall|i: int| 0 <= i < qs.len() implies session_inv(#[trigger] qs[i]) by {
            if i < n + 1 {
                assert(qs1[i] == qs[i]);
            }
        }
    }
}

/// Law: on a connection whose queue keeps `session_inv` and may begin a
/// block, the block handed over for that block's requests carries exactly
/// the block's transactions, in order.
pub proof fn lemma_block_carries_its_own_transactions(
    qs: Seq<QueueModel>,
    ps: Seq<Request>,
    rs: Seq<Result<Vec<Step>, SessionFault>>,
    b: RequestBeginBlock,
    ts: Seq<RequestDeliverTx>,
    e: RequestEndBlock,
)
    requires
        ps == block_requests(b, ts, e),
        is_session_run(qs, ps, rs),
        session_inv(qs[0]),
        accepts_block(qs[0].state),
        b.header is Some,
        b.last_commit_info is Some,
    ensures
        rs.last() matches Ok(steps) && deliver_block_steps(
            QueueModel { block: b, txs: ts, state: ConsensusState::DeliverBlock, packet: qs[0].packet },
            steps@,
        ),
{
    lemma_block_handed_over_once(qs, ps, rs, b, ts, e);
    assert(qs[0].txs.len() == 0);
    assert(qs[0].txs + ts =~= ts);
}

} // verus!
