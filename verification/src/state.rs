//! The consensus connection as a state machine.
//!
//! The consensus engine sends, per block, `BeginBlock`, `Flush`, the
//! block's `DeliverTx` requests, `EndBlock`, `Flush`, then `Commit`,
//! `Flush`. A chain starts with `InitChain` and `Flush`. `ConsensusQueue`
//! follows that conversation, gathers a block's transactions and hands out
//! the whole block once its second `Flush` has arrived.

use vstd::prelude::*;

use crate::error::Error;
use crate::finalized::{finalized_block_of, RequestFinalizedBlock};
use crate::types::{
    is_empty_begin_block, Request, RequestBeginBlock, RequestCommit, RequestDeliverTx,
    RequestEndBlock, RequestFlush, RequestInitChain, RequestValue,
};

verus! {

/// Where the consensus connection stands.
#[derive(Debug, Clone, Copy, PartialEq, Eq, Structural)]
pub enum ConsensusState {
    Begin,
    ConsensusBegin,
    ConsensusBeginFlush,
    BlockBegin,
    BlockBeginFlush,
    TxReceived,
    BlockEnd,
    DeliverBlock,
    BlockCommit,
    BlockCommitFlush,
}

impl Default for ConsensusState {
    fn default() -> (s: Self)
        ensures
            s == ConsensusState::Begin,
    {
        ConsensusState::Begin
    }
}

/// The state of a consensus connection: the block being gathered, its
/// transactions so far, the state, and an `InitChain` request waiting to
/// be answered.
pub struct ConsensusQueue {
    pub block: RequestBeginBlock,
    pub txs: Vec<RequestDeliverTx>,
    pub state: ConsensusState,
    pub packet: Option<Request>,
}

/// The mathematical value of a `ConsensusQueue`.
pub struct QueueModel {
    pub block: RequestBeginBlock,
    pub txs: Seq<RequestDeliverTx>,
    pub state: ConsensusState,
    pub packet: Option<Request>,
}

impl View for ConsensusQueue {
    type V = QueueModel;

    open spec fn view(&self) -> QueueModel {
        QueueModel { block: self.block, txs: self.txs@, state: self.state, packet: self.packet }
    }
}

/// A queue in its initial state: empty block, no transactions, `Begin`,
/// no waiting packet.
pub open spec fn is_fresh(q: QueueModel) -> bool {
    &&& is_empty_begin_block(q.block)
    &&& q.txs.len() == 0
    &&& q.state == ConsensusState::Begin
    &&& q.packet is None
}

/// The state machine: the queue after accepting a request value, or
/// `None` where the value is not accepted in the current state.
pub open spec fn transition(q: QueueModel, v: RequestValue) -> Option<QueueModel> {
    match (q.state, v) {
        (ConsensusState::Begin, RequestValue::InitChain(p)) => Some(
            QueueModel {
                packet: Some(Request { value: Some(RequestValue::InitChain(p)) }),
                state: ConsensusState::ConsensusBegin,
                ..q
            },
        ),
        (ConsensusState::ConsensusBegin, RequestValue::Flush(_)) => Some(
            QueueModel { state: ConsensusState::ConsensusBeginFlush, ..q },
        ),
        (ConsensusState::ConsensusBeginFlush, RequestValue::BeginBlock(p)) => Some(
            QueueModel { block: p, state: ConsensusState::BlockBegin, ..q },
        ),
        (ConsensusState::Begin, RequestValue::BeginBlock(p)) => Some(
            QueueModel { block: p, state: ConsensusState::BlockBegin, ..q },
        ),
        (ConsensusState::BlockBegin, RequestValue::Flush(_)) => Some(
            QueueModel { state: ConsensusState::BlockBeginFlush, ..q },
        ),
        (ConsensusState::BlockBeginFlush, RequestValue::DeliverTx(p)) => Some(
            QueueModel { txs: q.txs.push(p), state: ConsensusState::TxReceived, ..q },
        ),
        (ConsensusState::TxReceived, RequestValue::DeliverTx(p)) => Some(
            QueueModel { txs: q.txs.push(p), ..q },
        ),
        (ConsensusState::TxReceived, RequestValue::EndBlock(_)) => Some(
            QueueModel { state: ConsensusState::BlockEnd, ..q },
        ),
        (ConsensusState::BlockBeginFlush, RequestValue::EndBlock(_)) => Some(
            QueueModel { state: ConsensusState::BlockEnd, ..q },
        ),
        (ConsensusState::BlockEnd, RequestValue::Flush(_)) => Some(
            QueueModel { state: ConsensusState::DeliverBlock, ..q },
        ),
        (ConsensusState::DeliverBlock, RequestValue::Commit(_)) => Some(
            QueueModel { state: ConsensusState::BlockCommit, ..q },
        ),
        (ConsensusState::BlockCommit, RequestValue::Flush(_)) => Some(
            QueueModel { state: ConsensusState::BlockCommitFlush, ..q },
        ),
        (ConsensusState::BlockCommitFlush, RequestValue::BeginBlock(p)) => Some(
            QueueModel { block: p, state: ConsensusState::BlockBegin, ..q },
        ),
        _ => None,
    }
}

/// A queue as `default` or `new` makes it: state `Begin`, no transactions,
/// no waiting packet.
pub open spec fn is_initial(q: QueueModel) -> bool {
    &&& q.state == ConsensusState::Begin
    &&& q.txs.len() == 0
    &&& q.packet is None
}

/// What every queue reachable from an initial one keeps: in `TxReceived`
/// it holds at least one transaction, and a waiting packet is an
/// `InitChain` request.
pub open spec fn queue_inv(q: QueueModel) -> bool {
    &&& q.state == ConsensusState::TxReceived ==> q.txs.len() >= 1
    &&& q.packet matches Some(p) ==> (p.value matches Some(RequestValue::InitChain(_)))
}

/// The operations that change a queue.
pub enum QueueOp {
    /// `add_pkt` of a request with this value.
    Add(Option<RequestValue>),
    /// `to_block`.
    TakeBlock,
    /// `to_packet`.
    TakePacket,
}

/// `q2` is what an operation may leave of `q`.
pub open spec fn op_step(q: QueueModel, op: QueueOp, q2: QueueModel) -> bool {
    match op {
        QueueOp::Add(None) => q2 == q,
        QueueOp::Add(Some(v)) => match transition(q, v) {
            Some(q1) => q2 == q1,
            None => q2 == q,
        },
        QueueOp::TakeBlock => if q.state == ConsensusState::DeliverBlock {
            &&& is_empty_begin_block(q2.block)
            &&& q2.txs.len() == 0
            &&& q2.state == q.state
            &&& q2.packet == q.packet
        } else {
            q2 == q
        },
        QueueOp::TakePacket => q2 == (QueueModel { packet: None, ..q }),
    }
}

/// What `ConsensusQueue::new` returns for a request.
pub open spec fn new_queue_result(pkt: Request, r: Result<ConsensusQueue, Error>) -> bool {
    match pkt.value {
        None => r == Err::<ConsensusQueue, Error>(Error::ABCIFormatError),
        Some(RequestValue::InitChain(_)) => r is Ok && is_fresh(r->Ok_0@),
        Some(RequestValue::BeginBlock(b)) => r is Ok && r->Ok_0@ == QueueModel {
            block: b,
            txs: Seq::empty(),
            state: ConsensusState::Begin,
            packet: None,
        },
        Some(_) => r == Err::<ConsensusQueue, Error>(Error::ABCIPacketError),
    }
}

impl Default for ConsensusQueue {
    fn default() -> (q: Self)
        ensures
            is_fresh(q@),
            is_initial(q@),
    {
        ConsensusQueue {
            block: RequestBeginBlock::default(),
            txs: Vec::new(),
            state: ConsensusState::Begin,
            packet: None,
        }
    }
}

impl ConsensusQueue {
    /// Starts a queue from the first consensus request: `InitChain` gives a
    /// fresh queue, `BeginBlock` a queue holding that block in state
    /// `Begin`; any other request is refused.
    pub fn new(pkt: Request) -> (r: Result<Self, Error>)
        ensures
            new_queue_result(pkt, r),
            r matches Ok(q) ==> is_initial(q@),
    {
        match pkt.value {
            None => Err(Error::ABCIFormatError),
            Some(RequestValue::InitChain(_)) => Ok(ConsensusQueue::default()),
            Some(RequestValue::BeginBlock(block)) => {
                let cq = ConsensusQueue {
                    block,
                    txs: Vec::new(),
                    state: ConsensusState::Begin,
                    packet: None,
                };
                Ok(cq)
            },
            Some(_) => Err(Error::ABCIPacketError),
        }
    }

    /// Whether a request opens the consensus connection (`InitChain`).
    pub fn is_consensus(pkt: &Request) -> (b: bool)
        ensures
            b == (pkt.value matches Some(RequestValue::InitChain(_))),
    {
        matches!(pkt.value, Some(RequestValue::InitChain(_)))
    }

    /// Whether a whole block is ready to be taken.
    pub fn is_deliver_block(&self) -> (b: bool)
        ensures
            b == (self.state == ConsensusState::DeliverBlock),
    {
        matches!(self.state, ConsensusState::DeliverBlock)
    }

    /// Whether the `InitChain` request may now be answered.
    pub fn is_sendable(&self) -> (b: bool)
        ensures
            b == (self.state == ConsensusState::ConsensusBeginFlush),
    {
        matches!(self.state, ConsensusState::ConsensusBeginFlush)
    }

    /// Whether the `BeginBlock` request may now be answered.
    pub fn is_begin_block_flush(&self) -> (b: bool)
        ensures
            b == (self.state == ConsensusState::BlockBeginFlush),
    {
        matches!(self.state, ConsensusState::BlockBeginFlush)
    }

    /// Whether a `Commit` has arrived and waits for its `Flush`.
    pub fn is_commit(&self) -> (b: bool)
        ensures
            b == (self.state == ConsensusState::BlockCommit),
    {
        matches!(self.state, ConsensusState::BlockCommit)
    }

    /// Whether the `Commit` request may now be answered.
    pub fn is_commit_flush(&self) -> (b: bool)
        ensures
            b == (self.state == ConsensusState::BlockCommitFlush),
    {
        matches!(self.state, ConsensusState::BlockCommitFlush)
    }

    /// Feeds one request to the state machine. A request without a value
    /// is refused with `ABCIFormatError`, one that the current state does
    /// not accept with `ABCIPacketError`; a refused request leaves the
    /// queue as it was.
    pub fn add_pkt(&mut self, pkt: Request) -> (r: Result<(), Error>)
        ensures
            match pkt.value {
                None => r == Err::<(), Error>(Error::ABCIFormatError) && final(self)@ == old(self)@,
                Some(v) => match transition(old(self)@, v) {
                    Some(q) => r == Ok::<(), Error>(()) && final(self)@ == q,
                    None => r == Err::<(), Error>(Error::ABCIPacketError) && final(self)@ == old(self)@,
                },
            },
    {
        let v = match pkt.value {
            None => return Err(Error::ABCIFormatError),
            Some(v) => v,
        };
        match (self.state, v) {
            (ConsensusState::Begin, RequestValue::InitChain(p)) => {
                self.packet = Some(Request { value: Some(RequestValue::InitChain(p)) });
                self.state = ConsensusState::ConsensusBegin;
            },
            (ConsensusState::ConsensusBegin, RequestValue::Flush(_)) => {
                self.state = ConsensusState::ConsensusBeginFlush;
            },
            (ConsensusState::ConsensusBeginFlush, RequestValue::BeginBlock(p)) => {
                self.block = p;
                self.state = ConsensusState::BlockBegin;
            },
            (ConsensusState::Begin, RequestValue::BeginBlock(p)) => {
                self.block = p;
                self.state = ConsensusState::BlockBegin;
            },
            (ConsensusState::BlockBegin, RequestValue::Flush(_)) => {
                self.state = ConsensusState::BlockBeginFlush;
            },
            (ConsensusState::BlockBeginFlush, RequestValue::DeliverTx(p)) => {
                self.txs.push(p);
                self.state = ConsensusState::TxReceived;
            },
            (ConsensusState::TxReceived, RequestValue::DeliverTx(p)) => {
                self.txs.push(p);
            },
            (ConsensusState::TxReceived, RequestValue::EndBlock(_)) => {
                self.state = ConsensusState::BlockEnd;
            },
            (ConsensusState::BlockBeginFlush, RequestValue::EndBlock(_)) => {
                self.state = ConsensusState::BlockEnd;
            },
            (ConsensusState::BlockEnd, RequestValue::Flush(_)) => {
                self.state = ConsensusState::DeliverBlock;
            },
            (ConsensusState::DeliverBlock, RequestValue::Commit(_)) => {
                self.state = ConsensusState::BlockCommit;
            },
            (ConsensusState::BlockCommit, RequestValue::Flush(_)) => {
                self.state = ConsensusState::BlockCommitFlush;
            },
            (ConsensusState::BlockCommitFlush, RequestValue::BeginBlock(p)) => {
                self.block = p;
                self.state = ConsensusState::BlockBegin;
            },
            _ => return Err(Error::ABCIPacketError),
        }
        Ok(())
    }

    /// Takes the gathered block out of a queue in `DeliverBlock`, leaving
    /// an empty block and no transactions behind (the state stays
    /// `DeliverBlock`). In any other state the queue is left as it was and
    /// `StateError` is returned.
    pub fn to_block(&mut self) -> (r: Result<RequestFinalizedBlock, Error>)
        requires
            old(self).state == ConsensusState::DeliverBlock ==> {
                &&& old(self).block.header is Some
                &&& old(self).block.last_commit_info is Some
            },
        ensures
            old(self).state == ConsensusState::DeliverBlock ==> {
                &&& r is Ok
                &&& finalized_block_of(old(self).block, old(self).txs@, r->Ok_0)
                &&& is_empty_begin_block(final(self).block)
                &&& final(self).txs@.len() == 0
                &&& final(self).state == old(self).state
                &&& final(self).packet == old(self).packet
            },
            old(self).state != ConsensusState::DeliverBlock ==> {
                &&& r is Err
                &&& r->Err_0 == Error::StateError
                &&& final(self)@ == old(self)@
            },
        op_step(old(self)@, QueueOp::TakeBlock, final(self)@),
    {
        if let ConsensusState::DeliverBlock = self.state {
            let mut block = RequestBeginBlock::default();
            std::mem::swap(&mut block, &mut self.block);
            let mut txs: Vec<RequestDeliverTx> = Vec::new();
            std::mem::swap(&mut txs, &mut self.txs);
            Ok(RequestFinalizedBlock::new(block, txs))
        } else {
            Err(Error::StateError)
        }
    }

    /// Takes the waiting `InitChain` request, leaving none behind;
    /// `ABCIPacketError` if there is none.
    pub fn to_packet(&mut self) -> (r: Result<Request, Error>)
        ensures
            match old(self).packet {
                Some(p) => r == Ok::<Request, Error>(p),
                None => r == Err::<Request, Error>(Error::ABCIPacketError),
            },
            final(self)@ == (QueueModel { packet: None, ..old(self)@ }),
            op_step(old(self)@, QueueOp::TakePacket, final(self)@),
    {
        let mut request: Option<Request> = None;
        std::mem::swap(&mut request, &mut self.packet);
        match request {
            Some(p) => Ok(p),
            None => Err(Error::ABCIPacketError),
        }
    }
}


/// The queue after accepting each value of a sequence in turn, or `None`
/// if one of them is refused.
pub open spec fn feed(q: QueueModel, vs: Seq<RequestValue>) -> Option<QueueModel>
    decreases vs.len(),
{
    if vs.len() == 0 {
        Some(q)
    } else {
        match transition(q, vs[0]) {
            Some(q2) => feed(q2, vs.drop_first()),
            None => None,
        }
    }
}

/// The `DeliverTx` values of a sequence of transactions.
pub open spec fn deliver_txs(ts: Seq<RequestDeliverTx>) -> Seq<RequestValue> {
    ts.map_values(|t: RequestDeliverTx| RequestValue::DeliverTx(t))
}

/// The values the consensus engine sends for one block: `BeginBlock`,
/// `Flush`, the transactions, `EndBlock`, `Flush`.
pub open spec fn block_packets(
    b: RequestBeginBlock,
    ts: Seq<RequestDeliverTx>,
    e: RequestEndBlock,
) -> Seq<RequestValue> {
    seq![RequestValue::BeginBlock(b), RequestValue::Flush(RequestFlush {})] + deliver_txs(ts)
        + seq![RequestValue::EndBlock(e), RequestValue::Flush(RequestFlush {})]
}

/// The states from which a new block may begin.
pub open spec fn accepts_block(s: ConsensusState) -> bool {
    ||| s == ConsensusState::Begin
    ||| s == ConsensusState::ConsensusBeginFlush
    ||| s == ConsensusState::BlockCommitFlush
}

/// Feeding a concatenation is feeding one part after the other.
pub proof fn lemma_feed_append(q: QueueModel, a: Seq<RequestValue>, b: Seq<RequestValue>)
    ensures
        feed(q, a + b) == match feed(q, a) {
            Some(q2) => feed(q2, b),
            None => None,
        },
    decreases a.len(),
{
    if a.len() == 0 {
        assert(a + b == b);
    } else {
        assert((a + b).drop_first() == a.drop_first() + b);
        assert((a + b)[0] == a[0]);
        match transition(q, a[0]) {
            Some(q2) => lemma_feed_append(q2, a.drop_first(), b),
            None => {},
        }
    }
}

/// Once a block has begun and its first `Flush` arrived, its transactions
/// are appended in order.
proof fn lemma_feed_txs(q: QueueModel, ts: Seq<RequestDeliverTx>)
    requires
        q.state == ConsensusState::BlockBeginFlush || q.state == ConsensusState::TxReceived,
    ensures
        feed(q, deliver_txs(ts)) == Some(
            QueueModel {
                txs: q.txs + ts,
                state: if ts.len() == 0 { q.state } else { ConsensusState::TxReceived },
                ..q
            },
        ),
    decreases ts.len(),
{
    if ts.len() == 0 {
        assert(q.txs + ts == q.txs);
    } else {
        let q2 = QueueModel { txs: q.txs.push(ts[0]), state: ConsensusState::TxReceived, ..q };
        assert(deliver_txs(ts)[0] == RequestValue::DeliverTx(ts[0]));
        assert(deliver_txs(ts).drop_first() == deliver_txs(ts.drop_first()));
        lemma_feed_txs(q2, ts.drop_first());
        assert(q2.txs + ts.drop_first() == q.txs + ts);
    }
}

/// Law: from a state in which a block may begin, the packets of one block
/// are all accepted, and leave the queue in `DeliverBlock` holding that
/// block, with the block's transactions appended in the order they came.
pub proof fn lemma_block_assembly(
    q: QueueModel,
    b: RequestBeginBlock,
    ts: Seq<RequestDeliverTx>,
    e: RequestEndBlock,
)
    requires
        accepts_block(q.state),
    ensures
        feed(q, block_packets(b, ts, e)) == Some(
            QueueModel { block: b, txs: q.txs + ts, state: ConsensusState::DeliverBlock, packet: q.packet },
        ),
{
    let head = seq![RequestValue::BeginBlock(b), RequestValue::Flush(RequestFlush {})];
    let tail = seq![RequestValue::EndBlock(e), RequestValue::Flush(RequestFlush {})];
    let q1 = QueueModel { block: b, state: ConsensusState::BlockBeginFlush, ..q };
    assert(feed(q, head) == Some(q1)) by {
        reveal_with_fuel(feed, 3);
        let qa = QueueModel { block: b, state: ConsensusState::BlockBegin, ..q };
        assert(transition(q, head[0]) == Some(qa));
        assert(transition(qa, head[1]) == Some(q1));
        assert(head.drop_first().drop_first().len() == 0);
    }
    lemma_feed_txs(q1, ts);
    let q2 = QueueModel {
        txs: q1.txs + ts,
        state: if ts.len() == 0 { q1.state } else { ConsensusState::TxReceived },
        ..q1
    };
    let q3 = QueueModel { state: ConsensusState::DeliverBlock, ..q2 };
    assert(feed(q2, tail) == Some(q3)) by {
        reveal_with_fuel(feed, 3);
        let qb = QueueModel { state: ConsensusState::BlockEnd, ..q2 };
        assert(transition(q2, tail[0]) == Some(qb));
        assert(transition(qb, tail[1]) == Some(q3));
        assert(tail.drop_first().drop_first().len() == 0);
    }
    lemma_feed_append(q, head, deliver_txs(ts));
    lemma_feed_append(q, head + deliver_txs(ts), tail);
    lemma_feed_append(q1, deliver_txs(ts), tail);
}

/// Law: after a block has been delivered, `Commit` and `Flush` are
/// accepted and leave the queue ready for the next block, all else kept.
pub proof fn lemma_commit_cycle(q: QueueModel, c: RequestCommit)
    requires
        q.state == ConsensusState::DeliverBlock,
    ensures
        feed(q, seq![RequestValue::Commit(c), RequestValue::Flush(RequestFlush {})]) == Some(
            QueueModel { state: ConsensusState::BlockCommitFlush, ..q },
        ),
        accepts_block(ConsensusState::BlockCommitFlush),
{
    reveal_with_fuel(feed, 3);
    let vs = seq![RequestValue::Commit(c), RequestValue::Flush(RequestFlush {})];
    let qa = QueueModel { state: ConsensusState::BlockCommit, ..q };
    assert(transition(q, vs[0]) == Some(qa));
    assert(vs.drop_first()[0] == vs[1]);
    assert(vs.drop_first().drop_first().len() == 0);
}

/// Law: a queue in `Begin` that receives `InitChain` and `Flush` is ready
/// to answer, and holds exactly that `InitChain` request to be taken.
pub proof fn lemma_init_chain_handshake(q: QueueModel, p: RequestInitChain)
    requires
        q.state == ConsensusState::Begin,
    ensures
        feed(q, seq![RequestValue::InitChain(p), RequestValue::Flush(RequestFlush {})]) == Some(
            QueueModel {
                state: ConsensusState::ConsensusBeginFlush,
                packet: Some(Request { value: Some(RequestValue::InitChain(p)) }),
                ..q
            },
        ),
        accepts_block(ConsensusState::ConsensusBeginFlush),
{
    reveal_with_fuel(feed, 3);
    let vs = seq![RequestValue::InitChain(p), RequestValue::Flush(RequestFlush {})];
    let qa = QueueModel {
        state: ConsensusState::ConsensusBegin,
        packet: Some(Request { value: Some(RequestValue::InitChain(p)) }),
        ..q
    };
    assert(transition(q, vs[0]) == Some(qa));
    assert(vs.drop_first()[0] == vs[1]);
    assert(vs.drop_first().drop_first().len() == 0);
}


/// Every operation keeps `queue_inv`.
pub proof fn lemma_op_keeps_invariant(q: QueueModel, op: QueueOp, q2: QueueModel)
    requires
        queue_inv(q),
        op_step(q, op, q2),
    ensures
        queue_inv(q2),
{
}

/// Law: every queue reachable from one made by `default` or `new`
/// through `add_pkt`, `to_block` and `to_packet` holds at least one
/// transaction in `TxReceived`, and its waiting packet, if any, is an
/// `InitChain` request.
pub proof fn lemma_reachable_queues_keep_invariant(qs: Seq<QueueModel>, ops: Seq<QueueOp>)
    requires
        qs.len() == ops.len() + 1,
        is_initial(qs[0]),
        forall|i: int| 0 <= i < ops.len() ==> op_step(qs[i], #[trigger] ops[i], qs[i + 1]),
    ensures
        forall|i: int| 0 <= i < qs.len() ==> queue_inv(#[trigger] qs[i]),
    decreases ops.len(),
{
    if ops.len() > 0 {
        let n = ops.len() - 1;
        lemma_reachable_queues_keep_invariant(qs.take(n + 1), ops.take(n));
        assert(queue_inv(qs.take(n + 1)[n]));
        assert(op_step(qs[n], ops[n], qs[n + 1]));
        lemma_op_keeps_invariant(qs[n], ops[n], qs[n + 1]);
        assert forall|i: int| 0 <= i < qs.len() implies queue_inv(#[trigger] qs[i]) by {
            if i < n + 1 {
                assert(qs.take(n + 1)[i] == qs[i]);
            }
        }
    }
}

} // verus!
