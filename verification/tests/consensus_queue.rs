use async_abci::error::Error;
use async_abci::state::{ConsensusQueue, ConsensusState};
use async_abci::types::{
    Header, LastCommitInfo, Request, RequestBeginBlock, RequestCommit, RequestDeliverTx,
    RequestEcho, RequestEndBlock, RequestFlush, RequestInitChain, RequestValue,
};

fn req(v: RequestValue) -> Request {
    Request { value: Some(v) }
}

fn flush() -> Request {
    req(RequestValue::Flush(RequestFlush {}))
}

fn begin_block(height: i64) -> RequestBeginBlock {
    RequestBeginBlock {
        hash: vec![1, 2, 3],
        header: Some(Header { chain_id: "test-chain".to_string(), height, ..Default::default() }),
        last_commit_info: Some(LastCommitInfo { round: 2, votes: vec![] }),
        byzantine_validators: vec![],
    }
}

fn tx(bytes: &[u8]) -> Request {
    req(RequestValue::DeliverTx(RequestDeliverTx { tx: bytes.to_vec() }))
}

fn end_block() -> Request {
    req(RequestValue::EndBlock(RequestEndBlock { height: 1 }))
}

#[test]
fn new_from_init_chain_is_fresh() {
    let q = ConsensusQueue::new(req(RequestValue::InitChain(RequestInitChain::default()))).unwrap();
    assert_eq!(q.state, ConsensusState::Begin);
    assert!(q.txs.is_empty());
    assert!(q.packet.is_none());
    assert!(q.block.header.is_none());
}

#[test]
fn new_from_begin_block_holds_block() {
    let q = ConsensusQueue::new(req(RequestValue::BeginBlock(begin_block(5)))).unwrap();
    assert_eq!(q.state, ConsensusState::Begin);
    assert_eq!(q.block, begin_block(5));
}

#[test]
fn new_refuses_other_requests() {
    let r = ConsensusQueue::new(req(RequestValue::Echo(RequestEcho { message: "x".into() })));
    assert_eq!(r.err(), Some(Error::ABCIPacketError));
    let r = ConsensusQueue::new(Request { value: None });
    assert_eq!(r.err(), Some(Error::ABCIFormatError));
}

#[test]
fn is_consensus_only_for_init_chain() {
    assert!(ConsensusQueue::is_consensus(&req(RequestValue::InitChain(RequestInitChain::default()))));
    assert!(!ConsensusQueue::is_consensus(&flush()));
    assert!(!ConsensusQueue::is_consensus(&Request { value: None }));
}

#[test]
fn init_chain_handshake_then_packet() {
    let mut q = ConsensusQueue::default();
    let init = RequestInitChain { chain_id: "c".into(), initial_height: 7, ..Default::default() };
    q.add_pkt(req(RequestValue::InitChain(init.clone()))).unwrap();
    assert_eq!(q.state, ConsensusState::ConsensusBegin);
    assert!(!q.is_sendable());
    q.add_pkt(flush()).unwrap();
    assert!(q.is_sendable());
    let p = q.to_packet().unwrap();
    assert_eq!(p, req(RequestValue::InitChain(init)));
    assert_eq!(q.to_packet().err(), Some(Error::ABCIPacketError));
    assert!(q.is_sendable());
}

#[test]
fn whole_block_cycle() {
    let mut q = ConsensusQueue::default();
    q.add_pkt(req(RequestValue::BeginBlock(begin_block(1)))).unwrap();
    assert_eq!(q.state, ConsensusState::BlockBegin);
    q.add_pkt(flush()).unwrap();
    assert!(q.is_begin_block_flush());
    q.add_pkt(tx(b"a")).unwrap();
    assert_eq!(q.state, ConsensusState::TxReceived);
    q.add_pkt(tx(b"bc")).unwrap();
    q.add_pkt(tx(b"")).unwrap();
    q.add_pkt(end_block()).unwrap();
    assert_eq!(q.state, ConsensusState::BlockEnd);
    assert!(!q.is_deliver_block());
    q.add_pkt(flush()).unwrap();
    assert!(q.is_deliver_block());
    let fb = q.to_block().unwrap();
    assert_eq!(fb.hash, vec![1, 2, 3]);
    assert_eq!(fb.header.height, 1);
    assert_eq!(fb.last_commit_info.round, 2);
    assert_eq!(fb.transactions, vec![b"a".to_vec(), b"bc".to_vec(), vec![]]);
    assert!(q.txs.is_empty());
    assert!(q.block.header.is_none());
    assert!(q.is_deliver_block());
    q.add_pkt(req(RequestValue::Commit(RequestCommit {}))).unwrap();
    assert!(q.is_commit());
    q.add_pkt(flush()).unwrap();
    assert!(q.is_commit_flush());
    // next block
    q.add_pkt(req(RequestValue::BeginBlock(begin_block(2)))).unwrap();
    assert_eq!(q.state, ConsensusState::BlockBegin);
    assert_eq!(q.block.header.as_ref().unwrap().height, 2);
}

#[test]
fn empty_block_goes_straight_to_end() {
    let mut q = ConsensusQueue::default();
    q.add_pkt(req(RequestValue::BeginBlock(begin_block(1)))).unwrap();
    q.add_pkt(flush()).unwrap();
    q.add_pkt(end_block()).unwrap();
    q.add_pkt(flush()).unwrap();
    let fb = q.to_block().unwrap();
    assert!(fb.transactions.is_empty());
}

#[test]
fn refused_packet_leaves_queue_unchanged() {
    let mut q = ConsensusQueue::default();
    q.add_pkt(req(RequestValue::BeginBlock(begin_block(1)))).unwrap();
    // DeliverTx before the first Flush of the block is refused
    assert_eq!(q.add_pkt(tx(b"x")), Err(Error::ABCIPacketError));
    assert_eq!(q.state, ConsensusState::BlockBegin);
    assert!(q.txs.is_empty());
    assert_eq!(q.add_pkt(Request { value: None }), Err(Error::ABCIFormatError));
    assert_eq!(q.state, ConsensusState::BlockBegin);
    // Commit is refused before the block was delivered
    assert_eq!(q.add_pkt(req(RequestValue::Commit(RequestCommit {}))), Err(Error::ABCIPacketError));
}

#[test]
fn to_block_outside_deliver_block_is_state_error() {
    let mut q = ConsensusQueue::default();
    assert_eq!(q.to_block().err(), Some(Error::StateError));
    assert_eq!(q.state, ConsensusState::Begin);
}

#[test]
fn second_init_chain_is_refused() {
    let mut q = ConsensusQueue::default();
    q.add_pkt(req(RequestValue::InitChain(RequestInitChain::default()))).unwrap();
    assert_eq!(
        q.add_pkt(req(RequestValue::InitChain(RequestInitChain::default()))),
        Err(Error::ABCIPacketError)
    );
}

#[test]
fn default_state_is_begin() {
    assert_eq!(ConsensusState::default(), ConsensusState::Begin);
}

#[test]
fn reachable_queues_keep_invariant_on_a_run() {
    let mut q = ConsensusQueue::default();
    let reqs = vec![
        req(RequestValue::InitChain(RequestInitChain::default())),
        flush(),
        req(RequestValue::BeginBlock(begin_block(1))),
        flush(),
        tx(b"t"),
        end_block(),
        flush(),
    ];
    for r in reqs {
        let _ = q.add_pkt(r);
        if q.state == ConsensusState::TxReceived {
            assert!(!q.txs.is_empty());
        }
        if let Some(p) = &q.packet {
            assert!(matches!(p.value, Some(RequestValue::InitChain(_))));
        }
        if q.is_sendable() {
            let p = q.to_packet().unwrap();
            assert!(matches!(p.value, Some(RequestValue::InitChain(_))));
        }
    }
    assert!(q.is_deliver_block());
    let _ = q.to_block().unwrap();
    assert!(q.txs.is_empty());
    assert!(q.packet.is_none());
}
