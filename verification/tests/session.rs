use async_abci::dispatch::{echo_response, route, route_sync, route_xx, AppCall, Route};
use async_abci::finalized::{RequestFinalizedBlock, ResponseFinalizedBlock};
use async_abci::session::{block_responses, on_packet, SessionFault, Step};
use async_abci::state::{ConsensusQueue, ConsensusState};
use async_abci::error::Error;
use async_abci::types::{
    Header, LastCommitInfo, Request, RequestBeginBlock, RequestCommit, RequestDeliverTx,
    RequestEcho, RequestEndBlock, RequestFlush, RequestInitChain, RequestSetOption, RequestValue,
    Response, ResponseDeliverTx, ResponseEndBlock, ResponseValue,
};

fn req(v: RequestValue) -> Request {
    Request { value: Some(v) }
}

fn flush() -> Request {
    req(RequestValue::Flush(RequestFlush {}))
}

fn begin_block(header: bool) -> RequestBeginBlock {
    RequestBeginBlock {
        hash: vec![9],
        header: if header { Some(Header { height: 3, ..Default::default() }) } else { None },
        last_commit_info: Some(LastCommitInfo::default()),
        byzantine_validators: vec![],
    }
}

#[test]
fn requests_before_init_chain_are_dispatched() {
    let mut s: Option<ConsensusQueue> = None;
    let e = req(RequestValue::Echo(RequestEcho { message: "hi".into() }));
    let steps = on_packet(&mut s, e.clone()).unwrap();
    assert!(s.is_none());
    assert_eq!(steps.len(), 1);
    assert!(matches!(&steps[0], Step::Dispatch(r) if *r == e));
}

#[test]
fn consensus_session_full_cycle() {
    let mut s: Option<ConsensusQueue> = None;
    let init = req(RequestValue::InitChain(RequestInitChain { chain_id: "x".into(), ..Default::default() }));
    assert!(on_packet(&mut s, init.clone()).unwrap().is_empty());
    assert_eq!(s.as_ref().unwrap().state, ConsensusState::ConsensusBegin);
    let steps = on_packet(&mut s, flush()).unwrap();
    assert_eq!(steps.len(), 2);
    assert!(matches!(&steps[0], Step::Dispatch(r) if *r == init));
    assert!(matches!(steps[1], Step::Flush));

    assert!(on_packet(&mut s, req(RequestValue::BeginBlock(begin_block(true)))).unwrap().is_empty());
    let steps = on_packet(&mut s, flush()).unwrap();
    assert!(matches!(&steps[0], Step::Send(Response { value: Some(ResponseValue::BeginBlock(_)) })));
    assert!(matches!(steps[1], Step::Flush));
    for t in [b"a".to_vec(), b"b".to_vec()] {
        assert!(on_packet(&mut s, req(RequestValue::DeliverTx(RequestDeliverTx { tx: t }))).unwrap().is_empty());
    }
    assert!(on_packet(&mut s, req(RequestValue::EndBlock(RequestEndBlock { height: 3 }))).unwrap().is_empty());
    let steps = on_packet(&mut s, flush()).unwrap();
    match &steps[0] {
        Step::Finalize(fb) => {
            assert_eq!(fb.transactions, vec![b"a".to_vec(), b"b".to_vec()]);
            assert_eq!(fb.header.height, 3);
            assert_eq!(fb.hash, vec![9]);
        }
        other => panic!("unexpected {:?}", other),
    }
    assert!(matches!(steps[1], Step::Flush));
    assert!(on_packet(&mut s, req(RequestValue::Commit(RequestCommit {}))).unwrap().is_empty());
    let steps = on_packet(&mut s, flush()).unwrap();
    assert!(matches!(&steps[0], Step::Dispatch(Request { value: Some(RequestValue::Commit(_)) })));
    assert!(matches!(steps[1], Step::Flush));
}

#[test]
fn session_faults() {
    let mut s: Option<ConsensusQueue> = None;
    on_packet(&mut s, req(RequestValue::InitChain(RequestInitChain::default()))).unwrap();
    assert_eq!(on_packet(&mut s, req(RequestValue::Commit(RequestCommit {}))).err(), Some(SessionFault::Transition(Error::ABCIPacketError)));
    assert_eq!(on_packet(&mut s, Request { value: None }).err(), Some(SessionFault::Transition(Error::ABCIFormatError)));

    let mut s = Some(ConsensusQueue::default());
    on_packet(&mut s, req(RequestValue::BeginBlock(begin_block(false)))).unwrap();
    on_packet(&mut s, flush()).unwrap();
    on_packet(&mut s, req(RequestValue::EndBlock(RequestEndBlock::default()))).unwrap();
    assert_eq!(on_packet(&mut s, flush()).err(), Some(SessionFault::IncompleteBlock));

    let mut q = ConsensusQueue::default();
    q.state = ConsensusState::ConsensusBegin;
    let mut s = Some(q);
    assert_eq!(on_packet(&mut s, flush()).err(), Some(SessionFault::NoPacket(Error::ABCIPacketError)));
}

#[test]
fn block_responses_pad_missing_receipts() {
    let res = ResponseFinalizedBlock {
        tx_receipt: vec![ResponseDeliverTx { code: 5, ..Default::default() }],
        end_recepit: ResponseEndBlock { events: vec![], ..Default::default() },
    };
    let out = block_responses(3, res);
    assert_eq!(out.len(), 4);
    assert!(matches!(&out[0].value, Some(ResponseValue::DeliverTx(d)) if d.code == 5));
    assert!(matches!(&out[1].value, Some(ResponseValue::DeliverTx(d)) if *d == ResponseDeliverTx::default()));
    assert!(matches!(&out[2].value, Some(ResponseValue::DeliverTx(d)) if *d == ResponseDeliverTx::default()));
    assert!(matches!(&out[3].value, Some(ResponseValue::EndBlock(_))));
}

#[test]
fn finalized_block_new_collects_tx_bytes() {
    let fb = RequestFinalizedBlock::new(
        begin_block(true),
        vec![RequestDeliverTx { tx: vec![1] }, RequestDeliverTx { tx: vec![2, 3] }],
    );
    assert_eq!(fb.transactions, vec![vec![1], vec![2, 3]]);
    assert_eq!(fb.header.height, 3);
}

#[test]
fn routing() {
    assert!(matches!(route(RequestValue::Flush(RequestFlush {})), Route::Reply(ResponseValue::Flush(_))));
    assert!(matches!(route(RequestValue::SetOption(RequestSetOption::default())), Route::Reply(ResponseValue::SetOption(_))));
    assert!(matches!(route(RequestValue::DeliverTx(RequestDeliverTx::default())), Route::Call(AppCall::DeliverTx(_))));
    assert!(matches!(route(RequestValue::Commit(RequestCommit {})), Route::Call(AppCall::Commit)));
    assert!(matches!(route_xx(RequestValue::DeliverTx(RequestDeliverTx::default())), Route::Reply(ResponseValue::DeliverTx(_))));
    assert!(matches!(route_xx(RequestValue::BeginBlock(begin_block(true))), Route::Reply(ResponseValue::BeginBlock(_))));
    assert!(matches!(route_xx(RequestValue::EndBlock(RequestEndBlock::default())), Route::Reply(ResponseValue::EndBlock(e)) if e == ResponseEndBlock::default()));
    assert!(matches!(route_xx(RequestValue::Commit(RequestCommit {})), Route::Call(AppCall::Commit)));
    assert!(matches!(route_sync(RequestValue::Flush(RequestFlush {})), Route::Call(AppCall::Flush)));
    match route(RequestValue::Echo(RequestEcho { message: "abc".into() })) {
        Route::Call(AppCall::Echo(e)) => assert_eq!(echo_response(e).message, "abc"),
        other => panic!("unexpected {:?}", other),
    }
}
