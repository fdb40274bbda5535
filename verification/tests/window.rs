use async_abci::types::{
    Request, RequestCheckTx, RequestEcho, RequestEndBlock, RequestFlush, RequestValue, Response,
    ResponseCheckTx, ResponseEcho, ResponseEndBlock, ResponseValue,
};
use async_abci::window::{build_flush_resp, first_index, is_flush_reponse, ReadAction, ReorderBuffer, WindowReader};
use std::collections::BTreeMap;

fn echo(n: u32) -> Response {
    Response { value: Some(ResponseValue::Echo(ResponseEcho { message: n.to_string() })) }
}

#[test]
fn flush_response_is_recognised() {
    assert!(is_flush_reponse(&build_flush_resp()));
    assert!(!is_flush_reponse(&echo(1)));
    assert!(!is_flush_reponse(&Response { value: None }));
}

#[test]
fn first_index_is_smallest_key() {
    let mut m = BTreeMap::new();
    assert_eq!(first_index(&m), 0);
    m.insert(7usize, echo(7));
    m.insert(3usize, echo(3));
    m.insert(9usize, echo(9));
    assert_eq!(first_index(&m), 3);
}

#[test]
fn answers_written_in_order_whatever_arrival() {
    let mut b = ReorderBuffer::new();
    let mut written = Vec::new();
    written.extend(b.on_response(3, echo(3)));
    assert!(written.is_empty());
    written.extend(b.on_response(2, echo(2)));
    assert!(written.is_empty());
    written.extend(b.on_response(1, echo(1)));
    assert_eq!(written, vec![echo(1), echo(2), echo(3)]);
    written.extend(b.on_response(5, build_flush_resp()));
    assert_eq!(written.len(), 3);
    written.extend(b.on_response(4, echo(4)));
    assert_eq!(written, vec![echo(1), echo(2), echo(3), echo(4), build_flush_resp()]);
    // a new window starts numbering at 1 again
    let out = b.on_response(1, echo(10));
    assert_eq!(out, vec![echo(10)]);
}

#[test]
fn flush_alone_is_written_at_once() {
    let mut b = ReorderBuffer::new();
    assert_eq!(b.on_response(1, build_flush_resp()), vec![build_flush_resp()]);
    assert_eq!(b.on_response(1, echo(1)), vec![echo(1)]);
}

fn check_tx() -> Request {
    Request { value: Some(RequestValue::CheckTx(RequestCheckTx::default())) }
}

#[test]
fn window_numbering_keeps_end_block_for_flush() {
    let mut r = WindowReader::new();
    assert!(r.has_room());
    match r.on_request(check_tx()) {
        ReadAction::Dispatch { id, request } => {
            assert_eq!(id, 1);
            assert_eq!(request, check_tx());
        }
        other => panic!("unexpected {:?}", other),
    }
    let eb = Request { value: Some(RequestValue::EndBlock(RequestEndBlock { height: 4 })) };
    assert!(matches!(r.on_request(eb.clone()), ReadAction::Hold));
    let echo_req = Request { value: Some(RequestValue::Echo(RequestEcho { message: "m".into() })) };
    assert!(matches!(r.on_request(echo_req), ReadAction::Dispatch { id: 2, .. }));
    match r.on_request(Request { value: Some(RequestValue::Flush(RequestFlush {})) }) {
        ReadAction::Flush { end_block, flush_id } => {
            assert_eq!(end_block, Some((3, eb)));
            assert_eq!(flush_id, 4);
        }
        other => panic!("unexpected {:?}", other),
    }
    // the next window starts again at 1
    assert!(matches!(r.on_request(check_tx()), ReadAction::Dispatch { id: 1, .. }));
}

#[test]
fn window_of_only_flush() {
    let mut r = WindowReader::new();
    match r.on_request(Request { value: Some(RequestValue::Flush(RequestFlush {})) }) {
        ReadAction::Flush { end_block, flush_id } => {
            assert_eq!(end_block, None);
            assert_eq!(flush_id, 1);
        }
        other => panic!("unexpected {:?}", other),
    }
}

#[test]
fn reader_and_buffer_together_restore_order() {
    let reqs = vec![
        check_tx(),
        Request { value: Some(RequestValue::EndBlock(RequestEndBlock { height: 1 })) },
        check_tx(),
        Request { value: Some(RequestValue::Flush(RequestFlush {})) },
    ];
    let mut r = WindowReader::new();
    let mut numbered: Vec<(usize, Response)> = Vec::new();
    for q in reqs {
        match r.on_request(q) {
            ReadAction::Dispatch { id, .. } => numbered.push((id, Response {
                value: Some(ResponseValue::CheckTx(ResponseCheckTx { code: id as u32, ..Default::default() })),
            })),
            ReadAction::Hold => {}
            ReadAction::Flush { end_block, flush_id } => {
                let (eid, _) = end_block.unwrap();
                numbered.push((eid, Response { value: Some(ResponseValue::EndBlock(ResponseEndBlock::default())) }));
                numbered.push((flush_id, build_flush_resp()));
            }
        }
    }
    assert_eq!(numbered.iter().map(|x| x.0).collect::<Vec<_>>(), vec![1, 2, 3, 4]);
    let mut b = ReorderBuffer::new();
    let mut out = Vec::new();
    for (id, resp) in numbered.into_iter().rev() {
        out.extend(b.on_response(id, resp));
    }
    assert_eq!(out.len(), 4);
    assert!(matches!(&out[0].value, Some(ResponseValue::CheckTx(c)) if c.code == 1));
    assert!(matches!(&out[1].value, Some(ResponseValue::CheckTx(c)) if c.code == 2));
    assert!(matches!(&out[2].value, Some(ResponseValue::EndBlock(_))));
    assert!(is_flush_reponse(&out[3]));
}
