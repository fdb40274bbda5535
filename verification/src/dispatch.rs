//! Which application handler answers which request.
//!
//! An application answers requests through its handlers (`echo`, `info`,
//! `check_tx`, ...). Some requests are answered without the application:
//! `Flush` by the server itself, `SetOption` with an empty answer, and, for
//! an application that takes whole blocks, `BeginBlock`, `DeliverTx` and
//! `EndBlock` with empty answers (their content reaches it as a finalized
//! block instead).

use vstd::prelude::*;

use crate::types::{
    is_empty_begin_block_response, is_empty_deliver_tx_response, is_empty_end_block_response,
    is_empty_set_option_response, RequestApplySnapshotChunk, RequestBeginBlock, RequestCheckTx,
    RequestCommit, RequestDeliverTx, RequestEcho, RequestEndBlock, RequestFlush, RequestInfo,
    RequestInitChain, RequestListSnapshots, RequestLoadSnapshotChunk, RequestOfferSnapshot, RequestQuery, RequestValue, ResponseBeginBlock,
    ResponseDeliverTx, ResponseEcho, ResponseEndBlock, ResponseFlush, ResponseSetOption,
    ResponseValue,
};

verus! {

/// A call of one application handler, with its argument.
#[derive(Debug)]
pub enum AppCall {
    Echo(RequestEcho),
    Flush,
    Info(RequestInfo),
    InitChain(RequestInitChain),
    Query(RequestQuery),
    BeginBlock(RequestBeginBlock),
    CheckTx(RequestCheckTx),
    DeliverTx(RequestDeliverTx),
    EndBlock(RequestEndBlock),
    Commit,
    ListSnapshots,
    OfferSnapshot(RequestOfferSnapshot),
    LoadSnapshotChunk(RequestLoadSnapshotChunk),
    ApplySnapshotChunk(RequestApplySnapshotChunk),
}

/// How a request is answered: directly, or by calling a handler whose
/// result is the answer.
#[derive(Debug)]
pub enum Route {
    Reply(ResponseValue),
    Call(AppCall),
}

/// The handler that answers a request of the same method, with the
/// request's argument (`Flush` and `SetOption` have no handler).
pub open spec fn handler_call(v: RequestValue) -> Option<AppCall> {
    match v {
        RequestValue::Echo(r) => Some(AppCall::Echo(r)),
        RequestValue::Flush(_) => Some(AppCall::Flush),
        RequestValue::Info(r) => Some(AppCall::Info(r)),
        RequestValue::SetOption(_) => None,
        RequestValue::InitChain(r) => Some(AppCall::InitChain(r)),
        RequestValue::Query(r) => Some(AppCall::Query(r)),
        RequestValue::BeginBlock(r) => Some(AppCall::BeginBlock(r)),
        RequestValue::CheckTx(r) => Some(AppCall::CheckTx(r)),
        RequestValue::DeliverTx(r) => Some(AppCall::DeliverTx(r)),
        RequestValue::EndBlock(r) => Some(AppCall::EndBlock(r)),
        RequestValue::Commit(_) => Some(AppCall::Commit),
        RequestValue::ListSnapshots(_) => Some(AppCall::ListSnapshots),
        RequestValue::OfferSnapshot(r) => Some(AppCall::OfferSnapshot(r)),
        RequestValue::LoadSnapshotChunk(r) => Some(AppCall::LoadSnapshotChunk(r)),
        RequestValue::ApplySnapshotChunk(r) => Some(AppCall::ApplySnapshotChunk(r)),
    }
}

/// The request a handler call answers: the request of the handler's own
/// method, carrying the call's argument.
pub open spec fn request_of_call(c: AppCall) -> RequestValue {
    match c {
        AppCall::Echo(r) => RequestValue::Echo(r),
        AppCall::Flush => RequestValue::Flush(RequestFlush {}),
        AppCall::Info(r) => RequestValue::Info(r),
        AppCall::InitChain(r) => RequestValue::InitChain(r),
        AppCall::Query(r) => RequestValue::Query(r),
        AppCall::BeginBlock(r) => RequestValue::BeginBlock(r),
        AppCall::CheckTx(r) => RequestValue::CheckTx(r),
        AppCall::DeliverTx(r) => RequestValue::DeliverTx(r),
        AppCall::EndBlock(r) => RequestValue::EndBlock(r),
        AppCall::Commit => RequestValue::Commit(RequestCommit {}),
        AppCall::ListSnapshots => RequestValue::ListSnapshots(RequestListSnapshots {}),
        AppCall::OfferSnapshot(r) => RequestValue::OfferSnapshot(r),
        AppCall::LoadSnapshotChunk(r) => RequestValue::LoadSnapshotChunk(r),
        AppCall::ApplySnapshotChunk(r) => RequestValue::ApplySnapshotChunk(r),
    }
}

/// A response value answers a request value of the same method.
pub open spec fn answers(v: RequestValue, resp: ResponseValue) -> bool {
    match (v, resp) {
        (RequestValue::Echo(_), ResponseValue::Echo(_)) => true,
        (RequestValue::Flush(_), ResponseValue::Flush(_)) => true,
        (RequestValue::Info(_), ResponseValue::Info(_)) => true,
        (RequestValue::SetOption(_), ResponseValue::SetOption(_)) => true,
        (RequestValue::InitChain(_), ResponseValue::InitChain(_)) => true,
        (RequestValue::Query(_), ResponseValue::Query(_)) => true,
        (RequestValue::BeginBlock(_), ResponseValue::BeginBlock(_)) => true,
        (RequestValue::CheckTx(_), ResponseValue::CheckTx(_)) => true,
        (RequestValue::DeliverTx(_), ResponseValue::DeliverTx(_)) => true,
        (RequestValue::EndBlock(_), ResponseValue::EndBlock(_)) => true,
        (RequestValue::Commit(_), ResponseValue::Commit(_)) => true,
        (RequestValue::ListSnapshots(_), ResponseValue::ListSnapshots(_)) => true,
        (RequestValue::OfferSnapshot(_), ResponseValue::OfferSnapshot(_)) => true,
        (RequestValue::LoadSnapshotChunk(_), ResponseValue::LoadSnapshotChunk(_)) => true,
        (RequestValue::ApplySnapshotChunk(_), ResponseValue::ApplySnapshotChunk(_)) => true,
        _ => false,
    }
}

/// A direct answer carries nothing but the method: an empty `Flush`,
/// `SetOption`, `BeginBlock`, `DeliverTx` or `EndBlock` answer.
pub open spec fn is_empty_answer(resp: ResponseValue) -> bool {
    match resp {
        ResponseValue::Flush(_) => true,
        ResponseValue::SetOption(r) => is_empty_set_option_response(r),
        ResponseValue::BeginBlock(r) => is_empty_begin_block_response(r),
        ResponseValue::DeliverTx(r) => is_empty_deliver_tx_response(r),
        ResponseValue::EndBlock(r) => is_empty_end_block_response(r),
        _ => false,
    }
}

/// The routing of an application that answers every method itself
/// (`Application`): `Flush` and `SetOption` are answered directly, every
/// other request by its handler.
pub open spec fn routed(v: RequestValue, r: Route) -> bool {
    match v {
        RequestValue::Flush(_) | RequestValue::SetOption(_) => r matches Route::Reply(resp) && answers(v, resp) && is_empty_answer(resp),
        _ => r == Route::Call(handler_call(v)->Some_0),
    }
}

/// The routing of an application that takes whole blocks
/// (`ApplicationXX`): as `routed`, except that `BeginBlock`, `DeliverTx`
/// and `EndBlock` are answered directly.
pub open spec fn routed_xx(v: RequestValue, r: Route) -> bool {
    match v {
        RequestValue::BeginBlock(_) | RequestValue::DeliverTx(_) | RequestValue::EndBlock(_) => r matches Route::Reply(resp) && answers(v, resp) && is_empty_answer(resp),
        _ => routed(v, r),
    }
}

/// The routing of a synchronous application (`SyncApplication`): every
/// request with a handler, `Flush` included, goes to it; `SetOption` is
/// answered directly.
pub open spec fn routed_sync(v: RequestValue, r: Route) -> bool {
    match v {
        RequestValue::SetOption(_) => r matches Route::Reply(resp) && answers(v, resp) && is_empty_answer(resp),
        _ => r == Route::Call(handler_call(v)->Some_0),
    }
}

/// The handler call for a request that has one.
fn call_for(v: RequestValue) -> (c: AppCall)
    requires
        handler_call(v) is Some,
    ensures
        c == handler_call(v)->Some_0,
{
    match v {
        RequestValue::Echo(r) => AppCall::Echo(r),
        RequestValue::Flush(_) => AppCall::Flush,
        RequestValue::Info(r) => AppCall::Info(r),
        RequestValue::InitChain(r) => AppCall::InitChain(r),
        RequestValue::Query(r) => AppCall::Query(r),
        RequestValue::BeginBlock(r) => AppCall::BeginBlock(r),
        RequestValue::CheckTx(r) => AppCall::CheckTx(r),
        RequestValue::DeliverTx(r) => AppCall::DeliverTx(r),
        RequestValue::EndBlock(r) => AppCall::EndBlock(r),
        RequestValue::Commit(_) => AppCall::Commit,
        RequestValue::ListSnapshots(_) => AppCall::ListSnapshots,
        RequestValue::OfferSnapshot(r) => AppCall::OfferSnapshot(r),
        RequestValue::LoadSnapshotChunk(r) => AppCall::LoadSnapshotChunk(r),
        RequestValue::ApplySnapshotChunk(r) => AppCall::ApplySnapshotChunk(r),
        RequestValue::SetOption(_) => vstd::pervasive::unreached(),
    }
}

/// Routes a request of an `Application`.
pub fn route(v: RequestValue) -> (r: Route)
    ensures
        routed(v, r),
        r matches Route::Call(c) ==> request_of_call(c) == v,
{
    match v {
        RequestValue::Flush(_) => Route::Reply(ResponseValue::Flush(ResponseFlush {})),
        RequestValue::SetOption(_) => Route::Reply(ResponseValue::SetOption(ResponseSetOption::default())),
        _ => Route::Call(call_for(v)),
    }
}

/// Routes a request of an `ApplicationXX`.
pub fn route_xx(v: RequestValue) -> (r: Route)
    ensures
        routed_xx(v, r),
        r matches Route::Call(c) ==> request_of_call(c) == v,
{
    match v {
        RequestValue::BeginBlock(_) => Route::Reply(ResponseValue::BeginBlock(ResponseBeginBlock::default())),
        RequestValue::DeliverTx(_) => Route::Reply(ResponseValue::DeliverTx(ResponseDeliverTx::default())),
        RequestValue::EndBlock(_) => Route::Reply(ResponseValue::EndBlock(ResponseEndBlock::default())),
        _ => route(v),
    }
}

/// Routes a request of a `SyncApplication`.
pub fn route_sync(v: RequestValue) -> (r: Route)
    ensures
        routed_sync(v, r),
        r matches Route::Call(c) ==> request_of_call(c) == v,
{
    match v {
        RequestValue::SetOption(_) => Route::Reply(ResponseValue::SetOption(ResponseSetOption::default())),
        _ => Route::Call(call_for(v)),
    }
}

/// The default `echo` handler: answers with the request's message.
pub fn echo_response(request: RequestEcho) -> (r: ResponseEcho)
    ensures
        r.message == request.message,
{
    ResponseEcho { message: request.message }
}


/// Law: an `Application` sends each request that reaches a handler to the
/// handler of the request's own method with the request's own, unchanged
/// argument, and answers every other request directly with an answer of
/// its own method.
pub proof fn lemma_route_calls_own_handler(v: RequestValue, r: Route)
    requires
        routed(v, r),
    ensures
        r matches Route::Call(c) ==> request_of_call(c) == v,
        r matches Route::Reply(resp) ==> answers(v, resp),
{
}

/// Law: the same for an `ApplicationXX`.
pub proof fn lemma_route_xx_calls_own_handler(v: RequestValue, r: Route)
    requires
        routed_xx(v, r),
    ensures
        r matches Route::Call(c) ==> request_of_call(c) == v,
        r matches Route::Reply(resp) ==> answers(v, resp),
{
}

/// Law: the same for a `SyncApplication`.
pub proof fn lemma_route_sync_calls_own_handler(v: RequestValue, r: Route)
    requires
        routed_sync(v, r),
    ensures
        r matches Route::Call(c) ==> request_of_call(c) == v,
        r matches Route::Reply(resp) ==> answers(v, resp),
{
}

} // verus!
