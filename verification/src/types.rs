//! The ABCI messages exchanged between the consensus engine and the
//! application, as plain data. Field names follow the protocol definitions;
//! a protocol field named `type` is called `kind` here.

use vstd::prelude::*;

verus! {

// ---------------------------------------------------------------------------
// Common protocol values
// ---------------------------------------------------------------------------

/// A point in time: seconds and nanoseconds since the Unix epoch.
#[derive(Debug, Clone, PartialEq, Eq, Default)]
pub struct Timestamp {
    pub seconds: i64,
    pub nanos: i32,
}

/// A span of time.
#[derive(Debug, Clone, PartialEq, Eq, Default)]
pub struct Duration {
    pub seconds: i64,
    pub nanos: i32,
}

/// Block and application protocol versions.
#[derive(Debug, Clone, PartialEq, Eq, Default)]
pub struct Consensus {
    pub block: u64,
    pub app: u64,
}

/// Header of a set of block parts.
#[derive(Debug, Clone, PartialEq, Eq, Default)]
pub struct PartSetHeader {
    pub total: u32,
    pub hash: Vec<u8>,
}

/// Identifier of a block.
#[derive(Debug, Clone, PartialEq, Eq, Default)]
pub struct BlockId {
    pub hash: Vec<u8>,
    pub part_set_header: Option<PartSetHeader>,
}

/// Header of a block.
#[derive(Debug, Clone, PartialEq, Eq, Default)]
pub struct Header {
    pub version: Option<Consensus>,
    pub chain_id: String,
    pub height: i64,
    pub time: Option<Timestamp>,
    pub last_block_id: Option<BlockId>,
    pub last_commit_hash: Vec<u8>,
    pub data_hash: Vec<u8>,
    pub validators_hash: Vec<u8>,
    pub next_validators_hash: Vec<u8>,
    pub consensus_hash: Vec<u8>,
    pub app_hash: Vec<u8>,
    pub last_results_hash: Vec<u8>,
    pub evidence_hash: Vec<u8>,
    pub proposer_address: Vec<u8>,
}

/// A validator: its address and voting power.
#[derive(Debug, Clone, PartialEq, Eq, Default)]
pub struct Validator {
    pub address: Vec<u8>,
    pub power: i64,
}

/// Whether a validator signed the last block.
#[derive(Debug, Clone, PartialEq, Eq, Default)]
pub struct VoteInfo {
    pub validator: Option<Validator>,
    pub signed_last_block: bool,
}

/// The votes for the last block.
#[derive(Debug, Clone, PartialEq, Eq, Default)]
pub struct LastCommitInfo {
    pub round: i32,
    pub votes: Vec<VoteInfo>,
}

/// Evidence of a validator's misbehaviour.
#[derive(Debug, Clone, PartialEq, Eq, Default)]
pub struct Evidence {
    pub kind: i32,
    pub validator: Option<Validator>,
    pub height: i64,
    pub time: Option<Timestamp>,
    pub total_voting_power: i64,
}

/// A validator's public key.
#[derive(Debug, Clone, PartialEq, Eq)]
pub enum PublicKey {
    Ed25519(Vec<u8>),
    Secp256k1(Vec<u8>),
}

/// A change to the validator set.
#[derive(Debug, Clone, PartialEq, Eq, Default)]
pub struct ValidatorUpdate {
    pub pub_key: Option<PublicKey>,
    pub power: i64,
}

/// Limits on blocks.
#[derive(Debug, Clone, PartialEq, Eq, Default)]
pub struct BlockParams {
    pub max_bytes: i64,
    pub max_gas: i64,
}

/// Limits on evidence.
#[derive(Debug, Clone, PartialEq, Eq, Default)]
pub struct EvidenceParams {
    pub max_age_num_blocks: i64,
    pub max_age_duration: Option<Duration>,
    pub max_bytes: i64,
}

/// Accepted validator key types.
#[derive(Debug, Clone, PartialEq, Eq, Default)]
pub struct ValidatorParams {
    pub pub_key_types: Vec<String>,
}

/// Application version.
#[derive(Debug, Clone, PartialEq, Eq, Default)]
pub struct VersionParams {
    pub app_version: u64,
}

/// Consensus parameters.
#[derive(Debug, Clone, PartialEq, Eq, Default)]
pub struct ConsensusParams {
    pub block: Option<BlockParams>,
    pub evidence: Option<EvidenceParams>,
    pub validator: Option<ValidatorParams>,
    pub version: Option<VersionParams>,
}

/// A key and a value attached to an event.
#[derive(Debug, Clone, PartialEq, Eq, Default)]
pub struct EventAttribute {
    pub key: Vec<u8>,
    pub value: Vec<u8>,
    pub index: bool,
}

/// An event emitted by the application.
#[derive(Debug, Clone, PartialEq, Eq, Default)]
pub struct Event {
    pub kind: String,
    pub attributes: Vec<EventAttribute>,
}

/// One step of a Merkle proof.
#[derive(Debug, Clone, PartialEq, Eq, Default)]
pub struct ProofOp {
    pub kind: String,
    pub key: Vec<u8>,
    pub data: Vec<u8>,
}

/// A Merkle proof.
#[derive(Debug, Clone, PartialEq, Eq, Default)]
pub struct ProofOps {
    pub ops: Vec<ProofOp>,
}

/// A state-sync snapshot.
#[derive(Debug, Clone, PartialEq, Eq, Default)]
pub struct Snapshot {
    pub height: u64,
    pub format: u32,
    pub chunks: u32,
    pub hash: Vec<u8>,
    pub metadata: Vec<u8>,
}

// ---------------------------------------------------------------------------
// Requests
// ---------------------------------------------------------------------------

#[derive(Debug, Clone, PartialEq, Eq, Default)]
pub struct RequestEcho {
    pub message: String,
}

#[derive(Debug, Clone, PartialEq, Eq, Default)]
pub struct RequestFlush {}

#[derive(Debug, Clone, PartialEq, Eq, Default)]
pub struct RequestInfo {
    pub version: String,
    pub block_version: u64,
    pub p2p_version: u64,
}

#[derive(Debug, Clone, PartialEq, Eq, Default)]
pub struct RequestSetOption {
    pub key: String,
    pub value: String,
}

#[derive(Debug, Clone, PartialEq, Eq, Default)]
pub struct RequestInitChain {
    pub time: Option<Timestamp>,
    pub chain_id: String,
    pub consensus_params: Option<ConsensusParams>,
    pub validators: Vec<ValidatorUpdate>,
    pub app_state_bytes: Vec<u8>,
    pub initial_height: i64,
}

#[derive(Debug, Clone, PartialEq, Eq, Default)]
pub struct RequestQuery {
    pub data: Vec<u8>,
    pub path: String,
    pub height: i64,
    pub prove: bool,
}

/// The start of a block: its hash, header, last commit and evidence.
#[derive(Debug, Clone, PartialEq, Eq)]
pub struct RequestBeginBlock {
    pub hash: Vec<u8>,
    pub header: Option<Header>,
    pub last_commit_info: Option<LastCommitInfo>,
    pub byzantine_validators: Vec<Evidence>,
}

#[derive(Debug, Clone, PartialEq, Eq, Default)]
pub struct RequestCheckTx {
    pub tx: Vec<u8>,
    pub kind: i32,
}

/// One transaction of a block.
#[derive(Debug, Clone, PartialEq, Eq, Default)]
pub struct RequestDeliverTx {
    pub tx: Vec<u8>,
}

#[derive(Debug, Clone, PartialEq, Eq, Default)]
pub struct RequestEndBlock {
    pub height: i64,
}

#[derive(Debug, Clone, PartialEq, Eq, Default)]
pub struct RequestCommit {}

#[derive(Debug, Clone, PartialEq, Eq, Default)]
pub struct RequestListSnapshots {}

#[derive(Debug, Clone, PartialEq, Eq, Default)]
pub struct RequestOfferSnapshot {
    pub snapshot: Option<Snapshot>,
    pub app_hash: Vec<u8>,
}

#[derive(Debug, Clone, PartialEq, Eq, Default)]
pub struct RequestLoadSnapshotChunk {
    pub height: u64,
    pub format: u32,
    pub chunk: u32,
}

#[derive(Debug, Clone, PartialEq, Eq, Default)]
pub struct RequestApplySnapshotChunk {
    pub index: u32,
    pub chunk: Vec<u8>,
    pub sender: String,
}

/// The body of a request: one variant per ABCI method.
#[derive(Debug, Clone, PartialEq, Eq)]
pub enum RequestValue {
    Echo(RequestEcho),
    Flush(RequestFlush),
    Info(RequestInfo),
    SetOption(RequestSetOption),
    InitChain(RequestInitChain),
    Query(RequestQuery),
    BeginBlock(RequestBeginBlock),
    CheckTx(RequestCheckTx),
    DeliverTx(RequestDeliverTx),
    EndBlock(RequestEndBlock),
    Commit(RequestCommit),
    ListSnapshots(RequestListSnapshots),
    OfferSnapshot(RequestOfferSnapshot),
    LoadSnapshotChunk(RequestLoadSnapshotChunk),
    ApplySnapshotChunk(RequestApplySnapshotChunk),
}

/// A request from the consensus engine; a well-formed one has a value.
#[derive(Debug, Clone, PartialEq, Eq, Default)]
pub struct Request {
    pub value: Option<RequestValue>,
}

// ---------------------------------------------------------------------------
// Responses
// ---------------------------------------------------------------------------

#[derive(Debug, Clone, PartialEq, Eq, Default)]
pub struct ResponseException {
    pub error: String,
}

#[derive(Debug, Clone, PartialEq, Eq, Default)]
pub struct ResponseEcho {
    pub message: String,
}

#[derive(Debug, Clone, PartialEq, Eq, Default)]
pub struct ResponseFlush {}

#[derive(Debug, Clone, PartialEq, Eq, Default)]
pub struct ResponseInfo {
    pub data: String,
    pub version: String,
    pub app_version: u64,
    pub last_block_height: i64,
    pub last_block_app_hash: Vec<u8>,
}

#[derive(Debug, Clone, PartialEq, Eq)]
pub struct ResponseSetOption {
    pub code: u32,
    pub log: String,
    pub info: String,
}

#[derive(Debug, Clone, PartialEq, Eq, Default)]
pub struct ResponseInitChain {
    pub consensus_params: Option<ConsensusParams>,
    pub validators: Vec<ValidatorUpdate>,
    pub app_hash: Vec<u8>,
}

#[derive(Debug, Clone, PartialEq, Eq, Default)]
pub struct ResponseQuery {
    pub code: u32,
    pub log: String,
    pub info: String,
    pub index: i64,
    pub key: Vec<u8>,
    pub value: Vec<u8>,
    pub proof_ops: Option<ProofOps>,
    pub height: i64,
    pub codespace: String,
}

#[derive(Debug, Clone, PartialEq, Eq)]
pub struct ResponseBeginBlock {
    pub events: Vec<Event>,
}

#[derive(Debug, Clone, PartialEq, Eq, Default)]
pub struct ResponseCheckTx {
    pub code: u32,
    pub data: Vec<u8>,
    pub log: String,
    pub info: String,
    pub gas_wanted: i64,
    pub gas_used: i64,
    pub events: Vec<Event>,
    pub codespace: String,
}

/// The outcome of one transaction of a block.
#[derive(Debug, Clone, PartialEq, Eq)]
pub struct ResponseDeliverTx {
    pub code: u32,
    pub data: Vec<u8>,
    pub log: String,
    pub info: String,
    pub gas_wanted: i64,
    pub gas_used: i64,
    pub events: Vec<Event>,
    pub codespace: String,
}

/// The end of a block: validator and parameter updates.
#[derive(Debug, Clone, PartialEq, Eq)]
pub struct ResponseEndBlock {
    pub validator_updates: Vec<ValidatorUpdate>,
    pub consensus_param_updates: Option<ConsensusParams>,
    pub events: Vec<Event>,
}

#[derive(Debug, Clone, PartialEq, Eq, Default)]
pub struct ResponseCommit {
    pub data: Vec<u8>,
    pub retain_height: i64,
}

#[derive(Debug, Clone, PartialEq, Eq, Default)]
pub struct ResponseListSnapshots {
    pub snapshots: Vec<Snapshot>,
}

#[derive(Debug, Clone, PartialEq, Eq, Default)]
pub struct ResponseOfferSnapshot {
    pub result: i32,
}

#[derive(Debug, Clone, PartialEq, Eq, Default)]
pub struct ResponseLoadSnapshotChunk {
    pub chunk: Vec<u8>,
}

#[derive(Debug, Clone, PartialEq, Eq, Default)]
pub struct ResponseApplySnapshotChunk {
    pub result: i32,
    pub refetch_chunks: Vec<u32>,
    pub reject_senders: Vec<String>,
}

/// The body of a response: one variant per ABCI method, and `Exception`.
#[derive(Debug, Clone, PartialEq, Eq)]
pub enum ResponseValue {
    Exception(ResponseException),
    Echo(ResponseEcho),
    Flush(ResponseFlush),
    Info(ResponseInfo),
    SetOption(ResponseSetOption),
    InitChain(ResponseInitChain),
    Query(ResponseQuery),
    BeginBlock(ResponseBeginBlock),
    CheckTx(ResponseCheckTx),
    DeliverTx(ResponseDeliverTx),
    EndBlock(ResponseEndBlock),
    Commit(ResponseCommit),
    ListSnapshots(ResponseListSnapshots),
    OfferSnapshot(ResponseOfferSnapshot),
    LoadSnapshotChunk(ResponseLoadSnapshotChunk),
    ApplySnapshotChunk(ResponseApplySnapshotChunk),
}

/// A response to the consensus engine.
#[derive(Debug, Clone, PartialEq, Eq, Default)]
pub struct Response {
    pub value: Option<ResponseValue>,
}

// ---------------------------------------------------------------------------
// Empty values: what a message decodes to when no field is set
// ---------------------------------------------------------------------------

/// A `BeginBlock` with no hash, header, commit info or evidence.
pub open spec fn is_empty_begin_block(b: RequestBeginBlock) -> bool {
    &&& b.hash@.len() == 0
    &&& b.header is None
    &&& b.last_commit_info is None
    &&& b.byzantine_validators@.len() == 0
}

/// A `DeliverTx` response with every field unset.
pub open spec fn is_empty_deliver_tx_response(r: ResponseDeliverTx) -> bool {
    &&& r.code == 0
    &&& r.data@.len() == 0
    &&& r.log@.len() == 0
    &&& r.info@.len() == 0
    &&& r.gas_wanted == 0
    &&& r.gas_used == 0
    &&& r.events@.len() == 0
    &&& r.codespace@.len() == 0
}

/// A `BeginBlock` response with no events.
pub open spec fn is_empty_begin_block_response(r: ResponseBeginBlock) -> bool {
    r.events@.len() == 0
}

/// An `EndBlock` response with no updates and no events.
pub open spec fn is_empty_end_block_response(r: ResponseEndBlock) -> bool {
    &&& r.validator_updates@.len() == 0
    &&& r.consensus_param_updates is None
    &&& r.events@.len() == 0
}

/// A `SetOption` response with every field unset.
pub open spec fn is_empty_set_option_response(r: ResponseSetOption) -> bool {
    &&& r.code == 0
    &&& r.log@.len() == 0
    &&& r.info@.len() == 0
}

impl Default for RequestBeginBlock {
    fn default() -> (r: Self)
        ensures
            is_empty_begin_block(r),
    {
        RequestBeginBlock {
            hash: Vec::new(),
            header: None,
            last_commit_info: None,
            byzantine_validators: Vec::new(),
        }
    }
}

impl Default for ResponseDeliverTx {
    fn default() -> (r: Self)
        ensures
            is_empty_deliver_tx_response(r),
    {
        ResponseDeliverTx {
            code: 0,
            data: Vec::new(),
            log: String::new(),
            info: String::new(),
            gas_wanted: 0,
            gas_used: 0,
            events: Vec::new(),
            codespace: String::new(),
        }
    }
}

impl Default for ResponseBeginBlock {
    fn default() -> (r: Self)
        ensures
            is_empty_begin_block_response(r),
    {
        ResponseBeginBlock { events: Vec::new() }
    }
}

impl Default for ResponseEndBlock {
    fn default() -> (r: Self)
        ensures
            is_empty_end_block_response(r),
    {
        ResponseEndBlock {
            validator_updates: Vec::new(),
            consensus_param_updates: None,
            events: Vec::new(),
        }
    }
}

impl Default for ResponseSetOption {
    fn default() -> (r: Self)
        ensures
            is_empty_set_option_response(r),
    {
        ResponseSetOption { code: 0, log: String::new(), info: String::new() }
    }
}

} // verus!
