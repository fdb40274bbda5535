//! A whole block handed to the application at once, and its receipts.

use vstd::prelude::*;

use crate::types::{
    Evidence, Header, LastCommitInfo, RequestBeginBlock, RequestDeliverTx, ResponseDeliverTx,
    ResponseEndBlock,
};

verus! {

/// A block as the application sees it: the contents of its `BeginBlock`
/// and the bytes of each of its transactions, in order.
#[derive(Debug, Default)]
pub struct RequestFinalizedBlock {
    pub hash: Vec<u8>,
    pub header: Header,
    pub last_commit_info: LastCommitInfo,
    pub byzantine_validators: Vec<Evidence>,
    pub transactions: Vec<Vec<u8>>,
}

/// The application's answer to a finalized block: a receipt per
/// transaction (possibly fewer) and the `EndBlock` answer.
#[derive(Debug, Default)]
pub struct ResponseFinalizedBlock {
    pub tx_receipt: Vec<ResponseDeliverTx>,
    pub end_recepit: ResponseEndBlock,
}

/// The transaction bytes of a sequence of `DeliverTx` requests, in order.
pub open spec fn tx_bytes(txs: Seq<RequestDeliverTx>) -> Seq<Vec<u8>> {
    txs.map_values(|t: RequestDeliverTx| t.tx)
}

/// What `RequestFinalizedBlock::new` builds from a `BeginBlock` and the
/// transactions that followed it.
pub open spec fn finalized_block_of(
    begin: RequestBeginBlock,
    txs: Seq<RequestDeliverTx>,
    fb: RequestFinalizedBlock,
) -> bool {
    &&& fb.hash == begin.hash
    &&& Some(fb.header) == begin.header
    &&& Some(fb.last_commit_info) == begin.last_commit_info
    &&& fb.byzantine_validators == begin.byzantine_validators
    &&& fb.transactions@ == tx_bytes(txs)
}

impl RequestFinalizedBlock {
    /// Builds the finalized block from its `BeginBlock` and its
    /// transactions. The `BeginBlock` must carry a header and commit info.
    pub fn new(begin: RequestBeginBlock, txs: Vec<RequestDeliverTx>) -> (fb: Self)
        requires
            begin.header is Some,
            begin.last_commit_info is Some,
        ensures
            finalized_block_of(begin, txs@, fb),
    {
        let ghost all = txs@;
        let mut transactions: Vec<Vec<u8>> = Vec::new();
        for tx in it: txs
            invariant
                it.seq() == all,
                transactions@ == tx_bytes(all.take(it.index() as int)),
        {
            assert(all.take(it.index() + 1) == all.take(it.index() as int).push(tx));
            transactions.push(tx.tx);
        }
        assert(all.take(all.len() as int) == all);
        let RequestBeginBlock { hash, header, last_commit_info, byzantine_validators } = begin;
        RequestFinalizedBlock {
            hash,
            header: header.unwrap(),
            last_commit_info: last_commit_info.unwrap(),
            byzantine_validators,
            transactions,
        }
    }
}

} // verus!
