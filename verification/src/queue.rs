//! The pending-decryption queue: a first-in, first-out record of the
//! wrapper transactions committed at one height, to be resolved when
//! the next proposal is built.
//!
//! Entries are created by the block-finalization step outside this
//! core; here the queue is read in order, or drained whole, exactly
//! once per proposal.
use vstd::prelude::*;

use crate::header::{WrapperTx, WrapperTxV};
use crate::tx::{Tx, TxV};

verus! {

/// One wrapper committed at the previous height, waiting to be
/// resolved: its wrapper header, the full envelope as committed, and
/// whether its proof of work checked out.
#[derive(Debug, Clone, PartialEq, Eq)]
pub struct TxInQueue {
    pub tx: WrapperTx,
    pub inner_tx: Tx,
    pub has_valid_pow: bool,
}

#[verifier::ext_equal]
pub struct TxInQueueV {
    pub tx: WrapperTxV,
    pub inner_tx: TxV,
    pub has_valid_pow: bool,
}

impl View for TxInQueue {
    type V = TxInQueueV;

    open spec fn view(&self) -> TxInQueueV {
        TxInQueueV { tx: self.tx@, inner_tx: self.inner_tx@, has_valid_pow: self.has_valid_pow }
    }
}

impl TxInQueueV {
    pub open spec fn wf(self) -> bool {
        self.tx.wf() && self.inner_tx.wf()
    }
}

impl TxInQueue {
    pub open spec fn wf(self) -> bool {
        self@.wf()
    }

    /// An identical copy.
    pub fn dup(&self) -> (r: TxInQueue)
        ensures
            r@ == self@,
    {
        TxInQueue {
            tx: self.tx.dup(),
            inner_tx: self.inner_tx.dup(),
            has_valid_pow: self.has_valid_pow,
        }
    }

    /// Decide well-formedness of the entry.
    pub fn check_wf(&self) -> (r: bool)
        ensures
            r == self@.wf(),
    {
        let _t: usize = self.tx.fee.token.len();
        let _p: usize = self.tx.pub_key.len();
        self.tx.code_hash.len() == 32 && self.tx.data_hash.len() == 32
            && self.inner_tx.check_wf()
    }
}

pub open spec fn entry_views(es: Seq<TxInQueue>) -> Seq<TxInQueueV> {
    es.map_values(|e: TxInQueue| e@)
}

/// The queue itself: entries in enqueue order.
#[derive(Debug, Clone, PartialEq, Eq)]
pub struct TxQueue {
    pub txs: Vec<TxInQueue>,
}

impl View for TxQueue {
    type V = Seq<TxInQueueV>;

    open spec fn view(&self) -> Seq<TxInQueueV> {
        entry_views(self.txs@)
    }
}

impl TxQueue {
    /// An empty queue.
    pub fn new() -> (r: TxQueue)
        ensures
            r@ == Seq::<TxInQueueV>::empty(),
    {
        let q = TxQueue { txs: Vec::new() };
        assert(q@ =~= Seq::<TxInQueueV>::empty());
        q
    }

    /// Append one entry; the block-finalization step outside this
    /// core calls this when a wrapper is committed.
    pub fn push(&mut self, e: TxInQueue)
        ensures
            final(self)@ == old(self)@.push(e@),
    {
        let ghost pre: Seq<TxInQueue> = self.txs@;
        let ghost ev: TxInQueueV = e@;
        self.txs.push(e);
        proof {
            assert forall|m: int| 0 <= m < pre.len() + 1 implies entry_views(self.txs@)[m]
                == entry_views(pre).push(ev)[m] by {
                if m < pre.len() {
                    assert(self.txs@[m] == pre[m]);
                }
            }
            assert(entry_views(self.txs@) =~= entry_views(pre).push(ev));
        }
    }

    /// How many entries wait.
    pub fn len(&self) -> (r: usize)
        ensures
            r == self@.len(),
    {
        self.txs.len()
    }

    /// The entries in enqueue order, copied out without removal.
    pub fn iterate(&self) -> (r: Vec<TxInQueue>)
        ensures
            entry_views(r@) == self@,
    {
        let mut out: Vec<TxInQueue> = Vec::new();
        assert(entry_views(out@) =~= self@.take(0));
        let mut k: usize = 0;
        while k < self.txs.len()
            invariant
                k <= self.txs.len(),
                entry_views(out@) == self@.take(k as int),
            decreases self.txs.len() - k,
        {
            let ghost pre: Seq<TxInQueue> = out@;
            let item = self.txs[k].dup();
            let ghost iv: TxInQueueV = item@;
            out.push(item);
            proof {
                assert forall|m: int| 0 <= m < pre.len() + 1 implies entry_views(out@)[m]
                    == entry_views(pre).push(iv)[m] by {
                    if m < pre.len() {
                        assert(out@[m] == pre[m]);
                    }
                }
                assert(entry_views(out@) =~= entry_views(pre).push(iv));
                assert(self@.take(k + 1) =~= self@.take(k as int).push(self@[k as int]));
                assert(self@[k as int] == self.txs@[k as int]@);
            }
            k = k + 1;
        }
        assert(self@.take(self.txs.len() as int) =~= self@);
        out
    }

    /// Remove and return all entries in enqueue order: called exactly
    /// once per proposal cycle.
    pub fn drain(self) -> (r: Vec<TxInQueue>)
        ensures
            entry_views(r@) == self@,
    {
        self.txs
    }
}

} // verus!
