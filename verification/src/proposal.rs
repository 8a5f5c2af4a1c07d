//! The proposal builder: fill half the block space with new wrapper
//! transactions from the mempool, then resolve every wrapper
//! committed at the previous height and append the results.
//!
//! The mempool phase is greedy-prefix selection: candidates are
//! scanned in their given order, non-wrappers and undecodable ones
//! are silently skipped, and the instant a kept candidate would push
//! the running total past the half-size budget the scan stops
//! entirely. The queue phase has no budget: liveness requires every
//! committed wrapper to be addressed at the next height.
use vstd::prelude::*;

use crate::crypto::sig_valid;
use crate::header::{DecryptedTx, DecryptedTxV, TxType, TxTypeV};
use crate::queue::{entry_views, TxInQueue, TxInQueueV, TxQueue};
use crate::section::copy_bytes;
use crate::tx::{
    enc_tx, header_hash_of, lemma_decode_encode, sp_decode, sp_decrypt, sp_find_sig, tx_bytes,
    Tx, TxV,
};
use crate::wire::{fits_u64, lemma_enc_lens};
use crate::HALF_MAX_PROPOSAL_SIZE;

verus! {

// ---------------------------------------------------------------------
// Action-tagged records, the alternate wire format of a proposal
// ---------------------------------------------------------------------
/// What a proposal did with one byte string.
#[derive(Debug, Clone, Copy, PartialEq, Eq, Structural)]
pub enum TxAction {
    Unknown,
    Unmodified,
    Added,
    Removed,
}

/// One byte string of a proposal, tagged with its action.
#[derive(Debug, Clone, PartialEq, Eq)]
pub struct TxRecord {
    pub action: TxAction,
    pub tx: Vec<u8>,
}

/// Keep this transaction in the proposal, as the mempool offered it.
pub fn keep(tx: Vec<u8>) -> (r: TxRecord)
    ensures
        r.action == TxAction::Unmodified,
        r.tx@ == tx@,
{
    TxRecord { action: TxAction::Unmodified, tx: tx }
}

/// A transaction added by the proposer, not taken from the mempool.
pub fn add(tx: Vec<u8>) -> (r: TxRecord)
    ensures
        r.action == TxAction::Added,
        r.tx@ == tx@,
{
    TxRecord { action: TxAction::Added, tx: tx }
}

/// Remove this transaction from the set the mempool offered.
pub fn remove(tx: Vec<u8>) -> (r: TxRecord)
    ensures
        r.action == TxAction::Removed,
        r.tx@ == tx@,
{
    TxRecord { action: TxAction::Removed, tx: tx }
}

// ---------------------------------------------------------------------
// The mempool filter phase, at the spec level
// ---------------------------------------------------------------------
pub open spec fn deep_bytes(s: Seq<Vec<u8>>) -> Seq<Seq<u8>> {
    s.map_values(|v: Vec<u8>| v@)
}

/// Whether a mempool candidate is kept: it decodes, its header is a
/// wrapper, and a visible signature section signs the header hash
/// under the wrapper's own key.
pub open spec fn sp_keep(b: Seq<u8>) -> bool {
    match sp_decode(b) {
        None => false,
        Some(t) => match t.header {
            TxTypeV::Wrapper(w) => match sp_find_sig(t.sections, w.pub_key, header_hash_of(t.header)) {
                None => false,
                Some(m) => sig_valid(w.pub_key, header_hash_of(t.header), m.signature),
            },
            _ => false,
        },
    }
}

/// The kept candidates, in arrival order.
pub open spec fn sp_kept(s: Seq<Seq<u8>>) -> Seq<Seq<u8>>
    decreases s.len(),
{
    if s.len() == 0 {
        Seq::<Seq<u8>>::empty()
    } else if sp_keep(s[0]) {
        seq![s[0]] + sp_kept(s.drop_first())
    } else {
        sp_kept(s.drop_first())
    }
}

pub open spec fn sum_lens(s: Seq<Seq<u8>>) -> int
    decreases s.len(),
{
    if s.len() == 0 {
        0
    } else {
        s[0].len() + sum_lens(s.drop_first())
    }
}

/// Greedy-prefix selection: take in order while the budget lasts,
/// and stop entirely — never skip — at the first one that does not
/// fit.
pub open spec fn sp_greedy(s: Seq<Seq<u8>>, budget: int) -> Seq<Seq<u8>>
    decreases s.len(),
{
    if s.len() == 0 {
        Seq::<Seq<u8>>::empty()
    } else if s[0].len() > budget {
        Seq::<Seq<u8>>::empty()
    } else {
        seq![s[0]] + sp_greedy(s.drop_first(), budget - s[0].len())
    }
}

/// What the mempool phase keeps.
pub open spec fn sp_phase1(mem: Seq<Seq<u8>>) -> Seq<Seq<u8>> {
    sp_greedy(sp_kept(mem), HALF_MAX_PROPOSAL_SIZE as int)
}

// ---------------------------------------------------------------------
// The queue drain phase, at the spec level
// ---------------------------------------------------------------------
/// What resolving one queue entry yields: on successful decryption a
/// `Resolved` header over the decrypted sections; on any failure an
/// `Unresolvable` header over the envelope exactly as it was stored.
pub open spec fn sp_resolve(e: TxInQueueV, sk: Seq<u8>) -> TxV {
    match sp_decrypt(e.inner_tx, sk) {
        Some(d) => (TxV {
            header: TxTypeV::Decrypted(
                DecryptedTxV::Resolved {
                    header_hash: header_hash_of(e.inner_tx.header),
                    code_hash: e.tx.code_hash,
                    data_hash: e.tx.data_hash,
                    has_valid_pow: e.has_valid_pow,
                },
            ),
            sections: d.sections,
        }),
        None => (TxV {
            header: TxTypeV::Decrypted(DecryptedTxV::Unresolvable(e.tx)),
            sections: e.inner_tx.sections,
        }),
    }
}

/// What the queue phase emits: every entry resolved, in enqueue
/// order, encoded.
pub open spec fn sp_phase2(es: Seq<TxInQueueV>, sk: Seq<u8>) -> Seq<Seq<u8>> {
    es.map_values(|e: TxInQueueV| tx_bytes(sp_resolve(e, sk)))
}

/// The whole proposal: a non-proposer returns nothing; a proposer
/// concatenates the kept mempool wrappers with the resolved queue.
pub open spec fn sp_proposal(
    is_validator: bool,
    mem: Seq<Seq<u8>>,
    es: Seq<TxInQueueV>,
    sk: Seq<u8>,
) -> Seq<Seq<u8>> {
    if is_validator {
        sp_phase1(mem) + sp_phase2(es, sk)
    } else {
        Seq::<Seq<u8>>::empty()
    }
}

// ---------------------------------------------------------------------
// Lemmas about the filter phase
// ---------------------------------------------------------------------
pub proof fn lemma_kept_snoc(s: Seq<Seq<u8>>, x: Seq<u8>)
    ensures
        sp_kept(s.push(x)) == if sp_keep(x) {
            sp_kept(s).push(x)
        } else {
            sp_kept(s)
        },
    decreases s.len(),
{
    if s.len() == 0 {
        assert(s.push(x)[0] == x);
        assert(s.push(x).drop_first() =~= Seq::<Seq<u8>>::empty());
        assert(sp_kept(Seq::<Seq<u8>>::empty()) == Seq::<Seq<u8>>::empty());
        assert(sp_kept(s) == Seq::<Seq<u8>>::empty());
        if sp_keep(x) {
            assert(sp_kept(s.push(x)) == seq![x] + Seq::<Seq<u8>>::empty());
            assert(seq![x] + Seq::<Seq<u8>>::empty() =~= sp_kept(s).push(x));
        }
    } else {
        assert(s.push(x)[0] == s[0]);
        assert(s.push(x).drop_first() =~= s.drop_first().push(x));
        lemma_kept_snoc(s.drop_first(), x);
        if sp_keep(s[0]) {
            if sp_keep(x) {
                assert(sp_kept(s.push(x)) == seq![s[0]] + sp_kept(s.drop_first()).push(x));
                assert(seq![s[0]] + sp_kept(s.drop_first()).push(x) =~= (seq![s[0]] + sp_kept(
                    s.drop_first(),
                )).push(x));
            } else {
                assert(sp_kept(s.push(x)) == seq![s[0]] + sp_kept(s.drop_first()));
            }
        }
    }
}

pub proof fn lemma_kept_concat(a: Seq<Seq<u8>>, b: Seq<Seq<u8>>)
    ensures
        sp_kept(a + b) == sp_kept(a) + sp_kept(b),
    decreases a.len(),
{
    if a.len() == 0 {
        assert(a + b =~= b);
        assert(sp_kept(a) + sp_kept(b) =~= sp_kept(b));
    } else {
        assert((a + b)[0] == a[0]);
        assert((a + b).drop_first() =~= a.drop_first() + b);
        lemma_kept_concat(a.drop_first(), b);
        if sp_keep(a[0]) {
            assert(seq![a[0]] + (sp_kept(a.drop_first()) + sp_kept(b)) =~= (seq![a[0]]
                + sp_kept(a.drop_first())) + sp_kept(b));
        }
    }
}

/// A fully fitting prefix passes through greedy selection untouched,
/// and what follows sees the leftover budget.
pub proof fn lemma_greedy_concat(u: Seq<Seq<u8>>, v: Seq<Seq<u8>>, budget: int)
    requires
        sp_greedy(u, budget) == u,
    ensures
        sp_greedy(u + v, budget) == u + sp_greedy(v, budget - sum_lens(u)),
    decreases u.len(),
{
    if u.len() == 0 {
        assert(u + v =~= v);
        assert(u + sp_greedy(v, budget - sum_lens(u)) =~= sp_greedy(v, budget));
    } else {
        assert(u[0].len() <= budget) by {
            if u[0].len() > budget {
                assert(sp_greedy(u, budget) == Seq::<Seq<u8>>::empty());
            }
        }
        let rest = u.drop_first();
        assert(sp_greedy(u, budget) == seq![u[0]] + sp_greedy(rest, budget - u[0].len()));
        assert(sp_greedy(rest, budget - u[0].len()) =~= rest) by {
            assert(seq![u[0]] + sp_greedy(rest, budget - u[0].len()) == u);
            assert forall|m: int| 0 <= m < rest.len() implies sp_greedy(
                rest,
                budget - u[0].len(),
            )[m] == rest[m] by {
                assert((seq![u[0]] + sp_greedy(rest, budget - u[0].len()))[m + 1] == u[m + 1]);
            }
            assert(sp_greedy(rest, budget - u[0].len()).len() == u.len() - 1);
        }
        assert((u + v)[0] == u[0]);
        assert((u + v).drop_first() =~= rest + v);
        lemma_greedy_concat(rest, v, budget - u[0].len());
        assert(seq![u[0]] + (rest + sp_greedy(v, budget - u[0].len() - sum_lens(rest))) =~= u
            + sp_greedy(v, budget - sum_lens(u)));
    }
}

// ---------------------------------------------------------------------
// Executable phases
// ---------------------------------------------------------------------
/// Whether a mempool candidate is kept.
pub fn keep_candidate(bytes: &Vec<u8>) -> (r: bool)
    ensures
        r == sp_keep(bytes@),
{
    let t = match Tx::decode(bytes) {
        Err(_) => {
            return false;
        },
        Ok(t) => t,
    };
    match &t.header {
        TxType::Wrapper(w) => {
            let hh = t.header_hash();
            match t.verify_signature(&w.pub_key, &hh) {
                Ok(()) => true,
                Err(_) => false,
            }
        },
        _ => false,
    }
}

/// Resolve one queue entry with the validator's key: decrypt it, and
/// head the result `Resolved`, or `Unresolvable` with the envelope
/// untouched.
pub fn resolve_entry(e: &TxInQueue, privkey: &Vec<u8>) -> (r: Tx)
    ensures
        r@ == sp_resolve(e@, privkey@),
        e@.wf() ==> r@.wf(),
{
    let mut inner = e.inner_tx.dup();
    let hh = inner.header_hash();
    match inner.decrypt(privkey) {
        Ok(()) => {
            let header = TxType::Decrypted(
                DecryptedTx::Resolved {
                    header_hash: hh,
                    code_hash: copy_bytes(&e.tx.code_hash),
                    data_hash: copy_bytes(&e.tx.data_hash),
                    has_valid_pow: e.has_valid_pow,
                },
            );
            let r = Tx { header: header, sections: inner.sections };
            assert(r@ =~= sp_resolve(e@, privkey@));
            r
        },
        Err(_) => {
            let inner2 = e.inner_tx.dup();
            let r = Tx {
                header: TxType::Decrypted(DecryptedTx::Unresolvable(e.tx.dup())),
                sections: inner2.sections,
            };
            assert(r@ =~= sp_resolve(e@, privkey@));
            r
        },
    }
}

/// The mempool filter phase: scan the candidates in their given
/// order, keep the signed wrappers, and stop the whole scan the
/// instant a kept candidate would push the running total past the
/// half-size budget — later, even smaller, candidates are never
/// considered.
#[verifier::loop_isolation(false)]
#[verifier::rlimit(60)]
pub fn filter_mempool(mempool: &Vec<Vec<u8>>) -> (r: Vec<Vec<u8>>)
    ensures
        deep_bytes(r@) == sp_phase1(deep_bytes(mempool@)),
        forall|j: int|
            0 <= j < r@.len() ==> ((#[trigger] sp_decode(deep_bytes(r@)[j])) matches Some(t)
                && t.header is Wrapper),
{
    let ghost mem: Seq<Seq<u8>> = deep_bytes(mempool@);
    let mut out: Vec<Vec<u8>> = Vec::new();
    let mut total: usize = 0;
    let mut i: usize = 0;
    let mut stopped: bool = false;
    assert(deep_bytes(out@) =~= sp_kept(mem.take(0)));
    while i < mempool.len() && !stopped
        invariant
            i <= mempool.len(),
            total <= HALF_MAX_PROPOSAL_SIZE,
            !stopped ==> deep_bytes(out@) == sp_kept(mem.take(i as int)),
            !stopped ==> sp_greedy(deep_bytes(out@), HALF_MAX_PROPOSAL_SIZE as int) == deep_bytes(
                out@,
            ),
            !stopped ==> total == sum_lens(deep_bytes(out@)),
            stopped ==> deep_bytes(out@) == sp_phase1(mem),
            forall|j: int|
                0 <= j < out@.len() ==> ((#[trigger] sp_decode(deep_bytes(out@)[j])) matches Some(
                    t,
                ) && t.header is Wrapper),
        decreases mempool.len() - i,
    {
        let b = &mempool[i];
        proof {
            assert(mem.take(i + 1) =~= mem.take(i as int).push(mem[i as int]));
            assert(mem[i as int] == b@);
        }
        if keep_candidate(b) {
            let ghost kept: Seq<Seq<u8>> = deep_bytes(out@);
            if b.len() > HALF_MAX_PROPOSAL_SIZE - total {
                stopped = true;
                proof {
                    // everything kept so far fits; the next kept
                    // candidate overflows, so the greedy scan ends
                    // here for the whole mempool.
                    assert(mem =~= mem.take(i as int) + mem.skip(i as int));
                    lemma_kept_concat(mem.take(i as int), mem.skip(i as int));
                    let tail = mem.skip(i as int);
                    assert(tail[0] == b@);
                    assert(sp_kept(tail) == seq![b@] + sp_kept(tail.drop_first()));
                    lemma_greedy_concat(kept, sp_kept(tail), HALF_MAX_PROPOSAL_SIZE as int);
                    assert(sp_kept(tail)[0] == b@);
                    assert(sp_greedy(
                        sp_kept(tail),
                        HALF_MAX_PROPOSAL_SIZE as int - sum_lens(kept),
                    ) =~= Seq::<Seq<u8>>::empty());
                    assert(kept + Seq::<Seq<u8>>::empty() =~= kept);
                }
            } else {
                total = total + b.len();
                let ghost pre: Seq<Vec<u8>> = out@;
                out.push(copy_bytes(b));
                proof {
                    assert forall|m: int| 0 <= m < pre.len() + 1 implies deep_bytes(out@)[m]
                        == deep_bytes(pre).push(b@)[m] by {
                        if m < pre.len() {
                            assert(out@[m] == pre[m]);
                        }
                    }
                    assert(deep_bytes(out@) =~= deep_bytes(pre).push(b@));
                    lemma_kept_snoc(mem.take(i as int), b@);
                    // the extended prefix still fits whole
                    lemma_greedy_concat(kept, seq![b@], HALF_MAX_PROPOSAL_SIZE as int);
                    assert(b@.len() <= HALF_MAX_PROPOSAL_SIZE as int - sum_lens(kept));
                    lemma_greedy_single(b@, HALF_MAX_PROPOSAL_SIZE as int - sum_lens(kept));
                    assert(kept + seq![b@] =~= kept.push(b@));
                    lemma_sum_snoc(kept, b@);
                }
            }
        } else {
            proof {
                lemma_kept_snoc(mem.take(i as int), b@);
            }
        }
        i = i + 1;
    }
    proof {
        if !stopped {
            assert(mem.take(mempool.len() as int) =~= mem);
        }
    }
    out
}

/// Build the proposal for the next block: a non-proposer returns an
/// empty list; a proposer fills half the block space with signed
/// wrapper candidates from the mempool, in order, stopping at the
/// first that would overflow the budget, then appends every queue
/// entry resolved under its key, in enqueue order and without any
/// size bound. Every byte string of the proposal decodes, and none
/// is headed `Raw` or `Protocol`.
#[verifier::loop_isolation(false)]
#[verifier::rlimit(60)]
pub fn build_proposal(
    is_validator: bool,
    mempool: &Vec<Vec<u8>>,
    queue: TxQueue,
    privkey: &Vec<u8>,
) -> (r: Vec<Vec<u8>>)
    requires
        forall|i: int| 0 <= i < queue@.len() ==> (#[trigger] queue@[i]).wf(),
    ensures
        deep_bytes(r@) == sp_proposal(is_validator, deep_bytes(mempool@), queue@, privkey@),
        forall|j: int|
            0 <= j < r@.len() ==> ((#[trigger] sp_decode(deep_bytes(r@)[j])) matches Some(t)
                && !(t.header is Raw) && !(t.header is Protocol)),
{
    if !is_validator {
        let out: Vec<Vec<u8>> = Vec::new();
        assert(deep_bytes(out@) =~= sp_proposal(
            is_validator,
            deep_bytes(mempool@),
            queue@,
            privkey@,
        ));
        return out;
    }
    let mut out = filter_mempool(mempool);
    // queue drain phase: no budget, every entry resolved in order
    let entries = queue.drain();
    let ghost phase1: Seq<Seq<u8>> = deep_bytes(out@);
    assert(phase1 + sp_phase2(queue@.take(0), privkey@) =~= phase1);
    let mut k: usize = 0;
    while k < entries.len()
        invariant
            k <= entries.len(),
            deep_bytes(out@) == phase1 + sp_phase2(queue@.take(k as int), privkey@),
            forall|j: int|
                0 <= j < out@.len() ==> ((#[trigger] sp_decode(deep_bytes(out@)[j])) matches Some(
                    t,
                ) && !(t.header is Raw) && !(t.header is Protocol)),
        decreases entries.len() - k,
    {
        let resolved = resolve_entry(&entries[k], privkey);
        let bytes = resolved.to_bytes();
        let _len_hint: usize = bytes.len();
        proof {
            assert(entry_views(entries@)[k as int] == entries@[k as int]@);
            assert(resolved@ == sp_resolve(queue@[k as int], privkey@));
            assert(resolved@.wf());
            lemma_enc_lens();
            assert(fits_u64(enc_tx(resolved@))) by {
                assert(bytes@ == tx_bytes(resolved@));
                assert(bytes@.len() == 9 + enc_tx(resolved@).len());
            }
            lemma_decode_encode(resolved@);
        }
        let ghost pre: Seq<Vec<u8>> = out@;
        let ghost bv: Seq<u8> = bytes@;
        out.push(bytes);
        proof {
            assert forall|m: int| 0 <= m < pre.len() + 1 implies deep_bytes(out@)[m]
                == deep_bytes(pre).push(bv)[m] by {
                if m < pre.len() {
                    assert(out@[m] == pre[m]);
                }
            }
            assert(deep_bytes(out@) =~= deep_bytes(pre).push(bv));
            assert(sp_phase2(queue@.take(k + 1), privkey@) =~= sp_phase2(
                queue@.take(k as int),
                privkey@,
            ).push(tx_bytes(sp_resolve(queue@[k as int], privkey@))));
            assert(phase1 + sp_phase2(queue@.take(k as int), privkey@).push(bv) =~= (phase1
                + sp_phase2(queue@.take(k as int), privkey@)).push(bv));
        }
        k = k + 1;
    }
    proof {
        assert(queue@.take(entries.len() as int) =~= queue@);
    }
    out
}

/// One byte string within its budget passes greedy selection whole.
pub proof fn lemma_greedy_single(x: Seq<u8>, budget: int)
    requires
        x.len() <= budget,
    ensures
        sp_greedy(seq![x], budget) == seq![x],
{
    assert(seq![x][0] == x);
    assert(seq![x].drop_first() =~= Seq::<Seq<u8>>::empty());
    assert(sp_greedy(Seq::<Seq<u8>>::empty(), budget - x.len()) == Seq::<Seq<u8>>::empty());
    assert(sp_greedy(seq![x], budget) == seq![x] + Seq::<Seq<u8>>::empty());
    assert(seq![x] + Seq::<Seq<u8>>::empty() =~= seq![x]);
}

/// The action-tagged wire format of the same proposal: kept mempool
/// wrappers come back `Unmodified`, resolved queue entries `Added`;
/// the untagged and the tagged format carry the same ordered list.
#[verifier::loop_isolation(false)]
#[verifier::rlimit(60)]
pub fn build_proposal_records(
    is_validator: bool,
    mempool: &Vec<Vec<u8>>,
    queue: TxQueue,
    privkey: &Vec<u8>,
) -> (r: Vec<TxRecord>)
    requires
        forall|i: int| 0 <= i < queue@.len() ==> (#[trigger] queue@[i]).wf(),
    ensures
        ({
            let want = sp_proposal(is_validator, deep_bytes(mempool@), queue@, privkey@);
            let mem_kept = sp_phase1(deep_bytes(mempool@)).len() as int;
            &&& r@.len() == want.len()
            &&& forall|j: int| 0 <= j < want.len() ==> (#[trigger] r@[j]).tx@ == want[j]
            &&& forall|j: int|
                0 <= j < want.len() ==> (#[trigger] r@[j]).action == (if j < mem_kept {
                    TxAction::Unmodified
                } else {
                    TxAction::Added
                })
        }),
{
    let ghost want: Seq<Seq<u8>> = sp_proposal(
        is_validator,
        deep_bytes(mempool@),
        queue@,
        privkey@,
    );
    let plain = build_proposal(is_validator, mempool, queue, privkey);
    let ghost mem_kept: int = sp_phase1(deep_bytes(mempool@)).len() as int;
    let boundary: usize = if is_validator {
        let kept = filter_mempool(mempool);
        kept.len()
    } else {
        0
    };
    let mut out: Vec<TxRecord> = Vec::new();
    let mut j: usize = 0;
    while j < plain.len()
        invariant
            j <= plain.len(),
            deep_bytes(plain@) == want,
            boundary as int == (if is_validator {
                mem_kept
            } else {
                0
            }),
            out@.len() == j,
            forall|m: int| 0 <= m < j ==> (#[trigger] out@[m]).tx@ == want[m],
            forall|m: int|
                0 <= m < j ==> (#[trigger] out@[m]).action == (if m < boundary as int {
                    TxAction::Unmodified
                } else {
                    TxAction::Added
                }),
        decreases plain.len() - j,
    {
        let bytes = copy_bytes(&plain[j]);
        if j < boundary {
            out.push(keep(bytes));
        } else {
            out.push(crate::proposal::add(bytes));
        }
        j = j + 1;
    }
    proof {
        if !is_validator {
            assert(want.len() == 0);
        }
    }
    out
}

pub proof fn lemma_sum_snoc(s: Seq<Seq<u8>>, x: Seq<u8>)
    ensures
        sum_lens(s.push(x)) == sum_lens(s) + x.len(),
    decreases s.len(),
{
    if s.len() == 0 {
        assert(s.push(x)[0] == x);
        assert(s.push(x).drop_first() =~= Seq::<Seq<u8>>::empty());
        assert(sum_lens(Seq::<Seq<u8>>::empty()) == 0);
        assert(sum_lens(s) == 0);
    } else {
        assert(s.push(x)[0] == s[0]);
        assert(s.push(x).drop_first() =~= s.drop_first().push(x));
        lemma_sum_snoc(s.drop_first(), x);
    }
}

// ---------------------------------------------------------------------
// Laws of the builder
// ---------------------------------------------------------------------
/// A candidate that does not decode, or whose header is `Raw`, never
/// appears in a proposal: every proposal entry decodes to a wrapper
/// or a resolved transaction.
pub proof fn lemma_non_wrapper_exclusion(outputs: Seq<Seq<u8>>, b: Seq<u8>)
    requires
        forall|j: int|
            0 <= j < outputs.len() ==> ((#[trigger] sp_decode(outputs[j])) matches Some(t) && !(
            t.header is Raw) && !(t.header is Protocol)),
        sp_decode(b) is None || sp_decode(b).unwrap().header is Raw,
    ensures
        !outputs.contains(b),
{
    if outputs.contains(b) {
        let j = choose|j: int| 0 <= j < outputs.len() && outputs[j] == b;
        assert(sp_decode(outputs[j]) matches Some(t) && !(t.header is Raw));
    }
}

/// Queue entries appear in the proposal resolved, in enqueue order,
/// each strictly after every mempool-sourced entry.
pub proof fn lemma_queue_ordering(
    mem: Seq<Seq<u8>>,
    es: Seq<TxInQueueV>,
    sk: Seq<u8>,
    i: int,
)
    requires
        0 <= i < es.len(),
    ensures
        sp_proposal(true, mem, es, sk).len() == sp_phase1(mem).len() + es.len(),
        sp_proposal(true, mem, es, sk)[sp_phase1(mem).len() + i] == tx_bytes(
            sp_resolve(es[i], sk),
        ),
{
}

} // verus!
