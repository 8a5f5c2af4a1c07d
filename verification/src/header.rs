//! Transaction headers: the tagged kind of an envelope, with its
//! canonical encoding and round-trip proof.
use vstd::prelude::*;

use crate::wire::{
    app_bool, app_bytes, app_opt_u64, app_raw, app_u64, app_u8, enc_bool, enc_bytes, enc_opt_u64,
    enc_u64, fits_u64, lemma_enc_lens, lemma_sp_bool, lemma_sp_bytes, lemma_sp_fixed,
    lemma_sp_opt_u64, lemma_sp_u64, lemma_sp_u8, lemma_sub_chunk, rd_bool, rd_bytes, rd_fixed,
    rd_opt_u64, rd_u64, rd_u8, sp_bool, sp_bytes, sp_fixed, sp_opt_u64, sp_u64, sp_u8,
};
use crate::section::copy_bytes;

verus! {

pub const HTAG_RAW: u8 = 0;

pub const HTAG_WRAPPER: u8 = 1;

pub const HTAG_DECRYPTED: u8 = 2;

pub const HTAG_PROTOCOL: u8 = 3;

pub const DTAG_RESOLVED: u8 = 0;

pub const DTAG_UNRESOLVABLE: u8 = 1;

/// A plaintext transaction header, pointing at its code and data
/// sections by hash.
#[derive(Debug, Clone, PartialEq, Eq)]
pub struct RawTx {
    pub code_hash: Vec<u8>,
    pub data_hash: Vec<u8>,
}

/// What a wrapper transaction offers to pay.
#[derive(Debug, Clone, PartialEq, Eq)]
pub struct Fee {
    pub amount: u64,
    pub token: Vec<u8>,
}

/// The header of an encrypted (wrapper) transaction.
#[derive(Debug, Clone, PartialEq, Eq)]
pub struct WrapperTx {
    pub fee: Fee,
    pub pub_key: Vec<u8>,
    pub epoch: u64,
    pub gas_limit: u64,
    pub code_hash: Vec<u8>,
    pub data_hash: Vec<u8>,
    pub pow_solution: Option<u64>,
}

/// The outcome of resolving a wrapper committed at the previous
/// height: decrypted, or marked unresolvable with the original
/// wrapper header kept.
#[derive(Debug, Clone, PartialEq, Eq)]
pub enum DecryptedTx {
    Resolved {
        header_hash: Vec<u8>,
        code_hash: Vec<u8>,
        data_hash: Vec<u8>,
        has_valid_pow: bool,
    },
    Unresolvable(WrapperTx),
}

/// An internal protocol transaction header.
#[derive(Debug, Clone, PartialEq, Eq)]
pub struct ProtocolTx {
    pub pub_key: Vec<u8>,
    pub code_hash: Vec<u8>,
    pub data_hash: Vec<u8>,
}

#[derive(Debug, Clone, PartialEq, Eq)]
pub enum TxType {
    Raw(RawTx),
    Wrapper(WrapperTx),
    Decrypted(DecryptedTx),
    Protocol(ProtocolTx),
}

// ---------------------------------------------------------------------
// Views
// ---------------------------------------------------------------------
#[verifier::ext_equal]
pub struct RawTxV {
    pub code_hash: Seq<u8>,
    pub data_hash: Seq<u8>,
}

#[verifier::ext_equal]
pub struct FeeV {
    pub amount: u64,
    pub token: Seq<u8>,
}

#[verifier::ext_equal]
pub struct WrapperTxV {
    pub fee: FeeV,
    pub pub_key: Seq<u8>,
    pub epoch: u64,
    pub gas_limit: u64,
    pub code_hash: Seq<u8>,
    pub data_hash: Seq<u8>,
    pub pow_solution: Option<u64>,
}

#[verifier::ext_equal]
pub enum DecryptedTxV {
    Resolved {
        header_hash: Seq<u8>,
        code_hash: Seq<u8>,
        data_hash: Seq<u8>,
        has_valid_pow: bool,
    },
    Unresolvable(WrapperTxV),
}

#[verifier::ext_equal]
pub struct ProtocolTxV {
    pub pub_key: Seq<u8>,
    pub code_hash: Seq<u8>,
    pub data_hash: Seq<u8>,
}

#[verifier::ext_equal]
pub enum TxTypeV {
    Raw(RawTxV),
    Wrapper(WrapperTxV),
    Decrypted(DecryptedTxV),
    Protocol(ProtocolTxV),
}

impl View for RawTx {
    type V = RawTxV;

    open spec fn view(&self) -> RawTxV {
        RawTxV { code_hash: self.code_hash@, data_hash: self.data_hash@ }
    }
}

impl View for Fee {
    type V = FeeV;

    open spec fn view(&self) -> FeeV {
        FeeV { amount: self.amount, token: self.token@ }
    }
}

impl View for WrapperTx {
    type V = WrapperTxV;

    open spec fn view(&self) -> WrapperTxV {
        WrapperTxV {
            fee: self.fee@,
            pub_key: self.pub_key@,
            epoch: self.epoch,
            gas_limit: self.gas_limit,
            code_hash: self.code_hash@,
            data_hash: self.data_hash@,
            pow_solution: self.pow_solution,
        }
    }
}

impl View for DecryptedTx {
    type V = DecryptedTxV;

    open spec fn view(&self) -> DecryptedTxV {
        match self {
            DecryptedTx::Resolved { header_hash, code_hash, data_hash, has_valid_pow } => (
            DecryptedTxV::Resolved {
                header_hash: header_hash@,
                code_hash: code_hash@,
                data_hash: data_hash@,
                has_valid_pow: *has_valid_pow,
            }),
            DecryptedTx::Unresolvable(w) => DecryptedTxV::Unresolvable(w@),
        }
    }
}

impl View for ProtocolTx {
    type V = ProtocolTxV;

    open spec fn view(&self) -> ProtocolTxV {
        ProtocolTxV {
            pub_key: self.pub_key@,
            code_hash: self.code_hash@,
            data_hash: self.data_hash@,
        }
    }
}

impl View for TxType {
    type V = TxTypeV;

    open spec fn view(&self) -> TxTypeV {
        match self {
            TxType::Raw(r) => TxTypeV::Raw(r@),
            TxType::Wrapper(w) => TxTypeV::Wrapper(w@),
            TxType::Decrypted(d) => TxTypeV::Decrypted(d@),
            TxType::Protocol(p) => TxTypeV::Protocol(p@),
        }
    }
}

// ---------------------------------------------------------------------
// Well-formedness
// ---------------------------------------------------------------------
impl RawTxV {
    pub open spec fn wf(self) -> bool {
        self.code_hash.len() == 32 && self.data_hash.len() == 32
    }
}

impl WrapperTxV {
    pub open spec fn wf(self) -> bool {
        fits_u64(self.fee.token) && fits_u64(self.pub_key) && self.code_hash.len() == 32
            && self.data_hash.len() == 32
    }
}

impl DecryptedTxV {
    pub open spec fn wf(self) -> bool {
        match self {
            DecryptedTxV::Resolved { header_hash, code_hash, data_hash, has_valid_pow } => (
            header_hash.len() == 32 && code_hash.len() == 32 && data_hash.len() == 32),
            DecryptedTxV::Unresolvable(w) => w.wf(),
        }
    }
}

impl ProtocolTxV {
    pub open spec fn wf(self) -> bool {
        fits_u64(self.pub_key) && self.code_hash.len() == 32 && self.data_hash.len() == 32
    }
}

impl TxTypeV {
    pub open spec fn wf(self) -> bool {
        match self {
            TxTypeV::Raw(r) => r.wf(),
            TxTypeV::Wrapper(w) => w.wf(),
            TxTypeV::Decrypted(d) => d.wf(),
            TxTypeV::Protocol(p) => p.wf(),
        }
    }
}

impl TxType {
    pub open spec fn wf(self) -> bool {
        self@.wf()
    }
}

// ---------------------------------------------------------------------
// Canonical encoding, at the spec level
// ---------------------------------------------------------------------
pub open spec fn enc_raw_body(r: RawTxV) -> Seq<u8> {
    r.code_hash + r.data_hash
}

pub open spec fn enc_wrapper_body(w: WrapperTxV) -> Seq<u8> {
    enc_u64(w.fee.amount) + enc_bytes(w.fee.token) + enc_bytes(w.pub_key) + enc_u64(w.epoch)
        + enc_u64(w.gas_limit) + w.code_hash + w.data_hash + enc_opt_u64(w.pow_solution)
}

pub open spec fn enc_resolved_body(
    header_hash: Seq<u8>,
    code_hash: Seq<u8>,
    data_hash: Seq<u8>,
    has_valid_pow: bool,
) -> Seq<u8> {
    header_hash + code_hash + data_hash + enc_bool(has_valid_pow)
}

pub open spec fn enc_decrypted_body(d: DecryptedTxV) -> Seq<u8> {
    match d {
        DecryptedTxV::Resolved { header_hash, code_hash, data_hash, has_valid_pow } => (seq![
            DTAG_RESOLVED,
        ] + enc_resolved_body(header_hash, code_hash, data_hash, has_valid_pow)),
        DecryptedTxV::Unresolvable(w) => seq![DTAG_UNRESOLVABLE] + enc_wrapper_body(w),
    }
}

pub open spec fn enc_protocol_body(p: ProtocolTxV) -> Seq<u8> {
    enc_bytes(p.pub_key) + p.code_hash + p.data_hash
}

pub open spec fn header_tag_of(t: TxTypeV) -> u8 {
    match t {
        TxTypeV::Raw(_) => HTAG_RAW,
        TxTypeV::Wrapper(_) => HTAG_WRAPPER,
        TxTypeV::Decrypted(_) => HTAG_DECRYPTED,
        TxTypeV::Protocol(_) => HTAG_PROTOCOL,
    }
}

pub open spec fn enc_header_body(t: TxTypeV) -> Seq<u8> {
    match t {
        TxTypeV::Raw(r) => enc_raw_body(r),
        TxTypeV::Wrapper(w) => enc_wrapper_body(w),
        TxTypeV::Decrypted(d) => enc_decrypted_body(d),
        TxTypeV::Protocol(p) => enc_protocol_body(p),
    }
}

/// The canonical encoding of a header; its SHA-256 digest is the
/// envelope's header hash.
pub open spec fn enc_header(t: TxTypeV) -> Seq<u8> {
    seq![header_tag_of(t)] + enc_header_body(t)
}

// ---------------------------------------------------------------------
// Parsing, at the spec level
// ---------------------------------------------------------------------
pub open spec fn sp_raw_body(s: Seq<u8>, i: int) -> Option<(RawTxV, int)> {
    match sp_fixed(s, i, 32) {
        None => None,
        Some((ch, j)) => match sp_fixed(s, j, 32) {
            None => None,
            Some((dh, k)) => Some((RawTxV { code_hash: ch, data_hash: dh }, k)),
        },
    }
}

pub open spec fn sp_wrapper_body(s: Seq<u8>, i: int) -> Option<(WrapperTxV, int)> {
    match sp_u64(s, i) {
        None => None,
        Some((amount, j1)) => match sp_bytes(s, j1) {
            None => None,
            Some((token, j2)) => match sp_bytes(s, j2) {
                None => None,
                Some((pk, j3)) => match sp_u64(s, j3) {
                    None => None,
                    Some((epoch, j4)) => match sp_u64(s, j4) {
                        None => None,
                        Some((gas, j5)) => match sp_fixed(s, j5, 32) {
                            None => None,
                            Some((ch, j6)) => match sp_fixed(s, j6, 32) {
                                None => None,
                                Some((dh, j7)) => match sp_opt_u64(s, j7) {
                                    None => None,
                                    Some((pow, j8)) => Some(
                                        (
                                            WrapperTxV {
                                                fee: FeeV { amount: amount, token: token },
                                                pub_key: pk,
                                                epoch: epoch,
                                                gas_limit: gas,
                                                code_hash: ch,
                                                data_hash: dh,
                                                pow_solution: pow,
                                            },
                                            j8,
                                        ),
                                    ),
                                },
                            },
                        },
                    },
                },
            },
        },
    }
}

pub open spec fn sp_decrypted_body(s: Seq<u8>, i: int) -> Option<(DecryptedTxV, int)> {
    match sp_u8(s, i) {
        None => None,
        Some((t, j)) => if t == DTAG_RESOLVED {
            match sp_fixed(s, j, 32) {
                None => None,
                Some((hh, k1)) => match sp_fixed(s, k1, 32) {
                    None => None,
                    Some((ch, k2)) => match sp_fixed(s, k2, 32) {
                        None => None,
                        Some((dh, k3)) => match sp_bool(s, k3) {
                            None => None,
                            Some((pow, k4)) => Some(
                                (
                                    DecryptedTxV::Resolved {
                                        header_hash: hh,
                                        code_hash: ch,
                                        data_hash: dh,
                                        has_valid_pow: pow,
                                    },
                                    k4,
                                ),
                            ),
                        },
                    },
                },
            }
        } else if t == DTAG_UNRESOLVABLE {
            match sp_wrapper_body(s, j) {
                None => None,
                Some((w, k)) => Some((DecryptedTxV::Unresolvable(w), k)),
            }
        } else {
            None
        },
    }
}

pub open spec fn sp_protocol_body(s: Seq<u8>, i: int) -> Option<(ProtocolTxV, int)> {
    match sp_bytes(s, i) {
        None => None,
        Some((pk, j)) => match sp_fixed(s, j, 32) {
            None => None,
            Some((ch, k)) => match sp_fixed(s, k, 32) {
                None => None,
                Some((dh, m)) => Some(
                    (ProtocolTxV { pub_key: pk, code_hash: ch, data_hash: dh }, m),
                ),
            },
        },
    }
}

pub open spec fn sp_header(s: Seq<u8>, i: int) -> Option<(TxTypeV, int)> {
    match sp_u8(s, i) {
        None => None,
        Some((t, j)) => if t == HTAG_RAW {
            match sp_raw_body(s, j) {
                None => None,
                Some((r, k)) => Some((TxTypeV::Raw(r), k)),
            }
        } else if t == HTAG_WRAPPER {
            match sp_wrapper_body(s, j) {
                None => None,
                Some((w, k)) => Some((TxTypeV::Wrapper(w), k)),
            }
        } else if t == HTAG_DECRYPTED {
            match sp_decrypted_body(s, j) {
                None => None,
                Some((d, k)) => Some((TxTypeV::Decrypted(d), k)),
            }
        } else if t == HTAG_PROTOCOL {
            match sp_protocol_body(s, j) {
                None => None,
                Some((p, k)) => Some((TxTypeV::Protocol(p), k)),
            }
        } else {
            None
        },
    }
}

// ---------------------------------------------------------------------
// Round-trip lemmas
// ---------------------------------------------------------------------
pub proof fn lemma_sp_raw_body(s: Seq<u8>, i: int, r: RawTxV)
    requires
        r.wf(),
        0 <= i,
        i + enc_raw_body(r).len() <= s.len(),
        s.subrange(i, i + enc_raw_body(r).len()) == enc_raw_body(r),
    ensures
        sp_raw_body(s, i) == Some((r, i + enc_raw_body(r).len())),
{
    let e = enc_raw_body(r);
    assert(e.subrange(0, 32) =~= r.code_hash);
    lemma_sub_chunk(s, i, e, 0, r.code_hash);
    lemma_sp_fixed(s, i, r.code_hash);
    assert(e.subrange(32, 64) =~= r.data_hash);
    lemma_sub_chunk(s, i, e, 32, r.data_hash);
    lemma_sp_fixed(s, i + 32, r.data_hash);
}

pub proof fn lemma_sp_wrapper_body(s: Seq<u8>, i: int, w: WrapperTxV)
    requires
        w.wf(),
        0 <= i,
        i + enc_wrapper_body(w).len() <= s.len(),
        s.subrange(i, i + enc_wrapper_body(w).len()) == enc_wrapper_body(w),
    ensures
        sp_wrapper_body(s, i) == Some((w, i + enc_wrapper_body(w).len())),
{
    lemma_enc_lens();
    let e = enc_wrapper_body(w);
    let a1 = enc_u64(w.fee.amount);
    let a2 = enc_bytes(w.fee.token);
    let a3 = enc_bytes(w.pub_key);
    let a4 = enc_u64(w.epoch);
    let a5 = enc_u64(w.gas_limit);
    let a6 = w.code_hash;
    let a7 = w.data_hash;
    let a8 = enc_opt_u64(w.pow_solution);
    let o2 = 8int;
    let o3 = o2 + a2.len() as int;
    let o4 = o3 + a3.len() as int;
    let o5 = o4 + 8;
    let o6 = o5 + 8;
    let o7 = o6 + 32;
    let o8 = o7 + 32;
    let o9 = o8 + a8.len() as int;
    assert(e.subrange(0, o2) =~= a1);
    lemma_sub_chunk(s, i, e, 0, a1);
    lemma_sp_u64(s, i, w.fee.amount);
    assert(e.subrange(o2, o3) =~= a2);
    lemma_sub_chunk(s, i, e, o2, a2);
    lemma_sp_bytes(s, i + o2, w.fee.token);
    assert(e.subrange(o3, o4) =~= a3);
    lemma_sub_chunk(s, i, e, o3, a3);
    lemma_sp_bytes(s, i + o3, w.pub_key);
    assert(e.subrange(o4, o5) =~= a4);
    lemma_sub_chunk(s, i, e, o4, a4);
    lemma_sp_u64(s, i + o4, w.epoch);
    assert(e.subrange(o5, o6) =~= a5);
    lemma_sub_chunk(s, i, e, o5, a5);
    lemma_sp_u64(s, i + o5, w.gas_limit);
    assert(e.subrange(o6, o7) =~= a6);
    lemma_sub_chunk(s, i, e, o6, a6);
    lemma_sp_fixed(s, i + o6, a6);
    assert(e.subrange(o7, o8) =~= a7);
    lemma_sub_chunk(s, i, e, o7, a7);
    lemma_sp_fixed(s, i + o7, a7);
    assert(e.subrange(o8, o9) =~= a8);
    lemma_sub_chunk(s, i, e, o8, a8);
    lemma_sp_opt_u64(s, i + o8, w.pow_solution);
}

pub proof fn lemma_sp_decrypted_body(s: Seq<u8>, i: int, d: DecryptedTxV)
    requires
        d.wf(),
        0 <= i,
        i + enc_decrypted_body(d).len() <= s.len(),
        s.subrange(i, i + enc_decrypted_body(d).len()) == enc_decrypted_body(d),
    ensures
        sp_decrypted_body(s, i) == Some((d, i + enc_decrypted_body(d).len())),
{
    lemma_enc_lens();
    let e = enc_decrypted_body(d);
    match d {
        DecryptedTxV::Resolved { header_hash, code_hash, data_hash, has_valid_pow } => {
            assert(e.subrange(0, 1) =~= seq![DTAG_RESOLVED]);
            lemma_sub_chunk(s, i, e, 0, seq![DTAG_RESOLVED]);
            lemma_sp_u8(s, i, DTAG_RESOLVED);
            assert(e.subrange(1, 33) =~= header_hash);
            lemma_sub_chunk(s, i, e, 1, header_hash);
            lemma_sp_fixed(s, i + 1, header_hash);
            assert(e.subrange(33, 65) =~= code_hash);
            lemma_sub_chunk(s, i, e, 33, code_hash);
            lemma_sp_fixed(s, i + 33, code_hash);
            assert(e.subrange(65, 97) =~= data_hash);
            lemma_sub_chunk(s, i, e, 65, data_hash);
            lemma_sp_fixed(s, i + 65, data_hash);
            assert(e.subrange(97, 98) =~= enc_bool(has_valid_pow));
            lemma_sub_chunk(s, i, e, 97, enc_bool(has_valid_pow));
            lemma_sp_bool(s, i + 97, has_valid_pow);
        },
        DecryptedTxV::Unresolvable(w) => {
            let body = enc_wrapper_body(w);
            assert(e.subrange(0, 1) =~= seq![DTAG_UNRESOLVABLE]);
            lemma_sub_chunk(s, i, e, 0, seq![DTAG_UNRESOLVABLE]);
            lemma_sp_u8(s, i, DTAG_UNRESOLVABLE);
            assert(e.subrange(1, 1 + body.len() as int) =~= body);
            lemma_sub_chunk(s, i, e, 1, body);
            lemma_sp_wrapper_body(s, i + 1, w);
        },
    }
}

pub proof fn lemma_sp_protocol_body(s: Seq<u8>, i: int, p: ProtocolTxV)
    requires
        p.wf(),
        0 <= i,
        i + enc_protocol_body(p).len() <= s.len(),
        s.subrange(i, i + enc_protocol_body(p).len()) == enc_protocol_body(p),
    ensures
        sp_protocol_body(s, i) == Some((p, i + enc_protocol_body(p).len())),
{
    lemma_enc_lens();
    let e = enc_protocol_body(p);
    let a1 = enc_bytes(p.pub_key);
    let o2 = a1.len() as int;
    assert(e.subrange(0, o2) =~= a1);
    lemma_sub_chunk(s, i, e, 0, a1);
    lemma_sp_bytes(s, i, p.pub_key);
    assert(e.subrange(o2, o2 + 32) =~= p.code_hash);
    lemma_sub_chunk(s, i, e, o2, p.code_hash);
    lemma_sp_fixed(s, i + o2, p.code_hash);
    assert(e.subrange(o2 + 32, o2 + 64) =~= p.data_hash);
    lemma_sub_chunk(s, i, e, o2 + 32, p.data_hash);
    lemma_sp_fixed(s, i + o2 + 32, p.data_hash);
}

pub proof fn lemma_sp_header(s: Seq<u8>, i: int, t: TxTypeV)
    requires
        t.wf(),
        0 <= i,
        i + enc_header(t).len() <= s.len(),
        s.subrange(i, i + enc_header(t).len()) == enc_header(t),
    ensures
        sp_header(s, i) == Some((t, i + enc_header(t).len())),
{
    let e = enc_header(t);
    let body = enc_header_body(t);
    assert(e.subrange(0, 1) =~= seq![header_tag_of(t)]);
    lemma_sub_chunk(s, i, e, 0, seq![header_tag_of(t)]);
    lemma_sp_u8(s, i, header_tag_of(t));
    assert(e.subrange(1, 1 + body.len() as int) =~= body);
    lemma_sub_chunk(s, i, e, 1, body);
    match t {
        TxTypeV::Raw(r) => {
            lemma_sp_raw_body(s, i + 1, r);
        },
        TxTypeV::Wrapper(w) => {
            lemma_sp_wrapper_body(s, i + 1, w);
        },
        TxTypeV::Decrypted(d) => {
            lemma_sp_decrypted_body(s, i + 1, d);
        },
        TxTypeV::Protocol(p) => {
            lemma_sp_protocol_body(s, i + 1, p);
        },
    }
}

// ---------------------------------------------------------------------
// Executable encoding and parsing
// ---------------------------------------------------------------------
pub fn encode_wrapper_body(buf: Vec<u8>, w: &WrapperTx) -> (r: Vec<u8>)
    ensures
        r@ == buf@ + enc_wrapper_body(w@),
{
    let ghost start: Seq<u8> = buf@;
    let b = app_u64(buf, w.fee.amount);
    let b = app_bytes(b, &w.fee.token);
    let b = app_bytes(b, &w.pub_key);
    let b = app_u64(b, w.epoch);
    let b = app_u64(b, w.gas_limit);
    let b = app_raw(b, &w.code_hash);
    let b = app_raw(b, &w.data_hash);
    let b = app_opt_u64(b, &w.pow_solution);
    assert(b@ =~= start + enc_wrapper_body(w@));
    b
}

pub fn encode_header(buf: Vec<u8>, t: &TxType) -> (r: Vec<u8>)
    ensures
        r@ == buf@ + enc_header(t@),
{
    let ghost start: Seq<u8> = buf@;
    match t {
        TxType::Raw(rw) => {
            let b = app_u8(buf, HTAG_RAW);
            let b = app_raw(b, &rw.code_hash);
            let b = app_raw(b, &rw.data_hash);
            assert(b@ =~= start + enc_header(t@));
            b
        },
        TxType::Wrapper(w) => {
            let b = app_u8(buf, HTAG_WRAPPER);
            let b = encode_wrapper_body(b, w);
            assert(b@ =~= start + enc_header(t@));
            b
        },
        TxType::Decrypted(DecryptedTx::Resolved {
            header_hash,
            code_hash,
            data_hash,
            has_valid_pow,
        }) => {
            let b = app_u8(buf, HTAG_DECRYPTED);
            let b = app_u8(b, DTAG_RESOLVED);
            let b = app_raw(b, header_hash);
            let b = app_raw(b, code_hash);
            let b = app_raw(b, data_hash);
            let b = app_bool(b, *has_valid_pow);
            assert(b@ =~= start + enc_header(t@));
            b
        },
        TxType::Decrypted(DecryptedTx::Unresolvable(w)) => {
            let b = app_u8(buf, HTAG_DECRYPTED);
            let b = app_u8(b, DTAG_UNRESOLVABLE);
            let b = encode_wrapper_body(b, w);
            assert(b@ =~= start + enc_header(t@));
            b
        },
        TxType::Protocol(p) => {
            let b = app_u8(buf, HTAG_PROTOCOL);
            let b = app_bytes(b, &p.pub_key);
            let b = app_raw(b, &p.code_hash);
            let b = app_raw(b, &p.data_hash);
            assert(b@ =~= start + enc_header(t@));
            b
        },
    }
}

/// The canonical encoding of a header, alone.
pub fn header_bytes(t: &TxType) -> (r: Vec<u8>)
    ensures
        r@ == enc_header(t@),
{
    let buf: Vec<u8> = Vec::new();
    let r = encode_header(buf, t);
    assert(r@ =~= enc_header(t@));
    r
}

pub fn parse_wrapper_body(s: &Vec<u8>, i: usize) -> (r: Option<(WrapperTx, usize)>)
    ensures
        r is Some <==> sp_wrapper_body(s@, i as int) is Some,
        r is Some ==> ({
            let (v, j) = sp_wrapper_body(s@, i as int).unwrap();
            r.unwrap().0@ == v && r.unwrap().1 as int == j && v.wf()
        }),
{
    match rd_u64(s, i) {
        None => None,
        Some((amount, j1)) => match rd_bytes(s, j1) {
            None => None,
            Some((token, j2)) => match rd_bytes(s, j2) {
                None => None,
                Some((pk, j3)) => match rd_u64(s, j3) {
                    None => None,
                    Some((epoch, j4)) => match rd_u64(s, j4) {
                        None => None,
                        Some((gas, j5)) => match rd_fixed(s, j5, 32) {
                            None => None,
                            Some((ch, j6)) => match rd_fixed(s, j6, 32) {
                                None => None,
                                Some((dh, j7)) => match rd_opt_u64(s, j7) {
                                    None => None,
                                    Some((pow, j8)) => Some(
                                        (
                                            WrapperTx {
                                                fee: Fee { amount: amount, token: token },
                                                pub_key: pk,
                                                epoch: epoch,
                                                gas_limit: gas,
                                                code_hash: ch,
                                                data_hash: dh,
                                                pow_solution: pow,
                                            },
                                            j8,
                                        ),
                                    ),
                                },
                            },
                        },
                    },
                },
            },
        },
    }
}

pub fn parse_header(s: &Vec<u8>, i: usize) -> (r: Option<(TxType, usize)>)
    ensures
        r is Some <==> sp_header(s@, i as int) is Some,
        r is Some ==> ({
            let (v, j) = sp_header(s@, i as int).unwrap();
            r.unwrap().0@ == v && r.unwrap().1 as int == j && v.wf()
        }),
{
    match rd_u8(s, i) {
        None => None,
        Some((t, j)) => {
            if t == HTAG_RAW {
                match rd_fixed(s, j, 32) {
                    None => None,
                    Some((ch, k1)) => match rd_fixed(s, k1, 32) {
                        None => None,
                        Some((dh, k2)) => Some(
                            (TxType::Raw(RawTx { code_hash: ch, data_hash: dh }), k2),
                        ),
                    },
                }
            } else if t == HTAG_WRAPPER {
                match parse_wrapper_body(s, j) {
                    None => None,
                    Some((w, k)) => Some((TxType::Wrapper(w), k)),
                }
            } else if t == HTAG_DECRYPTED {
                match rd_u8(s, j) {
                    None => None,
                    Some((dt, k)) => {
                        if dt == DTAG_RESOLVED {
                            match rd_fixed(s, k, 32) {
                                None => None,
                                Some((hh, k1)) => match rd_fixed(s, k1, 32) {
                                    None => None,
                                    Some((ch, k2)) => match rd_fixed(s, k2, 32) {
                                        None => None,
                                        Some((dh, k3)) => match rd_bool(s, k3) {
                                            None => None,
                                            Some((pow, k4)) => Some(
                                                (
                                                    TxType::Decrypted(
                                                        DecryptedTx::Resolved {
                                                            header_hash: hh,
                                                            code_hash: ch,
                                                            data_hash: dh,
                                                            has_valid_pow: pow,
                                                        },
                                                    ),
                                                    k4,
                                                ),
                                            ),
                                        },
                                    },
                                },
                            }
                        } else if dt == DTAG_UNRESOLVABLE {
                            match parse_wrapper_body(s, k) {
                                None => None,
                                Some((w, m)) => Some(
                                    (TxType::Decrypted(DecryptedTx::Unresolvable(w)), m),
                                ),
                            }
                        } else {
                            None
                        }
                    },
                }
            } else if t == HTAG_PROTOCOL {
                match rd_bytes(s, j) {
                    None => None,
                    Some((pk, k1)) => match rd_fixed(s, k1, 32) {
                        None => None,
                        Some((ch, k2)) => match rd_fixed(s, k2, 32) {
                            None => None,
                            Some((dh, k3)) => Some(
                                (
                                    TxType::Protocol(
                                        ProtocolTx { pub_key: pk, code_hash: ch, data_hash: dh },
                                    ),
                                    k3,
                                ),
                            ),
                        },
                    },
                }
            } else {
                None
            }
        },
    }
}

// ---------------------------------------------------------------------
// Copies
// ---------------------------------------------------------------------
impl Fee {
    /// An identical copy.
    pub fn dup(&self) -> (r: Fee)
        ensures
            r@ == self@,
    {
        Fee { amount: self.amount, token: copy_bytes(&self.token) }
    }
}

impl WrapperTx {
    /// An identical copy.
    pub fn dup(&self) -> (r: WrapperTx)
        ensures
            r@ == self@,
    {
        WrapperTx {
            fee: self.fee.dup(),
            pub_key: copy_bytes(&self.pub_key),
            epoch: self.epoch,
            gas_limit: self.gas_limit,
            code_hash: copy_bytes(&self.code_hash),
            data_hash: copy_bytes(&self.data_hash),
            pow_solution: self.pow_solution,
        }
    }
}

impl RawTx {
    /// An identical copy.
    pub fn dup(&self) -> (r: RawTx)
        ensures
            r@ == self@,
    {
        RawTx { code_hash: copy_bytes(&self.code_hash), data_hash: copy_bytes(&self.data_hash) }
    }
}

impl ProtocolTx {
    /// An identical copy.
    pub fn dup(&self) -> (r: ProtocolTx)
        ensures
            r@ == self@,
    {
        ProtocolTx {
            pub_key: copy_bytes(&self.pub_key),
            code_hash: copy_bytes(&self.code_hash),
            data_hash: copy_bytes(&self.data_hash),
        }
    }
}

impl DecryptedTx {
    /// An identical copy.
    pub fn dup(&self) -> (r: DecryptedTx)
        ensures
            r@ == self@,
    {
        match self {
            DecryptedTx::Resolved { header_hash, code_hash, data_hash, has_valid_pow } => (
            DecryptedTx::Resolved {
                header_hash: copy_bytes(header_hash),
                code_hash: copy_bytes(code_hash),
                data_hash: copy_bytes(data_hash),
                has_valid_pow: *has_valid_pow,
            }),
            DecryptedTx::Unresolvable(w) => DecryptedTx::Unresolvable(w.dup()),
        }
    }
}

impl TxType {
    /// An identical copy.
    pub fn dup(&self) -> (r: TxType)
        ensures
            r@ == self@,
    {
        match self {
            TxType::Raw(rw) => TxType::Raw(rw.dup()),
            TxType::Wrapper(w) => TxType::Wrapper(w.dup()),
            TxType::Decrypted(d) => TxType::Decrypted(d.dup()),
            TxType::Protocol(p) => TxType::Protocol(p.dup()),
        }
    }
}

} // verus!
