//! The flat signed-transaction forms that predate the section-based
//! envelope: a payload with an optional detached signature, and the
//! flat transaction whose signing form replaces its code and extra
//! blobs by their hashes.
use vstd::prelude::*;

use crate::crypto::{
    public_of, sha256, sha256_of, sig_of, sig_valid, sign_bytes, valid_secret, verify_bytes,
};
use crate::crypto::now_millis;
use crate::header::{TxType, TxTypeV};
use crate::section::copy_bytes;
use crate::tx::VerifySigError;
use crate::wire::{app_bytes, app_opt_bytes, app_u64, app_u8, enc_bytes, enc_opt_bytes, enc_u64,
    opt_bytes_view};

verus! {

/// A payload with an optional detached signature over it.
#[derive(Debug, Clone, PartialEq, Eq)]
pub struct SignedTxData {
    pub data: Option<Vec<u8>>,
    pub sig: Option<Vec<u8>>,
}

#[verifier::ext_equal]
pub struct SignedTxDataV {
    pub data: Option<Seq<u8>>,
    pub sig: Option<Seq<u8>>,
}

impl View for SignedTxData {
    type V = SignedTxDataV;

    open spec fn view(&self) -> SignedTxDataV {
        SignedTxDataV { data: opt_bytes_view(self.data), sig: opt_bytes_view(self.sig) }
    }
}

impl SignedTxData {
    /// An identical copy.
    pub fn dup(&self) -> (r: SignedTxData)
        ensures
            r@ == self@,
    {
        let data: Option<Vec<u8>> = match &self.data {
            None => None,
            Some(d) => Some(copy_bytes(d)),
        };
        let sig: Option<Vec<u8>> = match &self.sig {
            None => None,
            Some(s) => Some(copy_bytes(s)),
        };
        let r = SignedTxData { data: data, sig: sig };
        assert(r@ =~= self@);
        r
    }
}

/// A header together with an optional signature over it.
#[derive(Debug, Clone, PartialEq, Eq)]
pub struct SignedOuterTxData {
    pub data: TxType,
    pub sig: Option<Vec<u8>>,
}

#[verifier::ext_equal]
pub struct SignedOuterTxDataV {
    pub data: TxTypeV,
    pub sig: Option<Seq<u8>>,
}

impl View for SignedOuterTxData {
    type V = SignedOuterTxDataV;

    open spec fn view(&self) -> SignedOuterTxDataV {
        SignedOuterTxDataV { data: self.data@, sig: opt_bytes_view(self.sig) }
    }
}

/// An arbitrary byte payload under a signature.
#[derive(Debug, Clone, PartialEq, Eq, Hash)]
pub struct Signed {
    pub data: Vec<u8>,
    pub sig: Vec<u8>,
}

impl Signed {
    /// Sign a payload; refused only when the key bytes are no secret
    /// key.
    pub fn new(keypair: &Vec<u8>, data: Vec<u8>) -> (r: Option<Signed>)
        ensures
            r is Some ==> r.unwrap().data@ == data@,
            r is Some ==> r.unwrap().sig@ == sig_of(keypair@, data@),
            r is Some ==> sig_valid(public_of(keypair@), data@, r.unwrap().sig@),
            valid_secret(keypair@) ==> r is Some,
    {
        match sign_bytes(keypair, &data) {
            None => None,
            Some(sig) => Some(Signed { data: data, sig: sig }),
        }
    }

    /// Whether the signature was produced over the payload by the
    /// secret half of the given public key.
    pub fn verify(&self, pk: &Vec<u8>) -> (r: Result<(), VerifySigError>)
        ensures
            r is Ok <==> sig_valid(pk@, self.data@, self.sig@),
            r is Err ==> r == Err::<(), VerifySigError>(VerifySigError::InvalidSig),
    {
        if verify_bytes(pk, &self.data, &self.sig) {
            Ok(())
        } else {
            Err(VerifySigError::InvalidSig)
        }
    }
}

// ---------------------------------------------------------------------
// The flat transaction
// ---------------------------------------------------------------------
/// A flat transaction: code and payload carried whole, stamped at
/// creation time.
#[derive(Debug, Clone, PartialEq, Eq)]
pub struct InnerTx {
    pub code: Vec<u8>,
    pub data: Option<SignedTxData>,
    pub timestamp: u64,
    pub extra: Vec<u8>,
}

#[verifier::ext_equal]
pub struct InnerTxV {
    pub code: Seq<u8>,
    pub data: Option<SignedTxDataV>,
    pub timestamp: u64,
    pub extra: Seq<u8>,
}

impl View for InnerTx {
    type V = InnerTxV;

    open spec fn view(&self) -> InnerTxV {
        InnerTxV {
            code: self.code@,
            data: match self.data {
                None => None,
                Some(d) => Some(d@),
            },
            timestamp: self.timestamp,
            extra: self.extra@,
        }
    }
}

pub open spec fn enc_signed_tx_data(d: SignedTxDataV) -> Seq<u8> {
    enc_opt_bytes(d.data) + enc_opt_bytes(d.sig)
}

/// The wire form of a flat transaction: code, the optional signed
/// payload as one opaque field, the timestamp, and the extra blob.
pub open spec fn enc_inner_tx(t: InnerTxV) -> Seq<u8> {
    enc_bytes(t.code) + (match t.data {
        None => seq![0u8],
        Some(d) => seq![1u8] + enc_bytes(enc_signed_tx_data(d)),
    }) + enc_u64(t.timestamp) + enc_bytes(t.extra)
}

/// The signing form: code and extra replaced by their hashes, the
/// payload kept.
pub open spec fn signing_view(t: InnerTxV) -> InnerTxV {
    InnerTxV {
        code: sha256_of(t.code),
        data: t.data,
        timestamp: t.timestamp,
        extra: sha256_of(t.extra),
    }
}

/// What signing a flat transaction yields: the payload bytes are
/// kept and a fresh signature over the partial hash is attached.
pub open spec fn sp_sign_inner(t: InnerTxV, k: Seq<u8>) -> InnerTxV {
    InnerTxV {
        code: t.code,
        data: Some(
            SignedTxDataV {
                data: match t.data {
                    None => None,
                    Some(d) => d.data,
                },
                sig: Some(sig_of(k, sha256_of(enc_inner_tx(signing_view(t))))),
            },
        ),
        timestamp: t.timestamp,
        extra: t.extra,
    }
}

/// Signing a flat transaction whose payload carries no signature
/// yet, then checking the result, verifies against exactly the hash
/// that was signed: the stripped signing form of the signed
/// transaction is the signing form of the one that was signed.
pub proof fn lemma_sign_then_verify(t: InnerTxV, k: Seq<u8>)
    requires
        t.data is Some,
        t.data.unwrap().sig is None,
    ensures
        sp_verify_target(sp_sign_inner(t, k)) == Some(
            sha256_of(enc_inner_tx(signing_view(t))),
        ),
{
    let signed = sp_sign_inner(t, k);
    let d = t.data.unwrap();
    let stripped = InnerTxV {
        code: signed.code,
        data: Some(SignedTxDataV { data: signed.data.unwrap().data, sig: None }),
        timestamp: signed.timestamp,
        extra: signed.extra,
    };
    assert(stripped =~= t);
}

/// The hash a detached signature over a flat transaction targets:
/// its signing form, with the signature slot emptied, hashed.
pub open spec fn sp_verify_target(t: InnerTxV) -> Option<Seq<u8>> {
    match t.data {
        None => None,
        Some(d) => Some(
            sha256_of(
                enc_inner_tx(
                    signing_view(
                        InnerTxV {
                            code: t.code,
                            data: Some(SignedTxDataV { data: d.data, sig: None }),
                            timestamp: t.timestamp,
                            extra: t.extra,
                        },
                    ),
                ),
            ),
        ),
    }
}

impl InnerTx {
    /// A fresh flat transaction, stamped now.
    pub fn new(code: Vec<u8>, data: Option<SignedTxData>) -> (r: InnerTx)
        ensures
            r@.code == code@,
            r@.data == (match data {
                None => None::<SignedTxDataV>,
                Some(d) => Some(d@),
            }),
            r@.extra == Seq::<u8>::empty(),
    {
        let r = InnerTx { code: code, data: data, timestamp: now_millis(), extra: Vec::new() };
        assert(r@.extra =~= Seq::<u8>::empty());
        r
    }

    /// An identical copy.
    pub fn dup(&self) -> (r: InnerTx)
        ensures
            r@ == self@,
    {
        let data: Option<SignedTxData> = match &self.data {
            None => None,
            Some(d) => Some(d.dup()),
        };
        let r = InnerTx {
            code: copy_bytes(&self.code),
            data: data,
            timestamp: self.timestamp,
            extra: copy_bytes(&self.extra),
        };
        assert(r@ =~= self@);
        r
    }

    /// The wire form.
    pub fn to_bytes(&self) -> (r: Vec<u8>)
        ensures
            r@ == enc_inner_tx(self@),
    {
        let out: Vec<u8> = Vec::new();
        let out = app_bytes(out, &self.code);
        let out = match &self.data {
            None => app_u8(out, 0),
            Some(d) => {
                let inner: Vec<u8> = Vec::new();
                let inner = app_opt_bytes(inner, &d.data);
                let inner = app_opt_bytes(inner, &d.sig);
                assert(inner@ =~= enc_signed_tx_data(d@));
                let out = app_u8(out, 1);
                app_bytes(out, &inner)
            },
        };
        let out = app_u64(out, self.timestamp);
        let out = app_bytes(out, &self.extra);
        assert(out@ =~= enc_inner_tx(self@));
        out
    }

    /// The signing form: code and extra replaced by their hashes, so
    /// a signature commits to them without carrying them.
    pub fn signing_tx(&self) -> (r: InnerTx)
        ensures
            r@ == signing_view(self@),
    {
        let data: Option<SignedTxData> = match &self.data {
            None => None,
            Some(d) => Some(d.dup()),
        };
        let r = InnerTx {
            code: sha256(&self.code),
            data: data,
            timestamp: self.timestamp,
            extra: sha256(&self.extra),
        };
        assert(r@ =~= signing_view(self@));
        r
    }

    /// The hash of the encoded signing form: what gets signed.
    pub fn partial_hash(&self) -> (r: Vec<u8>)
        ensures
            r@ == sha256_of(enc_inner_tx(signing_view(self@))),
            r@.len() == 32,
    {
        let bytes = self.signing_tx().to_bytes();
        sha256(&bytes)
    }

    /// The hash of this transaction's code.
    pub fn code_hash(&self) -> (r: Vec<u8>)
        ensures
            r@ == sha256_of(self@.code),
    {
        sha256(&self.code)
    }

    /// The hash of this transaction's extra blob.
    pub fn extra_hash(&self) -> (r: Vec<u8>)
        ensures
            r@ == sha256_of(self@.extra),
    {
        sha256(&self.extra)
    }

    /// Sign the partial hash and fold the signature into the
    /// payload; refused only when the key bytes are no secret key.
    pub fn sign(self, keypair: &Vec<u8>) -> (r: Option<InnerTx>)
        ensures
            r is Some ==> r.unwrap()@ == sp_sign_inner(self@, keypair@),
            r is Some ==> sig_valid(
                public_of(keypair@),
                sha256_of(enc_inner_tx(signing_view(self@))),
                sig_of(keypair@, sha256_of(enc_inner_tx(signing_view(self@)))),
            ),
            valid_secret(keypair@) ==> r is Some,
    {
        let ghost selfv: InnerTxV = self@;
        let to_sign = self.partial_hash();
        let sig = match sign_bytes(keypair, &to_sign) {
            None => {
                return None;
            },
            Some(s) => s,
        };
        let payload: Option<Vec<u8>> = match self.data {
            None => None,
            Some(d) => d.data,
        };
        let r = InnerTx {
            code: self.code,
            data: Some(SignedTxData { data: payload, sig: Some(sig) }),
            timestamp: self.timestamp,
            extra: self.extra,
        };
        assert(r@ =~= sp_sign_inner(selfv, keypair@));
        Some(r)
    }

    /// Check a detached signature: the payload with its signature
    /// slot emptied, in signing form, must have been signed.
    pub fn verify_sig(&self, pk: &Vec<u8>, sig: &Vec<u8>) -> (r: Result<(), VerifySigError>)
        ensures
            sp_verify_target(self@) is None ==> r == Err::<(), VerifySigError>(
                VerifySigError::MissingData,
            ),
            sp_verify_target(self@) matches Some(h) ==> ((r is Ok <==> sig_valid(
                pk@,
                h,
                sig@,
            )) && (r is Err ==> r == Err::<(), VerifySigError>(VerifySigError::InvalidSig))),
    {
        let signed_tx_data = match &self.data {
            None => {
                return Err(VerifySigError::MissingData);
            },
            Some(d) => d,
        };
        let stripped: Option<Vec<u8>> = match &signed_tx_data.data {
            None => None,
            Some(d) => Some(copy_bytes(d)),
        };
        let tx = InnerTx {
            code: copy_bytes(&self.code),
            data: Some(SignedTxData { data: stripped, sig: None }),
            timestamp: self.timestamp,
            extra: copy_bytes(&self.extra),
        };
        let signed_data = tx.partial_hash();
        proof {
            assert(tx@ =~= InnerTxV {
                code: self@.code,
                data: Some(
                    SignedTxDataV { data: self@.data.unwrap().data, sig: None::<Seq<u8>> },
                ),
                timestamp: self@.timestamp,
                extra: self@.extra,
            });
        }
        if verify_bytes(pk, &signed_data, sig) {
            Ok(())
        } else {
            Err(VerifySigError::InvalidSig)
        }
    }

    /// The flat form carries no ciphertext, so the validity check
    /// passes vacuously.
    pub fn validate_ciphertext(&self) -> (r: bool)
        ensures
            r,
    {
        true
    }
}

} // verus!
