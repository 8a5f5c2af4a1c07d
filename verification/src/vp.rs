//! Extracting a validity-predicate update from an envelope: the
//! payload names an account and points, by content address, at an
//! extra-data section carrying the new predicate code.
use vstd::prelude::*;

use crate::section::{Section, SectionV};
use crate::tx::{data_of, sp_find_section, Tx, TxV};
use crate::wire::{
    app_bytes, app_raw, enc_bytes, lemma_enc_lens, lemma_sp_bytes, lemma_sp_fixed, lemma_sub_chunk,
    rd_bytes, rd_fixed, sp_bytes, sp_fixed,
};

verus! {

/// A request to replace an account's validity predicate: the account
/// address and the content address of the code section.
#[derive(Debug, Clone, PartialEq, Eq)]
pub struct UpdateVp {
    pub addr: Vec<u8>,
    pub vp_code: Vec<u8>,
}

#[verifier::ext_equal]
pub struct UpdateVpV {
    pub addr: Seq<u8>,
    pub vp_code: Seq<u8>,
}

impl View for UpdateVp {
    type V = UpdateVpV;

    open spec fn view(&self) -> UpdateVpV {
        UpdateVpV { addr: self.addr@, vp_code: self.vp_code@ }
    }
}

impl UpdateVpV {
    pub open spec fn wf(self) -> bool {
        self.vp_code.len() == 32 && crate::wire::fits_u64(self.addr)
    }
}

/// Why an update could not be read out of an envelope.
#[derive(Debug, Clone, Copy, PartialEq, Eq, Structural)]
pub enum VpError {
    /// The envelope's data section is missing.
    MissingData,
    /// The data payload is no update request.
    UndecodableUpdate,
    /// No section carries the named predicate code.
    MissingVpSection,
    /// The named section is not tagged as extra data.
    NotExtraData,
}

pub open spec fn enc_update_vp(u: UpdateVpV) -> Seq<u8> {
    enc_bytes(u.addr) + u.vp_code
}

/// An update request parsed whole from a byte string.
pub open spec fn sp_update_vp(s: Seq<u8>) -> Option<UpdateVpV> {
    match sp_bytes(s, 0) {
        None => None,
        Some((addr, j)) => match sp_fixed(s, j, 32) {
            None => None,
            Some((code, k)) => if k == s.len() {
                Some(UpdateVpV { addr: addr, vp_code: code })
            } else {
                None
            },
        },
    }
}

/// What extracting an update from an envelope yields, step by step:
/// the data payload, the decoded request, and the extra-data section
/// its content address names.
pub open spec fn sp_extract_vp(t: TxV) -> Result<(Seq<u8>, Seq<u8>), VpError> {
    match data_of(t) {
        None => Err(VpError::MissingData),
        Some(bytes) => match sp_update_vp(bytes) {
            None => Err(VpError::UndecodableUpdate),
            Some(u) => match sp_find_section(t.sections, u.vp_code) {
                None => Err(VpError::MissingVpSection),
                Some(SectionV::ExtraData(d)) => Ok((u.addr, d.data)),
                Some(_) => Err(VpError::NotExtraData),
            },
        },
    }
}

/// An encoded update parses back to itself.
pub proof fn lemma_update_vp_round_trip(u: UpdateVpV)
    requires
        u.wf(),
    ensures
        sp_update_vp(enc_update_vp(u)) == Some(u),
{
    lemma_enc_lens();
    let e = enc_update_vp(u);
    assert(e.subrange(0, e.len() as int) =~= e);
    let c1 = enc_bytes(u.addr);
    assert(e.subrange(0, c1.len() as int) =~= c1);
    lemma_sub_chunk(e, 0, e, 0, c1);
    lemma_sp_bytes(e, 0, u.addr);
    assert(e.subrange(c1.len() as int, c1.len() as int + 32) =~= u.vp_code);
    lemma_sub_chunk(e, 0, e, c1.len() as int, u.vp_code);
    lemma_sp_fixed(e, c1.len() as int, u.vp_code);
    assert(sp_update_vp(e).unwrap() =~= u);
}

impl UpdateVp {
    /// The wire form of an update request.
    pub fn to_bytes(&self) -> (r: Vec<u8>)
        ensures
            r@ == enc_update_vp(self@),
    {
        let out: Vec<u8> = Vec::new();
        let out = app_bytes(out, &self.addr);
        let out = app_raw(out, &self.vp_code);
        assert(out@ =~= enc_update_vp(self@));
        out
    }

    /// Parse an update request, consumed exactly.
    pub fn from_bytes(bytes: &Vec<u8>) -> (r: Option<UpdateVp>)
        ensures
            r is Some <==> sp_update_vp(bytes@) is Some,
            r is Some ==> r.unwrap()@ == sp_update_vp(bytes@).unwrap(),
    {
        match rd_bytes(bytes, 0) {
            None => None,
            Some((addr, j)) => match rd_fixed(bytes, j, 32) {
                None => None,
                Some((code, k)) => {
                    if k == bytes.len() {
                        Some(UpdateVp { addr: addr, vp_code: code })
                    } else {
                        None
                    }
                },
            },
        }
    }
}

/// Read a validity-predicate update out of an envelope: the account
/// address and the new predicate code, or exactly which step failed.
pub fn extract_vp_update(tx: &Tx) -> (r: Result<(Vec<u8>, Vec<u8>), VpError>)
    ensures
        r is Ok <==> sp_extract_vp(tx@) is Ok,
        r is Ok ==> (r.unwrap().0@ == sp_extract_vp(tx@).unwrap().0 && r.unwrap().1@
            == sp_extract_vp(tx@).unwrap().1),
        r is Err ==> r->Err_0 == sp_extract_vp(tx@)->Err_0,
{
    let data = match tx.data() {
        None => {
            return Err(VpError::MissingData);
        },
        Some(d) => d,
    };
    let update = match UpdateVp::from_bytes(&data) {
        None => {
            return Err(VpError::UndecodableUpdate);
        },
        Some(u) => u,
    };
    match tx.get_section(&update.vp_code) {
        None => Err(VpError::MissingVpSection),
        Some(Section::ExtraData(d)) => Ok((update.addr, d.data)),
        Some(_) => Err(VpError::NotExtraData),
    }
}

} // verus!
