//! Distributed-key-generation gossip messages: a one-field payload
//! under the same style of outer framing as the envelope.
use vstd::prelude::*;

use crate::crypto::{string_from_utf8, string_to_bytes, utf8_of};
use crate::tx::Error;
use crate::wire::{
    app_bytes, app_u8, enc_bytes, fits_u64, lemma_enc_lens, lemma_sp_bytes, rd_bytes, rd_u8,
    sp_bytes, sp_u8,
};

verus! {

/// The tag byte that says a gossip message carries a key-generation
/// payload.
pub const DKG_PRESENT: u8 = 1;

/// A key-generation protocol payload, as gossiped between
/// validators.
#[derive(Debug, Clone, PartialEq, Eq)]
pub struct Dkg {
    pub data: String,
}

/// A gossip message: a key-generation payload behind a presence tag.
#[derive(Debug, Clone, PartialEq, Eq)]
pub struct DkgGossipMessage {
    pub dkg: Dkg,
}

/// The transport form of a payload, as it crosses the wire layer.
#[derive(Debug, Clone, PartialEq, Eq)]
pub struct WireDkg {
    pub data: String,
}

impl From<Dkg> for WireDkg {
    fn from(d: Dkg) -> (r: WireDkg) {
        WireDkg { data: d.data }
    }
}

impl vstd::std_specs::convert::FromSpecImpl<Dkg> for WireDkg {
    open spec fn obeys_from_spec() -> bool {
        true
    }

    open spec fn from_spec(d: Dkg) -> WireDkg {
        WireDkg { data: d.data }
    }
}

impl From<WireDkg> for Dkg {
    fn from(w: WireDkg) -> (r: Dkg) {
        Dkg { data: w.data }
    }
}

impl vstd::std_specs::convert::FromSpecImpl<WireDkg> for Dkg {
    open spec fn obeys_from_spec() -> bool {
        true
    }

    open spec fn from_spec(w: WireDkg) -> Dkg {
        Dkg { data: w.data }
    }
}

/// The wire form of a gossip message holding the given payload text.
pub open spec fn dkg_message_bytes(s: Seq<char>) -> Seq<u8> {
    seq![DKG_PRESENT] + enc_bytes(utf8_of(s))
}

/// The framing layer of a gossip message: the UTF-8 payload bytes it
/// carries, when the tag and length are sound and nothing trails.
pub open spec fn sp_dkg_frame(b: Seq<u8>) -> Option<Seq<u8>> {
    match sp_u8(b, 0) {
        None => None,
        Some((t, _)) => if t == DKG_PRESENT {
            match sp_bytes(b, 1) {
                None => None,
                Some((p, end)) => if end == b.len() {
                    Some(p)
                } else {
                    None
                },
            }
        } else {
            None
        },
    }
}

/// An encoded gossip message frames back to exactly its payload.
pub proof fn lemma_dkg_parses(b: Seq<u8>, s: Seq<char>)
    requires
        b == dkg_message_bytes(s),
        fits_u64(utf8_of(s)),
    ensures
        sp_dkg_frame(b) == Some(utf8_of(s)),
{
    lemma_enc_lens();
    let u = utf8_of(s);
    assert(b[0] == DKG_PRESENT);
    assert(b.subrange(1, 1 + 8 + u.len() as int) =~= enc_bytes(u));
    lemma_sp_bytes(b, 1, u);
}

impl Dkg {
    /// A payload from its text.
    pub fn new(data: String) -> (r: Dkg)
        ensures
            r.data@ == data@,
    {
        Dkg { data: data }
    }
}

impl DkgGossipMessage {
    /// A message around a payload.
    pub fn new(dkg: Dkg) -> (r: DkgGossipMessage)
        ensures
            r.dkg.data@ == dkg.data@,
    {
        DkgGossipMessage { dkg: dkg }
    }

    /// The wire form: the presence tag, then the UTF-8 payload,
    /// length-prefixed.
    pub fn to_bytes(&self) -> (r: Vec<u8>)
        ensures
            r@ == dkg_message_bytes(self.dkg.data@),
    {
        let payload = string_to_bytes(&self.dkg.data);
        let out: Vec<u8> = Vec::new();
        let out = app_u8(out, DKG_PRESENT);
        let out = app_bytes(out, &payload);
        assert(out@ =~= dkg_message_bytes(self.dkg.data@));
        out
    }

    /// Decode a wire form. An absent payload and corrupt framing are
    /// told apart — corruption of the tag, the length, the end or
    /// the UTF-8 yields exactly `DkgDecodingError` — and every
    /// encoded message decodes back to an equal one.
    pub fn try_from_bytes(bytes: &Vec<u8>) -> (r: Result<DkgGossipMessage, Error>)
        ensures
            r is Ok ==> (sp_dkg_frame(bytes@) matches Some(p) && utf8_of(r.unwrap().dkg.data@)
                == p),
            r == Err::<DkgGossipMessage, Error>(Error::NoDkgError) <==> (sp_u8(bytes@, 0)
                matches Some(t0) && t0.0 != DKG_PRESENT),
            sp_u8(bytes@, 0) is None ==> r == Err::<DkgGossipMessage, Error>(
                Error::DkgDecodingError,
            ),
            (sp_u8(bytes@, 0) matches Some(t0) && t0.0 == DKG_PRESENT && sp_dkg_frame(bytes@)
                is None) ==> r == Err::<DkgGossipMessage, Error>(Error::DkgDecodingError),
            (sp_dkg_frame(bytes@) matches Some(p) && !(exists|t: Seq<char>| utf8_of(t) == p))
                ==> r == Err::<DkgGossipMessage, Error>(Error::DkgDecodingError),
            sp_dkg_frame(bytes@) matches Some(p) && (exists|t: Seq<char>| utf8_of(t) == p)
                ==> r is Ok,
            forall|s: Seq<char>|
                bytes@ == dkg_message_bytes(s) ==> (r matches Ok(m) && m.dkg.data@ == s),
    {
        let _len_hint: usize = bytes.len();
        proof {
            lemma_enc_lens();
        }
        match rd_u8(bytes, 0) {
            None => {
                assert forall|s: Seq<char>| bytes@ != dkg_message_bytes(s) by {
                    assert(dkg_message_bytes(s).len() >= 9);
                }
                Err(Error::DkgDecodingError)
            },
            Some((tag, _)) => {
                if tag != DKG_PRESENT {
                    assert forall|s: Seq<char>| bytes@ != dkg_message_bytes(s) by {
                        assert(dkg_message_bytes(s)[0] == DKG_PRESENT);
                    }
                    return Err(Error::NoDkgError);
                }
                match rd_bytes(bytes, 1) {
                    None => {
                        assert forall|s: Seq<char>| bytes@ != dkg_message_bytes(s) by {
                            if fits_u64(utf8_of(s)) {
                                if bytes@ == dkg_message_bytes(s) {
                                    lemma_dkg_parses(bytes@, s);
                                }
                            } else {
                                assert(dkg_message_bytes(s).len() == 9 + utf8_of(s).len());
                            }
                        }
                        Err(Error::DkgDecodingError)
                    },
                    Some((payload, end)) => {
                        if end != bytes.len() {
                            assert forall|s: Seq<char>| bytes@ != dkg_message_bytes(s) by {
                                if fits_u64(utf8_of(s)) {
                                    if bytes@ == dkg_message_bytes(s) {
                                        lemma_dkg_parses(bytes@, s);
                                    }
                                } else {
                                    assert(dkg_message_bytes(s).len() == 9 + utf8_of(s).len());
                                }
                            }
                            return Err(Error::DkgDecodingError);
                        }
                        proof {
                            assert(sp_dkg_frame(bytes@) == Some(payload@));
                        }
                        match string_from_utf8(&payload) {
                            None => {
                                assert forall|s: Seq<char>|
                                    bytes@ != dkg_message_bytes(s) by {
                                    if fits_u64(utf8_of(s)) {
                                        if bytes@ == dkg_message_bytes(s) {
                                            lemma_dkg_parses(bytes@, s);
                                        }
                                    } else {
                                        assert(dkg_message_bytes(s).len() == 9 + utf8_of(
                                            s,
                                        ).len());
                                    }
                                }
                                Err(Error::DkgDecodingError)
                            },
                            Some(text) => {
                                assert forall|s: Seq<char>|
                                    bytes@ == dkg_message_bytes(s) implies text@ == s by {
                                    if fits_u64(utf8_of(s)) {
                                        lemma_dkg_parses(bytes@, s);
                                        assert(utf8_of(s) == payload@);
                                    } else {
                                        assert(dkg_message_bytes(s).len() == 9 + utf8_of(
                                            s,
                                        ).len());
                                    }
                                }
                                Ok(DkgGossipMessage { dkg: Dkg { data: text } })
                            },
                        }
                    },
                }
            },
        }
    }
}

} // verus!
