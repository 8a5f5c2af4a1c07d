//! The transaction envelope: a header plus an ordered run of
//! sections, with its two-layer wire format.
//!
//! The outer layer is a generic message holding one opaque byte
//! field; the inner layer is the canonical encoding of the header and
//! the sections. Decoding distinguishes outer-framing corruption from
//! inner-schema mismatch.
use vstd::prelude::*;

use crate::crypto::{
    ciphertext_check, ct_valid, decrypt_bytes, decryption_of, encrypt_bytes, public_of, sha256,
    sha256_of, sig_valid, valid_public, verify_bytes,
};
use crate::header::{
    enc_header, header_bytes, lemma_sp_header, parse_header, sp_header, DecryptedTx, DecryptedTxV,
    ProtocolTx, ProtocolTxV, RawTx, RawTxV, TxType, TxTypeV, WrapperTx, WrapperTxV,
};
use crate::section::{
    copy_bytes, enc_section, lemma_section_exact_round_trip, lemma_sp_section,
    parse_section, parse_section_exact, section_bytes, section_hash, sp_section,
    sp_section_exact, Ciphertext, CiphertextV, Code, Data, Section, SectionV,
};
use crate::wire::bytes_eq;
use crate::wire::{
    app_bytes, app_u8, enc_bytes, enc_u64, fits_u64, lemma_enc_lens, lemma_sp_bytes, lemma_sp_u64,
    lemma_sub_chunk, rd_bytes, rd_u64, rd_u8, sp_bytes, sp_u64, sp_u8,
};

verus! {

/// The tag byte that opens the outer framing message: field one,
/// length-delimited.
pub const OUTER_TAG: u8 = 10;

/// Why a byte string failed to decode, or what a gossip message
/// lacked.
#[derive(Debug, Clone, Copy, PartialEq, Eq, Structural)]
pub enum Error {
    /// The outer framing message is corrupt.
    TxDecodingError,
    /// The outer framing is sound but the envelope inside does not
    /// match the schema.
    TxDeserializingError,
    /// The outer framing of a gossip message is corrupt.
    DkgDecodingError,
    /// A gossip message carried no payload.
    NoDkgError,
}

#[derive(Debug, Clone, PartialEq, Eq)]
pub struct Tx {
    pub header: TxType,
    pub sections: Vec<Section>,
}

#[verifier::ext_equal]
pub struct TxV {
    pub header: TxTypeV,
    pub sections: Seq<SectionV>,
}

pub open spec fn views_of(ss: Seq<Section>) -> Seq<SectionV> {
    ss.map_values(|x: Section| x@)
}

impl View for Tx {
    type V = TxV;

    open spec fn view(&self) -> TxV {
        TxV { header: self.header@, sections: views_of(self.sections@) }
    }
}

impl TxV {
    pub open spec fn wf(self) -> bool {
        &&& self.header.wf()
        &&& self.sections.len() <= u64::MAX
        &&& forall|i: int| 0 <= i < self.sections.len() ==> #[trigger] self.sections[i].wf()
    }
}

impl Tx {
    pub open spec fn wf(self) -> bool {
        self@.wf()
    }
}

// ---------------------------------------------------------------------
// Canonical encoding, at the spec level
// ---------------------------------------------------------------------
pub open spec fn enc_sections(ss: Seq<SectionV>) -> Seq<u8>
    decreases ss.len(),
{
    if ss.len() == 0 {
        Seq::<u8>::empty()
    } else {
        enc_section(ss[0]) + enc_sections(ss.drop_first())
    }
}

/// The inner layer: header, section count, sections.
pub open spec fn enc_tx(t: TxV) -> Seq<u8> {
    enc_header(t.header) + enc_u64(t.sections.len() as u64) + enc_sections(t.sections)
}

/// The outer layer around an opaque payload.
pub open spec fn enc_outer(payload: Seq<u8>) -> Seq<u8> {
    seq![OUTER_TAG] + enc_bytes(payload)
}

/// The full wire form of an envelope.
pub open spec fn tx_bytes(t: TxV) -> Seq<u8> {
    enc_outer(enc_tx(t))
}

// ---------------------------------------------------------------------
// Parsing, at the spec level
// ---------------------------------------------------------------------
pub open spec fn sp_sections(s: Seq<u8>, i: int, n: nat) -> Option<(Seq<SectionV>, int)>
    decreases n,
{
    if n == 0 {
        Some((Seq::<SectionV>::empty(), i))
    } else {
        match sp_section(s, i) {
            None => None,
            Some((v, j)) => match sp_sections(s, j, (n - 1) as nat) {
                None => None,
                Some((rest, k)) => Some((seq![v] + rest, k)),
            },
        }
    }
}

/// The inner layer, consumed exactly.
pub open spec fn sp_tx(s: Seq<u8>) -> Option<TxV> {
    match sp_header(s, 0) {
        None => None,
        Some((h, i)) => match sp_u64(s, i) {
            None => None,
            Some((n, j)) => match sp_sections(s, j, n as nat) {
                None => None,
                Some((ss, k)) => if k == s.len() {
                    Some(TxV { header: h, sections: ss })
                } else {
                    None
                },
            },
        },
    }
}

/// The outer layer, consumed exactly: the opaque payload it carries.
pub open spec fn sp_outer(s: Seq<u8>) -> Option<Seq<u8>> {
    match sp_u8(s, 0) {
        None => None,
        Some((t, _)) => if t == OUTER_TAG {
            match sp_bytes(s, 1) {
                None => None,
                Some((p, k)) => if k == s.len() {
                    Some(p)
                } else {
                    None
                },
            }
        } else {
            None
        },
    }
}

/// What a byte string decodes to, both layers together.
pub open spec fn sp_decode(s: Seq<u8>) -> Option<TxV> {
    match sp_outer(s) {
        None => None,
        Some(p) => sp_tx(p),
    }
}

// ---------------------------------------------------------------------
// Round-trip lemmas
// ---------------------------------------------------------------------
/// Views of a run of sections, after appending one more.
pub proof fn lemma_views_of_push(ss: Seq<Section>, x: Section)
    ensures
        views_of(ss.push(x)) == views_of(ss).push(x@),
{
    assert forall|m: int| 0 <= m < ss.len() + 1 implies views_of(ss.push(x))[m] == views_of(
        ss,
    ).push(x@)[m] by {
        if m < ss.len() {
            assert(views_of(ss.push(x))[m] == ss.push(x)[m]@);
            assert(ss.push(x)[m] == ss[m]);
            assert(views_of(ss)[m] == ss[m]@);
        } else {
            assert(ss.push(x)[m] == x);
        }
    }
    assert(views_of(ss.push(x)) =~= views_of(ss).push(x@));
}

pub proof fn lemma_enc_sections_snoc(ss: Seq<SectionV>, x: SectionV)
    ensures
        enc_sections(ss.push(x)) == enc_sections(ss) + enc_section(x),
    decreases ss.len(),
{
    if ss.len() == 0 {
        assert(ss.push(x)[0] == x);
        assert(ss.push(x).drop_first() =~= Seq::<SectionV>::empty());
        assert(enc_sections(ss.push(x)) == enc_section(x) + enc_sections(
            Seq::<SectionV>::empty(),
        ));
        assert(enc_sections(Seq::<SectionV>::empty()) == Seq::<u8>::empty());
        assert(enc_sections(ss) == Seq::<u8>::empty());
        assert(enc_sections(ss.push(x)) =~= enc_sections(ss) + enc_section(x));
    } else {
        assert(ss.push(x)[0] == ss[0]);
        assert(ss.push(x).drop_first() =~= ss.drop_first().push(x));
        lemma_enc_sections_snoc(ss.drop_first(), x);
        assert(enc_sections(ss.push(x)) == enc_section(ss[0]) + (enc_sections(ss.drop_first())
            + enc_section(x)));
        assert(enc_sections(ss.push(x)) =~= enc_sections(ss) + enc_section(x));
    }
}

pub proof fn lemma_sp_sections(s: Seq<u8>, i: int, ss: Seq<SectionV>)
    requires
        forall|m: int| 0 <= m < ss.len() ==> #[trigger] ss[m].wf(),
        0 <= i,
        i + enc_sections(ss).len() <= s.len(),
        s.subrange(i, i + enc_sections(ss).len()) == enc_sections(ss),
    ensures
        sp_sections(s, i, ss.len()) == Some((ss, i + enc_sections(ss).len())),
    decreases ss.len(),
{
    if ss.len() == 0 {
        assert(ss =~= Seq::<SectionV>::empty());
    } else {
        let e = enc_sections(ss);
        let e1 = enc_section(ss[0]);
        let rest = enc_sections(ss.drop_first());
        assert(e.subrange(0, e1.len() as int) =~= e1);
        lemma_sub_chunk(s, i, e, 0, e1);
        lemma_sp_section(s, i, ss[0]);
        assert(e.subrange(e1.len() as int, e1.len() + rest.len() as int) =~= rest);
        lemma_sub_chunk(s, i, e, e1.len() as int, rest);
        lemma_sp_sections(s, i + e1.len() as int, ss.drop_first());
        assert(seq![ss[0]] + ss.drop_first() =~= ss);
    }
}

/// Decoding undoes encoding: the inner layer parses back to the
/// envelope, and the outer layer parses back to the inner bytes.
/// The length bound keeps every written length representable; every
/// envelope that fits in memory satisfies it.
pub proof fn lemma_decode_encode(t: TxV)
    requires
        t.wf(),
        fits_u64(enc_tx(t)),
    ensures
        sp_outer(tx_bytes(t)) == Some(enc_tx(t)),
        sp_tx(enc_tx(t)) == Some(t),
        sp_decode(tx_bytes(t)) == Some(t),
{
    lemma_enc_lens();
    // inner layer
    let e = enc_tx(t);
    let h = enc_header(t.header);
    let n: u64 = t.sections.len() as u64;
    let body = enc_sections(t.sections);
    assert(e.subrange(0, e.len() as int) =~= e);
    assert(e.subrange(0, h.len() as int) =~= h);
    lemma_sub_chunk(e, 0, e, 0, h);
    lemma_sp_header(e, 0, t.header);
    assert(e.subrange(h.len() as int, h.len() as int + 8) =~= enc_u64(n));
    lemma_sub_chunk(e, 0, e, h.len() as int, enc_u64(n));
    lemma_sp_u64(e, h.len() as int, n);
    assert(e.subrange(h.len() as int + 8, h.len() as int + 8 + body.len() as int) =~= body);
    lemma_sub_chunk(e, 0, e, h.len() as int + 8, body);
    lemma_sp_sections(e, h.len() as int + 8, t.sections);
    assert(sp_tx(e) == Some(TxV { header: t.header, sections: t.sections }));
    assert(TxV { header: t.header, sections: t.sections } =~= t);
    // outer layer
    let s = tx_bytes(t);
    assert(s[0] == OUTER_TAG);
    assert(s.subrange(1, 9 + e.len() as int) =~= enc_bytes(e));
    lemma_sp_bytes(s, 1, e);
}

// ---------------------------------------------------------------------
// Executable encoding and decoding
// ---------------------------------------------------------------------
impl Tx {
    /// An empty envelope under the given header.
    pub fn new(header: TxType) -> (r: Tx)
        ensures
            r@.header == header@,
            r@.sections == Seq::<SectionV>::empty(),
            header@.wf() ==> r.wf(),
    {
        let t = Tx { header: header, sections: Vec::new() };
        assert(t@.sections =~= Seq::<SectionV>::empty());
        t
    }

    /// The header, copied out.
    pub fn header(&self) -> (r: TxType)
        ensures
            r@ == self@.header,
    {
        self.header.dup()
    }

    /// An identical copy of the whole envelope.
    pub fn dup(&self) -> (r: Tx)
        ensures
            r@ == self@,
    {
        let mut sections: Vec<Section> = Vec::new();
        assert(views_of(sections@) =~= views_of(self.sections@).take(0));
        let mut k: usize = 0;
        while k < self.sections.len()
            invariant
                k <= self.sections.len(),
                views_of(sections@) == views_of(self.sections@).take(k as int),
            decreases self.sections.len() - k,
        {
            let item = self.sections[k].dup();
            let ghost pre: Seq<Section> = sections@;
            sections.push(item);
            proof {
                lemma_views_of_push(pre, item);
                assert(views_of(self.sections@).take(k + 1) =~= views_of(self.sections@).take(
                    k as int,
                ).push(views_of(self.sections@)[k as int]));
                assert(views_of(self.sections@)[k as int] == self.sections@[k as int]@);
            }
            k = k + 1;
        }
        let r = Tx { header: self.header.dup(), sections: sections };
        assert(r@ =~= self@);
        r
    }

    /// Append a section; the header is untouched.
    pub fn add_section(&mut self, section: Section)
        ensures
            final(self)@.header == old(self)@.header,
            final(self)@.sections == old(self)@.sections.push(section@),
    {
        self.sections.push(section);
        assert(views_of(self.sections@) =~= views_of(old(self).sections@).push(
            self.sections@.last()@,
        ));
    }

    /// The full wire form: outer framing around the canonical inner
    /// encoding.
    pub fn to_bytes(&self) -> (r: Vec<u8>)
        ensures
            r@ == tx_bytes(self@),
    {
        let payload = self.inner_bytes();
        let out: Vec<u8> = Vec::new();
        let out = app_u8(out, OUTER_TAG);
        let out = app_bytes(out, &payload);
        assert(out@ =~= tx_bytes(self@));
        out
    }

    /// The canonical inner encoding alone.
    pub fn inner_bytes(&self) -> (r: Vec<u8>)
        ensures
            r@ == enc_tx(self@),
    {
        let out: Vec<u8> = Vec::new();
        let out = crate::header::encode_header(out, &self.header);
        let mut out = crate::wire::app_u64(out, self.sections.len() as u64);
        let ghost prefix: Seq<u8> = out@;
        let mut k: usize = 0;
        while k < self.sections.len()
            invariant
                k <= self.sections.len(),
                out@ == prefix + enc_sections(views_of(self.sections@).take(k as int)),
            decreases self.sections.len() - k,
        {
            let ghost done: Seq<SectionV> = views_of(self.sections@).take(k as int);
            out = crate::section::encode_section(out, &self.sections[k]);
            proof {
                lemma_enc_sections_snoc(done, self.sections@[k as int]@);
                assert(done.push(self.sections@[k as int]@) =~= views_of(self.sections@).take(
                    k + 1,
                ));
            }
            k = k + 1;
        }
        assert(views_of(self.sections@).take(self.sections.len() as int) =~= views_of(
            self.sections@,
        ));
        assert(out@ =~= enc_tx(self@));
        out
    }

    /// Decode a full wire form. The two error kinds tell outer
    /// corruption apart from an inner schema mismatch.
    pub fn decode(bytes: &Vec<u8>) -> (r: Result<Tx, Error>)
        ensures
            sp_outer(bytes@) is None ==> r == Err::<Tx, Error>(Error::TxDecodingError),
            sp_outer(bytes@) is Some && sp_tx(sp_outer(bytes@).unwrap()) is None ==> r
                == Err::<Tx, Error>(Error::TxDeserializingError),
            sp_decode(bytes@) is Some ==> r is Ok && r.unwrap()@ == sp_decode(bytes@).unwrap()
                && r.unwrap()@.wf(),
    {
        let payload: Vec<u8> = match rd_u8(bytes, 0) {
            None => {
                return Err(Error::TxDecodingError);
            },
            Some((t, _)) => {
                if t != OUTER_TAG {
                    return Err(Error::TxDecodingError);
                }
                match rd_bytes(bytes, 1) {
                    None => {
                        return Err(Error::TxDecodingError);
                    },
                    Some((p, k)) => {
                        if k != bytes.len() {
                            return Err(Error::TxDecodingError);
                        }
                        p
                    },
                }
            },
        };
        match Tx::parse_inner(&payload) {
            None => Err(Error::TxDeserializingError),
            Some(t) => Ok(t),
        }
    }

    /// Parse the canonical inner encoding, consumed exactly.
    #[verifier::loop_isolation(false)]
    pub fn parse_inner(payload: &Vec<u8>) -> (r: Option<Tx>)
        ensures
            r is Some <==> sp_tx(payload@) is Some,
            r is Some ==> r.unwrap()@ == sp_tx(payload@).unwrap() && r.unwrap()@.wf(),
    {
        let (header, i) = match parse_header(payload, 0) {
            None => {
                return None;
            },
            Some(p) => p,
        };
        let (n, start) = match rd_u64(payload, i) {
            None => {
                return None;
            },
            Some(p) => p,
        };
        let mut sections: Vec<Section> = Vec::new();
        let mut cur: usize = start;
        let mut k: u64 = 0;
        while k < n
            invariant
                k <= n,
                sections@.len() <= k,
                forall|m: int|
                    0 <= m < sections@.len() ==> #[trigger] views_of(sections@)[m].wf(),
                ({
                    let full = sp_sections(payload@, start as int, n as nat);
                    let rem = sp_sections(payload@, cur as int, (n - k) as nat);
                    match rem {
                        None => full is None,
                        Some((rest, end)) => full == Some(
                            (views_of(sections@) + rest, end),
                        ),
                    }
                }),
            decreases n - k,
        {
            let ghost oldrem = sp_sections(payload@, cur as int, (n - k) as nat);
            proof {
                assert((n - k) as nat != 0);
            }
            match parse_section(payload, cur) {
                None => {
                    proof {
                        assert(oldrem is None);
                        assert(sp_sections(payload@, start as int, n as nat) is None);
                    }
                    return None;
                },
                Some((sec, nxt)) => {
                    let ghost pre: Seq<Section> = sections@;
                    sections.push(sec);
                    proof {
                        lemma_views_of_push(pre, sec);
                        let v = sp_section(payload@, cur as int).unwrap().0;
                        assert(v == sec@);
                        assert((n - k) as nat - 1 == (n - (k + 1)) as nat);
                        let newrem = sp_sections(payload@, nxt as int, (n - (k + 1)) as nat);
                        if newrem is Some {
                            let rest = newrem.unwrap().0;
                            assert(oldrem == Some(
                                (seq![v] + rest, newrem.unwrap().1),
                            ));
                            assert(views_of(pre) + (seq![sec@] + rest) =~= views_of(sections@)
                                + rest);
                        } else {
                            assert(oldrem is None);
                        }
                    }
                    cur = nxt;
                },
            }
            k = k + 1;
        }
        assert(views_of(sections@) + Seq::<SectionV>::empty() =~= views_of(sections@));
        if cur != payload.len() {
            return None;
        }
        let t = Tx { header: header, sections: sections };
        assert(t@.wf());
        assert(sp_tx(payload@).unwrap() =~= t@);
        Some(t)
    }
}

// ---------------------------------------------------------------------
// Content addressing over the envelope
// ---------------------------------------------------------------------
/// The hash of the canonical encoding of the header alone: the
/// signing and ciphertext-exemption target.
pub open spec fn header_hash_of(t: TxTypeV) -> Seq<u8> {
    sha256_of(enc_header(t))
}

/// The code hash the active header variant carries.
pub open spec fn code_hash_of(t: TxTypeV) -> Seq<u8> {
    match t {
        TxTypeV::Raw(r) => r.code_hash,
        TxTypeV::Wrapper(w) => w.code_hash,
        TxTypeV::Decrypted(DecryptedTxV::Resolved { code_hash, .. }) => code_hash,
        TxTypeV::Decrypted(DecryptedTxV::Unresolvable(w)) => w.code_hash,
        TxTypeV::Protocol(p) => p.code_hash,
    }
}

/// The data hash the active header variant carries.
pub open spec fn data_hash_of(t: TxTypeV) -> Seq<u8> {
    match t {
        TxTypeV::Raw(r) => r.data_hash,
        TxTypeV::Wrapper(w) => w.data_hash,
        TxTypeV::Decrypted(DecryptedTxV::Resolved { data_hash, .. }) => data_hash,
        TxTypeV::Decrypted(DecryptedTxV::Unresolvable(w)) => w.data_hash,
        TxTypeV::Protocol(p) => p.data_hash,
    }
}

/// The header with its code hash replaced, whichever variant is
/// active.
pub open spec fn with_code_hash(t: TxTypeV, h: Seq<u8>) -> TxTypeV {
    match t {
        TxTypeV::Raw(r) => TxTypeV::Raw(RawTxV { code_hash: h, data_hash: r.data_hash }),
        TxTypeV::Wrapper(w) => TxTypeV::Wrapper(
            WrapperTxV {
                fee: w.fee,
                pub_key: w.pub_key,
                epoch: w.epoch,
                gas_limit: w.gas_limit,
                code_hash: h,
                data_hash: w.data_hash,
                pow_solution: w.pow_solution,
            },
        ),
        TxTypeV::Decrypted(
            DecryptedTxV::Resolved { header_hash, code_hash, data_hash, has_valid_pow },
        ) => TxTypeV::Decrypted(
            DecryptedTxV::Resolved {
                header_hash: header_hash,
                code_hash: h,
                data_hash: data_hash,
                has_valid_pow: has_valid_pow,
            },
        ),
        TxTypeV::Decrypted(DecryptedTxV::Unresolvable(w)) => TxTypeV::Decrypted(
            DecryptedTxV::Unresolvable(
                WrapperTxV {
                    fee: w.fee,
                    pub_key: w.pub_key,
                    epoch: w.epoch,
                    gas_limit: w.gas_limit,
                    code_hash: h,
                    data_hash: w.data_hash,
                    pow_solution: w.pow_solution,
                },
            ),
        ),
        TxTypeV::Protocol(p) => TxTypeV::Protocol(
            ProtocolTxV { pub_key: p.pub_key, code_hash: h, data_hash: p.data_hash },
        ),
    }
}

/// The header with its data hash replaced, whichever variant is
/// active.
pub open spec fn with_data_hash(t: TxTypeV, h: Seq<u8>) -> TxTypeV {
    match t {
        TxTypeV::Raw(r) => TxTypeV::Raw(RawTxV { code_hash: r.code_hash, data_hash: h }),
        TxTypeV::Wrapper(w) => TxTypeV::Wrapper(
            WrapperTxV {
                fee: w.fee,
                pub_key: w.pub_key,
                epoch: w.epoch,
                gas_limit: w.gas_limit,
                code_hash: w.code_hash,
                data_hash: h,
                pow_solution: w.pow_solution,
            },
        ),
        TxTypeV::Decrypted(
            DecryptedTxV::Resolved { header_hash, code_hash, data_hash, has_valid_pow },
        ) => TxTypeV::Decrypted(
            DecryptedTxV::Resolved {
                header_hash: header_hash,
                code_hash: code_hash,
                data_hash: h,
                has_valid_pow: has_valid_pow,
            },
        ),
        TxTypeV::Decrypted(DecryptedTxV::Unresolvable(w)) => TxTypeV::Decrypted(
            DecryptedTxV::Unresolvable(
                WrapperTxV {
                    fee: w.fee,
                    pub_key: w.pub_key,
                    epoch: w.epoch,
                    gas_limit: w.gas_limit,
                    code_hash: w.code_hash,
                    data_hash: h,
                    pow_solution: w.pow_solution,
                },
            ),
        ),
        TxTypeV::Protocol(p) => TxTypeV::Protocol(
            ProtocolTxV { pub_key: p.pub_key, code_hash: p.code_hash, data_hash: h },
        ),
    }
}

/// The first section whose content address is `h`, by linear scan.
pub open spec fn sp_find_section(ss: Seq<SectionV>, h: Seq<u8>) -> Option<SectionV>
    decreases ss.len(),
{
    if ss.len() == 0 {
        None
    } else if section_hash(ss[0]) == h {
        Some(ss[0])
    } else {
        sp_find_section(ss.drop_first(), h)
    }
}

/// The code blob the header points at, when a matching section is
/// there.
pub open spec fn code_of(t: TxV) -> Option<Seq<u8>> {
    match sp_find_section(t.sections, code_hash_of(t.header)) {
        Some(SectionV::Code(c)) => Some(c.code),
        _ => None,
    }
}

/// The data payload the header points at, when a matching section is
/// there.
pub open spec fn data_of(t: TxV) -> Option<Seq<u8>> {
    match sp_find_section(t.sections, data_hash_of(t.header)) {
        Some(SectionV::Data(d)) => Some(d.data),
        _ => None,
    }
}

/// The signature bytes of the first signature section matching the
/// given public key and target.
pub open spec fn sp_find_sig(ss: Seq<SectionV>, pk: Seq<u8>, h: Seq<u8>) -> Option<SignatureMatch>
    decreases ss.len(),
{
    if ss.len() == 0 {
        None
    } else {
        match ss[0] {
            SectionV::Signature(g) => if g.pub_key == pk && g.target == h {
                Some(SignatureMatch { signature: g.signature })
            } else {
                sp_find_sig(ss.drop_first(), pk, h)
            },
            _ => sp_find_sig(ss.drop_first(), pk, h),
        }
    }
}

/// What a matching signature section contributes to verification.
#[verifier::ext_equal]
pub struct SignatureMatch {
    pub signature: Seq<u8>,
}

/// Why signature verification failed.
#[derive(Debug, Clone, Copy, PartialEq, Eq, Structural)]
pub enum VerifySigError {
    /// No signature section matches the key and target.
    MissingData,
    /// A section matches but its signature does not verify.
    InvalidSig,
}

impl Tx {
    /// Decide well-formedness: every salt and hash field has its
    /// fixed length.
    #[verifier::loop_isolation(false)]
    pub fn check_wf(&self) -> (r: bool)
        ensures
            r == self@.wf(),
    {
        let _n_sections: usize = self.sections.len();
        let header_ok: bool = match &self.header {
            TxType::Raw(rw) => rw.code_hash.len() == 32 && rw.data_hash.len() == 32,
            TxType::Wrapper(w) => {
                let _t: usize = w.fee.token.len();
                let _p: usize = w.pub_key.len();
                w.code_hash.len() == 32 && w.data_hash.len() == 32
            },
            TxType::Decrypted(DecryptedTx::Resolved { header_hash, code_hash, data_hash, .. }) => (
            header_hash.len() == 32 && code_hash.len() == 32 && data_hash.len() == 32),
            TxType::Decrypted(DecryptedTx::Unresolvable(w)) => {
                let _t: usize = w.fee.token.len();
                let _p: usize = w.pub_key.len();
                w.code_hash.len() == 32 && w.data_hash.len() == 32
            },
            TxType::Protocol(p) => {
                let _p: usize = p.pub_key.len();
                p.code_hash.len() == 32 && p.data_hash.len() == 32
            },
        };
        if !header_ok {
            return false;
        }
        let mut k: usize = 0;
        while k < self.sections.len()
            invariant
                k <= self.sections.len(),
                forall|i: int| 0 <= i < k ==> (#[trigger] self@.sections[i]).wf(),
            decreases self.sections.len() - k,
        {
            let sec_ok: bool = match &self.sections[k] {
                Section::Data(d) => {
                    let _l: usize = d.data.len();
                    d.salt.len() == 8
                },
                Section::ExtraData(d) => {
                    let _l: usize = d.data.len();
                    d.salt.len() == 8
                },
                Section::Code(c) => {
                    let _l: usize = c.code.len();
                    c.salt.len() == 8
                },
                Section::Signature(g) => {
                    let _l: usize = g.signature.len();
                    let _m: usize = g.pub_key.len();
                    g.salt.len() == 8 && g.target.len() == 32
                },
                Section::Ciphertext(c) => {
                    let _l: usize = c.opaque.len();
                    true
                },
            };
            proof {
                assert(self@.sections[k as int] == self.sections@[k as int]@);
            }
            if !sec_ok {
                assert(!self@.sections[k as int].wf());
                return false;
            }
            k = k + 1;
        }
        true
    }

    /// The hash of the canonical encoding of the header alone.
    pub fn header_hash(&self) -> (r: Vec<u8>)
        ensures
            r@ == header_hash_of(self@.header),
            r@.len() == 32,
    {
        let hb = header_bytes(&self.header);
        sha256(&hb)
    }

    /// The first section whose content address is `hash`, copied out.
    #[verifier::loop_isolation(false)]
    pub fn get_section(&self, hash: &Vec<u8>) -> (r: Option<Section>)
        ensures
            r is Some <==> sp_find_section(self@.sections, hash@) is Some,
            r is Some ==> r.unwrap()@ == sp_find_section(self@.sections, hash@).unwrap(),
    {
        assert(self@.sections.skip(0) =~= self@.sections);
        let mut k: usize = 0;
        while k < self.sections.len()
            invariant
                k <= self.sections.len(),
                sp_find_section(self@.sections, hash@) == sp_find_section(
                    self@.sections.skip(k as int),
                    hash@,
                ),
            decreases self.sections.len() - k,
        {
            let h = self.sections[k].hash();
            proof {
                assert(self@.sections.skip(k as int)[0] == self@.sections[k as int]);
                assert(self@.sections.skip(k as int).drop_first() =~= self@.sections.skip(
                    k + 1,
                ));
            }
            if bytes_eq(&h, hash) {
                return Some(self.sections[k].dup());
            }
            k = k + 1;
        }
        assert(self@.sections.skip(self.sections.len() as int) =~= Seq::<SectionV>::empty());
        None
    }

    /// The code hash of the active header variant, copied out.
    pub fn code_hash(&self) -> (r: Vec<u8>)
        ensures
            r@ == code_hash_of(self@.header),
    {
        match &self.header {
            TxType::Raw(rw) => copy_bytes(&rw.code_hash),
            TxType::Wrapper(w) => copy_bytes(&w.code_hash),
            TxType::Decrypted(DecryptedTx::Resolved { code_hash, .. }) => copy_bytes(code_hash),
            TxType::Decrypted(DecryptedTx::Unresolvable(w)) => copy_bytes(&w.code_hash),
            TxType::Protocol(p) => copy_bytes(&p.code_hash),
        }
    }

    /// The data hash of the active header variant, copied out.
    pub fn data_hash(&self) -> (r: Vec<u8>)
        ensures
            r@ == data_hash_of(self@.header),
    {
        match &self.header {
            TxType::Raw(rw) => copy_bytes(&rw.data_hash),
            TxType::Wrapper(w) => copy_bytes(&w.data_hash),
            TxType::Decrypted(DecryptedTx::Resolved { data_hash, .. }) => copy_bytes(data_hash),
            TxType::Decrypted(DecryptedTx::Unresolvable(w)) => copy_bytes(&w.data_hash),
            TxType::Protocol(p) => copy_bytes(&p.data_hash),
        }
    }

    /// Write a code hash into whichever header variant is active.
    pub fn set_code_hash(&mut self, hash: Vec<u8>)
        ensures
            final(self)@.header == with_code_hash(old(self)@.header, hash@),
            final(self)@.sections == old(self)@.sections,
    {
        let new_header = match &self.header {
            TxType::Raw(rw) => TxType::Raw(
                RawTx { code_hash: hash, data_hash: copy_bytes(&rw.data_hash) },
            ),
            TxType::Wrapper(w) => {
                let mut w2 = w.dup();
                w2.code_hash = hash;
                TxType::Wrapper(w2)
            },
            TxType::Decrypted(DecryptedTx::Resolved {
                header_hash,
                code_hash,
                data_hash,
                has_valid_pow,
            }) => TxType::Decrypted(
                DecryptedTx::Resolved {
                    header_hash: copy_bytes(header_hash),
                    code_hash: hash,
                    data_hash: copy_bytes(data_hash),
                    has_valid_pow: *has_valid_pow,
                },
            ),
            TxType::Decrypted(DecryptedTx::Unresolvable(w)) => {
                let mut w2 = w.dup();
                w2.code_hash = hash;
                TxType::Decrypted(DecryptedTx::Unresolvable(w2))
            },
            TxType::Protocol(p) => {
                let mut p2 = p.dup();
                p2.code_hash = hash;
                TxType::Protocol(p2)
            },
        };
        self.header = new_header;
    }

    /// Write a data hash into whichever header variant is active.
    pub fn set_data_hash(&mut self, hash: Vec<u8>)
        ensures
            final(self)@.header == with_data_hash(old(self)@.header, hash@),
            final(self)@.sections == old(self)@.sections,
    {
        let new_header = match &self.header {
            TxType::Raw(rw) => TxType::Raw(
                RawTx { code_hash: copy_bytes(&rw.code_hash), data_hash: hash },
            ),
            TxType::Wrapper(w) => {
                let mut w2 = w.dup();
                w2.data_hash = hash;
                TxType::Wrapper(w2)
            },
            TxType::Decrypted(DecryptedTx::Resolved {
                header_hash,
                code_hash,
                data_hash,
                has_valid_pow,
            }) => TxType::Decrypted(
                DecryptedTx::Resolved {
                    header_hash: copy_bytes(header_hash),
                    code_hash: copy_bytes(code_hash),
                    data_hash: hash,
                    has_valid_pow: *has_valid_pow,
                },
            ),
            TxType::Decrypted(DecryptedTx::Unresolvable(w)) => {
                let mut w2 = w.dup();
                w2.data_hash = hash;
                TxType::Decrypted(DecryptedTx::Unresolvable(w2))
            },
            TxType::Protocol(p) => {
                let mut p2 = p.dup();
                p2.data_hash = hash;
                TxType::Protocol(p2)
            },
        };
        self.header = new_header;
    }

    /// Append a code section and point the header's code hash at it:
    /// the content-addressing invariant is kept on every mutation.
    pub fn set_code(&mut self, code: Code)
        ensures
            final(self)@.header == with_code_hash(
                old(self)@.header,
                section_hash(SectionV::Code(code@)),
            ),
            final(self)@.sections == old(self)@.sections.push(SectionV::Code(code@)),
    {
        let sec = Section::Code(code);
        let h = sec.hash();
        self.set_code_hash(h);
        self.add_section(sec);
    }

    /// Append a data section and point the header's data hash at it.
    pub fn set_data(&mut self, data: Data)
        ensures
            final(self)@.header == with_data_hash(
                old(self)@.header,
                section_hash(SectionV::Data(data@)),
            ),
            final(self)@.sections == old(self)@.sections.push(SectionV::Data(data@)),
    {
        let sec = Section::Data(data);
        let h = sec.hash();
        self.set_data_hash(h);
        self.add_section(sec);
    }

    /// The code blob the header points at, if its section is present.
    pub fn code(&self) -> (r: Option<Vec<u8>>)
        ensures
            r is Some <==> code_of(self@) is Some,
            r is Some ==> r.unwrap()@ == code_of(self@).unwrap(),
    {
        let ch = self.code_hash();
        match self.get_section(&ch) {
            Some(Section::Code(c)) => Some(c.code),
            _ => None,
        }
    }

    /// The data payload the header points at, if its section is
    /// present.
    pub fn data(&self) -> (r: Option<Vec<u8>>)
        ensures
            r is Some <==> data_of(self@) is Some,
            r is Some ==> r.unwrap()@ == data_of(self@).unwrap(),
    {
        let dh = self.data_hash();
        match self.get_section(&dh) {
            Some(Section::Data(d)) => Some(d.data),
            _ => None,
        }
    }

    /// Scan for a signature section matching the key and target and
    /// check its signature; fail with `MissingData` when none
    /// matches.
    #[verifier::loop_isolation(false)]
    pub fn verify_signature(&self, pk: &Vec<u8>, hash: &Vec<u8>) -> (r: Result<
        (),
        VerifySigError,
    >)
        ensures
            sp_find_sig(self@.sections, pk@, hash@) is None ==> r == Err::<(), VerifySigError>(
                VerifySigError::MissingData,
            ),
            sp_find_sig(self@.sections, pk@, hash@) matches Some(m) ==> ((r is Ok <==> sig_valid(
                pk@,
                hash@,
                m.signature,
            )) && (r is Err ==> r == Err::<(), VerifySigError>(VerifySigError::InvalidSig))),
    {
        assert(self@.sections.skip(0) =~= self@.sections);
        let mut k: usize = 0;
        while k < self.sections.len()
            invariant
                k <= self.sections.len(),
                sp_find_sig(self@.sections, pk@, hash@) == sp_find_sig(
                    self@.sections.skip(k as int),
                    pk@,
                    hash@,
                ),
            decreases self.sections.len() - k,
        {
            proof {
                assert(self@.sections.skip(k as int)[0] == self@.sections[k as int]);
                assert(self@.sections.skip(k as int).drop_first() =~= self@.sections.skip(
                    k + 1,
                ));
            }
            if let Section::Signature(g) = &self.sections[k] {
                if bytes_eq(&g.pub_key, pk) && bytes_eq(&g.target, hash) {
                    if verify_bytes(pk, hash, &g.signature) {
                        return Ok(());
                    } else {
                        return Err(VerifySigError::InvalidSig);
                    }
                }
            }
            k = k + 1;
        }
        assert(self@.sections.skip(self.sections.len() as int) =~= Seq::<SectionV>::empty());
        Err(VerifySigError::MissingData)
    }
}

// ---------------------------------------------------------------------
// Wrapper crypto over the envelope
// ---------------------------------------------------------------------
/// Why bulk decryption of an envelope failed.
#[derive(Debug, Clone, Copy, PartialEq, Eq, Structural)]
pub enum WrapperTxErr {
    /// Some ciphertext section failed authentication or did not
    /// deserialize back into a section.
    InvalidTx,
    /// Every ciphertext decrypted, but the header's code or data hash
    /// resolves to no section afterwards.
    DecryptedHash,
}

/// Whether a section is exempt from encryption: a signature over the
/// header hash, left visible so that wrapper-level authorization can
/// be checked without the private key.
pub open spec fn exempt(s: SectionV, hh: Seq<u8>) -> bool {
    match s {
        SectionV::Signature(g) => g.target == hh,
        _ => false,
    }
}

/// How an encrypted envelope relates to the one it came from: the
/// header is kept; every non-exempt section has become a valid
/// ciphertext that any matching secret key decrypts back to that
/// section's canonical encoding.
pub open spec fn encrypt_rel(pre: TxV, post: TxV, pk: Seq<u8>) -> bool {
    &&& post.header == pre.header
    &&& post.sections.len() == pre.sections.len()
    &&& forall|i: int|
        0 <= i < pre.sections.len() ==> if exempt(
            #[trigger] pre.sections[i],
            header_hash_of(pre.header),
        ) {
            post.sections[i] == pre.sections[i]
        } else {
            &&& post.sections[i] is Ciphertext
            &&& ct_valid(post.sections[i]->Ciphertext_0.opaque)
            &&& fits_u64(post.sections[i]->Ciphertext_0.opaque)
            &&& forall|skb: Seq<u8>|
                public_of(skb) == pk ==> decryption_of(
                    post.sections[i]->Ciphertext_0.opaque,
                    skb,
                ) == Some(enc_section(pre.sections[i]))
        }
}

/// Encryption keeps an envelope well-formed: the header is
/// untouched, exempt sections are kept, and every produced
/// ciphertext's length is representable.
pub proof fn lemma_encrypt_preserves_wf(pre: TxV, post: TxV, pk: Seq<u8>)
    requires
        pre.wf(),
        encrypt_rel(pre, post, pk),
    ensures
        post.wf(),
{
    assert forall|i: int| 0 <= i < post.sections.len() implies (
    #[trigger] post.sections[i]).wf() by {
        assert(pre.sections[i].wf());
        if exempt(pre.sections[i], header_hash_of(pre.header)) {
            assert(post.sections[i] == pre.sections[i]);
        }
    }
}

/// What one section becomes under bulk decryption: ciphertexts are
/// decrypted and parsed back into sections; everything else stays.
pub open spec fn sp_decrypt_section(s: SectionV, sk: Seq<u8>) -> Option<SectionV> {
    match s {
        SectionV::Ciphertext(c) => match decryption_of(c.opaque, sk) {
            None => None,
            Some(b) => sp_section_exact(b),
        },
        _ => Some(s),
    }
}

/// Bulk decryption of a run of sections: all or nothing.
pub open spec fn sp_decrypt_sections(ss: Seq<SectionV>, sk: Seq<u8>) -> Option<Seq<SectionV>>
    decreases ss.len(),
{
    if ss.len() == 0 {
        Some(Seq::<SectionV>::empty())
    } else {
        match sp_decrypt_section(ss[0], sk) {
            None => None,
            Some(v) => match sp_decrypt_sections(ss.drop_first(), sk) {
                None => None,
                Some(rest) => Some(seq![v] + rest),
            },
        }
    }
}

/// What decrypting a whole envelope yields: every ciphertext section
/// decrypted and parsed, and the header's code and data hashes both
/// resolving afterwards; anything less is failure.
pub open spec fn sp_decrypt(t: TxV, sk: Seq<u8>) -> Option<TxV> {
    match sp_decrypt_sections(t.sections, sk) {
        None => None,
        Some(ss) => {
            let t2 = TxV { header: t.header, sections: ss };
            if data_of(t2) is Some && code_of(t2) is Some {
                Some(t2)
            } else {
                None
            }
        },
    }
}

/// One failing section fails the whole run.
pub proof fn lemma_sp_decrypt_sections_fail(ss: Seq<SectionV>, sk: Seq<u8>, k: int)
    requires
        0 <= k < ss.len(),
        sp_decrypt_section(ss[k], sk) is None,
    ensures
        sp_decrypt_sections(ss, sk) is None,
    decreases k,
{
    if k == 0 {
    } else {
        assert(ss.drop_first()[k - 1] == ss[k]);
        lemma_sp_decrypt_sections_fail(ss.drop_first(), sk, k - 1);
    }
}

/// When every section decrypts, the run decrypts to the run of the
/// results.
pub proof fn lemma_sp_decrypt_sections_pointwise(ss: Seq<SectionV>, vs: Seq<SectionV>, sk: Seq<u8>)
    requires
        ss.len() == vs.len(),
        forall|i: int| 0 <= i < ss.len() ==> sp_decrypt_section(#[trigger] ss[i], sk) == Some(
            vs[i],
        ),
    ensures
        sp_decrypt_sections(ss, sk) == Some(vs),
    decreases ss.len(),
{
    if ss.len() == 0 {
        assert(vs =~= Seq::<SectionV>::empty());
    } else {
        assert forall|i: int| 0 <= i < ss.drop_first().len() implies sp_decrypt_section(
            #[trigger] ss.drop_first()[i],
            sk,
        ) == Some(vs.drop_first()[i]) by {
            assert(ss.drop_first()[i] == ss[i + 1]);
            assert(vs.drop_first()[i] == vs[i + 1]);
        }
        lemma_sp_decrypt_sections_pointwise(ss.drop_first(), vs.drop_first(), sk);
        assert(seq![vs[0]] + vs.drop_first() =~= vs);
    }
}

/// Decrypting with the matching key undoes encryption: the sections
/// parse back to exactly what stood there, the exempt signature
/// included, and the envelope's code and data still resolve. This is
/// the encrypt/decrypt inverse, stated for every envelope whose code
/// and data sections are present.
pub proof fn lemma_encrypt_decrypt_inverse(pre: TxV, post: TxV, pk: Seq<u8>, sk: Seq<u8>)
    requires
        pre.wf(),
        encrypt_rel(pre, post, pk),
        public_of(sk) == pk,
        data_of(pre) is Some,
        code_of(pre) is Some,
    ensures
        sp_decrypt(post, sk) == Some(pre),
{
    assert forall|i: int| 0 <= i < post.sections.len() implies sp_decrypt_section(
        #[trigger] post.sections[i],
        sk,
    ) == Some(pre.sections[i]) by {
        if exempt(pre.sections[i], header_hash_of(pre.header)) {
            assert(post.sections[i] == pre.sections[i]);
            assert(pre.sections[i] is Signature);
        } else {
            assert(decryption_of(post.sections[i]->Ciphertext_0.opaque, sk) == Some(
                enc_section(pre.sections[i]),
            ));
            lemma_section_exact_round_trip(pre.sections[i]);
        }
    }
    lemma_sp_decrypt_sections_pointwise(post.sections, pre.sections, sk);
    let t2 = TxV { header: post.header, sections: pre.sections };
    assert(t2 =~= pre);
}

impl Tx {
    /// Whether every ciphertext section passes the keyless validity
    /// check: the cheap admission filter that needs no private key.
    #[verifier::loop_isolation(false)]
    pub fn validate_ciphertext(&self) -> (r: bool)
        ensures
            r == (forall|i: int|
                0 <= i < self@.sections.len() ==> (#[trigger] self@.sections[i]) is Ciphertext
                    ==> ct_valid(self@.sections[i]->Ciphertext_0.opaque)),
    {
        let mut valid: bool = true;
        let mut k: usize = 0;
        while k < self.sections.len()
            invariant
                k <= self.sections.len(),
                valid == (forall|i: int|
                    0 <= i < k ==> (#[trigger] self@.sections[i]) is Ciphertext ==> ct_valid(
                        self@.sections[i]->Ciphertext_0.opaque,
                    )),
            decreases self.sections.len() - k,
        {
            let sec = &self.sections[k];
            proof {
                assert(self@.sections[k as int] == self.sections@[k as int]@);
            }
            match sec {
                Section::Ciphertext(c) => {
                    let ok = ciphertext_check(&c.opaque);
                    proof {
                        assert(self@.sections[k as int]->Ciphertext_0.opaque == c.opaque@);
                    }
                    valid = valid && ok;
                },
                _ => {
                    proof {
                        assert(!(self@.sections[k as int] is Ciphertext));
                    }
                },
            }
            k = k + 1;
        }
        valid
    }

    /// Replace every section, except a signature over the header
    /// hash, with a fresh encryption of its canonical encoding. All
    /// or nothing: when the key bytes are no public key, the envelope
    /// is left untouched and `false` comes back.
    #[verifier::loop_isolation(false)]
    pub fn encrypt(&mut self, pubkey: &Vec<u8>) -> (r: bool)
        ensures
            r ==> encrypt_rel(old(self)@, final(self)@, pubkey@),
            !r ==> final(self)@ == old(self)@,
            valid_public(pubkey@) ==> r,
    {
        let hh = self.header_hash();
        let mut new_sections: Vec<Section> = Vec::new();
        let mut k: usize = 0;
        while k < self.sections.len()
            invariant
                k <= self.sections.len(),
                hh@ == header_hash_of(self@.header),
                views_of(new_sections@).len() == k,
                forall|i: int|
                    0 <= i < k ==> if exempt(
                        #[trigger] self@.sections[i],
                        header_hash_of(self@.header),
                    ) {
                        views_of(new_sections@)[i] == self@.sections[i]
                    } else {
                        &&& views_of(new_sections@)[i] is Ciphertext
                        &&& ct_valid(views_of(new_sections@)[i]->Ciphertext_0.opaque)
                        &&& fits_u64(views_of(new_sections@)[i]->Ciphertext_0.opaque)
                        &&& forall|skb: Seq<u8>|
                            public_of(skb) == pubkey@ ==> decryption_of(
                                views_of(new_sections@)[i]->Ciphertext_0.opaque,
                                skb,
                            ) == Some(enc_section(self@.sections[i]))
                    },
            decreases self.sections.len() - k,
        {
            let sec = &self.sections[k];
            let is_exempt: bool = match sec {
                Section::Signature(g) => bytes_eq(&g.target, &hh),
                _ => false,
            };
            let ghost pre: Seq<Section> = new_sections@;
            if is_exempt {
                new_sections.push(sec.dup());
                proof {
                    lemma_views_of_push(pre, new_sections@.last());
                }
            } else {
                let plain = section_bytes(sec);
                match encrypt_bytes(&plain, pubkey) {
                    None => {
                        proof {
                            assert(!valid_public(pubkey@));
                        }
                        return false;
                    },
                    Some(opaque) => {
                        let _opaque_len: usize = opaque.len();
                        new_sections.push(Section::Ciphertext(Ciphertext { opaque: opaque }));
                        proof {
                            lemma_views_of_push(pre, new_sections@.last());
                        }
                    },
                }
            }
            k = k + 1;
        }
        self.sections = new_sections;
        true
    }

    /// Decrypt every ciphertext section back into the section it
    /// encodes, then require the header's code and data hashes to
    /// resolve. All or nothing: on any failure the envelope is left
    /// exactly as it was.
    #[verifier::loop_isolation(false)]
    pub fn decrypt(&mut self, privkey: &Vec<u8>) -> (r: Result<(), WrapperTxErr>)
        ensures
            sp_decrypt(old(self)@, privkey@) matches Some(t) ==> (r is Ok && final(self)@ == t),
            sp_decrypt(old(self)@, privkey@) is None ==> (r is Err && final(self)@ == old(
                self,
            )@),
            sp_decrypt_sections(old(self)@.sections, privkey@) is None ==> r == Err::<
                (),
                WrapperTxErr,
            >(WrapperTxErr::InvalidTx),
            sp_decrypt_sections(old(self)@.sections, privkey@) is Some && sp_decrypt(
                old(self)@,
                privkey@,
            ) is None ==> r == Err::<(), WrapperTxErr>(WrapperTxErr::DecryptedHash),
            old(self)@.wf() && r is Ok ==> final(self)@.wf(),
    {
        let mut new_sections: Vec<Section> = Vec::new();
        let mut k: usize = 0;
        while k < self.sections.len()
            invariant
                k <= self.sections.len(),
                views_of(new_sections@).len() == k,
                forall|i: int|
                    0 <= i < k ==> sp_decrypt_section(#[trigger] self@.sections[i], privkey@)
                        == Some(views_of(new_sections@)[i]),
                forall|i: int|
                    0 <= i < k ==> (self@.sections[i].wf() ==> (#[trigger] views_of(
                        new_sections@,
                    )[i]).wf()),
            decreases self.sections.len() - k,
        {
            let ghost pre: Seq<Section> = new_sections@;
            match &self.sections[k] {
                Section::Ciphertext(c) => {
                    let plain = match decrypt_bytes(&c.opaque, privkey) {
                        None => {
                            proof {
                                lemma_sp_decrypt_sections_fail(
                                    self@.sections,
                                    privkey@,
                                    k as int,
                                );
                            }
                            return Err(WrapperTxErr::InvalidTx);
                        },
                        Some(p) => p,
                    };
                    match parse_section_exact(&plain) {
                        None => {
                            proof {
                                lemma_sp_decrypt_sections_fail(
                                    self@.sections,
                                    privkey@,
                                    k as int,
                                );
                            }
                            return Err(WrapperTxErr::InvalidTx);
                        },
                        Some(sec) => {
                            new_sections.push(sec);
                            proof {
                                lemma_views_of_push(pre, new_sections@.last());
                            }
                        },
                    }
                },
                other => {
                    new_sections.push(other.dup());
                    proof {
                        lemma_views_of_push(pre, new_sections@.last());
                    }
                },
            }
            k = k + 1;
        }
        proof {
            lemma_sp_decrypt_sections_pointwise(
                self@.sections,
                views_of(new_sections@),
                privkey@,
            );
        }
        let candidate = Tx { header: self.header.dup(), sections: new_sections };
        if candidate.data().is_none() {
            return Err(WrapperTxErr::DecryptedHash);
        }
        if candidate.code().is_none() {
            return Err(WrapperTxErr::DecryptedHash);
        }
        *self = candidate;
        Ok(())
    }
}

} // verus!
