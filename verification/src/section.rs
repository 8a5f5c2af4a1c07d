//! The five section kinds of a transaction envelope and their
//! canonical byte encoding.
//!
//! A section's identity is the SHA-256 digest of a domain-separated
//! preimage: the tag byte followed by the canonical encoding of the
//! body — except for `Ciphertext`, whose preimage is the tag byte
//! followed by the opaque bytes alone, so that hashing a ciphertext
//! does not depend on any framing.
use vstd::prelude::*;

use crate::crypto::{
    ct_valid, decrypt_bytes, decryption_of, encrypt_bytes, now_millis, public_key_bytes,
    public_of, sha256, sha256_of, sig_of, sig_valid, sign_bytes, valid_public, valid_secret,
};
use crate::wire::{
    app_bytes, app_raw, app_u8, enc_bytes, fits_u64, lemma_enc_lens, lemma_sp_bytes,
    lemma_sp_fixed, lemma_sp_u8, lemma_sub_chunk, rd_bytes, rd_fixed, rd_u8, sp_bytes, sp_fixed,
    sp_u8,
};

verus! {

pub const TAG_DATA: u8 = 0;

pub const TAG_EXTRA_DATA: u8 = 1;

pub const TAG_CODE: u8 = 2;

pub const TAG_SIGNATURE: u8 = 3;

pub const TAG_CIPHERTEXT: u8 = 4;

/// Arbitrary application payload, salted so that equal payloads
/// created at different times hash differently.
#[derive(Debug, Clone, PartialEq, Eq)]
pub struct Data {
    pub salt: Vec<u8>,
    pub data: Vec<u8>,
}

/// An executable code blob, salted like `Data`.
#[derive(Debug, Clone, PartialEq, Eq)]
pub struct Code {
    pub salt: Vec<u8>,
    pub code: Vec<u8>,
}

/// An attestation over a 32-byte target hash elsewhere in the envelope.
#[derive(Debug, Clone, PartialEq, Eq)]
pub struct Signature {
    pub salt: Vec<u8>,
    pub target: Vec<u8>,
    pub signature: Vec<u8>,
    pub pub_key: Vec<u8>,
}

/// The encrypted canonical encoding of another section.
#[derive(Debug, Clone, PartialEq, Eq)]
pub struct Ciphertext {
    pub opaque: Vec<u8>,
}

#[derive(Debug, Clone, PartialEq, Eq)]
pub enum Section {
    Data(Data),
    ExtraData(Data),
    Code(Code),
    Signature(Signature),
    Ciphertext(Ciphertext),
}

// ---------------------------------------------------------------------
// Views
// ---------------------------------------------------------------------
#[verifier::ext_equal]
pub struct DataV {
    pub salt: Seq<u8>,
    pub data: Seq<u8>,
}

#[verifier::ext_equal]
pub struct CodeV {
    pub salt: Seq<u8>,
    pub code: Seq<u8>,
}

#[verifier::ext_equal]
pub struct SignatureV {
    pub salt: Seq<u8>,
    pub target: Seq<u8>,
    pub signature: Seq<u8>,
    pub pub_key: Seq<u8>,
}

#[verifier::ext_equal]
pub struct CiphertextV {
    pub opaque: Seq<u8>,
}

#[verifier::ext_equal]
pub enum SectionV {
    Data(DataV),
    ExtraData(DataV),
    Code(CodeV),
    Signature(SignatureV),
    Ciphertext(CiphertextV),
}

impl View for Data {
    type V = DataV;

    open spec fn view(&self) -> DataV {
        DataV { salt: self.salt@, data: self.data@ }
    }
}

impl View for Code {
    type V = CodeV;

    open spec fn view(&self) -> CodeV {
        CodeV { salt: self.salt@, code: self.code@ }
    }
}

impl View for Signature {
    type V = SignatureV;

    open spec fn view(&self) -> SignatureV {
        SignatureV {
            salt: self.salt@,
            target: self.target@,
            signature: self.signature@,
            pub_key: self.pub_key@,
        }
    }
}

impl View for Ciphertext {
    type V = CiphertextV;

    open spec fn view(&self) -> CiphertextV {
        CiphertextV { opaque: self.opaque@ }
    }
}

impl View for Section {
    type V = SectionV;

    open spec fn view(&self) -> SectionV {
        match self {
            Section::Data(d) => SectionV::Data(d@),
            Section::ExtraData(d) => SectionV::ExtraData(d@),
            Section::Code(c) => SectionV::Code(c@),
            Section::Signature(g) => SectionV::Signature(g@),
            Section::Ciphertext(c) => SectionV::Ciphertext(c@),
        }
    }
}

// ---------------------------------------------------------------------
// Well-formedness
// ---------------------------------------------------------------------
impl DataV {
    pub open spec fn wf(self) -> bool {
        self.salt.len() == 8 && fits_u64(self.data)
    }
}

impl CodeV {
    pub open spec fn wf(self) -> bool {
        self.salt.len() == 8 && fits_u64(self.code)
    }
}

impl SignatureV {
    pub open spec fn wf(self) -> bool {
        self.salt.len() == 8 && self.target.len() == 32 && fits_u64(self.signature) && fits_u64(
            self.pub_key,
        )
    }
}

impl CiphertextV {
    pub open spec fn wf(self) -> bool {
        fits_u64(self.opaque)
    }
}

impl SectionV {
    pub open spec fn wf(self) -> bool {
        match self {
            SectionV::Data(d) => d.wf(),
            SectionV::ExtraData(d) => d.wf(),
            SectionV::Code(c) => c.wf(),
            SectionV::Signature(g) => g.wf(),
            SectionV::Ciphertext(c) => c.wf(),
        }
    }
}

impl Section {
    pub open spec fn wf(self) -> bool {
        self@.wf()
    }
}

// ---------------------------------------------------------------------
// Canonical encoding, at the spec level
// ---------------------------------------------------------------------
pub open spec fn tag_of(s: SectionV) -> u8 {
    match s {
        SectionV::Data(_) => TAG_DATA,
        SectionV::ExtraData(_) => TAG_EXTRA_DATA,
        SectionV::Code(_) => TAG_CODE,
        SectionV::Signature(_) => TAG_SIGNATURE,
        SectionV::Ciphertext(_) => TAG_CIPHERTEXT,
    }
}

pub open spec fn enc_data_body(d: DataV) -> Seq<u8> {
    d.salt + enc_bytes(d.data)
}

pub open spec fn enc_code_body(c: CodeV) -> Seq<u8> {
    c.salt + enc_bytes(c.code)
}

pub open spec fn enc_signature_body(g: SignatureV) -> Seq<u8> {
    g.salt + g.target + enc_bytes(g.signature) + enc_bytes(g.pub_key)
}

pub open spec fn enc_ciphertext_body(c: CiphertextV) -> Seq<u8> {
    enc_bytes(c.opaque)
}

pub open spec fn enc_section_body(s: SectionV) -> Seq<u8> {
    match s {
        SectionV::Data(d) => enc_data_body(d),
        SectionV::ExtraData(d) => enc_data_body(d),
        SectionV::Code(c) => enc_code_body(c),
        SectionV::Signature(g) => enc_signature_body(g),
        SectionV::Ciphertext(c) => enc_ciphertext_body(c),
    }
}

pub open spec fn enc_section(s: SectionV) -> Seq<u8> {
    seq![tag_of(s)] + enc_section_body(s)
}

/// The domain-separated hash preimage: tag byte plus canonical body,
/// except that a ciphertext is hashed over its opaque bytes alone.
pub open spec fn hash_preimage(s: SectionV) -> Seq<u8> {
    match s {
        SectionV::Ciphertext(c) => seq![TAG_CIPHERTEXT] + c.opaque,
        _ => enc_section(s),
    }
}

// ---------------------------------------------------------------------
// Parsing, at the spec level
// ---------------------------------------------------------------------
pub open spec fn sp_data_body(s: Seq<u8>, i: int) -> Option<(DataV, int)> {
    match sp_fixed(s, i, 8) {
        None => None,
        Some((salt, j)) => match sp_bytes(s, j) {
            None => None,
            Some((payload, k)) => Some((DataV { salt: salt, data: payload }, k)),
        },
    }
}

pub open spec fn sp_code_body(s: Seq<u8>, i: int) -> Option<(CodeV, int)> {
    match sp_fixed(s, i, 8) {
        None => None,
        Some((salt, j)) => match sp_bytes(s, j) {
            None => None,
            Some((payload, k)) => Some((CodeV { salt: salt, code: payload }, k)),
        },
    }
}

pub open spec fn sp_signature_body(s: Seq<u8>, i: int) -> Option<(SignatureV, int)> {
    match sp_fixed(s, i, 8) {
        None => None,
        Some((salt, j)) => match sp_fixed(s, j, 32) {
            None => None,
            Some((target, k)) => match sp_bytes(s, k) {
                None => None,
                Some((sig, m)) => match sp_bytes(s, m) {
                    None => None,
                    Some((pk, n)) => Some(
                        (SignatureV { salt: salt, target: target, signature: sig, pub_key: pk }, n),
                    ),
                },
            },
        },
    }
}

pub open spec fn sp_ciphertext_body(s: Seq<u8>, i: int) -> Option<(CiphertextV, int)> {
    match sp_bytes(s, i) {
        None => None,
        Some((opaque, j)) => Some((CiphertextV { opaque: opaque }, j)),
    }
}

pub open spec fn sp_section(s: Seq<u8>, i: int) -> Option<(SectionV, int)> {
    match sp_u8(s, i) {
        None => None,
        Some((t, j)) => if t == TAG_DATA {
            match sp_data_body(s, j) {
                None => None,
                Some((d, k)) => Some((SectionV::Data(d), k)),
            }
        } else if t == TAG_EXTRA_DATA {
            match sp_data_body(s, j) {
                None => None,
                Some((d, k)) => Some((SectionV::ExtraData(d), k)),
            }
        } else if t == TAG_CODE {
            match sp_code_body(s, j) {
                None => None,
                Some((c, k)) => Some((SectionV::Code(c), k)),
            }
        } else if t == TAG_SIGNATURE {
            match sp_signature_body(s, j) {
                None => None,
                Some((g, k)) => Some((SectionV::Signature(g), k)),
            }
        } else if t == TAG_CIPHERTEXT {
            match sp_ciphertext_body(s, j) {
                None => None,
                Some((c, k)) => Some((SectionV::Ciphertext(c), k)),
            }
        } else {
            None
        },
    }
}

/// A whole byte string that is exactly one section.
pub open spec fn sp_section_exact(s: Seq<u8>) -> Option<SectionV> {
    match sp_section(s, 0) {
        None => None,
        Some((v, j)) => if j == s.len() {
            Some(v)
        } else {
            None
        },
    }
}

// ---------------------------------------------------------------------
// Round-trip lemmas
// ---------------------------------------------------------------------
pub proof fn lemma_sp_data_body(s: Seq<u8>, i: int, d: DataV)
    requires
        d.wf(),
        0 <= i,
        i + enc_data_body(d).len() <= s.len(),
        s.subrange(i, i + enc_data_body(d).len()) == enc_data_body(d),
    ensures
        sp_data_body(s, i) == Some((d, i + enc_data_body(d).len())),
{
    lemma_enc_lens();
    let e = enc_data_body(d);
    let c1 = enc_bytes(d.data);
    assert(e.subrange(0, 8) =~= d.salt);
    lemma_sub_chunk(s, i, e, 0, d.salt);
    lemma_sp_fixed(s, i, d.salt);
    assert(e.subrange(8, 8 + c1.len() as int) =~= c1);
    lemma_sub_chunk(s, i, e, 8, c1);
    lemma_sp_bytes(s, i + 8, d.data);
}

pub proof fn lemma_sp_code_body(s: Seq<u8>, i: int, c: CodeV)
    requires
        c.wf(),
        0 <= i,
        i + enc_code_body(c).len() <= s.len(),
        s.subrange(i, i + enc_code_body(c).len()) == enc_code_body(c),
    ensures
        sp_code_body(s, i) == Some((c, i + enc_code_body(c).len())),
{
    lemma_enc_lens();
    let e = enc_code_body(c);
    let c1 = enc_bytes(c.code);
    assert(e.subrange(0, 8) =~= c.salt);
    lemma_sub_chunk(s, i, e, 0, c.salt);
    lemma_sp_fixed(s, i, c.salt);
    assert(e.subrange(8, 8 + c1.len() as int) =~= c1);
    lemma_sub_chunk(s, i, e, 8, c1);
    lemma_sp_bytes(s, i + 8, c.code);
}

pub proof fn lemma_sp_signature_body(s: Seq<u8>, i: int, g: SignatureV)
    requires
        g.wf(),
        0 <= i,
        i + enc_signature_body(g).len() <= s.len(),
        s.subrange(i, i + enc_signature_body(g).len()) == enc_signature_body(g),
    ensures
        sp_signature_body(s, i) == Some((g, i + enc_signature_body(g).len())),
{
    lemma_enc_lens();
    let e = enc_signature_body(g);
    let c1 = enc_bytes(g.signature);
    let c2 = enc_bytes(g.pub_key);
    assert(e.subrange(0, 8) =~= g.salt);
    lemma_sub_chunk(s, i, e, 0, g.salt);
    lemma_sp_fixed(s, i, g.salt);
    assert(e.subrange(8, 40) =~= g.target);
    lemma_sub_chunk(s, i, e, 8, g.target);
    lemma_sp_fixed(s, i + 8, g.target);
    assert(e.subrange(40, 40 + c1.len() as int) =~= c1);
    lemma_sub_chunk(s, i, e, 40, c1);
    lemma_sp_bytes(s, i + 40, g.signature);
    assert(e.subrange(40 + c1.len() as int, 40 + c1.len() + c2.len() as int) =~= c2);
    lemma_sub_chunk(s, i, e, 40 + c1.len() as int, c2);
    lemma_sp_bytes(s, i + 40 + c1.len() as int, g.pub_key);
}

pub proof fn lemma_sp_ciphertext_body(s: Seq<u8>, i: int, c: CiphertextV)
    requires
        c.wf(),
        0 <= i,
        i + enc_ciphertext_body(c).len() <= s.len(),
        s.subrange(i, i + enc_ciphertext_body(c).len()) == enc_ciphertext_body(c),
    ensures
        sp_ciphertext_body(s, i) == Some((c, i + enc_ciphertext_body(c).len())),
{
    lemma_enc_lens();
    lemma_sp_bytes(s, i, c.opaque);
}

pub proof fn lemma_sp_section(s: Seq<u8>, i: int, v: SectionV)
    requires
        v.wf(),
        0 <= i,
        i + enc_section(v).len() <= s.len(),
        s.subrange(i, i + enc_section(v).len()) == enc_section(v),
    ensures
        sp_section(s, i) == Some((v, i + enc_section(v).len())),
{
    let e = enc_section(v);
    let body = enc_section_body(v);
    assert(e.subrange(0, 1) =~= seq![tag_of(v)]);
    lemma_sub_chunk(s, i, e, 0, seq![tag_of(v)]);
    lemma_sp_u8(s, i, tag_of(v));
    assert(e.subrange(1, 1 + body.len() as int) =~= body);
    lemma_sub_chunk(s, i, e, 1, body);
    match v {
        SectionV::Data(d) => {
            lemma_sp_data_body(s, i + 1, d);
        },
        SectionV::ExtraData(d) => {
            lemma_sp_data_body(s, i + 1, d);
        },
        SectionV::Code(c) => {
            lemma_sp_code_body(s, i + 1, c);
        },
        SectionV::Signature(g) => {
            lemma_sp_signature_body(s, i + 1, g);
        },
        SectionV::Ciphertext(c) => {
            lemma_sp_ciphertext_body(s, i + 1, c);
        },
    }
}

/// One section, encoded alone, parses back to exactly itself.
pub proof fn lemma_section_exact_round_trip(v: SectionV)
    requires
        v.wf(),
    ensures
        sp_section_exact(enc_section(v)) == Some(v),
{
    let e = enc_section(v);
    assert(e.subrange(0, e.len() as int) =~= e);
    lemma_sp_section(e, 0, v);
}

// ---------------------------------------------------------------------
// Executable encoding and parsing
// ---------------------------------------------------------------------
pub fn encode_section(buf: Vec<u8>, s: &Section) -> (r: Vec<u8>)
    ensures
        r@ == buf@ + enc_section(s@),
{
    let ghost start: Seq<u8> = buf@;
    match s {
        Section::Data(d) => {
            let b = app_u8(buf, TAG_DATA);
            let b = app_raw(b, &d.salt);
            let b = app_bytes(b, &d.data);
            assert(b@ =~= start + enc_section(s@));
            b
        },
        Section::ExtraData(d) => {
            let b = app_u8(buf, TAG_EXTRA_DATA);
            let b = app_raw(b, &d.salt);
            let b = app_bytes(b, &d.data);
            assert(b@ =~= start + enc_section(s@));
            b
        },
        Section::Code(c) => {
            let b = app_u8(buf, TAG_CODE);
            let b = app_raw(b, &c.salt);
            let b = app_bytes(b, &c.code);
            assert(b@ =~= start + enc_section(s@));
            b
        },
        Section::Signature(g) => {
            let b = app_u8(buf, TAG_SIGNATURE);
            let b = app_raw(b, &g.salt);
            let b = app_raw(b, &g.target);
            let b = app_bytes(b, &g.signature);
            let b = app_bytes(b, &g.pub_key);
            assert(b@ =~= start + enc_section(s@));
            b
        },
        Section::Ciphertext(c) => {
            let b = app_u8(buf, TAG_CIPHERTEXT);
            let b = app_bytes(b, &c.opaque);
            assert(b@ =~= start + enc_section(s@));
            b
        },
    }
}

/// The canonical encoding of one section, alone.
pub fn section_bytes(s: &Section) -> (r: Vec<u8>)
    ensures
        r@ == enc_section(s@),
{
    let buf: Vec<u8> = Vec::new();
    let r = encode_section(buf, s);
    assert(r@ =~= enc_section(s@));
    r
}

pub fn parse_section(s: &Vec<u8>, i: usize) -> (r: Option<(Section, usize)>)
    ensures
        r is Some <==> sp_section(s@, i as int) is Some,
        r is Some ==> ({
            let (v, j) = sp_section(s@, i as int).unwrap();
            r.unwrap().0@ == v && r.unwrap().1 as int == j && v.wf()
        }),
{
    match rd_u8(s, i) {
        None => None,
        Some((t, j)) => {
            if t == TAG_DATA || t == TAG_EXTRA_DATA {
                match rd_fixed(s, j, 8) {
                    None => None,
                    Some((salt, k)) => match rd_bytes(s, k) {
                        None => None,
                        Some((payload, m)) => {
                            let d = Data { salt: salt, data: payload };
                            if t == TAG_DATA {
                                Some((Section::Data(d), m))
                            } else {
                                Some((Section::ExtraData(d), m))
                            }
                        },
                    },
                }
            } else if t == TAG_CODE {
                match rd_fixed(s, j, 8) {
                    None => None,
                    Some((salt, k)) => match rd_bytes(s, k) {
                        None => None,
                        Some((payload, m)) => Some(
                            (Section::Code(Code { salt: salt, code: payload }), m),
                        ),
                    },
                }
            } else if t == TAG_SIGNATURE {
                match rd_fixed(s, j, 8) {
                    None => None,
                    Some((salt, k)) => match rd_fixed(s, k, 32) {
                        None => None,
                        Some((target, m)) => match rd_bytes(s, m) {
                            None => None,
                            Some((sig, n)) => match rd_bytes(s, n) {
                                None => None,
                                Some((pk, p)) => Some(
                                    (
                                        Section::Signature(
                                            Signature {
                                                salt: salt,
                                                target: target,
                                                signature: sig,
                                                pub_key: pk,
                                            },
                                        ),
                                        p,
                                    ),
                                ),
                            },
                        },
                    },
                }
            } else if t == TAG_CIPHERTEXT {
                match rd_bytes(s, j) {
                    None => None,
                    Some((opaque, k)) => Some(
                        (Section::Ciphertext(Ciphertext { opaque: opaque }), k),
                    ),
                }
            } else {
                None
            }
        },
    }
}

/// Parse a whole byte string as exactly one section.
pub fn parse_section_exact(s: &Vec<u8>) -> (r: Option<Section>)
    ensures
        r is Some <==> sp_section_exact(s@) is Some,
        r is Some ==> r.unwrap()@ == sp_section_exact(s@).unwrap() && r.unwrap()@.wf(),
{
    match parse_section(s, 0) {
        None => None,
        Some((v, j)) => {
            if j == s.len() {
                Some(v)
            } else {
                None
            }
        },
    }
}

// ---------------------------------------------------------------------
// Content addressing
// ---------------------------------------------------------------------
/// A section's identity: the SHA-256 digest of its domain-separated
/// preimage.
pub open spec fn section_hash(s: SectionV) -> Seq<u8> {
    sha256_of(hash_preimage(s))
}

impl Section {
    /// The section's content address.
    pub fn hash(&self) -> (r: Vec<u8>)
        ensures
            r@ == section_hash(self@),
            r@.len() == 32,
    {
        let preimage: Vec<u8> = match self {
            Section::Ciphertext(c) => {
                let b: Vec<u8> = Vec::new();
                let b = app_u8(b, TAG_CIPHERTEXT);
                let b = app_raw(b, &c.opaque);
                assert(b@ =~= hash_preimage(self@));
                b
            },
            _ => {
                let b = section_bytes(self);
                b
            },
        };
        sha256(&preimage)
    }

    /// Sign this section's content address; refused only when the key
    /// bytes are no secret key.
    pub fn sign(&self, sec_key: &Vec<u8>) -> (r: Option<Signature>)
        ensures
            r is Some ==> ({
                let g = r.unwrap()@;
                g.target == section_hash(self@) && g.signature == sig_of(
                    sec_key@,
                    section_hash(self@),
                ) && g.pub_key == public_of(sec_key@) && sig_valid(g.pub_key, g.target, g.signature)
                    && g.wf()
            }),
            valid_secret(sec_key@) ==> r is Some,
    {
        let h = self.hash();
        Signature::new(&h, sec_key)
    }
}

impl Data {
    /// The digest of this payload's fields alone, without the
    /// section tag.
    pub fn hash(&self) -> (r: Vec<u8>)
        ensures
            r@ == sha256_of(enc_data_body(self@)),
            r@.len() == 32,
    {
        let b: Vec<u8> = Vec::new();
        let b = app_raw(b, &self.salt);
        let b = app_bytes(b, &self.data);
        assert(b@ =~= enc_data_body(self@));
        sha256(&b)
    }
}

impl Code {
    /// The digest of this blob's fields alone, without the section
    /// tag.
    pub fn hash(&self) -> (r: Vec<u8>)
        ensures
            r@ == sha256_of(enc_code_body(self@)),
            r@.len() == 32,
    {
        let b: Vec<u8> = Vec::new();
        let b = app_raw(b, &self.salt);
        let b = app_bytes(b, &self.code);
        assert(b@ =~= enc_code_body(self@));
        sha256(&b)
    }
}

impl Signature {
    /// The digest of this attestation's fields alone, without the
    /// section tag.
    pub fn hash(&self) -> (r: Vec<u8>)
        ensures
            r@ == sha256_of(enc_signature_body(self@)),
            r@.len() == 32,
    {
        let b: Vec<u8> = Vec::new();
        let b = app_raw(b, &self.salt);
        let b = app_raw(b, &self.target);
        let b = app_bytes(b, &self.signature);
        let b = app_bytes(b, &self.pub_key);
        assert(b@ =~= enc_signature_body(self@));
        sha256(&b)
    }
}

impl Ciphertext {
    /// Encrypt a section's canonical encoding into an opaque
    /// ciphertext; refused only when the key bytes are no public
    /// key.
    pub fn new(section: &Section, pubkey: &Vec<u8>) -> (r: Option<Ciphertext>)
        ensures
            r is Some ==> ct_valid(r.unwrap()@.opaque),
            r is Some ==> forall|skb: Seq<u8>|
                public_of(skb) == pubkey@ ==> decryption_of(r.unwrap()@.opaque, skb) == Some(
                    enc_section(section@),
                ),
            valid_public(pubkey@) ==> r is Some,
    {
        let plain = section_bytes(section);
        match encrypt_bytes(&plain, pubkey) {
            None => None,
            Some(opaque) => Some(Ciphertext { opaque: opaque }),
        }
    }

    /// Decrypt back into the section this ciphertext encodes; fails
    /// when authentication or parsing does.
    pub fn decrypt(&self, privkey: &Vec<u8>) -> (r: Option<Section>)
        ensures
            r is Some <==> (decryption_of(self@.opaque, privkey@) matches Some(b)
                && sp_section_exact(b) is Some),
            r is Some ==> Some(r.unwrap()@) == sp_section_exact(
                decryption_of(self@.opaque, privkey@).unwrap(),
            ),
    {
        match decrypt_bytes(&self.opaque, privkey) {
            None => None,
            Some(plain) => parse_section_exact(&plain),
        }
    }

    /// The digest of the opaque bytes alone: hashing a ciphertext is
    /// independent of whatever structure the ciphertext has.
    pub fn hash(&self) -> (r: Vec<u8>)
        ensures
            r@ == sha256_of(self@.opaque),
            r@.len() == 32,
    {
        sha256(&self.opaque)
    }
}

/// Two salted payloads with different salts can never share a hash
/// preimage, whatever their contents: the salt sits at a fixed place
/// of the preimage. This is what makes equal payloads created at
/// different times distinct.
pub proof fn lemma_salting_distinct_preimage(d1: DataV, d2: DataV)
    requires
        d1.salt.len() == 8,
        d2.salt.len() == 8,
        d1.salt != d2.salt,
    ensures
        hash_preimage(SectionV::Data(d1)) != hash_preimage(SectionV::Data(d2)),
{
    let p1 = hash_preimage(SectionV::Data(d1));
    let p2 = hash_preimage(SectionV::Data(d2));
    assert(p1.subrange(1, 9) =~= d1.salt);
    assert(p2.subrange(1, 9) =~= d2.salt);
}

// ---------------------------------------------------------------------
// Constructors: the salt comes from the clock, so that two sections
// holding the same payload at different creation times differ.
// ---------------------------------------------------------------------
impl Data {
    /// A fresh salted payload section.
    pub fn new(data: Vec<u8>) -> (r: Data)
        ensures
            r@.data == data@,
            r@.wf(),
    {
        let _len: usize = data.len();
        let salt = vstd::bytes::u64_to_le_bytes(now_millis());
        Data { salt: salt, data: data }
    }
}

impl Code {
    /// A fresh salted code section.
    pub fn new(code: Vec<u8>) -> (r: Code)
        ensures
            r@.code == code@,
            r@.wf(),
    {
        let _len: usize = code.len();
        let salt = vstd::bytes::u64_to_le_bytes(now_millis());
        Code { salt: salt, code: code }
    }
}

impl Signature {
    /// A fresh attestation over a 32-byte target; refused only when
    /// the key bytes are no secret key.
    pub fn new(target: &Vec<u8>, sec_key: &Vec<u8>) -> (r: Option<Signature>)
        requires
            target@.len() == 32,
        ensures
            r is Some ==> ({
                let g = r.unwrap()@;
                g.target == target@ && g.signature == sig_of(sec_key@, target@) && g.pub_key
                    == public_of(sec_key@) && sig_valid(g.pub_key, g.target, g.signature)
                    && g.wf()
            }),
            valid_secret(sec_key@) ==> r is Some,
    {
        let sig = match sign_bytes(sec_key, target) {
            None => {
                return None;
            },
            Some(s) => s,
        };
        let pk = match public_key_bytes(sec_key) {
            None => {
                return None;
            },
            Some(p) => p,
        };
        let _sig_len: usize = sig.len();
        let _pk_len: usize = pk.len();
        let salt = vstd::bytes::u64_to_le_bytes(now_millis());
        Some(Signature { salt: salt, target: copy_bytes(target), signature: sig, pub_key: pk })
    }
}

// ---------------------------------------------------------------------
// Accessors over the section variants
// ---------------------------------------------------------------------
/// A copy of a byte string, element for element.
pub fn copy_bytes(v: &Vec<u8>) -> (r: Vec<u8>)
    ensures
        r@ == v@,
{
    let out: Vec<u8> = Vec::new();
    let r = app_raw(out, v);
    assert(r@ =~= v@);
    r
}

impl Data {
    /// An identical copy.
    pub fn dup(&self) -> (r: Data)
        ensures
            r@ == self@,
    {
        Data { salt: copy_bytes(&self.salt), data: copy_bytes(&self.data) }
    }
}

impl Code {
    /// An identical copy.
    pub fn dup(&self) -> (r: Code)
        ensures
            r@ == self@,
    {
        Code { salt: copy_bytes(&self.salt), code: copy_bytes(&self.code) }
    }
}

impl Signature {
    /// An identical copy.
    pub fn dup(&self) -> (r: Signature)
        ensures
            r@ == self@,
    {
        Signature {
            salt: copy_bytes(&self.salt),
            target: copy_bytes(&self.target),
            signature: copy_bytes(&self.signature),
            pub_key: copy_bytes(&self.pub_key),
        }
    }
}

impl Ciphertext {
    /// An identical copy.
    pub fn dup(&self) -> (r: Ciphertext)
        ensures
            r@ == self@,
    {
        Ciphertext { opaque: copy_bytes(&self.opaque) }
    }
}

impl Section {
    /// An identical copy.
    pub fn dup(&self) -> (r: Section)
        ensures
            r@ == self@,
    {
        match self {
            Section::Data(d) => Section::Data(d.dup()),
            Section::ExtraData(d) => Section::ExtraData(d.dup()),
            Section::Code(c) => Section::Code(c.dup()),
            Section::Signature(g) => Section::Signature(g.dup()),
            Section::Ciphertext(c) => Section::Ciphertext(c.dup()),
        }
    }

    /// The payload, when this is a `Data` section.
    pub fn data(&self) -> (r: Option<Data>)
        ensures
            (r is Some <==> self@ is Data),
            r is Some ==> r.unwrap()@ == self@->Data_0,
    {
        if let Section::Data(d) = self {
            Some(d.dup())
        } else {
            None
        }
    }

    /// The payload, when this is an `ExtraData` section.
    pub fn extra_data(&self) -> (r: Option<Data>)
        ensures
            (r is Some <==> self@ is ExtraData),
            r is Some ==> r.unwrap()@ == self@->ExtraData_0,
    {
        if let Section::ExtraData(d) = self {
            Some(d.dup())
        } else {
            None
        }
    }

    /// The blob, when this is a `Code` section.
    pub fn code(&self) -> (r: Option<Code>)
        ensures
            (r is Some <==> self@ is Code),
            r is Some ==> r.unwrap()@ == self@->Code_0,
    {
        if let Section::Code(c) = self {
            Some(c.dup())
        } else {
            None
        }
    }

    /// The attestation, when this is a `Signature` section.
    pub fn signature(&self) -> (r: Option<Signature>)
        ensures
            (r is Some <==> self@ is Signature),
            r is Some ==> r.unwrap()@ == self@->Signature_0,
    {
        if let Section::Signature(g) = self {
            Some(g.dup())
        } else {
            None
        }
    }

    /// The opaque payload, when this is a `Ciphertext` section.
    pub fn ciphertext(&self) -> (r: Option<Ciphertext>)
        ensures
            (r is Some <==> self@ is Ciphertext),
            r is Some ==> r.unwrap()@ == self@->Ciphertext_0,
    {
        if let Section::Ciphertext(c) = self {
            Some(c.dup())
        } else {
            None
        }
    }
}

} // verus!
