//! Little-endian, length-prefixed wire primitives: the building blocks
//! of the canonical envelope encoding.
//!
//! Each primitive comes as a spec-level encoder (a `Seq<u8>`), a
//! spec-level parser over a position in a byte sequence, an executable
//! encoder and parser proved against the two, and a round-trip lemma
//! saying that the parser recovers exactly what the encoder wrote.
use vstd::prelude::*;
use vstd::bytes::*;
use vstd::seq_lib::*;

verus! {

// ---------------------------------------------------------------------
// Spec encoders
// ---------------------------------------------------------------------
pub open spec fn enc_u8(x: u8) -> Seq<u8> {
    seq![x]
}

pub open spec fn enc_bool(b: bool) -> Seq<u8> {
    if b {
        seq![1u8]
    } else {
        seq![0u8]
    }
}

pub open spec fn enc_u64(x: u64) -> Seq<u8> {
    spec_u64_to_le_bytes(x)
}

/// A variable-length byte string: eight length bytes, then the bytes.
pub open spec fn enc_bytes(b: Seq<u8>) -> Seq<u8> {
    enc_u64(b.len() as u64) + b
}

pub open spec fn opt_bytes_view(x: Option<Vec<u8>>) -> Option<Seq<u8>> {
    match x {
        None => None,
        Some(v) => Some(v@),
    }
}

pub open spec fn enc_opt_bytes(x: Option<Seq<u8>>) -> Seq<u8> {
    match x {
        None => seq![0u8],
        Some(b) => seq![1u8] + enc_bytes(b),
    }
}

pub open spec fn enc_opt_u64(x: Option<u64>) -> Seq<u8> {
    match x {
        None => seq![0u8],
        Some(v) => seq![1u8] + enc_u64(v),
    }
}

/// Byte strings small enough for their length to be written in eight
/// bytes; every in-memory vector satisfies this.
pub open spec fn fits_u64(b: Seq<u8>) -> bool {
    b.len() <= u64::MAX
}

// ---------------------------------------------------------------------
// Spec parsers: each takes the whole input and a start position and
// yields the parsed value with the position just past it.
// ---------------------------------------------------------------------
pub open spec fn sp_u8(s: Seq<u8>, i: int) -> Option<(u8, int)> {
    if 0 <= i && i + 1 <= s.len() {
        Some((s[i], i + 1))
    } else {
        None
    }
}

pub open spec fn sp_bool(s: Seq<u8>, i: int) -> Option<(bool, int)> {
    match sp_u8(s, i) {
        None => None,
        Some((t, j)) => if t == 0u8 {
            Some((false, j))
        } else if t == 1u8 {
            Some((true, j))
        } else {
            None
        },
    }
}

pub open spec fn sp_u64(s: Seq<u8>, i: int) -> Option<(u64, int)> {
    if 0 <= i && i + 8 <= s.len() {
        Some((spec_u64_from_le_bytes(s.subrange(i, i + 8)), i + 8))
    } else {
        None
    }
}

pub open spec fn sp_fixed(s: Seq<u8>, i: int, n: int) -> Option<(Seq<u8>, int)> {
    if 0 <= i && 0 <= n && i + n <= s.len() {
        Some((s.subrange(i, i + n), i + n))
    } else {
        None
    }
}

pub open spec fn sp_bytes(s: Seq<u8>, i: int) -> Option<(Seq<u8>, int)> {
    match sp_u64(s, i) {
        None => None,
        Some((n, j)) => if j + n <= s.len() {
            Some((s.subrange(j, j + n), j + n))
        } else {
            None
        },
    }
}

pub open spec fn sp_opt_u64(s: Seq<u8>, i: int) -> Option<(Option<u64>, int)> {
    match sp_bool(s, i) {
        None => None,
        Some((present, j)) => if present {
            match sp_u64(s, j) {
                None => None,
                Some((v, k)) => Some((Some(v), k)),
            }
        } else {
            Some((None, j))
        },
    }
}

// ---------------------------------------------------------------------
// Round-trip lemmas: if the encoding of a value sits at position `i`
// of `s`, the parser finds exactly that value and stops right after.
// ---------------------------------------------------------------------
pub proof fn lemma_sp_u8(s: Seq<u8>, i: int, x: u8)
    requires
        0 <= i,
        i + 1 <= s.len(),
        s.subrange(i, i + 1) == enc_u8(x),
    ensures
        sp_u8(s, i) == Some((x, i + 1)),
{
    assert(s[i] == s.subrange(i, i + 1)[0]);
}

pub proof fn lemma_sp_bool(s: Seq<u8>, i: int, b: bool)
    requires
        0 <= i,
        i + 1 <= s.len(),
        s.subrange(i, i + 1) == enc_bool(b),
    ensures
        sp_bool(s, i) == Some((b, i + 1)),
{
    assert(s[i] == s.subrange(i, i + 1)[0]);
}

pub proof fn lemma_sp_u64(s: Seq<u8>, i: int, x: u64)
    requires
        0 <= i,
        i + 8 <= s.len(),
        s.subrange(i, i + 8) == enc_u64(x),
    ensures
        sp_u64(s, i) == Some((x, i + 8)),
{
    lemma_auto_spec_u64_to_from_le_bytes();
}

pub proof fn lemma_sp_fixed(s: Seq<u8>, i: int, b: Seq<u8>)
    requires
        0 <= i,
        i + b.len() <= s.len(),
        s.subrange(i, i + b.len()) == b,
    ensures
        sp_fixed(s, i, b.len() as int) == Some((b, i + b.len())),
{
}

pub proof fn lemma_sp_bytes(s: Seq<u8>, i: int, b: Seq<u8>)
    requires
        0 <= i,
        fits_u64(b),
        i + 8 + b.len() <= s.len(),
        s.subrange(i, i + 8 + b.len()) == enc_bytes(b),
    ensures
        sp_bytes(s, i) == Some((b, i + 8 + b.len())),
{
    let e = enc_bytes(b);
    let n: u64 = b.len() as u64;
    assert(enc_u64(n).len() == 8) by {
        lemma_auto_spec_u64_to_from_le_bytes();
    }
    assert(s.subrange(i, i + 8) =~= enc_u64(n)) by {
        assert forall|k: int| 0 <= k < 8 implies s.subrange(i, i + 8)[k] == enc_u64(n)[k] by {
            assert(s.subrange(i, i + 8)[k] == s[i + k]);
            assert(s[i + k] == s.subrange(i, i + 8 + b.len())[k]);
            assert(e[k] == enc_u64(n)[k]);
        }
    }
    lemma_sp_u64(s, i, n);
    assert(s.subrange(i + 8, i + 8 + b.len()) =~= b) by {
        assert forall|k: int| 0 <= k < b.len() implies s.subrange(i + 8, i + 8 + b.len())[k]
            == b[k] by {
            assert(s.subrange(i + 8, i + 8 + b.len())[k] == s[i + 8 + k]);
            assert(s[i + 8 + k] == s.subrange(i, i + 8 + b.len())[8 + k]);
            assert(e[8 + k] == b[k]);
        }
    }
}

pub proof fn lemma_sp_opt_u64(s: Seq<u8>, i: int, x: Option<u64>)
    requires
        0 <= i,
        i + enc_opt_u64(x).len() <= s.len(),
        s.subrange(i, i + enc_opt_u64(x).len()) == enc_opt_u64(x),
    ensures
        sp_opt_u64(s, i) == Some((x, i + enc_opt_u64(x).len())),
{
    let e = enc_opt_u64(x);
    match x {
        None => {
            assert(s.subrange(i, i + 1) =~= enc_bool(false)) by {
                assert(s.subrange(i, i + 1)[0] == s[i]);
                assert(s[i] == s.subrange(i, i + e.len())[0]);
            }
            lemma_sp_bool(s, i, false);
        },
        Some(v) => {
            assert(e.len() == 9) by {
                lemma_auto_spec_u64_to_from_le_bytes();
            }
            assert(s.subrange(i, i + 1) =~= enc_bool(true)) by {
                assert(s.subrange(i, i + 1)[0] == s[i]);
                assert(s[i] == s.subrange(i, i + e.len())[0]);
            }
            lemma_sp_bool(s, i, true);
            assert(s.subrange(i + 1, i + 9) =~= enc_u64(v)) by {
                assert(enc_u64(v).len() == 8) by {
                    lemma_auto_spec_u64_to_from_le_bytes();
                }
                assert forall|k: int| 0 <= k < 8 implies s.subrange(i + 1, i + 9)[k] == enc_u64(
                    v,
                )[k] by {
                    assert(s.subrange(i + 1, i + 9)[k] == s[i + 1 + k]);
                    assert(s[i + 1 + k] == s.subrange(i, i + e.len())[1 + k]);
                    assert(e[1 + k] == (seq![1u8] + enc_u64(v))[1 + k]);
                }
            }
            lemma_sp_u64(s, i + 1, v);
        },
    }
}

/// Lengths of the primitive encodings, gathered so that composite
/// round-trip proofs can bring them all into scope with one call.
pub proof fn lemma_enc_lens()
    ensures
        forall|x: u64| #[trigger] enc_u64(x).len() == 8,
        forall|b: Seq<u8>| #[trigger] enc_bytes(b).len() == 8 + b.len(),
        forall|x: Option<u64>|
            #[trigger] enc_opt_u64(x).len() == (if x is Some {
                9int
            } else {
                1int
            }),
{
    lemma_auto_spec_u64_to_from_le_bytes();
}

/// If the encoding `e` sits at position `i` of `s`, then any chunk of
/// `e` sits at the corresponding position of `s`.
pub proof fn lemma_sub_chunk(s: Seq<u8>, i: int, e: Seq<u8>, o: int, c: Seq<u8>)
    requires
        0 <= i,
        i + e.len() <= s.len(),
        s.subrange(i, i + e.len()) == e,
        0 <= o,
        o + c.len() <= e.len(),
        e.subrange(o, o + c.len()) == c,
    ensures
        s.subrange(i + o, i + o + c.len()) == c,
{
    assert(s.subrange(i + o, i + o + c.len()) =~= c) by {
        assert forall|k: int| 0 <= k < c.len() implies s.subrange(i + o, i + o + c.len())[k]
            == c[k] by {
            assert(s.subrange(i + o, i + o + c.len())[k] == s[i + o + k]);
            assert(s[i + o + k] == s.subrange(i, i + e.len())[o + k]);
            assert(c[k] == e.subrange(o, o + c.len())[k]);
        }
    }
}

// ---------------------------------------------------------------------
// Executable encoders, builder style: each appends one field to the
// buffer and returns it.
// ---------------------------------------------------------------------
pub fn app_u8(buf: Vec<u8>, x: u8) -> (r: Vec<u8>)
    ensures
        r@ == buf@ + enc_u8(x),
{
    let mut b = buf;
    let ghost start: Seq<u8> = b@;
    b.push(x);
    assert(b@ =~= start + enc_u8(x));
    b
}

pub fn app_bool(buf: Vec<u8>, x: bool) -> (r: Vec<u8>)
    ensures
        r@ == buf@ + enc_bool(x),
{
    let mut b = buf;
    if x {
        b.push(1u8);
    } else {
        b.push(0u8);
    }
    assert(b@ =~= buf@ + enc_bool(x));
    b
}

pub fn app_raw(buf: Vec<u8>, x: &Vec<u8>) -> (r: Vec<u8>)
    ensures
        r@ == buf@ + x@,
{
    let mut b = buf;
    let ghost start: Seq<u8> = b@;
    let mut k: usize = 0;
    while k < x.len()
        invariant
            k <= x.len(),
            b@ == start + x@.take(k as int),
        decreases x.len() - k,
    {
        b.push(x[k]);
        assert(start + x@.take(k as int) + seq![x@[k as int]] =~= start + x@.take(k + 1));
        k = k + 1;
    }
    assert(b@ =~= start + x@);
    b
}

pub fn app_u64(buf: Vec<u8>, x: u64) -> (r: Vec<u8>)
    ensures
        r@ == buf@ + enc_u64(x),
{
    let le = u64_to_le_bytes(x);
    app_raw(buf, &le)
}

pub fn app_bytes(buf: Vec<u8>, x: &Vec<u8>) -> (r: Vec<u8>)
    ensures
        r@ == buf@ + enc_bytes(x@),
{
    let b = app_u64(buf, x.len() as u64);
    let b = app_raw(b, x);
    assert(b@ =~= buf@ + enc_bytes(x@));
    b
}

pub fn app_opt_bytes(buf: Vec<u8>, x: &Option<Vec<u8>>) -> (r: Vec<u8>)
    ensures
        r@ == buf@ + enc_opt_bytes(opt_bytes_view(*x)),
{
    match x {
        None => app_bool(buf, false),
        Some(v) => {
            let b = app_bool(buf, true);
            let b = app_bytes(b, v);
            assert(b@ =~= buf@ + enc_opt_bytes(opt_bytes_view(Some(*v))));
            b
        },
    }
}

pub fn app_opt_u64(buf: Vec<u8>, x: &Option<u64>) -> (r: Vec<u8>)
    ensures
        r@ == buf@ + enc_opt_u64(*x),
{
    match x {
        None => app_bool(buf, false),
        Some(v) => {
            let b = app_bool(buf, true);
            let b = app_u64(b, *v);
            assert(b@ =~= buf@ + enc_opt_u64(Some(*v)));
            b
        },
    }
}

// ---------------------------------------------------------------------
// Executable parsers, proved to agree with the spec parsers.
// ---------------------------------------------------------------------
pub fn rd_u8(s: &Vec<u8>, i: usize) -> (r: Option<(u8, usize)>)
    ensures
        r is Some <==> sp_u8(s@, i as int) is Some,
        r is Some ==> (
            r.unwrap().0 == sp_u8(s@, i as int).unwrap().0
            && r.unwrap().1 as int == sp_u8(s@, i as int).unwrap().1
        ),
{
    if i < s.len() {
        Some((s[i], i + 1))
    } else {
        None
    }
}

pub fn rd_bool(s: &Vec<u8>, i: usize) -> (r: Option<(bool, usize)>)
    ensures
        r is Some <==> sp_bool(s@, i as int) is Some,
        r is Some ==> (
            r.unwrap().0 == sp_bool(s@, i as int).unwrap().0
            && r.unwrap().1 as int == sp_bool(s@, i as int).unwrap().1
        ),
{
    match rd_u8(s, i) {
        None => None,
        Some((t, j)) => {
            if t == 0u8 {
                Some((false, j))
            } else if t == 1u8 {
                Some((true, j))
            } else {
                None
            }
        },
    }
}

pub fn rd_u64(s: &Vec<u8>, i: usize) -> (r: Option<(u64, usize)>)
    ensures
        r is Some <==> sp_u64(s@, i as int) is Some,
        r is Some ==> (
            r.unwrap().0 == sp_u64(s@, i as int).unwrap().0
            && r.unwrap().1 as int == sp_u64(s@, i as int).unwrap().1
        ),
{
    if i <= s.len() && s.len() - i >= 8 {
        let sub = vstd::slice::slice_subrange(s.as_slice(), i, i + 8);
        let x = u64_from_le_bytes(sub);
        Some((x, i + 8))
    } else {
        None
    }
}

pub fn rd_fixed(s: &Vec<u8>, i: usize, n: usize) -> (r: Option<(Vec<u8>, usize)>)
    ensures
        r is Some <==> sp_fixed(s@, i as int, n as int) is Some,
        r is Some ==> (
            r.unwrap().0@ == sp_fixed(s@, i as int, n as int).unwrap().0
            && r.unwrap().1 as int == sp_fixed(s@, i as int, n as int).unwrap().1
        ),
{
    if i <= s.len() && s.len() - i >= n {
        let sub = vstd::slice::slice_subrange(s.as_slice(), i, i + n);
        let v = vstd::slice::slice_to_vec(sub);
        Some((v, i + n))
    } else {
        None
    }
}

pub fn rd_bytes(s: &Vec<u8>, i: usize) -> (r: Option<(Vec<u8>, usize)>)
    ensures
        r is Some <==> sp_bytes(s@, i as int) is Some,
        r is Some ==> (
            r.unwrap().0@ == sp_bytes(s@, i as int).unwrap().0
            && r.unwrap().1 as int == sp_bytes(s@, i as int).unwrap().1
        ),
{
    match rd_u64(s, i) {
        None => None,
        Some((n, j)) => {
            if n <= (s.len() - j) as u64 {
                rd_fixed(s, j, n as usize)
            } else {
                None
            }
        },
    }
}

pub fn rd_opt_u64(s: &Vec<u8>, i: usize) -> (r: Option<(Option<u64>, usize)>)
    ensures
        r is Some <==> sp_opt_u64(s@, i as int) is Some,
        r is Some ==> (
            r.unwrap().0 == sp_opt_u64(s@, i as int).unwrap().0
            && r.unwrap().1 as int == sp_opt_u64(s@, i as int).unwrap().1
        ),
{
    match rd_bool(s, i) {
        None => None,
        Some((present, j)) => {
            if present {
                match rd_u64(s, j) {
                    None => None,
                    Some((v, k)) => Some((Some(v), k)),
                }
            } else {
                Some((None, j))
            }
        },
    }
}

/// Byte-string equality, decided element by element.
pub fn bytes_eq(a: &Vec<u8>, b: &Vec<u8>) -> (r: bool)
    ensures
        r <==> a@ == b@,
{
    if a.len() != b.len() {
        assert(a@ != b@) by {
            assert(a@.len() != b@.len());
        }
        return false;
    }
    let mut k: usize = 0;
    while k < a.len()
        invariant
            k <= a.len(),
            a@.len() == b@.len(),
            forall|m: int| 0 <= m < k ==> a@[m] == b@[m],
        decreases a.len() - k,
    {
        if a[k] != b[k] {
            return false;
        }
        k = k + 1;
    }
    assert(a@ =~= b@);
    true
}

} // verus!
