//! Null-terminated string values.
//!
//! On the wire a string value is its UTF-8 bytes followed by exactly one
//! zero byte.  The logical string never holds an embedded null: the
//! terminator is appended at encode time and everything from the first zero
//! byte on is dropped at decode time.  A value with no zero byte at all is
//! accepted whole, for peers that omit the terminator.

use vstd::prelude::*;
use vstd::utf8::{decode_utf8, encode_utf8, valid_utf8};

use crate::DecodeError;

verus! {

/// The bytes of `v` before its first zero byte; all of `v` when none occurs.
pub open spec fn cut_nul(v: Seq<u8>) -> Seq<u8>
    decreases v.len(),
{
    if v.len() == 0 {
        v
    } else if v[0] == 0 {
        Seq::empty()
    } else {
        seq![v[0]] + cut_nul(v.drop_first())
    }
}

pub proof fn lemma_cut_nul_at(v: Seq<u8>, i: int)
    requires
        0 <= i <= v.len(),
        forall|j: int| 0 <= j < i ==> v[j] != 0,
        i == v.len() || v[i] == 0,
    ensures
        cut_nul(v) == v.take(i),
    decreases i,
{
    if i == 0 {
        if v.len() == 0 {
            assert(v.take(0) =~= v);
        } else {
            assert(v.take(0) =~= Seq::<u8>::empty());
        }
    } else {
        lemma_cut_nul_at(v.drop_first(), i - 1);
        assert(seq![v[0]] + v.drop_first().take(i - 1) =~= v.take(i));
    }
}

/// Appending the terminator to null-free bytes and cutting at the first
/// zero gives the bytes back.
pub proof fn lemma_cut_nul_terminated(bs: Seq<u8>)
    requires
        forall|j: int| 0 <= j < bs.len() ==> bs[j] != 0,
    ensures
        cut_nul(bs + seq![0u8]) == bs,
{
    let v = bs + seq![0u8];
    lemma_cut_nul_at(v, bs.len() as int);
    assert(v.take(bs.len() as int) =~= bs);
}

/// Relies on std's String::from_utf8: it returns Ok exactly when the bytes
/// are valid UTF-8, and the string it returns then spells those same bytes.
#[verifier::external_body]
pub(crate) fn string_from_utf8(v: Vec<u8>) -> (r: Option<String>)
    ensures
        r is Some <==> valid_utf8(v@),
        r is Some ==> r.unwrap()@ == decode_utf8(v@),
{
    String::from_utf8(v).ok()
}

/// Decodes a string value: cut at the first zero byte, then validate UTF-8.
pub fn decode_string_value(payload: &[u8]) -> (r: Result<String, DecodeError>)
    ensures
        match r {
            Ok(s) => valid_utf8(cut_nul(payload@)) && s@ == decode_utf8(cut_nul(payload@)),
            Err(e) => !valid_utf8(cut_nul(payload@)) && e == DecodeError::InvalidStringEncoding,
        },
{
    let mut cut: Vec<u8> = Vec::new();
    let mut i: usize = 0;
    let ghost p = payload@;
    while i < payload.len() && payload[i] != 0
        invariant
            0 <= i <= p.len(),
            p == payload@,
            forall|j: int| 0 <= j < i ==> p[j] != 0,
            cut@ == p.take(i as int),
        decreases p.len() - i,
    {
        let b = payload[i];
        cut.push(b);
        proof {
            assert(cut@ =~= p.take(i + 1));
        }
        i = i + 1;
    }
    proof {
        lemma_cut_nul_at(p, i as int);
    }
    match string_from_utf8(cut) {
        Some(s) => Ok(s),
        None => Err(DecodeError::InvalidStringEncoding),
    }
}

/// Appends the encoding of a string value: its UTF-8 bytes and one zero
/// terminator.
pub fn emit_string_value(s: &str, out: &mut Vec<u8>)
    ensures
        final(out)@ == old(out)@ + encode_utf8(s@) + seq![0u8],
{
    out.extend_from_slice(s.as_bytes());
    out.push(0u8);
}

} // verus!
