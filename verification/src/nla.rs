//! The record layer: cutting a flat byte run into type-length-value records
//! and writing records back out.
//!
//! A record on the wire is a 4-byte header — a 16-bit length covering header
//! plus value (never the padding), then a 16-bit kind whose top bit flags a
//! nested value — followed by the value bytes and zero padding up to the
//! next 4-byte boundary.

use vstd::prelude::*;

use crate::bytes::{align4, align4_usize, le16, le16_val, lemma_align4, pad4, push_le16, read_le16};
use crate::DecodeError;

verus! {

/// The value of a record may be at most this long: its length field covers
/// the 4 header bytes too and must fit in 16 bits.
pub const MAX_VALUE_LEN: usize = 65531;

/// Top bit of the wire kind: the value is itself a record run.
pub const NESTED_FLAG: u16 = 0x8000;

/// The bits of the wire kind that carry the kind code proper.
pub const KIND_MASK: u16 = 0x3fff;

/// The encoding of one record: length and kind fields, value bytes, zero
/// padding to a 4-byte boundary.  The length field reports the unpadded
/// length, header included.
pub open spec fn rec_enc(kind: u16, v: Seq<u8>) -> Seq<u8> {
    le16((v.len() + 4) as u16) + le16(kind) + v + Seq::new(pad4(v.len() + 4int) as nat, |i: int| 0u8)
}

/// The encoding of a record run: each record in order, each padded.
pub open spec fn recs_enc(rs: Seq<(u16, Seq<u8>)>) -> Seq<u8>
    decreases rs.len(),
{
    if rs.len() == 0 {
        Seq::empty()
    } else {
        rec_enc(rs[0].0, rs[0].1) + recs_enc(rs.drop_first())
    }
}

/// Cuts a byte run into its records: `None` where no well-formed cut
/// exists.  A record whose trailing padding the buffer cuts off is still
/// taken whole; padding bytes are skipped, not inspected.
pub open spec fn recs_parse(b: Seq<u8>) -> Option<Seq<(u16, Seq<u8>)>>
    decreases b.len(),
{
    if b.len() == 0 {
        Some(Seq::empty())
    } else if b.len() < 4 {
        None
    } else {
        let len = le16_val(b[0], b[1]);
        if len < 4 || len > b.len() {
            None
        } else {
            let kind = le16_val(b[2], b[3]) as u16;
            let v = b.subrange(4, len);
            let step = if align4(len) <= b.len() {
                align4(len)
            } else {
                b.len() as int
            };
            match recs_parse(b.subrange(step, b.len() as int)) {
                Some(rest) => Some(seq![(kind, v)] + rest),
                None => None,
            }
        }
    }
}

/// The first record of a byte run alone, trailing bytes ignored.
pub open spec fn one_rec_parse(b: Seq<u8>) -> Option<(u16, Seq<u8>)> {
    if b.len() < 4 {
        None
    } else {
        let len = le16_val(b[0], b[1]);
        if len < 4 || len > b.len() {
            None
        } else {
            Some((le16_val(b[2], b[3]) as u16, b.subrange(4, len)))
        }
    }
}

/// One raw record cut out of a buffer: the full wire kind, flag bits
/// included, and the unpadded value bytes.
pub struct RawRecord {
    pub kind: u16,
    pub value: Vec<u8>,
}

impl RawRecord {
    pub open spec fn rec(&self) -> (u16, Seq<u8>) {
        (self.kind, self.value@)
    }
}

pub open spec fn recs_of(rs: Seq<RawRecord>) -> Seq<(u16, Seq<u8>)> {
    rs.map_values(|r: RawRecord| r.rec())
}

pub open spec fn opt_prepend(pre: Seq<(u16, Seq<u8>)>, r: Option<Seq<(u16, Seq<u8>)>>) -> Option<
    Seq<(u16, Seq<u8>)>,
> {
    match r {
        Some(s) => Some(pre + s),
        None => None,
    }
}

/// Appends one full record: header, value, zero padding.
pub fn emit_record(out: &mut Vec<u8>, kind: u16, value: &[u8])
    requires
        value@.len() <= MAX_VALUE_LEN,
    ensures
        final(out)@ == old(out)@ + rec_enc(kind, value@),
{
    let len16: u16 = (value.len() + 4) as u16;
    push_le16(out, len16);
    push_le16(out, kind);
    out.extend_from_slice(value);
    let rem = (value.len() + 4) % 4;
    let pad: usize = if rem == 0 {
        0
    } else {
        4 - rem
    };
    let mut i: usize = 0;
    while i < pad
        invariant
            i <= pad,
            pad == pad4(value@.len() + 4int),
            out@ == old(out)@ + le16((value@.len() + 4) as u16) + le16(kind) + value@ + Seq::new(
                i as nat,
                |j: int| 0u8,
            ),
        decreases pad - i,
    {
        out.push(0u8);
        proof {
            assert(out@ =~= old(out)@ + le16((value@.len() + 4) as u16) + le16(kind) + value@
                + Seq::new((i + 1) as nat, |j: int| 0u8));
        }
        i = i + 1;
    }
    proof {
        assert(out@ =~= old(out)@ + rec_enc(kind, value@));
    }
}

/// Cuts the whole buffer into records, or reports the first point where no
/// well-formed record can be taken.
pub fn split_records(buf: &[u8]) -> (r: Result<Vec<RawRecord>, DecodeError>)
    ensures
        match r {
            Ok(rs) => recs_parse(buf@) == Some(recs_of(rs@)),
            Err(e) => recs_parse(buf@) is None && e == DecodeError::MalformedRecord,
        },
{
    let mut pos: usize = 0;
    let mut out: Vec<RawRecord> = Vec::new();
    proof {
        assert(buf@.subrange(0, buf@.len() as int) =~= buf@);
        assert(recs_of(out@) =~= Seq::<(u16, Seq<u8>)>::empty());
        if let Some(s) = recs_parse(buf@) {
            assert(recs_of(out@) + s =~= s);
        }
    }
    while pos < buf.len()
        invariant
            pos <= buf@.len(),
            recs_parse(buf@) == opt_prepend(
                recs_of(out@),
                recs_parse(buf@.subrange(pos as int, buf@.len() as int)),
            ),
        decreases buf@.len() - pos,
    {
        let ghost tail = buf@.subrange(pos as int, buf@.len() as int);
        let rem = buf.len() - pos;
        if rem < 4 {
            return Err(DecodeError::MalformedRecord);
        }
        let lenf = read_le16(buf[pos], buf[pos + 1]) as usize;
        proof {
            assert(tail[0] == buf@[pos as int]);
            assert(tail[1] == buf@[pos + 1]);
            assert(tail[2] == buf@[pos + 2]);
            assert(tail[3] == buf@[pos + 3]);
        }
        if lenf < 4 || lenf > rem {
            return Err(DecodeError::MalformedRecord);
        }
        let kind = read_le16(buf[pos + 2], buf[pos + 3]);
        let value = vstd::slice::slice_to_vec(vstd::slice::slice_subrange(buf, pos + 4, pos + lenf));
        proof {
            assert(value@ =~= tail.subrange(4, lenf as int));
        }
        let ghost old_out = out@;
        out.push(RawRecord { kind, value });
        let al = align4_usize(lenf);
        let step = if al <= rem {
            al
        } else {
            rem
        };
        proof {
            lemma_align4(lenf as int);
            let spec_step = if align4(lenf as int) <= tail.len() {
                align4(lenf as int)
            } else {
                tail.len() as int
            };
            assert(spec_step == step);
            let newtail = tail.subrange(step as int, tail.len() as int);
            assert(buf@.subrange((pos + step) as int, buf@.len() as int) =~= newtail);
            let v = tail.subrange(4, lenf as int);
            assert(recs_parse(tail) == match recs_parse(newtail) {
                Some(rest) => Some(seq![(kind, v)] + rest),
                None => None,
            });
            assert(recs_of(out@) =~= recs_of(old_out) + seq![(kind, v)]);
            if let Some(rest) = recs_parse(newtail) {
                assert(recs_of(old_out) + (seq![(kind, v)] + rest) =~= recs_of(out@) + rest);
            }
        }
        pos = pos + step;
    }
    proof {
        assert(buf@.subrange(pos as int, buf@.len() as int) =~= Seq::<u8>::empty());
        assert(recs_parse(buf@) == Some(recs_of(out@) + Seq::<(u16, Seq<u8>)>::empty()));
        assert(recs_of(out@) + Seq::<(u16, Seq<u8>)>::empty() =~= recs_of(out@));
    }
    Ok(out)
}

/// Takes the first record of the buffer alone, ignoring what follows its
/// padded extent.
pub fn parse_one_record(buf: &[u8]) -> (r: Result<RawRecord, DecodeError>)
    ensures
        match r {
            Ok(rec) => one_rec_parse(buf@) == Some(rec.rec()),
            Err(e) => one_rec_parse(buf@) is None && e == DecodeError::MalformedRecord,
        },
{
    if buf.len() < 4 {
        return Err(DecodeError::MalformedRecord);
    }
    let lenf = read_le16(buf[0], buf[1]) as usize;
    if lenf < 4 || lenf > buf.len() {
        return Err(DecodeError::MalformedRecord);
    }
    let kind = read_le16(buf[2], buf[3]);
    let value = vstd::slice::slice_to_vec(vstd::slice::slice_subrange(buf, 4, lenf));
    Ok(RawRecord { kind, value })
}

/// A kind code below the flag bits survives masking, with or without the
/// nested flag set on the wire.
pub proof fn lemma_mask_kind(k: u16)
    requires
        k < 0x4000,
    ensures
        (k & KIND_MASK) == k,
        ((k | NESTED_FLAG) & KIND_MASK) == k,
{
    assert((k & 0x3fff) == k && ((k | 0x8000) & 0x3fff) == k) by (bit_vector)
        requires
            k < 0x4000,
    ;
}

/// One record's encoding at the head of a longer run parses back to that
/// record followed by whatever the rest parses to.
pub proof fn lemma_rec_enc_step(kind: u16, v: Seq<u8>, rest: Seq<u8>)
    requires
        v.len() <= MAX_VALUE_LEN,
    ensures
        recs_parse(rec_enc(kind, v) + rest) == opt_prepend(seq![(kind, v)], recs_parse(rest)),
        one_rec_parse(rec_enc(kind, v) + rest) == Some((kind, v)),
        rec_enc(kind, v).len() == align4(v.len() + 4int),
{
    let b = rec_enc(kind, v) + rest;
    let lenf = (v.len() + 4) as u16;
    crate::bytes::lemma_le16_roundtrip(lenf);
    crate::bytes::lemma_le16_roundtrip(kind);
    assert(b[0] == le16(lenf)[0]);
    assert(b[1] == le16(lenf)[1]);
    assert(b[2] == le16(kind)[0]);
    assert(b[3] == le16(kind)[1]);
    assert(le16_val(b[0], b[1]) == lenf);
    assert(le16_val(b[2], b[3]) == kind);
    lemma_align4(v.len() + 4int);
    assert(rec_enc(kind, v).len() == align4(v.len() + 4int));
    assert(b.subrange(4, lenf as int) =~= v);
    let step = align4(lenf as int);
    assert(step <= b.len());
    assert(b.subrange(step, b.len() as int) =~= rest);
    match recs_parse(rest) {
        Some(r) => {
            assert(recs_parse(b) == Some(seq![(kind, v)] + r));
        },
        None => {
            assert(recs_parse(b) is None);
        },
    }
}

/// The encoding of a record run cuts back into exactly those records.
pub proof fn lemma_recs_parse_enc(rs: Seq<(u16, Seq<u8>)>)
    requires
        forall|i: int| 0 <= i < rs.len() ==> (#[trigger] rs[i]).1.len() <= MAX_VALUE_LEN,
    ensures
        recs_parse(recs_enc(rs)) == Some(rs),
    decreases rs.len(),
{
    if rs.len() == 0 {
        assert(recs_enc(rs) =~= Seq::<u8>::empty());
        assert(rs =~= Seq::<(u16, Seq<u8>)>::empty());
    } else {
        lemma_recs_parse_enc(rs.drop_first());
        lemma_rec_enc_step(rs[0].0, rs[0].1, recs_enc(rs.drop_first()));
        assert(seq![(rs[0].0, rs[0].1)] + rs.drop_first() =~= rs);
    }
}

/// Concatenating two record runs concatenates their encodings.
pub proof fn lemma_recs_enc_concat(a: Seq<(u16, Seq<u8>)>, b: Seq<(u16, Seq<u8>)>)
    ensures
        recs_enc(a + b) == recs_enc(a) + recs_enc(b),
    decreases a.len(),
{
    if a.len() == 0 {
        assert(a + b =~= b);
        assert(recs_enc(a) + recs_enc(b) =~= recs_enc(b));
    } else {
        lemma_recs_enc_concat(a.drop_first(), b);
        assert((a + b).drop_first() =~= a.drop_first() + b);
        assert(recs_enc(a + b) =~= recs_enc(a) + recs_enc(b));
    }
}

/// Appending one record to a run appends its encoding.
pub proof fn lemma_recs_enc_snoc(rs: Seq<(u16, Seq<u8>)>, r: (u16, Seq<u8>))
    ensures
        recs_enc(rs.push(r)) == recs_enc(rs) + rec_enc(r.0, r.1),
{
    lemma_recs_enc_concat(rs, seq![r]);
    assert(rs.push(r) =~= rs + seq![r]);
    assert(seq![r][0] == r);
    assert(seq![r].drop_first() =~= Seq::<(u16, Seq<u8>)>::empty());
    assert(recs_enc(Seq::<(u16, Seq<u8>)>::empty()) =~= Seq::<u8>::empty());
    assert(recs_enc(seq![r]) =~= rec_enc(r.0, r.1) + Seq::<u8>::empty());
    assert(recs_enc(seq![r]) =~= rec_enc(r.0, r.1));
    assert(recs_enc(rs) + recs_enc(seq![r]) =~= recs_enc(rs) + rec_enc(r.0, r.1));
}

/// A prefix of a record run encodes to no more bytes than the whole run.
pub proof fn lemma_recs_enc_prefix_le(rs: Seq<(u16, Seq<u8>)>, i: int)
    requires
        0 <= i <= rs.len(),
    ensures
        recs_enc(rs.take(i)).len() <= recs_enc(rs).len(),
{
    lemma_recs_enc_concat(rs.take(i), rs.skip(i));
    assert(rs.take(i) + rs.skip(i) =~= rs);
}

/// Every record's start offset in an encoded run is a multiple of 4: the
/// offset of record `i` is the encoded length of the records before it,
/// and each record's padded encoding is a multiple of 4 long.
pub proof fn lemma_record_offsets_aligned(rs: Seq<(u16, Seq<u8>)>, i: int)
    requires
        0 <= i <= rs.len(),
    ensures
        recs_enc(rs.take(i)).len() % 4 == 0,
    decreases i,
{
    if i == 0 {
        assert(rs.take(0) =~= Seq::<(u16, Seq<u8>)>::empty());
    } else {
        lemma_record_offsets_aligned(rs, i - 1);
        assert(rs.take(i) =~= rs.take(i - 1).push(rs[i - 1]));
        lemma_recs_enc_snoc(rs.take(i - 1), rs[i - 1]);
        lemma_align4(rs[i - 1].1.len() + 4int);
        assert(rec_enc(rs[i - 1].0, rs[i - 1].1).len() == align4(rs[i - 1].1.len() + 4int));
    }
}

/// Whether cutting an encoded record run after `n` bytes still parses: it
/// does exactly when the cut falls on a record boundary or inside a
/// record's trailing padding, which the decoder never reads.  A cut
/// anywhere inside a record's header or value bytes does not parse.
pub open spec fn cut_parses(rs: Seq<(u16, Seq<u8>)>, n: int) -> bool
    decreases rs.len(),
{
    if n == 0 {
        true
    } else if rs.len() == 0 {
        false
    } else {
        let full = align4(rs[0].1.len() + 4int);
        if n < rs[0].1.len() + 4 {
            false
        } else if n < full {
            true
        } else {
            cut_parses(rs.drop_first(), n - full)
        }
    }
}

/// Truncation safety at the record layer: a strict prefix of an encoded
/// record run whose cut lands inside a record's header or value bytes
/// cannot be cut into records at all.
pub proof fn lemma_truncated_parse(rs: Seq<(u16, Seq<u8>)>, n: int)
    requires
        forall|i: int| 0 <= i < rs.len() ==> (#[trigger] rs[i]).1.len() <= MAX_VALUE_LEN,
        0 <= n <= recs_enc(rs).len(),
        !cut_parses(rs, n),
    ensures
        recs_parse(recs_enc(rs).take(n)) is None,
    decreases rs.len(),
{
    let b = recs_enc(rs);
    let bt = b.take(n);
    assert(n != 0);
    assert(rs.len() > 0);
    let v0 = rs[0].1;
    let lenf = v0.len() + 4int;
    let full = align4(lenf);
    lemma_align4(lenf);
    lemma_rec_enc_step(rs[0].0, v0, recs_enc(rs.drop_first()));
    assert(rec_enc(rs[0].0, v0).len() == full);
    if n < 4 {
        assert(0 < bt.len() < 4);
    } else {
        crate::bytes::lemma_le16_roundtrip((v0.len() + 4) as u16);
        assert(bt[0] == b[0]);
        assert(bt[1] == b[1]);
        assert(bt[2] == b[2]);
        assert(bt[3] == b[3]);
        assert(b[0] == rec_enc(rs[0].0, v0)[0]);
        assert(b[1] == rec_enc(rs[0].0, v0)[1]);
        assert(rec_enc(rs[0].0, v0)[0] == le16((v0.len() + 4) as u16)[0]);
        assert(rec_enc(rs[0].0, v0)[1] == le16((v0.len() + 4) as u16)[1]);
        assert(le16_val(bt[0], bt[1]) == lenf);
        if n < lenf {
            assert(lenf > bt.len());
            assert(recs_parse(bt) is None);
        } else {
            assert(n >= full);
            assert(bt.subrange(4, lenf) =~= v0);
            let step = if align4(lenf) <= bt.len() {
                align4(lenf)
            } else {
                bt.len() as int
            };
            assert(step == full);
            assert(bt.subrange(step, bt.len() as int) =~= recs_enc(rs.drop_first()).take(n - full));
            lemma_truncated_parse(rs.drop_first(), n - full);
        }
    }
}

/// The length field of every encoded record reports the unpadded length:
/// the 4 header bytes plus the value bytes, never the padding.
pub proof fn lemma_record_length_field(kind: u16, v: Seq<u8>)
    requires
        v.len() <= MAX_VALUE_LEN,
    ensures
        le16_val(rec_enc(kind, v)[0], rec_enc(kind, v)[1]) == v.len() + 4,
{
    crate::bytes::lemma_le16_roundtrip((v.len() + 4) as u16);
    assert(rec_enc(kind, v)[0] == le16((v.len() + 4) as u16)[0]);
    assert(rec_enc(kind, v)[1] == le16((v.len() + 4) as u16)[1]);
}

} // verus!
