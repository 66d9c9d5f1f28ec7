//! The beverage protocol: tea or coffee messages, each a fixed 4-byte
//! generic header followed by a flat list of attributes — two 32-bit
//! scalars and a null-terminated name.

use vstd::prelude::*;
use vstd::utf8::{decode_utf8, encode_utf8, valid_utf8};

use crate::bytes::{align4_usize, le16, le16_val, le32, le32_val, push_le16, push_le32, read_le16,
    read_le32};
use crate::nla::{
    emit_record, lemma_mask_kind, lemma_rec_enc_step, lemma_recs_enc_prefix_le,
    lemma_recs_enc_snoc, lemma_recs_parse_enc, rec_enc, recs_enc, recs_of, recs_parse,
    split_records, KIND_MASK, MAX_VALUE_LEN,
};
use crate::text::{
    cut_nul, decode_string_value, emit_string_value, lemma_cut_nul_terminated,
};
use crate::DecodeError;

verus! {

/// Outer message-type code of a tea message.
pub const TEA_MESSAGE_TYPE: u16 = 0x13;

/// Outer message-type code of a coffee message.
pub const COFFEE_MESSAGE_TYPE: u16 = 0x14;

/// Envelope flag: the drink may be spilled.
pub const NLM_F_SPILL: u16 = 1 << 8;

/// Envelope flag: the drink may be served.
pub const NLM_F_SERVE: u16 = 1 << 9;

/// Envelope flag: the drink may be drunk.
pub const NLM_F_DRINK: u16 = 1 << 10;

/// Envelope flag: hands may be washed with the drink.
pub const NLM_F_WASH: u16 = 1 << 11;

/// Kind code of the caffeine-content attribute.
pub const BVG_ATTR_CAFFEINE_CONTENT: u16 = 1;

/// Kind code of the hotness attribute.
pub const BVG_ATTR_HOTNESS: u16 = 2;

/// Kind code of the person-name attribute.
pub const BVG_ATTR_PERSON_NAME: u16 = 3;

/// Width of the generic beverage header.
pub const BVG_GEN_MSG_LEN: usize = 4;

/// The closed family enumeration of the beverage header.
#[derive(Debug, Clone, Copy, PartialEq, Eq, Structural)]
pub enum BvgGenFamily {
    Hot,
    Cold,
}

/// A raw family byte outside the closed enumeration.
#[derive(Debug, Clone, Copy, PartialEq, Eq, Structural)]
pub struct BvgParseError {
    pub invalid_value: u8,
}

impl BvgGenFamily {
    /// The wire byte of each family member.
    pub open spec fn code_spec(self) -> u8 {
        match self {
            BvgGenFamily::Hot => 2,
            BvgGenFamily::Cold => 10,
        }
    }

    pub fn code(&self) -> (r: u8)
        ensures
            r == self.code_spec(),
    {
        match self {
            BvgGenFamily::Hot => 2,
            BvgGenFamily::Cold => 10,
        }
    }

    /// The member a raw byte maps to: exactly 2 and 10 are members.
    pub open spec fn spec_try_from(v: u8) -> Result<Self, BvgParseError> {
        if v == 2 {
            Ok(BvgGenFamily::Hot)
        } else if v == 10 {
            Ok(BvgGenFamily::Cold)
        } else {
            Err(BvgParseError { invalid_value: v })
        }
    }

    pub fn try_from(v: u8) -> (r: Result<Self, BvgParseError>)
        ensures
            r == Self::spec_try_from(v),
    {
        if v == 2 {
            Ok(BvgGenFamily::Hot)
        } else if v == 10 {
            Ok(BvgGenFamily::Cold)
        } else {
            Err(BvgParseError { invalid_value: v })
        }
    }
}

/// The generic beverage header: family, version, resource id.
#[derive(Debug, Clone, Copy, PartialEq, Eq, Structural)]
pub struct BvgGenMsg {
    pub family: BvgGenFamily,
    pub version: u8,
    pub resource_id: u16,
}

impl BvgGenMsg {
    /// The 4 header bytes: family code, version, then the 16-bit resource
    /// id in little-endian order.
    pub open spec fn enc(self) -> Seq<u8> {
        seq![self.family.code_spec(), self.version] + le16(self.resource_id)
    }

    /// Reading the header back from the front of a buffer: too few bytes
    /// or a family byte outside the closed enumeration are decode errors.
    pub open spec fn spec_parse(b: Seq<u8>) -> Result<Self, DecodeError> {
        if b.len() < BVG_GEN_MSG_LEN {
            Err(DecodeError::PayloadTooShort)
        } else {
            match BvgGenFamily::spec_try_from(b[0]) {
                Err(_) => Err(DecodeError::InvalidEnumValue(b[0])),
                Ok(f) => Ok(
                    BvgGenMsg {
                        family: f,
                        version: b[1],
                        resource_id: le16_val(b[2], b[3]) as u16,
                    },
                ),
            }
        }
    }

    pub fn buffer_len(&self) -> (r: usize)
        ensures
            r == self.enc().len(),
    {
        BVG_GEN_MSG_LEN
    }

    /// Appends the 4 header bytes.
    pub fn emit(&self, out: &mut Vec<u8>)
        ensures
            final(out)@ == old(out)@ + self.enc(),
    {
        out.push(self.family.code());
        out.push(self.version);
        push_le16(out, self.resource_id);
        assert(out@ =~= old(out)@ + self.enc());
    }

    /// Reads the header from the front of the buffer, exactly as
    /// `spec_parse` says.
    pub fn parse(buf: &[u8]) -> (r: Result<Self, DecodeError>)
        ensures
            r == Self::spec_parse(buf@),
    {
        if buf.len() < BVG_GEN_MSG_LEN {
            return Err(DecodeError::PayloadTooShort);
        }
        match BvgGenFamily::try_from(buf[0]) {
            Err(_) => Err(DecodeError::InvalidEnumValue(buf[0])),
            Ok(f) => Ok(
                BvgGenMsg { family: f, version: buf[1], resource_id: read_le16(buf[2], buf[3]) },
            ),
        }
    }

    /// A header parses back from its own encoding, whatever follows it.
    pub proof fn lemma_parse_enc(self, rest: Seq<u8>)
        ensures
            Self::spec_parse(self.enc() + rest) == Ok::<Self, DecodeError>(self),
    {
        let b = self.enc() + rest;
        assert(b[0] == self.family.code_spec());
        assert(b[1] == self.version);
        assert(b[2] == le16(self.resource_id)[0]);
        assert(b[3] == le16(self.resource_id)[1]);
        crate::bytes::lemma_le16_roundtrip(self.resource_id);
    }
}

/// The mathematical form of a beverage attribute.
pub enum SpecBeverageAttribute {
    CaffeineContent(u32),
    Hotness(u32),
    PersonName(Seq<char>),
}

impl SpecBeverageAttribute {
    /// A name must be free of embedded nulls and short enough for the
    /// record length field.
    pub open spec fn wf(self) -> bool {
        match self {
            SpecBeverageAttribute::PersonName(cs) => {
                let bs = encode_utf8(cs);
                (forall|j: int| 0 <= j < bs.len() ==> bs[j] != 0) && bs.len() + 1 <= MAX_VALUE_LEN
            },
            _ => true,
        }
    }

    /// The unpadded value bytes.
    pub open spec fn value_enc(self) -> Seq<u8> {
        match self {
            SpecBeverageAttribute::CaffeineContent(n) => le32(n),
            SpecBeverageAttribute::Hotness(n) => le32(n),
            SpecBeverageAttribute::PersonName(cs) => encode_utf8(cs) + seq![0u8],
        }
    }

    pub open spec fn kind_code(self) -> u16 {
        match self {
            SpecBeverageAttribute::CaffeineContent(_) => BVG_ATTR_CAFFEINE_CONTENT,
            SpecBeverageAttribute::Hotness(_) => BVG_ATTR_HOTNESS,
            SpecBeverageAttribute::PersonName(_) => BVG_ATTR_PERSON_NAME,
        }
    }

    /// No beverage attribute nests, so the wire kind is the kind code.
    pub open spec fn wire_kind(self) -> u16 {
        self.kind_code()
    }

    pub open spec fn rec(self) -> (u16, Seq<u8>) {
        (self.wire_kind(), self.value_enc())
    }

    /// The attribute's full padded record.
    pub open spec fn enc(self) -> Seq<u8> {
        rec_enc(self.wire_kind(), self.value_enc())
    }

    /// Decoding one raw record of this level: dispatch on the masked kind,
    /// validate the value, reject kinds outside the closed table.
    pub open spec fn spec_parse(kindw: u16, v: Seq<u8>) -> Result<Self, DecodeError> {
        let k = kindw & KIND_MASK;
        if k == BVG_ATTR_CAFFEINE_CONTENT {
            if v.len() == 4 {
                Ok(SpecBeverageAttribute::CaffeineContent(le32_val(v[0], v[1], v[2], v[3]) as u32))
            } else {
                Err(DecodeError::PayloadTooShort)
            }
        } else if k == BVG_ATTR_HOTNESS {
            if v.len() == 4 {
                Ok(SpecBeverageAttribute::Hotness(le32_val(v[0], v[1], v[2], v[3]) as u32))
            } else {
                Err(DecodeError::PayloadTooShort)
            }
        } else if k == BVG_ATTR_PERSON_NAME {
            if valid_utf8(cut_nul(v)) {
                Ok(SpecBeverageAttribute::PersonName(decode_utf8(cut_nul(v))))
            } else {
                Err(DecodeError::InvalidStringEncoding)
            }
        } else {
            Err(DecodeError::UnknownKind(k))
        }
    }


    /// Rejection of unknown kinds: a record whose masked kind is outside
    /// this level's closed table decodes to an error naming that kind,
    /// never to a silently skipped attribute.
    pub proof fn lemma_unknown_kind_rejected(kindw: u16, v: Seq<u8>)
        requires
            (kindw & KIND_MASK) != BVG_ATTR_CAFFEINE_CONTENT && (kindw & KIND_MASK) != BVG_ATTR_HOTNESS
                && (kindw & KIND_MASK) != BVG_ATTR_PERSON_NAME,
        ensures
            Self::spec_parse(kindw, v) == Err::<Self, DecodeError>(
                DecodeError::UnknownKind(kindw & KIND_MASK),
            ),
    {
    }

    /// A well-formed attribute decodes from its own encoding.
    pub proof fn lemma_parse_enc(self)
        requires
            self.wf(),
        ensures
            Self::spec_parse(self.wire_kind(), self.value_enc()) == Ok::<Self, DecodeError>(self),
    {
        lemma_mask_kind(self.kind_code());
        match self {
            SpecBeverageAttribute::CaffeineContent(n) => {
                crate::bytes::lemma_le32_roundtrip(n);
            },
            SpecBeverageAttribute::Hotness(n) => {
                crate::bytes::lemma_le32_roundtrip(n);
            },
            SpecBeverageAttribute::PersonName(cs) => {
                lemma_cut_nul_terminated(encode_utf8(cs));
                vstd::utf8::encode_utf8_valid_utf8(cs);
                vstd::utf8::encode_utf8_decode_utf8(cs);
            },
        }
    }
}

/// The raw records of an attribute list, in order.
pub open spec fn bev_recs(s: Seq<SpecBeverageAttribute>) -> Seq<(u16, Seq<u8>)> {
    s.map_values(|a: SpecBeverageAttribute| a.rec())
}

/// The encoding of an attribute list: each record in order, each padded.
pub open spec fn bev_tree_enc(s: Seq<SpecBeverageAttribute>) -> Seq<u8> {
    recs_enc(bev_recs(s))
}

/// Decoding a list of raw records: each must decode, the first failure
/// aborts the whole list.
pub open spec fn bev_parse_list(rs: Seq<(u16, Seq<u8>)>) -> Result<
    Seq<SpecBeverageAttribute>,
    DecodeError,
>
    decreases rs.len(),
{
    if rs.len() == 0 {
        Ok(Seq::empty())
    } else {
        match SpecBeverageAttribute::spec_parse(rs[0].0, rs[0].1) {
            Err(e) => Err(e),
            Ok(a) => match bev_parse_list(rs.drop_first()) {
                Err(e) => Err(e),
                Ok(rest) => Ok(seq![a] + rest),
            },
        }
    }
}

/// Decoding an attribute-list byte run: cut into records, then decode
/// each; all-or-nothing.
pub open spec fn bev_parse_tree(b: Seq<u8>) -> Result<Seq<SpecBeverageAttribute>, DecodeError> {
    match recs_parse(b) {
        None => Err(DecodeError::MalformedRecord),
        Some(rs) => bev_parse_list(rs),
    }
}

pub proof fn lemma_bev_parse_list_enc(s: Seq<SpecBeverageAttribute>)
    requires
        forall|i: int| 0 <= i < s.len() ==> (#[trigger] s[i]).wf(),
    ensures
        bev_parse_list(bev_recs(s)) == Ok::<Seq<SpecBeverageAttribute>, DecodeError>(s),
    decreases s.len(),
{
    let rs = bev_recs(s);
    if s.len() == 0 {
        assert(s =~= Seq::<SpecBeverageAttribute>::empty());
    } else {
        s[0].lemma_parse_enc();
        lemma_bev_parse_list_enc(s.drop_first());
        assert(rs.drop_first() =~= bev_recs(s.drop_first()));
        assert(seq![s[0]] + s.drop_first() =~= s);
    }
}

/// Round trip of a whole attribute list: the encoding of a list of
/// well-formed attributes decodes back to exactly that list.
pub proof fn lemma_bev_parse_tree_enc(s: Seq<SpecBeverageAttribute>)
    requires
        forall|i: int| 0 <= i < s.len() ==> (#[trigger] s[i]).wf(),
    ensures
        bev_parse_tree(bev_tree_enc(s)) == Ok::<Seq<SpecBeverageAttribute>, DecodeError>(s),
{
    assert forall|i: int| 0 <= i < bev_recs(s).len() implies (#[trigger] bev_recs(
        s,
    )[i]).1.len() <= MAX_VALUE_LEN by {
        assert(s[i].wf());
    }
    lemma_recs_parse_enc(bev_recs(s));
    lemma_bev_parse_list_enc(s);
}

/// One attribute of the beverage protocol.
#[derive(Debug, Clone, Eq, PartialEq)]
pub enum BeverageAttribute {
    CaffeineContent(u32),
    Hotness(u32),
    PersonName(String),
}

impl BeverageAttribute {
    pub open spec fn model(&self) -> SpecBeverageAttribute {
        match self {
            BeverageAttribute::CaffeineContent(n) => SpecBeverageAttribute::CaffeineContent(*n),
            BeverageAttribute::Hotness(n) => SpecBeverageAttribute::Hotness(*n),
            BeverageAttribute::PersonName(s) => SpecBeverageAttribute::PersonName(s@),
        }
    }

    pub open spec fn wf(&self) -> bool {
        self.model().wf()
    }

    /// Unpadded length of the value: the scalar's width, or the name's
    /// length plus its terminator.
    pub fn value_len(&self) -> (r: usize)
        requires
            self.wf(),
        ensures
            r == self.model().value_enc().len(),
    {
        match self {
            BeverageAttribute::CaffeineContent(_) => 4,
            BeverageAttribute::Hotness(_) => 4,
            BeverageAttribute::PersonName(s) => s.as_str().len() + 1,
        }
    }

    pub fn kind(&self) -> (r: u16)
        ensures
            r == self.model().kind_code(),
    {
        match self {
            BeverageAttribute::CaffeineContent(_) => BVG_ATTR_CAFFEINE_CONTENT,
            BeverageAttribute::Hotness(_) => BVG_ATTR_HOTNESS,
            BeverageAttribute::PersonName(_) => BVG_ATTR_PERSON_NAME,
        }
    }

    /// Appends exactly the unpadded value bytes.
    pub fn emit_value(&self, out: &mut Vec<u8>)
        requires
            self.wf(),
        ensures
            final(out)@ == old(out)@ + self.model().value_enc(),
    {
        match self {
            BeverageAttribute::CaffeineContent(n) => push_le32(out, *n),
            BeverageAttribute::Hotness(n) => push_le32(out, *n),
            BeverageAttribute::PersonName(s) => emit_string_value(s.as_str(), out),
        }
    }

    /// Length of the full padded record.
    pub fn buffer_len(&self) -> (r: usize)
        requires
            self.wf(),
        ensures
            r == self.model().enc().len(),
    {
        let vl = self.value_len();
        proof {
            lemma_rec_enc_step(self.model().wire_kind(), self.model().value_enc(), Seq::empty());
        }
        align4_usize(vl + 4)
    }

    /// Appends the full padded record.
    pub fn emit(&self, out: &mut Vec<u8>)
        requires
            self.wf(),
        ensures
            final(out)@ == old(out)@ + self.model().enc(),
    {
        let mut value: Vec<u8> = Vec::new();
        self.emit_value(&mut value);
        emit_record(out, self.kind(), value.as_slice());
    }

    /// Decodes one raw record of this level, exactly as `spec_parse` says.
    pub fn parse(kind: u16, payload: &[u8]) -> (r: Result<Self, DecodeError>)
        ensures
            match r {
                Ok(a) => SpecBeverageAttribute::spec_parse(kind, payload@) == Ok::<
                    SpecBeverageAttribute,
                    DecodeError,
                >(a.model()),
                Err(e) => SpecBeverageAttribute::spec_parse(kind, payload@) == Err::<
                    SpecBeverageAttribute,
                    DecodeError,
                >(e),
            },
    {
        let k = kind & KIND_MASK;
        if k == BVG_ATTR_CAFFEINE_CONTENT {
            if payload.len() == 4 {
                Ok(
                    BeverageAttribute::CaffeineContent(
                        read_le32(payload[0], payload[1], payload[2], payload[3]),
                    ),
                )
            } else {
                Err(DecodeError::PayloadTooShort)
            }
        } else if k == BVG_ATTR_HOTNESS {
            if payload.len() == 4 {
                Ok(
                    BeverageAttribute::Hotness(
                        read_le32(payload[0], payload[1], payload[2], payload[3]),
                    ),
                )
            } else {
                Err(DecodeError::PayloadTooShort)
            }
        } else if k == BVG_ATTR_PERSON_NAME {
            match decode_string_value(payload) {
                Ok(s) => Ok(BeverageAttribute::PersonName(s)),
                Err(e) => Err(e),
            }
        } else {
            Err(DecodeError::UnknownKind(k))
        }
    }
}

pub open spec fn bev_models(s: Seq<BeverageAttribute>) -> Seq<SpecBeverageAttribute> {
    s.map_values(|a: BeverageAttribute| a.model())
}

/// The mathematical form of a beverage message.
pub enum SpecBeverageMessage {
    Tea { header: BvgGenMsg, nlas: Seq<SpecBeverageAttribute> },
    Coffee { header: BvgGenMsg, nlas: Seq<SpecBeverageAttribute> },
}

impl SpecBeverageMessage {
    pub open spec fn header(self) -> BvgGenMsg {
        match self {
            SpecBeverageMessage::Tea { header, .. } => header,
            SpecBeverageMessage::Coffee { header, .. } => header,
        }
    }

    pub open spec fn nlas(self) -> Seq<SpecBeverageAttribute> {
        match self {
            SpecBeverageMessage::Tea { nlas, .. } => nlas,
            SpecBeverageMessage::Coffee { nlas, .. } => nlas,
        }
    }

    /// Every attribute well-formed, and the whole payload short enough
    /// for the envelope's 32-bit length field.
    pub open spec fn wf(self) -> bool {
        &&& forall|i: int| 0 <= i < self.nlas().len() ==> (#[trigger] self.nlas()[i]).wf()
        &&& BVG_GEN_MSG_LEN + bev_tree_enc(self.nlas()).len() <= 0xFFFF_FFFF
    }

    /// The outer message-type code, a function of the variant tag alone.
    pub open spec fn message_type(self) -> u16 {
        match self {
            SpecBeverageMessage::Tea { .. } => TEA_MESSAGE_TYPE,
            SpecBeverageMessage::Coffee { .. } => COFFEE_MESSAGE_TYPE,
        }
    }

    /// The whole payload: header bytes, then the attribute records with no
    /// gap.
    pub open spec fn enc(self) -> Seq<u8> {
        self.header().enc() + bev_tree_enc(self.nlas())
    }

    /// Decoding a payload: header first, then the rest as an attribute
    /// list, then dispatch on the outer message-type code.
    pub open spec fn spec_deserialize(ty: u16, b: Seq<u8>) -> Result<Self, DecodeError> {
        match BvgGenMsg::spec_parse(b) {
            Err(e) => Err(e),
            Ok(h) => match bev_parse_tree(b.skip(BVG_GEN_MSG_LEN as int)) {
                Err(e) => Err(e),
                Ok(attrs) => {
                    if ty == TEA_MESSAGE_TYPE {
                        Ok(SpecBeverageMessage::Tea { header: h, nlas: attrs })
                    } else if ty == COFFEE_MESSAGE_TYPE {
                        Ok(SpecBeverageMessage::Coffee { header: h, nlas: attrs })
                    } else {
                        Err(DecodeError::UnknownMessageType(ty))
                    }
                },
            },
        }
    }

    /// Round trip: every well-formed message decodes back from its own
    /// serialization under its own message-type code.
    pub proof fn lemma_round_trip(self)
        requires
            self.wf(),
        ensures
            Self::spec_deserialize(self.message_type(), self.enc()) == Ok::<Self, DecodeError>(
                self,
            ),
    {
        self.header().lemma_parse_enc(bev_tree_enc(self.nlas()));
        assert(self.enc().skip(BVG_GEN_MSG_LEN as int) =~= bev_tree_enc(self.nlas()));
        lemma_bev_parse_tree_enc(self.nlas());
    }

    /// Truncation safety: a strict prefix of a valid encoded message is
    /// rejected, provided the cut does not land on an attribute-record
    /// boundary or inside a record's trailing padding — there a decode
    /// still succeeds, with the attributes after the cut dropped, as the
    /// record format cannot tell such a prefix from a shorter message.
    #[verifier::rlimit(60)]
    pub proof fn lemma_truncation_rejected(self, n: int)
        requires
            self.wf(),
            0 <= n < self.enc().len(),
            n < BVG_GEN_MSG_LEN || !crate::nla::cut_parses(
                bev_recs(self.nlas()),
                n - BVG_GEN_MSG_LEN,
            ),
        ensures
            Self::spec_deserialize(self.message_type(), self.enc().take(n)) is Err,
    {
        let b = self.enc();
        let bt = b.take(n);
        if n >= BVG_GEN_MSG_LEN {
            assert(bt[0] == b[0]);
            assert(bt[1] == b[1]);
            assert(bt[2] == b[2]);
            assert(bt[3] == b[3]);
            assert(bt.skip(BVG_GEN_MSG_LEN as int) =~= bev_tree_enc(self.nlas()).take(
                n - BVG_GEN_MSG_LEN,
            ));
            assert forall|i: int| 0 <= i < bev_recs(self.nlas()).len() implies (#[trigger] bev_recs(
                self.nlas(),
            )[i]).1.len() <= MAX_VALUE_LEN by {
                assert(self.nlas()[i].wf());
            }
            crate::nla::lemma_truncated_parse(bev_recs(self.nlas()), n - BVG_GEN_MSG_LEN);
        }
    }
}

/// One beverage message: tea or coffee, a header and its attributes.
#[derive(Debug, Clone, Eq, PartialEq)]
pub enum BeverageMessage {
    Tea { header: BvgGenMsg, nlas: Vec<BeverageAttribute> },
    Coffee { header: BvgGenMsg, nlas: Vec<BeverageAttribute> },
}

impl BeverageMessage {
    pub open spec fn model(&self) -> SpecBeverageMessage {
        match self {
            BeverageMessage::Tea { header, nlas } => SpecBeverageMessage::Tea {
                header: *header,
                nlas: bev_models(nlas@),
            },
            BeverageMessage::Coffee { header, nlas } => SpecBeverageMessage::Coffee {
                header: *header,
                nlas: bev_models(nlas@),
            },
        }
    }

    pub open spec fn wf(&self) -> bool {
        self.model().wf()
    }

    /// The outer message-type code, a function of the variant tag alone.
    pub fn message_type(&self) -> (r: u16)
        ensures
            r == self.model().message_type(),
    {
        match self {
            BeverageMessage::Tea { .. } => TEA_MESSAGE_TYPE,
            BeverageMessage::Coffee { .. } => COFFEE_MESSAGE_TYPE,
        }
    }

    /// Exact length of the serialized payload: header width plus every
    /// attribute's padded record.
    pub fn buffer_len(&self) -> (r: usize)
        requires
            self.wf(),
        ensures
            r == self.model().enc().len(),
    {
        let nlas = match self {
            BeverageMessage::Tea { nlas, .. } => nlas,
            BeverageMessage::Coffee { nlas, .. } => nlas,
        };
        let ghost ms = bev_models(nlas@);
        let mut acc: usize = BVG_GEN_MSG_LEN;
        let mut i: usize = 0;
        proof {
            assert(bev_recs(ms.take(0)) =~= Seq::<(u16, Seq<u8>)>::empty());
        }
        while i < nlas.len()
            invariant
                0 <= i <= nlas@.len(),
                ms == bev_models(nlas@),
                self.wf(),
                ms == self.model().nlas(),
                acc == BVG_GEN_MSG_LEN + recs_enc(bev_recs(ms.take(i as int))).len(),
            decreases nlas@.len() - i,
        {
            proof {
                assert(nlas@[i as int].model() == ms[i as int]);
                assert(ms[i as int].wf());
                lemma_recs_enc_snoc(bev_recs(ms.take(i as int)), ms[i as int].rec());
                assert(bev_recs(ms.take(i + 1)) =~= bev_recs(ms.take(i as int)).push(
                    ms[i as int].rec(),
                ));
                assert(bev_recs(ms.take(i + 1)) =~= bev_recs(ms).take(i + 1));
                lemma_recs_enc_prefix_le(bev_recs(ms), i + 1);
            }
            let bl = nlas[i].buffer_len();
            acc = acc + bl;
            i = i + 1;
        }
        proof {
            assert(ms.take(ms.len() as int) =~= ms);
        }
        acc
    }

    /// Appends the serialized payload: the header, then each attribute's
    /// padded record in order, with no gap.
    pub fn serialize(&self, buffer: &mut Vec<u8>)
        requires
            self.wf(),
        ensures
            final(buffer)@ == old(buffer)@ + self.model().enc(),
    {
        let (header, nlas) = match self {
            BeverageMessage::Tea { header, nlas } => (header, nlas),
            BeverageMessage::Coffee { header, nlas } => (header, nlas),
        };
        let ghost ms = bev_models(nlas@);
        header.emit(buffer);
        let mut i: usize = 0;
        proof {
            assert(bev_recs(ms.take(0)) =~= Seq::<(u16, Seq<u8>)>::empty());
            assert(buffer@ =~= old(buffer)@ + header.enc() + recs_enc(bev_recs(ms.take(0))));
        }
        while i < nlas.len()
            invariant
                0 <= i <= nlas@.len(),
                ms == bev_models(nlas@),
                self.wf(),
                ms == self.model().nlas(),
                header.enc() == self.model().header().enc(),
                buffer@ == old(buffer)@ + header.enc() + recs_enc(bev_recs(ms.take(i as int))),
            decreases nlas@.len() - i,
        {
            proof {
                assert(nlas@[i as int].model() == ms[i as int]);
                assert(ms[i as int].wf());
            }
            nlas[i].emit(buffer);
            proof {
                lemma_recs_enc_snoc(bev_recs(ms.take(i as int)), ms[i as int].rec());
                assert(bev_recs(ms.take(i + 1)) =~= bev_recs(ms.take(i as int)).push(
                    ms[i as int].rec(),
                ));
                assert(buffer@ =~= old(buffer)@ + header.enc() + recs_enc(
                    bev_recs(ms.take(i + 1)),
                ));
            }
            i = i + 1;
        }
        proof {
            assert(ms.take(ms.len() as int) =~= ms);
            assert(buffer@ =~= old(buffer)@ + self.model().enc());
        }
    }

    /// Decodes a payload under the given outer message-type code, exactly
    /// as `spec_deserialize` says.
    #[verifier::loop_isolation(false)]
    pub fn deserialize(message_type: u16, payload: &[u8]) -> (r: Result<Self, DecodeError>)
        ensures
            match r {
                Ok(m) => SpecBeverageMessage::spec_deserialize(message_type, payload@) == Ok::<
                    SpecBeverageMessage,
                    DecodeError,
                >(m.model()),
                Err(e) => SpecBeverageMessage::spec_deserialize(message_type, payload@) == Err::<
                    SpecBeverageMessage,
                    DecodeError,
                >(e),
            },
    {
        let gen_header = match BvgGenMsg::parse(payload) {
            Ok(h) => h,
            Err(e) => {
                return Err(e);
            },
        };
        let nla_payload = vstd::slice::slice_subrange(payload, BVG_GEN_MSG_LEN, payload.len());
        let ghost tree_bytes = payload@.skip(BVG_GEN_MSG_LEN as int);
        proof {
            assert(nla_payload@ =~= tree_bytes);
        }
        let recs = match split_records(nla_payload) {
            Ok(rs) => rs,
            Err(e) => {
                return Err(e);
            },
        };
        let ghost rs_spec = recs_of(recs@);
        let mut nlas: Vec<BeverageAttribute> = Vec::new();
        let mut i: usize = 0;
        proof {
            assert(rs_spec.skip(0) =~= rs_spec);
        }
        while i < recs.len()
            invariant
                0 <= i <= recs@.len(),
                rs_spec == recs_of(recs@),
                bev_parse_list(rs_spec) == match bev_parse_list(rs_spec.skip(i as int)) {
                    Ok(rest) => Ok::<Seq<SpecBeverageAttribute>, DecodeError>(
                        bev_models(nlas@) + rest,
                    ),
                    Err(e) => Err::<Seq<SpecBeverageAttribute>, DecodeError>(e),
                },
            decreases recs@.len() - i,
        {
            let rec = &recs[i];
            proof {
                assert(rs_spec[i as int] == recs@[i as int].rec());
                assert(rs_spec.skip(i as int)[0] == rs_spec[i as int]);
            }
            let parsed = match BeverageAttribute::parse(rec.kind, rec.value.as_slice()) {
                Ok(a) => a,
                Err(e) => {
                    return Err(e);
                },
            };
            let ghost old_nlas = nlas@;
            nlas.push(parsed);
            proof {
                assert(rs_spec.skip(i as int)[0] == rs_spec[i as int]);
                assert(rs_spec.skip(i as int).drop_first() =~= rs_spec.skip(i + 1));
                assert(bev_models(nlas@) =~= bev_models(old_nlas) + seq![parsed.model()]);
                if let Ok(rest) = bev_parse_list(rs_spec.skip(i + 1)) {
                    assert(bev_models(old_nlas) + (seq![parsed.model()] + rest) =~= bev_models(
                        nlas@,
                    ) + rest);
                }
            }
            i = i + 1;
        }
        proof {
            assert(rs_spec.skip(rs_spec.len() as int) =~= Seq::<(u16, Seq<u8>)>::empty());
            assert(bev_models(nlas@) + Seq::<SpecBeverageAttribute>::empty() =~= bev_models(nlas@));
        }
        if message_type == TEA_MESSAGE_TYPE {
            Ok(BeverageMessage::Tea { header: gen_header, nlas })
        } else if message_type == COFFEE_MESSAGE_TYPE {
            Ok(BeverageMessage::Coffee { header: gen_header, nlas })
        } else {
            Err(DecodeError::UnknownMessageType(message_type))
        }
    }
}

} // verus!
