//! The ping-pong protocol: two message types, each carrying exactly one
//! attribute — a null-terminated text or a 32-bit cookie — and no
//! protocol header of its own.

use vstd::prelude::*;
use vstd::utf8::{decode_utf8, encode_utf8, valid_utf8};

use crate::bytes::{align4_usize, le32, le32_val, push_le32, read_le32};
use crate::nla::{
    emit_record, lemma_mask_kind, lemma_rec_enc_step, one_rec_parse, parse_one_record, rec_enc,
    KIND_MASK, MAX_VALUE_LEN,
};
use crate::text::{
    cut_nul, decode_string_value, emit_string_value, lemma_cut_nul_terminated,
};
use crate::DecodeError;

verus! {

/// Message-type code of a ping.
pub const PING_MESSAGE: u16 = 18;

/// Message-type code of a pong.
pub const PONG_MESSAGE: u16 = 20;

/// Kind code of the text attribute.
pub const PING_PONG_ATTR_MSG: u16 = 1;

/// Kind code of the cookie attribute.
pub const PING_PONG_ATTR_COOKIE: u16 = 2;

/// The mathematical form of a ping-pong attribute: a text is just its
/// characters.
pub enum SpecPingPongAttribute {
    Message(Seq<char>),
    Cookie(u32),
}

impl SpecPingPongAttribute {
    /// A text value must be free of embedded nulls and short enough for
    /// the record length field.
    pub open spec fn wf(self) -> bool {
        match self {
            SpecPingPongAttribute::Message(cs) => {
                let bs = encode_utf8(cs);
                (forall|j: int| 0 <= j < bs.len() ==> bs[j] != 0) && bs.len() + 1 <= MAX_VALUE_LEN
            },
            SpecPingPongAttribute::Cookie(_) => true,
        }
    }

    /// The unpadded value bytes.
    pub open spec fn value_enc(self) -> Seq<u8> {
        match self {
            SpecPingPongAttribute::Message(cs) => encode_utf8(cs) + seq![0u8],
            SpecPingPongAttribute::Cookie(n) => le32(n),
        }
    }

    pub open spec fn kind_code(self) -> u16 {
        match self {
            SpecPingPongAttribute::Message(_) => PING_PONG_ATTR_MSG,
            SpecPingPongAttribute::Cookie(_) => PING_PONG_ATTR_COOKIE,
        }
    }

    /// Neither attribute nests, so the wire kind is the kind code itself.
    pub open spec fn wire_kind(self) -> u16 {
        self.kind_code()
    }

    /// The attribute's full padded record.
    pub open spec fn enc(self) -> Seq<u8> {
        rec_enc(self.wire_kind(), self.value_enc())
    }

    /// Decoding one raw record of this level: dispatch on the masked kind,
    /// validate the value, reject kinds outside the closed table.
    pub open spec fn spec_parse(kindw: u16, v: Seq<u8>) -> Result<Self, DecodeError> {
        let k = kindw & KIND_MASK;
        if k == PING_PONG_ATTR_MSG {
            if valid_utf8(cut_nul(v)) {
                Ok(SpecPingPongAttribute::Message(decode_utf8(cut_nul(v))))
            } else {
                Err(DecodeError::InvalidStringEncoding)
            }
        } else if k == PING_PONG_ATTR_COOKIE {
            if v.len() == 4 {
                Ok(SpecPingPongAttribute::Cookie(le32_val(v[0], v[1], v[2], v[3]) as u32))
            } else {
                Err(DecodeError::PayloadTooShort)
            }
        } else {
            Err(DecodeError::UnknownKind(k))
        }
    }


    /// Rejection of unknown kinds: a record whose masked kind is outside
    /// this level's closed table decodes to an error naming that kind,
    /// never to a silently skipped attribute.
    pub proof fn lemma_unknown_kind_rejected(kindw: u16, v: Seq<u8>)
        requires
            (kindw & KIND_MASK) != PING_PONG_ATTR_MSG && (kindw & KIND_MASK) != PING_PONG_ATTR_COOKIE,
        ensures
            Self::spec_parse(kindw, v) == Err::<Self, DecodeError>(
                DecodeError::UnknownKind(kindw & KIND_MASK),
            ),
    {
    }

    /// A well-formed attribute decodes from its own encoding.
    pub proof fn lemma_parse_enc(self)
        requires
            self.wf(),
        ensures
            Self::spec_parse(self.wire_kind(), self.value_enc()) == Ok::<Self, DecodeError>(self),
    {
        match self {
            SpecPingPongAttribute::Message(cs) => {
                lemma_mask_kind(PING_PONG_ATTR_MSG);
                lemma_cut_nul_terminated(encode_utf8(cs));
                vstd::utf8::encode_utf8_valid_utf8(cs);
                vstd::utf8::encode_utf8_decode_utf8(cs);
            },
            SpecPingPongAttribute::Cookie(n) => {
                lemma_mask_kind(PING_PONG_ATTR_COOKIE);
                crate::bytes::lemma_le32_roundtrip(n);
            },
        }
    }
}

/// One attribute of the ping-pong protocol: a text or a cookie.
#[derive(Debug, Clone, Eq, PartialEq)]
pub enum PingPongAttribute {
    Message(String),
    Cookie(u32),
}

impl PingPongAttribute {
    pub open spec fn model(&self) -> SpecPingPongAttribute {
        match self {
            PingPongAttribute::Message(s) => SpecPingPongAttribute::Message(s@),
            PingPongAttribute::Cookie(n) => SpecPingPongAttribute::Cookie(*n),
        }
    }

    pub open spec fn wf(&self) -> bool {
        self.model().wf()
    }

    /// Unpadded length of the value: text length plus terminator, or the
    /// scalar's width.
    pub fn value_len(&self) -> (r: usize)
        requires
            self.wf(),
        ensures
            r == self.model().value_enc().len(),
    {
        match self {
            PingPongAttribute::Message(s) => s.as_str().len() + 1,
            PingPongAttribute::Cookie(_) => 4,
        }
    }

    pub fn kind(&self) -> (r: u16)
        ensures
            r == self.model().kind_code(),
    {
        match self {
            PingPongAttribute::Message(_) => PING_PONG_ATTR_MSG,
            PingPongAttribute::Cookie(_) => PING_PONG_ATTR_COOKIE,
        }
    }

    /// Appends exactly the unpadded value bytes.
    pub fn emit_value(&self, out: &mut Vec<u8>)
        requires
            self.wf(),
        ensures
            final(out)@ == old(out)@ + self.model().value_enc(),
    {
        match self {
            PingPongAttribute::Message(s) => emit_string_value(s.as_str(), out),
            PingPongAttribute::Cookie(n) => push_le32(out, *n),
        }
    }

    /// Length of the full padded record.
    pub fn buffer_len(&self) -> (r: usize)
        requires
            self.wf(),
        ensures
            r == self.model().enc().len(),
    {
        let vl = self.value_len();
        proof {
            lemma_rec_enc_step(self.model().wire_kind(), self.model().value_enc(), Seq::empty());
        }
        align4_usize(vl + 4)
    }

    /// Appends the full padded record.
    pub fn emit(&self, out: &mut Vec<u8>)
        requires
            self.wf(),
        ensures
            final(out)@ == old(out)@ + self.model().enc(),
    {
        let mut value: Vec<u8> = Vec::new();
        self.emit_value(&mut value);
        emit_record(out, self.kind(), value.as_slice());
    }

    /// Decodes one raw record of this level, exactly as `spec_parse` says.
    pub fn parse(kind: u16, payload: &[u8]) -> (r: Result<Self, DecodeError>)
        ensures
            match r {
                Ok(a) => SpecPingPongAttribute::spec_parse(kind, payload@) == Ok::<SpecPingPongAttribute, DecodeError>(a.model()),
                Err(e) => SpecPingPongAttribute::spec_parse(kind, payload@) == Err::<
                    SpecPingPongAttribute,
                    DecodeError,
                >(e),
            },
    {
        let k = kind & KIND_MASK;
        if k == PING_PONG_ATTR_MSG {
            match decode_string_value(payload) {
                Ok(s) => Ok(PingPongAttribute::Message(s)),
                Err(e) => Err(e),
            }
        } else if k == PING_PONG_ATTR_COOKIE {
            if payload.len() == 4 {
                Ok(PingPongAttribute::Cookie(read_le32(payload[0], payload[1], payload[2], payload[3])))
            } else {
                Err(DecodeError::PayloadTooShort)
            }
        } else {
            Err(DecodeError::UnknownKind(k))
        }
    }
}

/// The mathematical form of a ping-pong message.
pub enum SpecPingPongMessage {
    Ping(SpecPingPongAttribute),
    Pong(SpecPingPongAttribute),
}

impl SpecPingPongMessage {
    pub open spec fn attr(self) -> SpecPingPongAttribute {
        match self {
            SpecPingPongMessage::Ping(a) => a,
            SpecPingPongMessage::Pong(a) => a,
        }
    }

    pub open spec fn wf(self) -> bool {
        self.attr().wf()
    }

    pub open spec fn message_type(self) -> u16 {
        match self {
            SpecPingPongMessage::Ping(_) => PING_MESSAGE,
            SpecPingPongMessage::Pong(_) => PONG_MESSAGE,
        }
    }

    /// The whole payload: this protocol has no header, just the one
    /// attribute's record.
    pub open spec fn enc(self) -> Seq<u8> {
        self.attr().enc()
    }

    /// Decoding a payload: the first record, its attribute, then dispatch
    /// on the outer message-type code.  Bytes past the first record's
    /// padded extent are ignored.
    pub open spec fn spec_deserialize(ty: u16, b: Seq<u8>) -> Result<Self, DecodeError> {
        match one_rec_parse(b) {
            None => Err(DecodeError::MalformedRecord),
            Some(rec) => match SpecPingPongAttribute::spec_parse(rec.0, rec.1) {
                Err(e) => Err(e),
                Ok(a) => {
                    if ty == PING_MESSAGE {
                        Ok(SpecPingPongMessage::Ping(a))
                    } else if ty == PONG_MESSAGE {
                        Ok(SpecPingPongMessage::Pong(a))
                    } else {
                        Err(DecodeError::UnknownMessageType(ty))
                    }
                },
            },
        }
    }

    /// Round trip: every well-formed message decodes back from its own
    /// serialization under its own message-type code.
    pub proof fn lemma_round_trip(self)
        requires
            self.wf(),
        ensures
            Self::spec_deserialize(self.message_type(), self.enc()) == Ok::<Self, DecodeError>(self),
    {
        let a = self.attr();
        lemma_rec_enc_step(a.wire_kind(), a.value_enc(), Seq::empty());
        assert(rec_enc(a.wire_kind(), a.value_enc()) + Seq::<u8>::empty() =~= a.enc());
        a.lemma_parse_enc();
    }

    /// Truncation safety: a prefix of a valid encoded message cut inside
    /// the record's header or value bytes is rejected — only a cut in the
    /// trailing padding still decodes, as the decoder never reads the
    /// padding.
    pub proof fn lemma_truncation_rejected(self, n: int)
        requires
            self.wf(),
            0 <= n < self.attr().value_enc().len() + 4,
        ensures
            Self::spec_deserialize(self.message_type(), self.enc().take(n)) is Err,
    {
        let a = self.attr();
        let b = self.enc();
        let bt = b.take(n);
        if n >= 4 {
            crate::bytes::lemma_le16_roundtrip((a.value_enc().len() + 4) as u16);
            assert(bt[0] == b[0]);
            assert(bt[1] == b[1]);
            assert(b[0] == crate::bytes::le16((a.value_enc().len() + 4) as u16)[0]);
            assert(b[1] == crate::bytes::le16((a.value_enc().len() + 4) as u16)[1]);
            assert(crate::bytes::le16_val(bt[0], bt[1]) == a.value_enc().len() + 4);
            assert(crate::bytes::le16_val(bt[0], bt[1]) > bt.len());
        }
    }
}

/// Why a ping-pong deserialization was refused.
#[derive(Debug, Clone, Eq, PartialEq)]
pub struct DeserializeError(pub &'static str);

/// The text carried by the error for each way a decode can fail.
pub open spec fn deserialize_err_text(e: DecodeError) -> Seq<char> {
    if e == DecodeError::MalformedRecord {
        "Invalid NLA format in payload"@
    } else if e is UnknownMessageType {
        "invalid ping-pong message: invalid message type"@
    } else {
        "Failed to parse attributes"@
    }
}

/// One ping-pong message: a ping or a pong around one attribute.
#[derive(Debug, Clone, Eq, PartialEq)]
pub enum PingPongMessage {
    Ping(PingPongAttribute),
    Pong(PingPongAttribute),
}

impl PingPongMessage {
    pub open spec fn model(&self) -> SpecPingPongMessage {
        match self {
            PingPongMessage::Ping(a) => SpecPingPongMessage::Ping(a.model()),
            PingPongMessage::Pong(a) => SpecPingPongMessage::Pong(a.model()),
        }
    }

    pub open spec fn wf(&self) -> bool {
        self.model().wf()
    }

    /// The outer message-type code, a function of the variant tag alone.
    pub fn message_type(&self) -> (r: u16)
        ensures
            r == self.model().message_type(),
    {
        match self {
            PingPongMessage::Ping(_) => PING_MESSAGE,
            PingPongMessage::Pong(_) => PONG_MESSAGE,
        }
    }

    /// Exact length of the serialized payload.
    pub fn buffer_len(&self) -> (r: usize)
        requires
            self.wf(),
        ensures
            r == self.model().enc().len(),
    {
        match self {
            PingPongMessage::Ping(a) => a.buffer_len(),
            PingPongMessage::Pong(a) => a.buffer_len(),
        }
    }

    /// Appends the serialized payload: the one attribute's padded record.
    pub fn serialize(&self, buffer: &mut Vec<u8>)
        requires
            self.wf(),
        ensures
            final(buffer)@ == old(buffer)@ + self.model().enc(),
    {
        match self {
            PingPongMessage::Ping(a) => a.emit(buffer),
            PingPongMessage::Pong(a) => a.emit(buffer),
        }
    }

    /// Decodes a payload under the given outer message-type code, exactly
    /// as `spec_deserialize` says; on failure the error text names the
    /// stage that refused.
    pub fn deserialize(message_type: u16, payload: &[u8]) -> (r: Result<Self, DeserializeError>)
        ensures
            match r {
                Ok(m) => SpecPingPongMessage::spec_deserialize(message_type, payload@) == Ok::<
                    SpecPingPongMessage,
                    DecodeError,
                >(m.model()),
                Err(e) => {
                    &&& SpecPingPongMessage::spec_deserialize(message_type, payload@) is Err
                    &&& e.0@ == deserialize_err_text(
                        SpecPingPongMessage::spec_deserialize(message_type, payload@)->Err_0,
                    )
                },
            },
    {
        let rec = match parse_one_record(payload) {
            Ok(rec) => rec,
            Err(_) => {
                return Err(DeserializeError("Invalid NLA format in payload"));
            },
        };
        let attr = match PingPongAttribute::parse(rec.kind, rec.value.as_slice()) {
            Ok(a) => a,
            Err(_) => {
                return Err(DeserializeError("Failed to parse attributes"));
            },
        };
        if message_type == PING_MESSAGE {
            Ok(PingPongMessage::Ping(attr))
        } else if message_type == PONG_MESSAGE {
            Ok(PingPongMessage::Pong(attr))
        } else {
            Err(DeserializeError("invalid ping-pong message: invalid message type"))
        }
    }
}

} // verus!
