//! The connection-tracking protocol: a get message whose attribute tree
//! nests three levels deep — the original tuple holds an address tuple and
//! a protocol tuple, which hold the scalar and address leaves.

use vstd::prelude::*;

use crate::bytes::{align4_usize, le16, le16_val, push_le16, read_le16};
use crate::nla::{
    emit_record, lemma_mask_kind, lemma_rec_enc_step, lemma_recs_enc_prefix_le,
    lemma_recs_enc_snoc, lemma_recs_parse_enc, rec_enc, recs_enc, recs_of, recs_parse,
    split_records, KIND_MASK, MAX_VALUE_LEN, NESTED_FLAG,
};
use crate::DecodeError;

verus! {

/// Netfilter subsystem code of connection tracking.
pub const NFNL_SUBSYS_CTNETLINK: u16 = 1;

/// Message code of a connection-tracking get inside its subsystem.
pub const IPCTNL_MSG_CT_GET: u16 = 1;

/// The outer message-type code of a connection-tracking get: subsystem in
/// the high byte, message in the low byte.
pub const NETFILTER_CONNTRACK_GET_MESSAGE_TYPE: u16 = NFNL_SUBSYS_CTNETLINK << 8
    | IPCTNL_MSG_CT_GET;

/// Width of the generic netfilter header.
pub const NFGENMSG_LEN: usize = 4;

/// Byte width of a version-4 address value.
pub const IPV4_LEN: usize = 4;

/// Byte width of a version-6 address value.
pub const IPV6_LEN: usize = 16;

/// Kind code of a version-4 source address.
pub const CTA_IP_V4_SRC: u16 = 1;

/// Kind code of a version-6 source address.
pub const CTA_IP_V6_SRC: u16 = 3;

/// Kind code of a version-4 destination address.
pub const CTA_IP_V4_DST: u16 = 2;

/// Kind code of a version-6 destination address.
pub const CTA_IP_V6_DST: u16 = 4;

/// Kind code of the protocol number leaf.
pub const CTA_PROTO_NUM: u16 = 1;

/// Kind code of the source port leaf.
pub const CTA_PROTO_SRC_PORT: u16 = 2;

/// Kind code of the destination port leaf.
pub const CTA_PROTO_DST_PORT: u16 = 3;

/// Kind code of the address tuple inside a tuple group.
pub const CTA_TUPLE_IP: u16 = 1;

/// Kind code of the protocol tuple inside a tuple group.
pub const CTA_TUPLE_PROTO: u16 = 2;

/// Kind code of the original-direction tuple group.
pub const CTA_TUPLE_ORIG: u16 = 1;

/// An address value: 4 or 16 raw octets, held as plain bytes.
#[derive(Debug, Clone, Eq, PartialEq)]
pub enum IpAddr {
    V4(Vec<u8>),
    V6(Vec<u8>),
}

/// The mathematical form of an address value.
pub enum SpecIpAddr {
    V4(Seq<u8>),
    V6(Seq<u8>),
}

impl SpecIpAddr {
    /// The octets must have the width their version declares.
    pub open spec fn wf(self) -> bool {
        match self {
            SpecIpAddr::V4(b) => b.len() == IPV4_LEN,
            SpecIpAddr::V6(b) => b.len() == IPV6_LEN,
        }
    }

    pub open spec fn octets(self) -> Seq<u8> {
        match self {
            SpecIpAddr::V4(b) => b,
            SpecIpAddr::V6(b) => b,
        }
    }
}

impl IpAddr {
    pub open spec fn model(&self) -> SpecIpAddr {
        match self {
            IpAddr::V4(b) => SpecIpAddr::V4(b@),
            IpAddr::V6(b) => SpecIpAddr::V6(b@),
        }
    }

    pub open spec fn wf(&self) -> bool {
        self.model().wf()
    }
}

/// Appends an address's raw octets.
pub fn emit_ip(addr: &IpAddr, buf: &mut Vec<u8>)
    ensures
        final(buf)@ == old(buf)@ + addr.model().octets(),
{
    match addr {
        IpAddr::V4(b) => buf.extend_from_slice(b.as_slice()),
        IpAddr::V6(b) => buf.extend_from_slice(b.as_slice()),
    }
}

/// The mathematical form of an address-tuple leaf.
pub enum SpecIPTuple {
    SourceAddress(SpecIpAddr),
    DestinationAddress(SpecIpAddr),
}

impl SpecIPTuple {
    pub open spec fn addr(self) -> SpecIpAddr {
        match self {
            SpecIPTuple::SourceAddress(a) => a,
            SpecIPTuple::DestinationAddress(a) => a,
        }
    }

    pub open spec fn wf(self) -> bool {
        self.addr().wf()
    }

    /// The unpadded value bytes: the raw octets.
    pub open spec fn value_enc(self) -> Seq<u8> {
        self.addr().octets()
    }

    /// The kind code names both the direction and the address version.
    pub open spec fn kind_code(self) -> u16 {
        match self {
            SpecIPTuple::SourceAddress(a) => match a {
                SpecIpAddr::V4(_) => CTA_IP_V4_SRC,
                SpecIpAddr::V6(_) => CTA_IP_V6_SRC,
            },
            SpecIPTuple::DestinationAddress(a) => match a {
                SpecIpAddr::V4(_) => CTA_IP_V4_DST,
                SpecIpAddr::V6(_) => CTA_IP_V6_DST,
            },
        }
    }

    /// Address leaves do not nest.
    pub open spec fn wire_kind(self) -> u16 {
        self.kind_code()
    }

    pub open spec fn rec(self) -> (u16, Seq<u8>) {
        (self.wire_kind(), self.value_enc())
    }

    pub open spec fn enc(self) -> Seq<u8> {
        rec_enc(self.wire_kind(), self.value_enc())
    }

    /// Decoding one raw record of this level: either source kind accepts
    /// either address width, the width alone picks the version.
    pub open spec fn spec_parse(kindw: u16, v: Seq<u8>) -> Result<Self, DecodeError> {
        let k = kindw & KIND_MASK;
        if k == CTA_IP_V4_SRC || k == CTA_IP_V6_SRC {
            if v.len() == IPV4_LEN {
                Ok(SpecIPTuple::SourceAddress(SpecIpAddr::V4(v)))
            } else if v.len() == IPV6_LEN {
                Ok(SpecIPTuple::SourceAddress(SpecIpAddr::V6(v)))
            } else {
                Err(DecodeError::PayloadTooShort)
            }
        } else if k == CTA_IP_V4_DST || k == CTA_IP_V6_DST {
            if v.len() == IPV4_LEN {
                Ok(SpecIPTuple::DestinationAddress(SpecIpAddr::V4(v)))
            } else if v.len() == IPV6_LEN {
                Ok(SpecIPTuple::DestinationAddress(SpecIpAddr::V6(v)))
            } else {
                Err(DecodeError::PayloadTooShort)
            }
        } else {
            Err(DecodeError::UnknownKind(k))
        }
    }


    /// Rejection of unknown kinds: a record whose masked kind is outside
    /// this level's closed table decodes to an error naming that kind,
    /// never to a silently skipped attribute.
    pub proof fn lemma_unknown_kind_rejected(kindw: u16, v: Seq<u8>)
        requires
            (kindw & KIND_MASK) != CTA_IP_V4_SRC && (kindw & KIND_MASK) != CTA_IP_V6_SRC
                && (kindw & KIND_MASK) != CTA_IP_V4_DST && (kindw & KIND_MASK) != CTA_IP_V6_DST,
        ensures
            Self::spec_parse(kindw, v) == Err::<Self, DecodeError>(
                DecodeError::UnknownKind(kindw & KIND_MASK),
            ),
    {
    }

    /// A well-formed leaf decodes from its own encoding.
    pub proof fn lemma_parse_enc(self)
        requires
            self.wf(),
        ensures
            Self::spec_parse(self.wire_kind(), self.value_enc()) == Ok::<Self, DecodeError>(self),
    {
        lemma_mask_kind(self.kind_code());
    }
}

/// One leaf of the address tuple: a source or destination address.
#[derive(Debug, Clone, Eq, PartialEq)]
pub enum IPTuple {
    SourceAddress(IpAddr),
    DestinationAddress(IpAddr),
}

impl IPTuple {
    pub open spec fn model(&self) -> SpecIPTuple {
        match self {
            IPTuple::SourceAddress(a) => SpecIPTuple::SourceAddress(a.model()),
            IPTuple::DestinationAddress(a) => SpecIPTuple::DestinationAddress(a.model()),
        }
    }

    pub open spec fn wf(&self) -> bool {
        self.model().wf()
    }

    /// Unpadded length of the value: the address width.
    pub fn value_len(&self) -> (r: usize)
        requires
            self.wf(),
        ensures
            r == self.model().value_enc().len(),
    {
        let addr = match self {
            IPTuple::SourceAddress(a) => a,
            IPTuple::DestinationAddress(a) => a,
        };
        match addr {
            IpAddr::V4(_) => IPV4_LEN,
            IpAddr::V6(_) => IPV6_LEN,
        }
    }

    pub fn kind(&self) -> (r: u16)
        ensures
            r == self.model().kind_code(),
    {
        match self {
            IPTuple::SourceAddress(a) => match a {
                IpAddr::V4(_) => CTA_IP_V4_SRC,
                IpAddr::V6(_) => CTA_IP_V6_SRC,
            },
            IPTuple::DestinationAddress(a) => match a {
                IpAddr::V4(_) => CTA_IP_V4_DST,
                IpAddr::V6(_) => CTA_IP_V6_DST,
            },
        }
    }

    /// Appends exactly the unpadded value bytes.
    pub fn emit_value(&self, out: &mut Vec<u8>)
        requires
            self.wf(),
        ensures
            final(out)@ == old(out)@ + self.model().value_enc(),
    {
        match self {
            IPTuple::SourceAddress(a) => emit_ip(a, out),
            IPTuple::DestinationAddress(a) => emit_ip(a, out),
        }
    }

    /// Length of the full padded record.
    pub fn buffer_len(&self) -> (r: usize)
        requires
            self.wf(),
        ensures
            r == self.model().enc().len(),
    {
        let vl = self.value_len();
        proof {
            lemma_rec_enc_step(self.model().wire_kind(), self.model().value_enc(), Seq::empty());
        }
        align4_usize(vl + 4)
    }

    /// Appends the full padded record.
    pub fn emit(&self, out: &mut Vec<u8>)
        requires
            self.wf(),
        ensures
            final(out)@ == old(out)@ + self.model().enc(),
    {
        let mut value: Vec<u8> = Vec::new();
        self.emit_value(&mut value);
        emit_record(out, self.kind(), value.as_slice());
    }

    /// Decodes one raw record of this level, exactly as `spec_parse` says.
    pub fn parse(kind: u16, payload: &[u8]) -> (r: Result<Self, DecodeError>)
        ensures
            match r {
                Ok(a) => SpecIPTuple::spec_parse(kind, payload@) == Ok::<
                    SpecIPTuple,
                    DecodeError,
                >(a.model()),
                Err(e) => SpecIPTuple::spec_parse(kind, payload@) == Err::<
                    SpecIPTuple,
                    DecodeError,
                >(e),
            },
    {
        let k = kind & KIND_MASK;
        if k == CTA_IP_V4_SRC || k == CTA_IP_V6_SRC {
            match parse_ip(payload) {
                Ok(a) => Ok(IPTuple::SourceAddress(a)),
                Err(e) => Err(e),
            }
        } else if k == CTA_IP_V4_DST || k == CTA_IP_V6_DST {
            match parse_ip(payload) {
                Ok(a) => Ok(IPTuple::DestinationAddress(a)),
                Err(e) => Err(e),
            }
        } else {
            Err(DecodeError::UnknownKind(k))
        }
    }
}

/// Reads an address value: the width alone picks the version.
pub fn parse_ip(payload: &[u8]) -> (r: Result<IpAddr, DecodeError>)
    ensures
        match r {
            Ok(a) => a.wf() && (payload@.len() == IPV4_LEN || payload@.len() == IPV6_LEN)
                && a.model().octets() == payload@ && (a.model() is V4 <==> payload@.len()
                == IPV4_LEN),
            Err(e) => payload@.len() != IPV4_LEN && payload@.len() != IPV6_LEN && e
                == DecodeError::PayloadTooShort,
        },
{
    if payload.len() == IPV4_LEN {
        Ok(IpAddr::V4(vstd::slice::slice_to_vec(payload)))
    } else if payload.len() == IPV6_LEN {
        Ok(IpAddr::V6(vstd::slice::slice_to_vec(payload)))
    } else {
        Err(DecodeError::PayloadTooShort)
    }
}

/// One leaf of the protocol tuple: protocol number or a port.
#[derive(Debug, Clone, Copy, Eq, PartialEq, Structural)]
pub enum ProtoTuple {
    Protocol(u8),
    SourcePort(u16),
    DestinationPort(u16),
}

impl ProtoTuple {
    /// The protocol leaves carry plain scalars, so the type is its own
    /// mathematical form.
    pub open spec fn model(&self) -> ProtoTuple {
        *self
    }

    pub open spec fn wf(&self) -> bool {
        true
    }

    /// The unpadded value bytes: the scalar in little-endian order.
    pub open spec fn value_enc_spec(self) -> Seq<u8> {
        match self {
            ProtoTuple::Protocol(v) => seq![v],
            ProtoTuple::SourcePort(v) => le16(v),
            ProtoTuple::DestinationPort(v) => le16(v),
        }
    }

    pub open spec fn kind_code(self) -> u16 {
        match self {
            ProtoTuple::Protocol(_) => CTA_PROTO_NUM,
            ProtoTuple::SourcePort(_) => CTA_PROTO_SRC_PORT,
            ProtoTuple::DestinationPort(_) => CTA_PROTO_DST_PORT,
        }
    }

    /// Protocol leaves do not nest.
    pub open spec fn wire_kind(self) -> u16 {
        self.kind_code()
    }

    pub open spec fn rec(self) -> (u16, Seq<u8>) {
        (self.wire_kind(), self.value_enc_spec())
    }

    pub open spec fn enc(self) -> Seq<u8> {
        rec_enc(self.wire_kind(), self.value_enc_spec())
    }

    /// Decoding one raw record of this level: scalars must have exactly
    /// their declared width.
    pub open spec fn spec_parse(kindw: u16, v: Seq<u8>) -> Result<Self, DecodeError> {
        let k = kindw & KIND_MASK;
        if k == CTA_PROTO_NUM {
            if v.len() == 1 {
                Ok(ProtoTuple::Protocol(v[0]))
            } else {
                Err(DecodeError::PayloadTooShort)
            }
        } else if k == CTA_PROTO_SRC_PORT {
            if v.len() == 2 {
                Ok(ProtoTuple::SourcePort(le16_val(v[0], v[1]) as u16))
            } else {
                Err(DecodeError::PayloadTooShort)
            }
        } else if k == CTA_PROTO_DST_PORT {
            if v.len() == 2 {
                Ok(ProtoTuple::DestinationPort(le16_val(v[0], v[1]) as u16))
            } else {
                Err(DecodeError::PayloadTooShort)
            }
        } else {
            Err(DecodeError::UnknownKind(k))
        }
    }


    /// Rejection of unknown kinds: a record whose masked kind is outside
    /// this level's closed table decodes to an error naming that kind,
    /// never to a silently skipped attribute.
    pub proof fn lemma_unknown_kind_rejected(kindw: u16, v: Seq<u8>)
        requires
            (kindw & KIND_MASK) != CTA_PROTO_NUM && (kindw & KIND_MASK) != CTA_PROTO_SRC_PORT
                && (kindw & KIND_MASK) != CTA_PROTO_DST_PORT,
        ensures
            Self::spec_parse(kindw, v) == Err::<Self, DecodeError>(
                DecodeError::UnknownKind(kindw & KIND_MASK),
            ),
    {
    }

    /// A protocol leaf decodes from its own encoding.
    pub proof fn lemma_parse_enc(self)
        ensures
            Self::spec_parse(self.wire_kind(), self.value_enc_spec()) == Ok::<Self, DecodeError>(
                self,
            ),
    {
        lemma_mask_kind(self.kind_code());
        match self {
            ProtoTuple::Protocol(_) => {
            },
            ProtoTuple::SourcePort(v) => {
                crate::bytes::lemma_le16_roundtrip(v);
            },
            ProtoTuple::DestinationPort(v) => {
                crate::bytes::lemma_le16_roundtrip(v);
            },
        }
    }

    /// Unpadded length of the value: the scalar's width.
    pub fn value_len(&self) -> (r: usize)
        ensures
            r == self.value_enc_spec().len(),
    {
        match self {
            ProtoTuple::Protocol(_) => 1,
            ProtoTuple::SourcePort(_) => 2,
            ProtoTuple::DestinationPort(_) => 2,
        }
    }

    pub fn kind(&self) -> (r: u16)
        ensures
            r == self.kind_code(),
    {
        match self {
            ProtoTuple::Protocol(_) => CTA_PROTO_NUM,
            ProtoTuple::SourcePort(_) => CTA_PROTO_SRC_PORT,
            ProtoTuple::DestinationPort(_) => CTA_PROTO_DST_PORT,
        }
    }

    /// Appends exactly the unpadded value bytes.
    pub fn emit_value(&self, out: &mut Vec<u8>)
        ensures
            final(out)@ == old(out)@ + self.value_enc_spec(),
    {
        match self {
            ProtoTuple::Protocol(v) => {
                out.push(*v);
                assert(out@ =~= old(out)@ + self.value_enc_spec());
            },
            ProtoTuple::SourcePort(v) => push_le16(out, *v),
            ProtoTuple::DestinationPort(v) => push_le16(out, *v),
        }
    }

    /// Length of the full padded record.
    pub fn buffer_len(&self) -> (r: usize)
        ensures
            r == self.enc().len(),
    {
        let vl = self.value_len();
        proof {
            lemma_rec_enc_step(self.wire_kind(), self.value_enc_spec(), Seq::empty());
        }
        align4_usize(vl + 4)
    }

    /// Appends the full padded record.
    pub fn emit(&self, out: &mut Vec<u8>)
        ensures
            final(out)@ == old(out)@ + self.enc(),
    {
        let mut value: Vec<u8> = Vec::new();
        self.emit_value(&mut value);
        emit_record(out, self.kind(), value.as_slice());
    }

    /// Decodes one raw record of this level, exactly as `spec_parse` says.
    pub fn parse(kind: u16, payload: &[u8]) -> (r: Result<Self, DecodeError>)
        ensures
            match r {
                Ok(a) => Self::spec_parse(kind, payload@) == Ok::<Self, DecodeError>(a),
                Err(e) => Self::spec_parse(kind, payload@) == Err::<Self, DecodeError>(e),
            },
    {
        let k = kind & KIND_MASK;
        if k == CTA_PROTO_NUM {
            if payload.len() == 1 {
                Ok(ProtoTuple::Protocol(payload[0]))
            } else {
                Err(DecodeError::PayloadTooShort)
            }
        } else if k == CTA_PROTO_SRC_PORT {
            if payload.len() == 2 {
                Ok(ProtoTuple::SourcePort(read_le16(payload[0], payload[1])))
            } else {
                Err(DecodeError::PayloadTooShort)
            }
        } else if k == CTA_PROTO_DST_PORT {
            if payload.len() == 2 {
                Ok(ProtoTuple::DestinationPort(read_le16(payload[0], payload[1])))
            } else {
                Err(DecodeError::PayloadTooShort)
            }
        } else {
            Err(DecodeError::UnknownKind(k))
        }
    }
}

/// The raw records of an address-tuple list, in order.
pub open spec fn ip_recs(s: Seq<SpecIPTuple>) -> Seq<(u16, Seq<u8>)> {
    s.map_values(|a: SpecIPTuple| a.rec())
}

/// The encoding of an address-tuple list.
pub open spec fn ip_tree_enc(s: Seq<SpecIPTuple>) -> Seq<u8> {
    recs_enc(ip_recs(s))
}

/// Decoding a list of raw address-tuple records; the first failure aborts
/// the whole list.
pub open spec fn ip_parse_list(rs: Seq<(u16, Seq<u8>)>) -> Result<Seq<SpecIPTuple>, DecodeError>
    decreases rs.len(),
{
    if rs.len() == 0 {
        Ok(Seq::empty())
    } else {
        match SpecIPTuple::spec_parse(rs[0].0, rs[0].1) {
            Err(e) => Err(e),
            Ok(a) => match ip_parse_list(rs.drop_first()) {
                Err(e) => Err(e),
                Ok(rest) => Ok(seq![a] + rest),
            },
        }
    }
}

/// Decoding an address-tuple byte run: cut into records, then decode each.
pub open spec fn ip_parse_tree(b: Seq<u8>) -> Result<Seq<SpecIPTuple>, DecodeError> {
    match recs_parse(b) {
        None => Err(DecodeError::MalformedRecord),
        Some(rs) => ip_parse_list(rs),
    }
}

pub proof fn lemma_ip_parse_list_enc(s: Seq<SpecIPTuple>)
    requires
        forall|i: int| 0 <= i < s.len() ==> (#[trigger] s[i]).wf(),
    ensures
        ip_parse_list(ip_recs(s)) == Ok::<Seq<SpecIPTuple>, DecodeError>(s),
    decreases s.len(),
{
    let rs = ip_recs(s);
    if s.len() == 0 {
        assert(s =~= Seq::<SpecIPTuple>::empty());
    } else {
        s[0].lemma_parse_enc();
        lemma_ip_parse_list_enc(s.drop_first());
        assert(rs.drop_first() =~= ip_recs(s.drop_first()));
        assert(seq![s[0]] + s.drop_first() =~= s);
    }
}

/// Round trip of an address-tuple list.
pub proof fn lemma_ip_parse_tree_enc(s: Seq<SpecIPTuple>)
    requires
        forall|i: int| 0 <= i < s.len() ==> (#[trigger] s[i]).wf(),
    ensures
        ip_parse_tree(ip_tree_enc(s)) == Ok::<Seq<SpecIPTuple>, DecodeError>(s),
{
    assert forall|i: int| 0 <= i < ip_recs(s).len() implies (#[trigger] ip_recs(
        s,
    )[i]).1.len() <= MAX_VALUE_LEN by {
        assert(s[i].wf());
    }
    lemma_recs_parse_enc(ip_recs(s));
    lemma_ip_parse_list_enc(s);
}

/// The raw records of a protocol-tuple list, in order.
pub open spec fn proto_recs(s: Seq<ProtoTuple>) -> Seq<(u16, Seq<u8>)> {
    s.map_values(|a: ProtoTuple| a.rec())
}

/// The encoding of a protocol-tuple list.
pub open spec fn proto_tree_enc(s: Seq<ProtoTuple>) -> Seq<u8> {
    recs_enc(proto_recs(s))
}

/// Decoding a list of raw protocol-tuple records; the first failure aborts
/// the whole list.
pub open spec fn proto_parse_list(rs: Seq<(u16, Seq<u8>)>) -> Result<Seq<ProtoTuple>, DecodeError>
    decreases rs.len(),
{
    if rs.len() == 0 {
        Ok(Seq::empty())
    } else {
        match ProtoTuple::spec_parse(rs[0].0, rs[0].1) {
            Err(e) => Err(e),
            Ok(a) => match proto_parse_list(rs.drop_first()) {
                Err(e) => Err(e),
                Ok(rest) => Ok(seq![a] + rest),
            },
        }
    }
}

/// Decoding a protocol-tuple byte run: cut into records, then decode each.
pub open spec fn proto_parse_tree(b: Seq<u8>) -> Result<Seq<ProtoTuple>, DecodeError> {
    match recs_parse(b) {
        None => Err(DecodeError::MalformedRecord),
        Some(rs) => proto_parse_list(rs),
    }
}

pub proof fn lemma_proto_parse_list_enc(s: Seq<ProtoTuple>)
    ensures
        proto_parse_list(proto_recs(s)) == Ok::<Seq<ProtoTuple>, DecodeError>(s),
    decreases s.len(),
{
    let rs = proto_recs(s);
    if s.len() == 0 {
        assert(s =~= Seq::<ProtoTuple>::empty());
    } else {
        s[0].lemma_parse_enc();
        lemma_proto_parse_list_enc(s.drop_first());
        assert(rs.drop_first() =~= proto_recs(s.drop_first()));
        assert(seq![s[0]] + s.drop_first() =~= s);
    }
}

/// Round trip of a protocol-tuple list.
pub proof fn lemma_proto_parse_tree_enc(s: Seq<ProtoTuple>)
    ensures
        proto_parse_tree(proto_tree_enc(s)) == Ok::<Seq<ProtoTuple>, DecodeError>(s),
{
    assert forall|i: int| 0 <= i < proto_recs(s).len() implies (#[trigger] proto_recs(
        s,
    )[i]).1.len() <= MAX_VALUE_LEN by {
    }
    lemma_recs_parse_enc(proto_recs(s));
    lemma_proto_parse_list_enc(s);
}

pub open spec fn ip_models(s: Seq<IPTuple>) -> Seq<SpecIPTuple> {
    s.map_values(|a: IPTuple| a.model())
}

/// Sums the padded record lengths of an address-tuple list.
#[verifier::loop_isolation(false)]
fn ip_list_len(nlas: &Vec<IPTuple>) -> (r: usize)
    requires
        forall|i: int| 0 <= i < nlas@.len() ==> (#[trigger] nlas@[i]).wf(),
        ip_tree_enc(ip_models(nlas@)).len() <= MAX_VALUE_LEN,
    ensures
        r == ip_tree_enc(ip_models(nlas@)).len(),
{
    let ghost ms = ip_models(nlas@);
    let mut acc: usize = 0;
    let mut i: usize = 0;
    proof {
        assert(ip_recs(ms.take(0)) =~= Seq::<(u16, Seq<u8>)>::empty());
    }
    while i < nlas.len()
        invariant
            0 <= i <= nlas@.len(),
            acc == recs_enc(ip_recs(ms.take(i as int))).len(),
        decreases nlas@.len() - i,
    {
        proof {
            lemma_recs_enc_snoc(ip_recs(ms.take(i as int)), ms[i as int].rec());
            assert(ip_recs(ms.take(i + 1)) =~= ip_recs(ms.take(i as int)).push(ms[i as int].rec()));
            assert(ip_recs(ms.take(i + 1)) =~= ip_recs(ms).take(i + 1));
            lemma_recs_enc_prefix_le(ip_recs(ms), i + 1);
            assert(ms.take(ms.len() as int) =~= ms);
        }
        let bl = nlas[i].buffer_len();
        acc = acc + bl;
        i = i + 1;
    }
    proof {
        assert(ms.take(ms.len() as int) =~= ms);
    }
    acc
}

/// Appends each record of an address-tuple list in order.
#[verifier::loop_isolation(false)]
fn emit_ip_list(nlas: &Vec<IPTuple>, out: &mut Vec<u8>)
    requires
        forall|i: int| 0 <= i < nlas@.len() ==> (#[trigger] nlas@[i]).wf(),
    ensures
        final(out)@ == old(out)@ + ip_tree_enc(ip_models(nlas@)),
{
    let ghost ms = ip_models(nlas@);
    let mut i: usize = 0;
    proof {
        assert(ip_recs(ms.take(0)) =~= Seq::<(u16, Seq<u8>)>::empty());
        assert(out@ =~= out@ + recs_enc(ip_recs(ms.take(0))));
    }
    while i < nlas.len()
        invariant
            0 <= i <= nlas@.len(),
            out@ == old(out)@ + recs_enc(ip_recs(ms.take(i as int))),
        decreases nlas@.len() - i,
    {
        nlas[i].emit(out);
        proof {
            lemma_recs_enc_snoc(ip_recs(ms.take(i as int)), ms[i as int].rec());
            assert(ip_recs(ms.take(i + 1)) =~= ip_recs(ms.take(i as int)).push(ms[i as int].rec()));
            assert(out@ =~= old(out)@ + recs_enc(ip_recs(ms.take(i + 1))));
        }
        i = i + 1;
    }
    proof {
        assert(ms.take(ms.len() as int) =~= ms);
    }
}

/// Decodes a whole address-tuple byte run.
#[verifier::loop_isolation(false)]
fn parse_ip_list(payload: &[u8]) -> (r: Result<Vec<IPTuple>, DecodeError>)
    ensures
        match r {
            Ok(v) => ip_parse_tree(payload@) == Ok::<Seq<SpecIPTuple>, DecodeError>(
                ip_models(v@),
            ),
            Err(e) => ip_parse_tree(payload@) == Err::<Seq<SpecIPTuple>, DecodeError>(e),
        },
{
    let recs = match split_records(payload) {
        Ok(rs) => rs,
        Err(e) => {
            return Err(e);
        },
    };
    let ghost rs_spec = recs_of(recs@);
    let mut out: Vec<IPTuple> = Vec::new();
    let mut i: usize = 0;
    proof {
        assert(rs_spec.skip(0) =~= rs_spec);
    }
    while i < recs.len()
        invariant
            0 <= i <= recs@.len(),
            ip_parse_list(rs_spec) == match ip_parse_list(rs_spec.skip(i as int)) {
                Ok(rest) => Ok::<Seq<SpecIPTuple>, DecodeError>(ip_models(out@) + rest),
                Err(e) => Err::<Seq<SpecIPTuple>, DecodeError>(e),
            },
        decreases recs@.len() - i,
    {
        let rec = &recs[i];
        proof {
            assert(rs_spec[i as int] == recs@[i as int].rec());
            assert(rs_spec.skip(i as int)[0] == rs_spec[i as int]);
        }
        let parsed = match IPTuple::parse(rec.kind, rec.value.as_slice()) {
            Ok(a) => a,
            Err(e) => {
                return Err(e);
            },
        };
        let ghost old_out = out@;
        out.push(parsed);
        proof {
            assert(rs_spec.skip(i as int).drop_first() =~= rs_spec.skip(i + 1));
            assert(ip_models(out@) =~= ip_models(old_out) + seq![parsed.model()]);
            if let Ok(rest) = ip_parse_list(rs_spec.skip(i + 1)) {
                assert(ip_models(old_out) + (seq![parsed.model()] + rest) =~= ip_models(out@)
                    + rest);
            }
        }
        i = i + 1;
    }
    proof {
        assert(rs_spec.skip(rs_spec.len() as int) =~= Seq::<(u16, Seq<u8>)>::empty());
        assert(ip_models(out@) + Seq::<SpecIPTuple>::empty() =~= ip_models(out@));
    }
    Ok(out)
}

/// Sums the padded record lengths of a protocol-tuple list.
#[verifier::loop_isolation(false)]
fn proto_list_len(nlas: &Vec<ProtoTuple>) -> (r: usize)
    requires
        proto_tree_enc(nlas@).len() <= MAX_VALUE_LEN,
    ensures
        r == proto_tree_enc(nlas@).len(),
{
    let ghost ms = nlas@;
    let mut acc: usize = 0;
    let mut i: usize = 0;
    proof {
        assert(proto_recs(ms.take(0)) =~= Seq::<(u16, Seq<u8>)>::empty());
    }
    while i < nlas.len()
        invariant
            0 <= i <= nlas@.len(),
            acc == recs_enc(proto_recs(ms.take(i as int))).len(),
        decreases nlas@.len() - i,
    {
        proof {
            lemma_recs_enc_snoc(proto_recs(ms.take(i as int)), ms[i as int].rec());
            assert(proto_recs(ms.take(i + 1)) =~= proto_recs(ms.take(i as int)).push(
                ms[i as int].rec(),
            ));
            assert(proto_recs(ms.take(i + 1)) =~= proto_recs(ms).take(i + 1));
            lemma_recs_enc_prefix_le(proto_recs(ms), i + 1);
            assert(ms.take(ms.len() as int) =~= ms);
        }
        let bl = nlas[i].buffer_len();
        acc = acc + bl;
        i = i + 1;
    }
    proof {
        assert(ms.take(ms.len() as int) =~= ms);
    }
    acc
}

/// Appends each record of a protocol-tuple list in order.
#[verifier::loop_isolation(false)]
fn emit_proto_list(nlas: &Vec<ProtoTuple>, out: &mut Vec<u8>)
    ensures
        final(out)@ == old(out)@ + proto_tree_enc(nlas@),
{
    let ghost ms = nlas@;
    let mut i: usize = 0;
    proof {
        assert(proto_recs(ms.take(0)) =~= Seq::<(u16, Seq<u8>)>::empty());
        assert(out@ =~= out@ + recs_enc(proto_recs(ms.take(0))));
    }
    while i < nlas.len()
        invariant
            0 <= i <= nlas@.len(),
            out@ == old(out)@ + recs_enc(proto_recs(ms.take(i as int))),
        decreases nlas@.len() - i,
    {
        nlas[i].emit(out);
        proof {
            lemma_recs_enc_snoc(proto_recs(ms.take(i as int)), ms[i as int].rec());
            assert(proto_recs(ms.take(i + 1)) =~= proto_recs(ms.take(i as int)).push(
                ms[i as int].rec(),
            ));
            assert(out@ =~= old(out)@ + recs_enc(proto_recs(ms.take(i + 1))));
        }
        i = i + 1;
    }
    proof {
        assert(ms.take(ms.len() as int) =~= ms);
    }
}

/// Decodes a whole protocol-tuple byte run.
#[verifier::loop_isolation(false)]
fn parse_proto_list(payload: &[u8]) -> (r: Result<Vec<ProtoTuple>, DecodeError>)
    ensures
        match r {
            Ok(v) => proto_parse_tree(payload@) == Ok::<Seq<ProtoTuple>, DecodeError>(v@),
            Err(e) => proto_parse_tree(payload@) == Err::<Seq<ProtoTuple>, DecodeError>(e),
        },
{
    let recs = match split_records(payload) {
        Ok(rs) => rs,
        Err(e) => {
            return Err(e);
        },
    };
    let ghost rs_spec = recs_of(recs@);
    let mut out: Vec<ProtoTuple> = Vec::new();
    let mut i: usize = 0;
    proof {
        assert(rs_spec.skip(0) =~= rs_spec);
    }
    while i < recs.len()
        invariant
            0 <= i <= recs@.len(),
            proto_parse_list(rs_spec) == match proto_parse_list(rs_spec.skip(i as int)) {
                Ok(rest) => Ok::<Seq<ProtoTuple>, DecodeError>(out@ + rest),
                Err(e) => Err::<Seq<ProtoTuple>, DecodeError>(e),
            },
        decreases recs@.len() - i,
    {
        let rec = &recs[i];
        proof {
            assert(rs_spec[i as int] == recs@[i as int].rec());
            assert(rs_spec.skip(i as int)[0] == rs_spec[i as int]);
        }
        let parsed = match ProtoTuple::parse(rec.kind, rec.value.as_slice()) {
            Ok(a) => a,
            Err(e) => {
                return Err(e);
            },
        };
        let ghost old_out = out@;
        out.push(parsed);
        proof {
            assert(rs_spec.skip(i as int).drop_first() =~= rs_spec.skip(i + 1));
            if let Ok(rest) = proto_parse_list(rs_spec.skip(i + 1)) {
                assert(old_out + (seq![parsed] + rest) =~= out@ + rest);
            }
        }
        i = i + 1;
    }
    proof {
        assert(rs_spec.skip(rs_spec.len() as int) =~= Seq::<(u16, Seq<u8>)>::empty());
        assert(out@ + Seq::<ProtoTuple>::empty() =~= out@);
    }
    Ok(out)
}

/// The mathematical form of a tuple: an address or protocol sub-list.
pub enum SpecTuple {
    Ip(Seq<SpecIPTuple>),
    Proto(Seq<ProtoTuple>),
}

impl SpecTuple {
    /// All children well-formed and the nested run short enough for this
    /// record's own length field.
    pub open spec fn wf(self) -> bool {
        match self {
            SpecTuple::Ip(s) => (forall|i: int| 0 <= i < s.len() ==> (#[trigger] s[i]).wf())
                && ip_tree_enc(s).len() <= MAX_VALUE_LEN,
            SpecTuple::Proto(s) => proto_tree_enc(s).len() <= MAX_VALUE_LEN,
        }
    }

    /// The unpadded value bytes: the concatenation of the children's full
    /// padded records.
    pub open spec fn value_enc(self) -> Seq<u8> {
        match self {
            SpecTuple::Ip(s) => ip_tree_enc(s),
            SpecTuple::Proto(s) => proto_tree_enc(s),
        }
    }

    pub open spec fn kind_code(self) -> u16 {
        match self {
            SpecTuple::Ip(_) => CTA_TUPLE_IP,
            SpecTuple::Proto(_) => CTA_TUPLE_PROTO,
        }
    }

    /// Both tuples nest, so the wire kind carries the nested flag.
    pub open spec fn wire_kind(self) -> u16 {
        self.kind_code() | NESTED_FLAG
    }

    pub open spec fn rec(self) -> (u16, Seq<u8>) {
        (self.wire_kind(), self.value_enc())
    }

    pub open spec fn enc(self) -> Seq<u8> {
        rec_enc(self.wire_kind(), self.value_enc())
    }

    /// Decoding one raw record of this level: the value is itself a record
    /// run of the dispatched child level.
    pub open spec fn spec_parse(kindw: u16, v: Seq<u8>) -> Result<Self, DecodeError> {
        let k = kindw & KIND_MASK;
        if k == CTA_TUPLE_IP {
            match ip_parse_tree(v) {
                Err(e) => Err(e),
                Ok(s) => Ok(SpecTuple::Ip(s)),
            }
        } else if k == CTA_TUPLE_PROTO {
            match proto_parse_tree(v) {
                Err(e) => Err(e),
                Ok(s) => Ok(SpecTuple::Proto(s)),
            }
        } else {
            Err(DecodeError::UnknownKind(k))
        }
    }


    /// Rejection of unknown kinds: a record whose masked kind is outside
    /// this level's closed table decodes to an error naming that kind,
    /// never to a silently skipped attribute.
    pub proof fn lemma_unknown_kind_rejected(kindw: u16, v: Seq<u8>)
        requires
            (kindw & KIND_MASK) != CTA_TUPLE_IP && (kindw & KIND_MASK) != CTA_TUPLE_PROTO,
        ensures
            Self::spec_parse(kindw, v) == Err::<Self, DecodeError>(
                DecodeError::UnknownKind(kindw & KIND_MASK),
            ),
    {
    }

    /// A well-formed tuple decodes from its own encoding.
    pub proof fn lemma_parse_enc(self)
        requires
            self.wf(),
        ensures
            Self::spec_parse(self.wire_kind(), self.value_enc()) == Ok::<Self, DecodeError>(self),
    {
        lemma_mask_kind(self.kind_code());
        match self {
            SpecTuple::Ip(s) => {
                lemma_ip_parse_tree_enc(s);
            },
            SpecTuple::Proto(s) => {
                lemma_proto_parse_tree_enc(s);
            },
        }
    }
}

/// One tuple: the address pair or the protocol triple.
#[derive(Debug, Clone, Eq, PartialEq)]
pub enum Tuple {
    Ip(Vec<IPTuple>),
    Proto(Vec<ProtoTuple>),
}

impl Tuple {
    pub open spec fn model(&self) -> SpecTuple {
        match self {
            Tuple::Ip(nlas) => SpecTuple::Ip(ip_models(nlas@)),
            Tuple::Proto(nlas) => SpecTuple::Proto(nlas@),
        }
    }

    pub open spec fn wf(&self) -> bool {
        self.model().wf()
    }

    /// Unpadded length of the value: the children's padded records
    /// together.
    pub fn value_len(&self) -> (r: usize)
        requires
            self.wf(),
        ensures
            r == self.model().value_enc().len(),
    {
        match self {
            Tuple::Ip(nlas) => {
                proof {
                    assert forall|i: int| 0 <= i < nlas@.len() implies (#[trigger] nlas@[i]).wf() by {
                        assert(ip_models(nlas@)[i] == nlas@[i].model());
                    }
                }
                ip_list_len(nlas)
            },
            Tuple::Proto(nlas) => proto_list_len(nlas),
        }
    }

    pub fn kind(&self) -> (r: u16)
        ensures
            r == self.model().kind_code(),
    {
        match self {
            Tuple::Ip(_) => CTA_TUPLE_IP,
            Tuple::Proto(_) => CTA_TUPLE_PROTO,
        }
    }

    /// Both tuple variants hold a child tree.
    pub fn is_nested(&self) -> (r: bool)
        ensures
            r == true,
    {
        true
    }

    /// Appends exactly the unpadded value bytes: each child's full record.
    pub fn emit_value(&self, out: &mut Vec<u8>)
        requires
            self.wf(),
        ensures
            final(out)@ == old(out)@ + self.model().value_enc(),
    {
        match self {
            Tuple::Ip(nlas) => {
                proof {
                    assert forall|i: int| 0 <= i < nlas@.len() implies (#[trigger] nlas@[i]).wf() by {
                        assert(ip_models(nlas@)[i] == nlas@[i].model());
                    }
                }
                emit_ip_list(nlas, out)
            },
            Tuple::Proto(nlas) => emit_proto_list(nlas, out),
        }
    }

    /// Length of the full padded record.
    pub fn buffer_len(&self) -> (r: usize)
        requires
            self.wf(),
        ensures
            r == self.model().enc().len(),
    {
        let vl = self.value_len();
        proof {
            lemma_rec_enc_step(self.model().wire_kind(), self.model().value_enc(), Seq::empty());
        }
        align4_usize(vl + 4)
    }

    /// Appends the full padded record, nested flag set on the wire kind.
    pub fn emit(&self, out: &mut Vec<u8>)
        requires
            self.wf(),
        ensures
            final(out)@ == old(out)@ + self.model().enc(),
    {
        let mut value: Vec<u8> = Vec::new();
        self.emit_value(&mut value);
        emit_record(out, self.kind() | NESTED_FLAG, value.as_slice());
    }

    /// Decodes one raw record of this level, exactly as `spec_parse` says.
    pub fn parse(kind: u16, payload: &[u8]) -> (r: Result<Self, DecodeError>)
        ensures
            match r {
                Ok(a) => SpecTuple::spec_parse(kind, payload@) == Ok::<SpecTuple, DecodeError>(
                    a.model(),
                ),
                Err(e) => SpecTuple::spec_parse(kind, payload@) == Err::<SpecTuple, DecodeError>(
                    e,
                ),
            },
    {
        let k = kind & KIND_MASK;
        if k == CTA_TUPLE_IP {
            match parse_ip_list(payload) {
                Ok(v) => Ok(Tuple::Ip(v)),
                Err(e) => Err(e),
            }
        } else if k == CTA_TUPLE_PROTO {
            match parse_proto_list(payload) {
                Ok(v) => Ok(Tuple::Proto(v)),
                Err(e) => Err(e),
            }
        } else {
            Err(DecodeError::UnknownKind(k))
        }
    }
}

/// The raw records of a tuple list, in order.
pub open spec fn tuple_recs(s: Seq<SpecTuple>) -> Seq<(u16, Seq<u8>)> {
    s.map_values(|a: SpecTuple| a.rec())
}

/// The encoding of a tuple list.
pub open spec fn tuple_tree_enc(s: Seq<SpecTuple>) -> Seq<u8> {
    recs_enc(tuple_recs(s))
}

/// Decoding a list of raw tuple records; the first failure aborts the
/// whole list.
pub open spec fn tuple_parse_list(rs: Seq<(u16, Seq<u8>)>) -> Result<Seq<SpecTuple>, DecodeError>
    decreases rs.len(),
{
    if rs.len() == 0 {
        Ok(Seq::empty())
    } else {
        match SpecTuple::spec_parse(rs[0].0, rs[0].1) {
            Err(e) => Err(e),
            Ok(a) => match tuple_parse_list(rs.drop_first()) {
                Err(e) => Err(e),
                Ok(rest) => Ok(seq![a] + rest),
            },
        }
    }
}

/// Decoding a tuple-list byte run: cut into records, then decode each.
pub open spec fn tuple_parse_tree(b: Seq<u8>) -> Result<Seq<SpecTuple>, DecodeError> {
    match recs_parse(b) {
        None => Err(DecodeError::MalformedRecord),
        Some(rs) => tuple_parse_list(rs),
    }
}

pub proof fn lemma_tuple_parse_list_enc(s: Seq<SpecTuple>)
    requires
        forall|i: int| 0 <= i < s.len() ==> (#[trigger] s[i]).wf(),
    ensures
        tuple_parse_list(tuple_recs(s)) == Ok::<Seq<SpecTuple>, DecodeError>(s),
    decreases s.len(),
{
    let rs = tuple_recs(s);
    if s.len() == 0 {
        assert(s =~= Seq::<SpecTuple>::empty());
    } else {
        s[0].lemma_parse_enc();
        lemma_tuple_parse_list_enc(s.drop_first());
        assert(rs.drop_first() =~= tuple_recs(s.drop_first()));
        assert(seq![s[0]] + s.drop_first() =~= s);
    }
}

/// Round trip of a tuple list.
pub proof fn lemma_tuple_parse_tree_enc(s: Seq<SpecTuple>)
    requires
        forall|i: int| 0 <= i < s.len() ==> (#[trigger] s[i]).wf(),
    ensures
        tuple_parse_tree(tuple_tree_enc(s)) == Ok::<Seq<SpecTuple>, DecodeError>(s),
{
    assert forall|i: int| 0 <= i < tuple_recs(s).len() implies (#[trigger] tuple_recs(
        s,
    )[i]).1.len() <= MAX_VALUE_LEN by {
        assert(s[i].wf());
    }
    lemma_recs_parse_enc(tuple_recs(s));
    lemma_tuple_parse_list_enc(s);
}

pub open spec fn tuple_models(s: Seq<Tuple>) -> Seq<SpecTuple> {
    s.map_values(|a: Tuple| a.model())
}

/// Sums the padded record lengths of a tuple list.
#[verifier::loop_isolation(false)]
fn tuple_list_len(nlas: &Vec<Tuple>) -> (r: usize)
    requires
        forall|i: int| 0 <= i < nlas@.len() ==> (#[trigger] nlas@[i]).wf(),
        tuple_tree_enc(tuple_models(nlas@)).len() <= MAX_VALUE_LEN,
    ensures
        r == tuple_tree_enc(tuple_models(nlas@)).len(),
{
    let ghost ms = tuple_models(nlas@);
    let mut acc: usize = 0;
    let mut i: usize = 0;
    proof {
        assert(tuple_recs(ms.take(0)) =~= Seq::<(u16, Seq<u8>)>::empty());
    }
    while i < nlas.len()
        invariant
            0 <= i <= nlas@.len(),
            acc == recs_enc(tuple_recs(ms.take(i as int))).len(),
        decreases nlas@.len() - i,
    {
        proof {
            lemma_recs_enc_snoc(tuple_recs(ms.take(i as int)), ms[i as int].rec());
            assert(tuple_recs(ms.take(i + 1)) =~= tuple_recs(ms.take(i as int)).push(
                ms[i as int].rec(),
            ));
            assert(tuple_recs(ms.take(i + 1)) =~= tuple_recs(ms).take(i + 1));
            lemma_recs_enc_prefix_le(tuple_recs(ms), i + 1);
            assert(ms.take(ms.len() as int) =~= ms);
        }
        let bl = nlas[i].buffer_len();
        acc = acc + bl;
        i = i + 1;
    }
    proof {
        assert(ms.take(ms.len() as int) =~= ms);
    }
    acc
}

/// Appends each record of a tuple list in order.
#[verifier::loop_isolation(false)]
fn emit_tuple_list(nlas: &Vec<Tuple>, out: &mut Vec<u8>)
    requires
        forall|i: int| 0 <= i < nlas@.len() ==> (#[trigger] nlas@[i]).wf(),
    ensures
        final(out)@ == old(out)@ + tuple_tree_enc(tuple_models(nlas@)),
{
    let ghost ms = tuple_models(nlas@);
    let mut i: usize = 0;
    proof {
        assert(tuple_recs(ms.take(0)) =~= Seq::<(u16, Seq<u8>)>::empty());
        assert(out@ =~= out@ + recs_enc(tuple_recs(ms.take(0))));
    }
    while i < nlas.len()
        invariant
            0 <= i <= nlas@.len(),
            out@ == old(out)@ + recs_enc(tuple_recs(ms.take(i as int))),
        decreases nlas@.len() - i,
    {
        nlas[i].emit(out);
        proof {
            lemma_recs_enc_snoc(tuple_recs(ms.take(i as int)), ms[i as int].rec());
            assert(tuple_recs(ms.take(i + 1)) =~= tuple_recs(ms.take(i as int)).push(
                ms[i as int].rec(),
            ));
            assert(out@ =~= old(out)@ + recs_enc(tuple_recs(ms.take(i + 1))));
        }
        i = i + 1;
    }
    proof {
        assert(ms.take(ms.len() as int) =~= ms);
    }
}

/// Decodes a whole tuple-list byte run.
#[verifier::loop_isolation(false)]
fn parse_tuple_list(payload: &[u8]) -> (r: Result<Vec<Tuple>, DecodeError>)
    ensures
        match r {
            Ok(v) => tuple_parse_tree(payload@) == Ok::<Seq<SpecTuple>, DecodeError>(
                tuple_models(v@),
            ),
            Err(e) => tuple_parse_tree(payload@) == Err::<Seq<SpecTuple>, DecodeError>(e),
        },
{
    let recs = match split_records(payload) {
        Ok(rs) => rs,
        Err(e) => {
            return Err(e);
        },
    };
    let ghost rs_spec = recs_of(recs@);
    let mut out: Vec<Tuple> = Vec::new();
    let mut i: usize = 0;
    proof {
        assert(rs_spec.skip(0) =~= rs_spec);
    }
    while i < recs.len()
        invariant
            0 <= i <= recs@.len(),
            tuple_parse_list(rs_spec) == match tuple_parse_list(rs_spec.skip(i as int)) {
                Ok(rest) => Ok::<Seq<SpecTuple>, DecodeError>(tuple_models(out@) + rest),
                Err(e) => Err::<Seq<SpecTuple>, DecodeError>(e),
            },
        decreases recs@.len() - i,
    {
        let rec = &recs[i];
        proof {
            assert(rs_spec[i as int] == recs@[i as int].rec());
            assert(rs_spec.skip(i as int)[0] == rs_spec[i as int]);
        }
        let parsed = match Tuple::parse(rec.kind, rec.value.as_slice()) {
            Ok(a) => a,
            Err(e) => {
                return Err(e);
            },
        };
        let ghost old_out = out@;
        out.push(parsed);
        proof {
            assert(rs_spec.skip(i as int).drop_first() =~= rs_spec.skip(i + 1));
            assert(tuple_models(out@) =~= tuple_models(old_out) + seq![parsed.model()]);
            if let Ok(rest) = tuple_parse_list(rs_spec.skip(i + 1)) {
                assert(tuple_models(old_out) + (seq![parsed.model()] + rest) =~= tuple_models(out@)
                    + rest);
            }
        }
        i = i + 1;
    }
    proof {
        assert(rs_spec.skip(rs_spec.len() as int) =~= Seq::<(u16, Seq<u8>)>::empty());
        assert(tuple_models(out@) + Seq::<SpecTuple>::empty() =~= tuple_models(out@));
    }
    Ok(out)
}

/// The mathematical form of a top-level connection-tracking attribute.
pub enum SpecConntrackAttribute {
    CtaTupleOrig(Seq<SpecTuple>),
}

impl SpecConntrackAttribute {
    pub open spec fn tuples(self) -> Seq<SpecTuple> {
        match self {
            SpecConntrackAttribute::CtaTupleOrig(s) => s,
        }
    }

    /// All children well-formed and the nested run short enough for this
    /// record's own length field.
    pub open spec fn wf(self) -> bool {
        &&& forall|i: int| 0 <= i < self.tuples().len() ==> (#[trigger] self.tuples()[i]).wf()
        &&& tuple_tree_enc(self.tuples()).len() <= MAX_VALUE_LEN
    }

    /// The unpadded value bytes: the children's full padded records.
    pub open spec fn value_enc(self) -> Seq<u8> {
        tuple_tree_enc(self.tuples())
    }

    pub open spec fn kind_code(self) -> u16 {
        CTA_TUPLE_ORIG
    }

    /// The original-tuple attribute nests.
    pub open spec fn wire_kind(self) -> u16 {
        self.kind_code() | NESTED_FLAG
    }

    pub open spec fn rec(self) -> (u16, Seq<u8>) {
        (self.wire_kind(), self.value_enc())
    }

    pub open spec fn enc(self) -> Seq<u8> {
        rec_enc(self.wire_kind(), self.value_enc())
    }

    /// Decoding one raw record of this level.
    pub open spec fn spec_parse(kindw: u16, v: Seq<u8>) -> Result<Self, DecodeError> {
        let k = kindw & KIND_MASK;
        if k == CTA_TUPLE_ORIG {
            match tuple_parse_tree(v) {
                Err(e) => Err(e),
                Ok(s) => Ok(SpecConntrackAttribute::CtaTupleOrig(s)),
            }
        } else {
            Err(DecodeError::UnknownKind(k))
        }
    }


    /// Rejection of unknown kinds: a record whose masked kind is outside
    /// this level's closed table decodes to an error naming that kind,
    /// never to a silently skipped attribute.
    pub proof fn lemma_unknown_kind_rejected(kindw: u16, v: Seq<u8>)
        requires
            (kindw & KIND_MASK) != CTA_TUPLE_ORIG,
        ensures
            Self::spec_parse(kindw, v) == Err::<Self, DecodeError>(
                DecodeError::UnknownKind(kindw & KIND_MASK),
            ),
    {
    }

    /// A well-formed attribute decodes from its own encoding.
    pub proof fn lemma_parse_enc(self)
        requires
            self.wf(),
        ensures
            Self::spec_parse(self.wire_kind(), self.value_enc()) == Ok::<Self, DecodeError>(self),
    {
        lemma_mask_kind(self.kind_code());
        lemma_tuple_parse_tree_enc(self.tuples());
    }
}

/// One top-level connection-tracking attribute: the original-direction
/// tuple group.
#[derive(Debug, Clone, Eq, PartialEq)]
pub enum ConntrackAttribute {
    CtaTupleOrig(Vec<Tuple>),
}

impl ConntrackAttribute {
    pub open spec fn model(&self) -> SpecConntrackAttribute {
        match self {
            ConntrackAttribute::CtaTupleOrig(nlas) => SpecConntrackAttribute::CtaTupleOrig(
                tuple_models(nlas@),
            ),
        }
    }

    pub open spec fn wf(&self) -> bool {
        self.model().wf()
    }

    /// Unpadded length of the value: the children's padded records
    /// together.
    pub fn value_len(&self) -> (r: usize)
        requires
            self.wf(),
        ensures
            r == self.model().value_enc().len(),
    {
        match self {
            ConntrackAttribute::CtaTupleOrig(nlas) => {
                proof {
                    assert forall|i: int| 0 <= i < nlas@.len() implies (#[trigger] nlas@[i]).wf() by {
                        assert(tuple_models(nlas@)[i] == nlas@[i].model());
                    }
                }
                tuple_list_len(nlas)
            },
        }
    }

    pub fn kind(&self) -> (r: u16)
        ensures
            r == self.model().kind_code(),
    {
        CTA_TUPLE_ORIG
    }

    /// The original-tuple attribute holds a child tree.
    pub fn is_nested(&self) -> (r: bool)
        ensures
            r == true,
    {
        true
    }

    /// Appends exactly the unpadded value bytes: each child's full record.
    pub fn emit_value(&self, out: &mut Vec<u8>)
        requires
            self.wf(),
        ensures
            final(out)@ == old(out)@ + self.model().value_enc(),
    {
        match self {
            ConntrackAttribute::CtaTupleOrig(nlas) => {
                proof {
                    assert forall|i: int| 0 <= i < nlas@.len() implies (#[trigger] nlas@[i]).wf() by {
                        assert(tuple_models(nlas@)[i] == nlas@[i].model());
                    }
                }
                emit_tuple_list(nlas, out)
            },
        }
    }

    /// Length of the full padded record.
    pub fn buffer_len(&self) -> (r: usize)
        requires
            self.wf(),
        ensures
            r == self.model().enc().len(),
    {
        let vl = self.value_len();
        proof {
            lemma_rec_enc_step(self.model().wire_kind(), self.model().value_enc(), Seq::empty());
        }
        align4_usize(vl + 4)
    }

    /// Appends the full padded record, nested flag set on the wire kind.
    pub fn emit(&self, out: &mut Vec<u8>)
        requires
            self.wf(),
        ensures
            final(out)@ == old(out)@ + self.model().enc(),
    {
        let mut value: Vec<u8> = Vec::new();
        self.emit_value(&mut value);
        emit_record(out, self.kind() | NESTED_FLAG, value.as_slice());
    }

    /// Decodes one raw record of this level, exactly as `spec_parse` says.
    pub fn parse(kind: u16, payload: &[u8]) -> (r: Result<Self, DecodeError>)
        ensures
            match r {
                Ok(a) => SpecConntrackAttribute::spec_parse(kind, payload@) == Ok::<
                    SpecConntrackAttribute,
                    DecodeError,
                >(a.model()),
                Err(e) => SpecConntrackAttribute::spec_parse(kind, payload@) == Err::<
                    SpecConntrackAttribute,
                    DecodeError,
                >(e),
            },
    {
        let k = kind & KIND_MASK;
        if k == CTA_TUPLE_ORIG {
            match parse_tuple_list(payload) {
                Ok(v) => Ok(ConntrackAttribute::CtaTupleOrig(v)),
                Err(e) => Err(e),
            }
        } else {
            Err(DecodeError::UnknownKind(k))
        }
    }
}

/// The generic netfilter header: family, version, resource id.
#[derive(Debug, Clone, Copy, PartialEq, Eq, Structural)]
pub struct Nfgenmsg {
    pub nfgen_family: u8,
    pub version: u8,
    pub resource_id: u16,
}

impl Nfgenmsg {
    /// The 4 header bytes: family, version, then the 16-bit resource id in
    /// little-endian order.
    pub open spec fn enc(self) -> Seq<u8> {
        seq![self.nfgen_family, self.version] + le16(self.resource_id)
    }

    /// Reading the header back from the front of a buffer: every field
    /// byte is taken as it stands, only a short buffer is an error.
    pub open spec fn spec_parse(b: Seq<u8>) -> Result<Self, DecodeError> {
        if b.len() < NFGENMSG_LEN {
            Err(DecodeError::PayloadTooShort)
        } else {
            Ok(
                Nfgenmsg {
                    nfgen_family: b[0],
                    version: b[1],
                    resource_id: le16_val(b[2], b[3]) as u16,
                },
            )
        }
    }

    pub fn buffer_len(&self) -> (r: usize)
        ensures
            r == self.enc().len(),
    {
        NFGENMSG_LEN
    }

    /// Appends the 4 header bytes.
    pub fn emit(&self, out: &mut Vec<u8>)
        ensures
            final(out)@ == old(out)@ + self.enc(),
    {
        out.push(self.nfgen_family);
        out.push(self.version);
        push_le16(out, self.resource_id);
        assert(out@ =~= old(out)@ + self.enc());
    }

    /// Reads the header from the front of the buffer, exactly as
    /// `spec_parse` says.
    pub fn parse(buf: &[u8]) -> (r: Result<Self, DecodeError>)
        ensures
            r == Self::spec_parse(buf@),
    {
        if buf.len() < NFGENMSG_LEN {
            return Err(DecodeError::PayloadTooShort);
        }
        Ok(Nfgenmsg { nfgen_family: buf[0], version: buf[1], resource_id: read_le16(buf[2], buf[3]) })
    }

    /// A header parses back from its own encoding, whatever follows it.
    pub proof fn lemma_parse_enc(self, rest: Seq<u8>)
        ensures
            Self::spec_parse(self.enc() + rest) == Ok::<Self, DecodeError>(self),
    {
        let b = self.enc() + rest;
        assert(b[0] == self.nfgen_family);
        assert(b[1] == self.version);
        assert(b[2] == le16(self.resource_id)[0]);
        assert(b[3] == le16(self.resource_id)[1]);
        crate::bytes::lemma_le16_roundtrip(self.resource_id);
    }
}

/// The raw records of a top-level attribute list, in order.
pub open spec fn cta_recs(s: Seq<SpecConntrackAttribute>) -> Seq<(u16, Seq<u8>)> {
    s.map_values(|a: SpecConntrackAttribute| a.rec())
}

/// The encoding of a top-level attribute list.
pub open spec fn cta_tree_enc(s: Seq<SpecConntrackAttribute>) -> Seq<u8> {
    recs_enc(cta_recs(s))
}

/// Decoding a list of raw top-level records; the first failure aborts the
/// whole list.
pub open spec fn cta_parse_list(rs: Seq<(u16, Seq<u8>)>) -> Result<
    Seq<SpecConntrackAttribute>,
    DecodeError,
>
    decreases rs.len(),
{
    if rs.len() == 0 {
        Ok(Seq::empty())
    } else {
        match SpecConntrackAttribute::spec_parse(rs[0].0, rs[0].1) {
            Err(e) => Err(e),
            Ok(a) => match cta_parse_list(rs.drop_first()) {
                Err(e) => Err(e),
                Ok(rest) => Ok(seq![a] + rest),
            },
        }
    }
}

/// Decoding a top-level attribute byte run: cut into records, then decode
/// each; all-or-nothing.
pub open spec fn cta_parse_tree(b: Seq<u8>) -> Result<Seq<SpecConntrackAttribute>, DecodeError> {
    match recs_parse(b) {
        None => Err(DecodeError::MalformedRecord),
        Some(rs) => cta_parse_list(rs),
    }
}

pub proof fn lemma_cta_parse_list_enc(s: Seq<SpecConntrackAttribute>)
    requires
        forall|i: int| 0 <= i < s.len() ==> (#[trigger] s[i]).wf(),
    ensures
        cta_parse_list(cta_recs(s)) == Ok::<Seq<SpecConntrackAttribute>, DecodeError>(s),
    decreases s.len(),
{
    let rs = cta_recs(s);
    if s.len() == 0 {
        assert(s =~= Seq::<SpecConntrackAttribute>::empty());
    } else {
        s[0].lemma_parse_enc();
        lemma_cta_parse_list_enc(s.drop_first());
        assert(rs.drop_first() =~= cta_recs(s.drop_first()));
        assert(seq![s[0]] + s.drop_first() =~= s);
    }
}

/// Round trip of a whole top-level attribute list.
pub proof fn lemma_cta_parse_tree_enc(s: Seq<SpecConntrackAttribute>)
    requires
        forall|i: int| 0 <= i < s.len() ==> (#[trigger] s[i]).wf(),
    ensures
        cta_parse_tree(cta_tree_enc(s)) == Ok::<Seq<SpecConntrackAttribute>, DecodeError>(s),
{
    assert forall|i: int| 0 <= i < cta_recs(s).len() implies (#[trigger] cta_recs(
        s,
    )[i]).1.len() <= MAX_VALUE_LEN by {
        assert(s[i].wf());
    }
    lemma_recs_parse_enc(cta_recs(s));
    lemma_cta_parse_list_enc(s);
}

pub open spec fn cta_models(s: Seq<ConntrackAttribute>) -> Seq<SpecConntrackAttribute> {
    s.map_values(|a: ConntrackAttribute| a.model())
}

/// The mathematical form of a netfilter message.
pub enum SpecNetfilterMessage {
    ConntrackGet { header: Nfgenmsg, nlas: Seq<SpecConntrackAttribute> },
}

impl SpecNetfilterMessage {
    pub open spec fn header(self) -> Nfgenmsg {
        match self {
            SpecNetfilterMessage::ConntrackGet { header, .. } => header,
        }
    }

    pub open spec fn nlas(self) -> Seq<SpecConntrackAttribute> {
        match self {
            SpecNetfilterMessage::ConntrackGet { nlas, .. } => nlas,
        }
    }

    /// Every attribute well-formed, and the whole payload short enough
    /// for the envelope's 32-bit length field.
    pub open spec fn wf(self) -> bool {
        &&& forall|i: int| 0 <= i < self.nlas().len() ==> (#[trigger] self.nlas()[i]).wf()
        &&& NFGENMSG_LEN + cta_tree_enc(self.nlas()).len() <= 0xFFFF_FFFF
    }

    /// The outer message-type code, a function of the variant tag alone.
    pub open spec fn message_type(self) -> u16 {
        NETFILTER_CONNTRACK_GET_MESSAGE_TYPE
    }

    /// The whole payload: header bytes, then the attribute records with no
    /// gap.
    pub open spec fn enc(self) -> Seq<u8> {
        self.header().enc() + cta_tree_enc(self.nlas())
    }

    /// Decoding a payload: header first, then the rest as an attribute
    /// list, then dispatch on the outer message-type code.
    pub open spec fn spec_deserialize(ty: u16, b: Seq<u8>) -> Result<Self, DecodeError> {
        match Nfgenmsg::spec_parse(b) {
            Err(e) => Err(e),
            Ok(h) => match cta_parse_tree(b.skip(NFGENMSG_LEN as int)) {
                Err(e) => Err(e),
                Ok(attrs) => {
                    if ty == NETFILTER_CONNTRACK_GET_MESSAGE_TYPE {
                        Ok(SpecNetfilterMessage::ConntrackGet { header: h, nlas: attrs })
                    } else {
                        Err(DecodeError::UnknownMessageType(ty))
                    }
                },
            },
        }
    }

    /// Round trip: every well-formed message decodes back from its own
    /// serialization under its own message-type code.
    pub proof fn lemma_round_trip(self)
        requires
            self.wf(),
        ensures
            Self::spec_deserialize(self.message_type(), self.enc()) == Ok::<Self, DecodeError>(
                self,
            ),
    {
        self.header().lemma_parse_enc(cta_tree_enc(self.nlas()));
        assert(self.enc().skip(NFGENMSG_LEN as int) =~= cta_tree_enc(self.nlas()));
        lemma_cta_parse_tree_enc(self.nlas());
    }

    /// Truncation safety: a strict prefix of a valid encoded message is
    /// rejected, provided the cut does not land on an attribute-record
    /// boundary or inside a record's trailing padding — there a decode
    /// still succeeds, with the attributes after the cut dropped, as the
    /// record format cannot tell such a prefix from a shorter message.
    #[verifier::rlimit(60)]
    pub proof fn lemma_truncation_rejected(self, n: int)
        requires
            self.wf(),
            0 <= n < self.enc().len(),
            n < NFGENMSG_LEN || !crate::nla::cut_parses(
                cta_recs(self.nlas()),
                n - NFGENMSG_LEN,
            ),
        ensures
            Self::spec_deserialize(self.message_type(), self.enc().take(n)) is Err,
    {
        let b = self.enc();
        let bt = b.take(n);
        if n >= NFGENMSG_LEN {
            assert(bt[0] == b[0]);
            assert(bt[1] == b[1]);
            assert(bt[2] == b[2]);
            assert(bt[3] == b[3]);
            assert(bt.skip(NFGENMSG_LEN as int) =~= cta_tree_enc(self.nlas()).take(
                n - NFGENMSG_LEN,
            ));
            assert forall|i: int| 0 <= i < cta_recs(self.nlas()).len() implies (#[trigger] cta_recs(
                self.nlas(),
            )[i]).1.len() <= MAX_VALUE_LEN by {
                assert(self.nlas()[i].wf());
            }
            crate::nla::lemma_truncated_parse(cta_recs(self.nlas()), n - NFGENMSG_LEN);
        }
    }
}

/// One netfilter message: a connection-tracking get, a header and its
/// attribute tree.
#[derive(Debug, Clone, Eq, PartialEq)]
pub enum NetfilterMessage {
    ConntrackGet { header: Nfgenmsg, nlas: Vec<ConntrackAttribute> },
}

impl NetfilterMessage {
    pub open spec fn model(&self) -> SpecNetfilterMessage {
        match self {
            NetfilterMessage::ConntrackGet { header, nlas } => SpecNetfilterMessage::ConntrackGet {
                header: *header,
                nlas: cta_models(nlas@),
            },
        }
    }

    pub open spec fn wf(&self) -> bool {
        self.model().wf()
    }

    /// The outer message-type code, a function of the variant tag alone.
    pub fn message_type(&self) -> (r: u16)
        ensures
            r == self.model().message_type(),
    {
        NETFILTER_CONNTRACK_GET_MESSAGE_TYPE
    }

    /// Exact length of the serialized payload: header width plus every
    /// attribute's padded record.
    #[verifier::loop_isolation(false)]
    pub fn buffer_len(&self) -> (r: usize)
        requires
            self.wf(),
        ensures
            r == self.model().enc().len(),
    {
        let nlas = match self {
            NetfilterMessage::ConntrackGet { nlas, .. } => nlas,
        };
        let ghost ms = cta_models(nlas@);
        let mut acc: usize = NFGENMSG_LEN;
        let mut i: usize = 0;
        proof {
            assert(cta_recs(ms.take(0)) =~= Seq::<(u16, Seq<u8>)>::empty());
        }
        while i < nlas.len()
            invariant
                0 <= i <= nlas@.len(),
                acc == NFGENMSG_LEN + recs_enc(cta_recs(ms.take(i as int))).len(),
            decreases nlas@.len() - i,
        {
            proof {
                assert(nlas@[i as int].model() == ms[i as int]);
                lemma_recs_enc_snoc(cta_recs(ms.take(i as int)), ms[i as int].rec());
                assert(cta_recs(ms.take(i + 1)) =~= cta_recs(ms.take(i as int)).push(
                    ms[i as int].rec(),
                ));
                assert(cta_recs(ms.take(i + 1)) =~= cta_recs(ms).take(i + 1));
                lemma_recs_enc_prefix_le(cta_recs(ms), i + 1);
                assert(ms.take(ms.len() as int) =~= ms);
            }
            let bl = nlas[i].buffer_len();
            acc = acc + bl;
            i = i + 1;
        }
        proof {
            assert(ms.take(ms.len() as int) =~= ms);
        }
        acc
    }

    /// Appends the serialized payload: the header, then each attribute's
    /// padded record in order, with no gap.
    #[verifier::loop_isolation(false)]
    pub fn serialize(&self, buffer: &mut Vec<u8>)
        requires
            self.wf(),
        ensures
            final(buffer)@ == old(buffer)@ + self.model().enc(),
    {
        let (header, nlas) = match self {
            NetfilterMessage::ConntrackGet { header, nlas } => (header, nlas),
        };
        let ghost ms = cta_models(nlas@);
        header.emit(buffer);
        let mut i: usize = 0;
        proof {
            assert(cta_recs(ms.take(0)) =~= Seq::<(u16, Seq<u8>)>::empty());
            assert(buffer@ =~= old(buffer)@ + header.enc() + recs_enc(cta_recs(ms.take(0))));
        }
        while i < nlas.len()
            invariant
                0 <= i <= nlas@.len(),
                buffer@ == old(buffer)@ + header.enc() + recs_enc(cta_recs(ms.take(i as int))),
            decreases nlas@.len() - i,
        {
            proof {
                assert(nlas@[i as int].model() == ms[i as int]);
            }
            nlas[i].emit(buffer);
            proof {
                lemma_recs_enc_snoc(cta_recs(ms.take(i as int)), ms[i as int].rec());
                assert(cta_recs(ms.take(i + 1)) =~= cta_recs(ms.take(i as int)).push(
                    ms[i as int].rec(),
                ));
                assert(buffer@ =~= old(buffer)@ + header.enc() + recs_enc(
                    cta_recs(ms.take(i + 1)),
                ));
            }
            i = i + 1;
        }
        proof {
            assert(ms.take(ms.len() as int) =~= ms);
            assert(buffer@ =~= old(buffer)@ + self.model().enc());
        }
    }

    /// Decodes a payload under the given outer message-type code, exactly
    /// as `spec_deserialize` says.
    #[verifier::loop_isolation(false)]
    pub fn deserialize(message_type: u16, payload: &[u8]) -> (r: Result<Self, DecodeError>)
        ensures
            match r {
                Ok(m) => SpecNetfilterMessage::spec_deserialize(message_type, payload@) == Ok::<
                    SpecNetfilterMessage,
                    DecodeError,
                >(m.model()),
                Err(e) => SpecNetfilterMessage::spec_deserialize(message_type, payload@) == Err::<
                    SpecNetfilterMessage,
                    DecodeError,
                >(e),
            },
    {
        let nfgen_header = match Nfgenmsg::parse(payload) {
            Ok(h) => h,
            Err(e) => {
                return Err(e);
            },
        };
        let nla_payload = vstd::slice::slice_subrange(payload, NFGENMSG_LEN, payload.len());
        let ghost tree_bytes = payload@.skip(NFGENMSG_LEN as int);
        proof {
            assert(nla_payload@ =~= tree_bytes);
        }
        let recs = match split_records(nla_payload) {
            Ok(rs) => rs,
            Err(e) => {
                return Err(e);
            },
        };
        let ghost rs_spec = recs_of(recs@);
        let mut nlas: Vec<ConntrackAttribute> = Vec::new();
        let mut i: usize = 0;
        proof {
            assert(rs_spec.skip(0) =~= rs_spec);
        }
        while i < recs.len()
            invariant
                0 <= i <= recs@.len(),
                cta_parse_list(rs_spec) == match cta_parse_list(rs_spec.skip(i as int)) {
                    Ok(rest) => Ok::<Seq<SpecConntrackAttribute>, DecodeError>(
                        cta_models(nlas@) + rest,
                    ),
                    Err(e) => Err::<Seq<SpecConntrackAttribute>, DecodeError>(e),
                },
            decreases recs@.len() - i,
        {
            let rec = &recs[i];
            proof {
                assert(rs_spec[i as int] == recs@[i as int].rec());
                assert(rs_spec.skip(i as int)[0] == rs_spec[i as int]);
            }
            let parsed = match ConntrackAttribute::parse(rec.kind, rec.value.as_slice()) {
                Ok(a) => a,
                Err(e) => {
                    return Err(e);
                },
            };
            let ghost old_nlas = nlas@;
            nlas.push(parsed);
            proof {
                assert(rs_spec.skip(i as int).drop_first() =~= rs_spec.skip(i + 1));
                assert(cta_models(nlas@) =~= cta_models(old_nlas) + seq![parsed.model()]);
                if let Ok(rest) = cta_parse_list(rs_spec.skip(i + 1)) {
                    assert(cta_models(old_nlas) + (seq![parsed.model()] + rest) =~= cta_models(
                        nlas@,
                    ) + rest);
                }
            }
            i = i + 1;
        }
        proof {
            assert(rs_spec.skip(rs_spec.len() as int) =~= Seq::<(u16, Seq<u8>)>::empty());
            assert(cta_models(nlas@) + Seq::<SpecConntrackAttribute>::empty() =~= cta_models(
                nlas@,
            ));
        }
        if message_type == NETFILTER_CONNTRACK_GET_MESSAGE_TYPE {
            Ok(NetfilterMessage::ConntrackGet { header: nfgen_header, nlas })
        } else {
            Err(DecodeError::UnknownMessageType(message_type))
        }
    }
}

} // verus!
