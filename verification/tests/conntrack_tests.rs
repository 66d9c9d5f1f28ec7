use nl_tlv::conntrack::{
    ConntrackAttribute, IPTuple, IpAddr, NetfilterMessage, Nfgenmsg, ProtoTuple, Tuple,
    NETFILTER_CONNTRACK_GET_MESSAGE_TYPE,
};
use nl_tlv::DecodeError;

fn le16(x: u16) -> [u8; 2] {
    [(x % 256) as u8, (x / 256) as u8]
}

fn le32(x: u32) -> [u8; 4] {
    [
        (x % 256) as u8,
        ((x / 256) % 256) as u8,
        ((x / 65536) % 256) as u8,
        (x / 16777216) as u8,
    ]
}

/// Wraps a payload in the fixed 16-byte generic envelope, as the transport
/// layer would.
fn envelope(message_type: u16, flags: u16, sequence_number: u32, payload: &[u8]) -> Vec<u8> {
    let mut out = Vec::new();
    out.extend_from_slice(&le32((16 + payload.len()) as u32));
    out.extend_from_slice(&le16(message_type));
    out.extend_from_slice(&le16(flags));
    out.extend_from_slice(&le32(sequence_number));
    out.extend_from_slice(&le32(0));
    out.extend_from_slice(payload);
    out
}

#[test]
fn test_dump_conntrack() {
    // Reference packet captured off the wire: envelope with flags
    // NLM_F_REQUEST | NLM_F_DUMP (0x0301), then a zeroed header and no
    // attributes.
    let raw: Vec<u8> = vec![
        0x14, 0x00, 0x00, 0x00, 0x01, 0x01, 0x01, 0x03, 0xb9, 0x80, 0xc2, 0x68, 0x00, 0x00, 0x00,
        0x00, 0x00, 0x00, 0x00, 0x00,
    ];

    let conntrack_get_message = NetfilterMessage::ConntrackGet {
        header: (Nfgenmsg {
            nfgen_family: 0,
            version: 0,
            resource_id: 0,
        }),
        nlas: vec![],
    };

    let mut payload = Vec::new();
    conntrack_get_message.serialize(&mut payload);
    assert_eq!(payload, vec![0u8, 0, 0, 0]);
    assert_eq!(conntrack_get_message.buffer_len(), payload.len());
    assert_eq!(conntrack_get_message.message_type(), 0x0101);

    let packet = envelope(
        conntrack_get_message.message_type(),
        0x0001 | 0x0300,
        1757577401,
        &payload,
    );
    println!("Original Packet: {:#?}", conntrack_get_message);
    println!("\nSerialized Bytes: {:?}", packet);
    assert_eq!(packet, raw);

    // The payload of the raw packet decodes back to the same message.
    let deserialized_raw =
        NetfilterMessage::deserialize(NETFILTER_CONNTRACK_GET_MESSAGE_TYPE, &raw[16..]).unwrap();
    assert_eq!(conntrack_get_message, deserialized_raw);
}

#[test]
fn test_get_conntrack() {
    // The original-tuple attribute of a reference packet captured off the
    // wire: a nested tuple group holding an address pair and a protocol
    // triple.
    let raw_tree: Vec<u8> = vec![
        0x34, 0x00, 0x01, 0x80, 0x14, 0x00, 0x01, 0x80, 0x08, 0x00, 0x01, 0x00, 0x0a, 0x39, 0x61,
        0x7c, 0x08, 0x00, 0x02, 0x00, 0x94, 0x71, 0x14, 0x69, 0x1c, 0x00, 0x02, 0x80, 0x05, 0x00,
        0x01, 0x00, 0x06, 0x00, 0x00, 0x00, 0x06, 0x00, 0x02, 0x00, 0x9a, 0xb0, 0x00, 0x00, 0x06,
        0x00, 0x03, 0x00, 0x01, 0xbb, 0x00, 0x00,
    ];

    // 10.57.97.124 and 148.113.20.105.
    let src_addr = IPTuple::SourceAddress(IpAddr::V4(vec![10, 57, 97, 124]));
    let dst_addr = IPTuple::DestinationAddress(IpAddr::V4(vec![148, 113, 20, 105]));

    let proto_num = ProtoTuple::Protocol(6);
    let src_port = ProtoTuple::SourcePort(45210);
    let dst_port = ProtoTuple::DestinationPort(47873);

    let ip_tuple = Tuple::Ip(vec![src_addr, dst_addr]);
    let proto_tuple = Tuple::Proto(vec![proto_num, src_port, dst_port]);

    let nlas = vec![ConntrackAttribute::CtaTupleOrig(vec![
        ip_tuple,
        proto_tuple,
    ])];

    let conntrack_get_message = NetfilterMessage::ConntrackGet {
        header: (Nfgenmsg {
            nfgen_family: 2,
            version: 0,
            resource_id: 0,
        }),
        nlas,
    };

    let mut payload = Vec::new();
    conntrack_get_message.serialize(&mut payload);
    println!("Original Packet: {:#?}", conntrack_get_message);
    println!("\nSerialized Bytes: {:?}", payload);

    // Header bytes, then the captured attribute tree, bit for bit.
    assert_eq!(&payload[..4], &[2u8, 0, 0, 0]);
    assert_eq!(&payload[4..], raw_tree.as_slice());
    assert_eq!(conntrack_get_message.buffer_len(), payload.len());

    // Round trip through deserialize.
    let deserialized =
        NetfilterMessage::deserialize(conntrack_get_message.message_type(), &payload).unwrap();
    assert_eq!(conntrack_get_message, deserialized);
}

#[test]
fn conntrack_record_offsets_are_aligned() {
    let nlas = vec![ConntrackAttribute::CtaTupleOrig(vec![
        Tuple::Proto(vec![
            ProtoTuple::Protocol(6),
            ProtoTuple::SourcePort(1),
            ProtoTuple::DestinationPort(2),
        ]),
    ])];
    let message = NetfilterMessage::ConntrackGet {
        header: Nfgenmsg { nfgen_family: 0, version: 0, resource_id: 0 },
        nlas,
    };
    let mut payload = Vec::new();
    message.serialize(&mut payload);
    // Walk the top-level records of the attribute region: every record
    // starts at a multiple of 4 and its length field is the unpadded
    // length.
    let tree = &payload[4..];
    let mut pos = 0usize;
    while pos < tree.len() {
        assert_eq!(pos % 4, 0);
        let len = (tree[pos] as usize) + 256 * (tree[pos + 1] as usize);
        assert!(len >= 4);
        pos += len.div_ceil(4) * 4;
    }
}

#[test]
fn conntrack_unknown_kind_is_rejected() {
    // A single record with kind 9, which no conntrack table holds.
    let mut payload = vec![2u8, 0, 0, 0];
    payload.extend_from_slice(&[8, 0, 9, 0, 1, 2, 3, 4]);
    let r = NetfilterMessage::deserialize(NETFILTER_CONNTRACK_GET_MESSAGE_TYPE, &payload);
    assert_eq!(r, Err(DecodeError::UnknownKind(9)));
}

#[test]
fn conntrack_unknown_message_type_is_rejected() {
    let payload = vec![0u8, 0, 0, 0];
    let r = NetfilterMessage::deserialize(0x0102, &payload);
    assert_eq!(r, Err(DecodeError::UnknownMessageType(0x0102)));
}

#[test]
fn conntrack_short_payload_is_rejected() {
    let r = NetfilterMessage::deserialize(NETFILTER_CONNTRACK_GET_MESSAGE_TYPE, &[0, 0]);
    assert_eq!(r, Err(DecodeError::PayloadTooShort));
}

#[test]
fn conntrack_truncated_record_is_rejected() {
    // A full valid message, cut in the middle of a value.
    let nlas = vec![ConntrackAttribute::CtaTupleOrig(vec![Tuple::Ip(vec![
        IPTuple::SourceAddress(IpAddr::V4(vec![10, 0, 0, 1])),
    ])])];
    let message = NetfilterMessage::ConntrackGet {
        header: Nfgenmsg { nfgen_family: 2, version: 0, resource_id: 0 },
        nlas,
    };
    let mut payload = Vec::new();
    message.serialize(&mut payload);
    let cut = &payload[..payload.len() - 2];
    let r = NetfilterMessage::deserialize(NETFILTER_CONNTRACK_GET_MESSAGE_TYPE, cut);
    assert_eq!(r, Err(DecodeError::MalformedRecord));
}

#[test]
fn address_width_picks_the_version() {
    // A 16-byte value under the source-address kind decodes as a
    // version-6 address even under the version-4 kind code.
    let v6 = vec![0u8, 1, 2, 3, 4, 5, 6, 7, 8, 9, 10, 11, 12, 13, 14, 15];
    let parsed = IPTuple::parse(1, &v6).unwrap();
    assert_eq!(parsed, IPTuple::SourceAddress(IpAddr::V6(v6)));
    // A 5-byte value is neither width.
    let r = IPTuple::parse(1, &[1, 2, 3, 4, 5]);
    assert_eq!(r, Err(DecodeError::PayloadTooShort));
}

#[test]
fn emit_ip_writes_the_octets() {
    let mut out = Vec::new();
    nl_tlv::conntrack::emit_ip(&IpAddr::V4(vec![10, 57, 97, 124]), &mut out);
    assert_eq!(out, vec![10, 57, 97, 124]);
}

#[test]
fn proto_tuple_leaf_encoding() {
    let mut out = Vec::new();
    ProtoTuple::SourcePort(45210).emit(&mut out);
    // Length 6, kind 2, port 0xb09a little-endian, two padding bytes.
    assert_eq!(out, vec![0x06, 0x00, 0x02, 0x00, 0x9a, 0xb0, 0x00, 0x00]);
    assert_eq!(ProtoTuple::SourcePort(45210).buffer_len(), 8);
    assert_eq!(ProtoTuple::Protocol(6).value_len(), 1);
}
