use nl_tlv::tea_coffee::{
    BeverageAttribute, BeverageMessage, BvgGenFamily, BvgGenMsg, BvgParseError,
    COFFEE_MESSAGE_TYPE, TEA_MESSAGE_TYPE,
};
use nl_tlv::DecodeError;

#[test]
fn tea_round_trip() {
    let tea_request = BeverageMessage::Tea {
        header: BvgGenMsg {
            family: BvgGenFamily::Hot,
            version: 1,
            resource_id: 101,
        },
        nlas: vec![
            BeverageAttribute::Hotness(95),
            BeverageAttribute::PersonName("Alice".to_string()),
            BeverageAttribute::CaffeineContent(21932130),
        ],
    };

    let mut payload = Vec::new();
    tea_request.serialize(&mut payload);
    assert_eq!(tea_request.buffer_len(), payload.len());
    assert_eq!(tea_request.message_type(), TEA_MESSAGE_TYPE);

    let back = BeverageMessage::deserialize(TEA_MESSAGE_TYPE, &payload).unwrap();
    assert_eq!(back, tea_request);
}

#[test]
fn coffee_round_trip() {
    let coffee = BeverageMessage::Coffee {
        header: BvgGenMsg {
            family: BvgGenFamily::Cold,
            version: 0,
            resource_id: 7,
        },
        nlas: vec![BeverageAttribute::CaffeineContent(250)],
    };
    let mut payload = Vec::new();
    coffee.serialize(&mut payload);
    assert_eq!(coffee.message_type(), COFFEE_MESSAGE_TYPE);
    let back = BeverageMessage::deserialize(COFFEE_MESSAGE_TYPE, &payload).unwrap();
    assert_eq!(back, coffee);
}

#[test]
fn name_record_occupies_ten_bytes_padded_to_twelve() {
    // "Alice": 5 text bytes plus 1 terminator, plus the 4-byte record
    // header, gives a declared length of 10, padded to 12 on the wire.
    let attr = BeverageAttribute::PersonName("Alice".to_string());
    assert_eq!(attr.value_len(), 6);
    assert_eq!(attr.buffer_len(), 12);
    let mut out = Vec::new();
    attr.emit(&mut out);
    assert_eq!(
        out,
        vec![10, 0, 3, 0, b'A', b'l', b'i', b'c', b'e', 0, 0, 0]
    );
}

#[test]
fn header_encoding_is_fixed_width() {
    let h = BvgGenMsg { family: BvgGenFamily::Hot, version: 1, resource_id: 101 };
    assert_eq!(h.buffer_len(), 4);
    let mut out = Vec::new();
    h.emit(&mut out);
    assert_eq!(out, vec![2, 1, 101, 0]);
    let back = BvgGenMsg::parse(&out).unwrap();
    assert_eq!(back, h);
}

#[test]
fn family_try_from_covers_the_closed_set() {
    assert_eq!(BvgGenFamily::try_from(2), Ok(BvgGenFamily::Hot));
    assert_eq!(BvgGenFamily::try_from(10), Ok(BvgGenFamily::Cold));
    assert_eq!(
        BvgGenFamily::try_from(7),
        Err(BvgParseError { invalid_value: 7 })
    );
}

#[test]
fn invalid_family_byte_is_rejected() {
    // Family byte 7 maps to no member of the closed enumeration.
    let payload = vec![7u8, 1, 101, 0];
    let r = BeverageMessage::deserialize(TEA_MESSAGE_TYPE, &payload);
    assert_eq!(r, Err(DecodeError::InvalidEnumValue(7)));
}

#[test]
fn beverage_unknown_kind_is_rejected() {
    let mut payload = vec![2u8, 1, 101, 0];
    payload.extend_from_slice(&[8, 0, 99, 0, 1, 2, 3, 4]);
    let r = BeverageMessage::deserialize(TEA_MESSAGE_TYPE, &payload);
    assert_eq!(r, Err(DecodeError::UnknownKind(99)));
}

#[test]
fn beverage_unknown_message_type_is_rejected() {
    let payload = vec![2u8, 1, 101, 0];
    let r = BeverageMessage::deserialize(0x15, &payload);
    assert_eq!(r, Err(DecodeError::UnknownMessageType(0x15)));
}

#[test]
fn beverage_short_payload_is_rejected() {
    let r = BeverageMessage::deserialize(TEA_MESSAGE_TYPE, &[2, 1]);
    assert_eq!(r, Err(DecodeError::PayloadTooShort));
}

#[test]
fn beverage_scalar_width_is_checked() {
    // A caffeine-content record whose value is 2 bytes wide.
    let mut payload = vec![2u8, 1, 101, 0];
    payload.extend_from_slice(&[6, 0, 1, 0, 1, 2, 0, 0]);
    let r = BeverageMessage::deserialize(TEA_MESSAGE_TYPE, &payload);
    assert_eq!(r, Err(DecodeError::PayloadTooShort));
}

#[test]
fn beverage_invalid_utf8_name_is_rejected() {
    let mut payload = vec![2u8, 1, 101, 0];
    payload.extend_from_slice(&[6, 0, 3, 0, 0xff, 0xfe, 0, 0]);
    let r = BeverageMessage::deserialize(TEA_MESSAGE_TYPE, &payload);
    assert_eq!(r, Err(DecodeError::InvalidStringEncoding));
}

#[test]
fn beverage_truncated_record_is_rejected() {
    let tea = BeverageMessage::Tea {
        header: BvgGenMsg { family: BvgGenFamily::Hot, version: 1, resource_id: 101 },
        nlas: vec![BeverageAttribute::Hotness(95)],
    };
    let mut payload = Vec::new();
    tea.serialize(&mut payload);
    // Cut inside the scalar value: the record cannot be taken.
    let cut = &payload[..payload.len() - 2];
    let r = BeverageMessage::deserialize(TEA_MESSAGE_TYPE, cut);
    assert_eq!(r, Err(DecodeError::MalformedRecord));
}

#[test]
fn beverage_attribute_order_is_preserved() {
    // Two attributes of the same kind stay in order, never merged.
    let tea = BeverageMessage::Tea {
        header: BvgGenMsg { family: BvgGenFamily::Hot, version: 0, resource_id: 0 },
        nlas: vec![
            BeverageAttribute::Hotness(1),
            BeverageAttribute::Hotness(2),
        ],
    };
    let mut payload = Vec::new();
    tea.serialize(&mut payload);
    let back = BeverageMessage::deserialize(TEA_MESSAGE_TYPE, &payload).unwrap();
    assert_eq!(back, tea);
}
