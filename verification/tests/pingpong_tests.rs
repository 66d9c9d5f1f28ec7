use nl_tlv::pingpong::{
    DeserializeError, PingPongAttribute, PingPongMessage, PING_MESSAGE, PONG_MESSAGE,
};

#[test]
fn ping_cookie_round_trip() {
    let ping = PingPongMessage::Ping(PingPongAttribute::Cookie(129));
    let mut payload = Vec::new();
    ping.serialize(&mut payload);
    // One record: length 8, kind 2, the cookie little-endian, no padding.
    assert_eq!(payload, vec![8, 0, 2, 0, 129, 0, 0, 0]);
    assert_eq!(ping.buffer_len(), payload.len());
    assert_eq!(ping.message_type(), PING_MESSAGE);

    let back = PingPongMessage::deserialize(PING_MESSAGE, &payload).unwrap();
    assert_eq!(back, ping);
}

#[test]
fn pong_text_round_trip() {
    let pong = PingPongMessage::Pong(PingPongAttribute::Message(String::from("hello")));
    let mut payload = Vec::new();
    pong.serialize(&mut payload);
    // Length 10 = 4 header + 5 text + 1 terminator, padded to 12.
    assert_eq!(
        payload,
        vec![10, 0, 1, 0, b'h', b'e', b'l', b'l', b'o', 0, 0, 0]
    );
    assert_eq!(pong.buffer_len(), 12);
    assert_eq!(pong.message_type(), PONG_MESSAGE);

    let back = PingPongMessage::deserialize(PONG_MESSAGE, &payload).unwrap();
    assert_eq!(back, pong);
}

#[test]
fn text_without_terminator_is_accepted() {
    // A peer that omits the trailing null: the whole value is the text.
    let payload = vec![7, 0, 1, 0, b'a', b'b', b'c', 0];
    let m = PingPongMessage::deserialize(PING_MESSAGE, &payload).unwrap();
    assert_eq!(
        m,
        PingPongMessage::Ping(PingPongAttribute::Message(String::from("abc")))
    );
}

#[test]
fn text_is_cut_at_the_first_null() {
    let payload = vec![9, 0, 1, 0, b'a', 0, b'z', 0, 0, 0, 0, 0];
    let m = PingPongMessage::deserialize(PING_MESSAGE, &payload).unwrap();
    assert_eq!(
        m,
        PingPongMessage::Ping(PingPongAttribute::Message(String::from("a")))
    );
}

#[test]
fn invalid_utf8_is_rejected() {
    let payload = vec![6, 0, 1, 0, 0xff, 0xfe, 0, 0];
    let r = PingPongMessage::deserialize(PING_MESSAGE, &payload);
    assert_eq!(r, Err(DeserializeError("Failed to parse attributes")));
}

#[test]
fn wrong_cookie_width_is_rejected() {
    // A cookie record whose value is 3 bytes wide.
    let payload = vec![7, 0, 2, 0, 1, 2, 3, 0];
    let r = PingPongMessage::deserialize(PING_MESSAGE, &payload);
    assert_eq!(r, Err(DeserializeError("Failed to parse attributes")));
}

#[test]
fn unknown_attribute_kind_is_rejected() {
    let payload = vec![8, 0, 5, 0, 1, 2, 3, 4];
    let r = PingPongMessage::deserialize(PING_MESSAGE, &payload);
    assert_eq!(r, Err(DeserializeError("Failed to parse attributes")));
}

#[test]
fn unknown_message_type_is_rejected() {
    let payload = vec![8, 0, 2, 0, 129, 0, 0, 0];
    let r = PingPongMessage::deserialize(19, &payload);
    assert_eq!(
        r,
        Err(DeserializeError(
            "invalid ping-pong message: invalid message type"
        ))
    );
}

#[test]
fn malformed_record_is_rejected() {
    // Declared length runs past the end of the buffer.
    let payload = vec![12, 0, 2, 0, 1, 2, 3, 4];
    let r = PingPongMessage::deserialize(PING_MESSAGE, &payload);
    assert_eq!(r, Err(DeserializeError("Invalid NLA format in payload")));
    // Fewer than 4 bytes cannot hold a record header at all.
    let r2 = PingPongMessage::deserialize(PING_MESSAGE, &[8, 0]);
    assert_eq!(r2, Err(DeserializeError("Invalid NLA format in payload")));
}

#[test]
fn trailing_bytes_after_the_record_are_ignored() {
    let payload = vec![8, 0, 2, 0, 129, 0, 0, 0, 0xde, 0xad];
    let m = PingPongMessage::deserialize(PONG_MESSAGE, &payload).unwrap();
    assert_eq!(m, PingPongMessage::Pong(PingPongAttribute::Cookie(129)));
}
