use hello_bridge::channel::BridgeError;
use hello_bridge::codec::{decode, encode, parse};
use hello_bridge::world::World;

#[test]
fn encode_exact() {
    assert_eq!(encode(&World { size: 0 }), b"{\"size\":0}".to_vec());
    assert_eq!(encode(&World { size: 7 }), b"{\"size\":7}".to_vec());
    assert_eq!(encode(&World { size: 42 }), b"{\"size\":42}".to_vec());
    assert_eq!(encode(&World { size: 1005 }), b"{\"size\":1005}".to_vec());
}

#[test]
fn round_trip_values() {
    for size in [0usize, 1, 9, 10, 99, 100, 12345, usize::MAX - 1, usize::MAX] {
        let v = World { size };
        assert_eq!(decode(encode(&v)), Ok(v));
    }
}

#[test]
fn decode_accepts_whitespace() {
    let text = b" \t{\r\n \"size\" \t: 7 \n}  ".to_vec();
    assert_eq!(decode(text), Ok(World { size: 7 }));
}

#[test]
fn decode_consumes_the_buffer() {
    // `decode` takes the buffer by value, so after this call the vector is
    // gone for good: no reuse and no second free are possible.
    let inbound = b"{\"size\":1}".to_vec();
    assert_eq!(decode(inbound), Ok(World { size: 1 }));
}

#[test]
fn decode_rejects_invalid_text() {
    assert_eq!(decode(vec![0xff, 0xfe]), Err(BridgeError::Decode));
    assert_eq!(decode(vec![0xc3, 0x28]), Err(BridgeError::Decode));
    // A lone continuation byte after a well-formed prefix.
    assert_eq!(decode(b"{\"size\":1\x80}".to_vec()), Err(BridgeError::Decode));
}

#[test]
fn decode_rejects_wrong_shape() {
    assert_eq!(decode(b"not json".to_vec()), Err(BridgeError::Schema));
    assert_eq!(decode(b"".to_vec()), Err(BridgeError::Schema));
    assert_eq!(decode(b"{}".to_vec()), Err(BridgeError::Schema));
    assert_eq!(decode(b"{\"size\":}".to_vec()), Err(BridgeError::Schema));
    assert_eq!(decode(b"{\"size\":-1}".to_vec()), Err(BridgeError::Schema));
    assert_eq!(decode(b"{\"size\":007}".to_vec()), Err(BridgeError::Schema));
    assert_eq!(decode(b"{\"size\":2.5}".to_vec()), Err(BridgeError::Schema));
    assert_eq!(decode(b"{\"size\":2}{".to_vec()), Err(BridgeError::Schema));
    assert_eq!(decode(b"{\"size\":2".to_vec()), Err(BridgeError::Schema));
    assert_eq!(decode(b"[2]".to_vec()), Err(BridgeError::Schema));
    // More digits than any usize can hold.
    assert_eq!(
        decode(b"{\"size\":99999999999999999999999999}".to_vec()),
        Err(BridgeError::Schema)
    );
}

#[test]
fn parse_matches_decode_on_success() {
    let text = b"{\"size\":11}".to_vec();
    assert_eq!(parse(&text), Some(World { size: 11 }));
    assert_eq!(decode(text), Ok(World { size: 11 }));
}

#[test]
fn messages_are_readable_text() {
    for e in [
        BridgeError::Decode,
        BridgeError::Schema,
        BridgeError::Encode,
        BridgeError::Logic,
    ] {
        let m = e.message();
        assert!(!m.is_empty());
        assert!(m.iter().all(|&b| (0x20..0x7f).contains(&b)));
    }
}

#[test]
fn message_texts_exact() {
    assert_eq!(BridgeError::Decode.message(), b"input is not valid utf-8".to_vec());
    assert_eq!(BridgeError::Schema.message(), b"input is not a size record".to_vec());
    assert_eq!(BridgeError::Encode.message(), b"result cannot be encoded".to_vec());
    assert_eq!(BridgeError::Logic.message(), b"native logic failed".to_vec());
}
