use hello_bridge::bridge::invoke;
use hello_bridge::world::HelloStruct;

#[test]
fn well_formed_end_to_end() {
    let handle = HelloStruct::new();
    let (status, out) = invoke(&handle, b"{\"size\":2}".to_vec());
    assert_eq!(status, 0);
    assert_eq!(out, b"{\"size\":3}".to_vec());
}

#[test]
fn malformed_input() {
    let handle = HelloStruct::new();
    let (status, out) = invoke(&handle, b"not json".to_vec());
    assert_eq!(status, -1);
    assert!(!out.is_empty());
    assert!(out.iter().all(|&b| (0x20..0x7f).contains(&b)));
}

#[test]
fn invalid_text_input() {
    let handle = HelloStruct::new();
    let (status, out) = invoke(&handle, vec![0xff, 0x00, 0xfe]);
    assert_eq!(status, -1);
    assert!(!out.is_empty());
}

#[test]
fn status_matches_slot_kind() {
    let handle = HelloStruct::new();
    let (ok_status, payload) = invoke(&handle, b"{\"size\":9}".to_vec());
    assert_eq!(ok_status, 0);
    // A success buffer is itself a well-formed payload encoding.
    assert_eq!(
        hello_bridge::codec::decode(payload),
        Ok(hello_bridge::world::World { size: 10 })
    );
    let (err_status, message) = invoke(&handle, b"{\"size\":true}".to_vec());
    assert_eq!(err_status, -1);
    assert!(!message.is_empty());
}

#[test]
fn native_logic_failure_uses_the_error_channel() {
    let handle = HelloStruct::new();
    let text = format!("{{\"size\":{}}}", usize::MAX).into_bytes();
    let (status, out) = invoke(&handle, text);
    assert_eq!(status, -1);
    assert!(!out.is_empty());
}

#[test]
fn independent_handles() {
    let first = HelloStruct::new();
    let second = HelloStruct::new();
    let before = invoke(&first, b"{\"size\":5}".to_vec());
    // Working the second handle does not disturb the first.
    for _ in 0..3 {
        let (status, _) = invoke(&second, b"{\"size\":100}".to_vec());
        assert_eq!(status, 0);
    }
    let after = invoke(&first, b"{\"size\":5}".to_vec());
    assert_eq!(before, after);
    assert_eq!(after, (0, b"{\"size\":6}".to_vec()));
}

#[test]
fn repeated_decode_failure_is_stable() {
    let text: &[u8] = b"{\"size\":oops}";
    let mut answers = Vec::new();
    for _ in 0..3 {
        let handle = HelloStruct::new();
        answers.push(invoke(&handle, text.to_vec()));
    }
    assert_eq!(answers[0].0, -1);
    assert_eq!(answers[0], answers[1]);
    assert_eq!(answers[1], answers[2]);
}
