//! The wire format against a stock JSON implementation: what this library
//! emits must be ordinary JSON, and ordinary JSON of the agreed shape must
//! decode here.

use hello_bridge::codec::{decode, encode};
use hello_bridge::world::World;

#[test]
fn encoding_is_ordinary_json() {
    let bytes = encode(&World { size: 3 });
    let value: serde_json::Value = serde_json::from_slice(&bytes).unwrap();
    assert_eq!(value.get("size").and_then(serde_json::Value::as_u64), Some(3));
    assert_eq!(value.as_object().map(|m| m.len()), Some(1));
}

#[test]
fn stock_json_output_decodes_here() {
    let mut record = serde_json::Map::new();
    record.insert("size".to_string(), serde_json::Value::from(41u64));
    let text = serde_json::Value::Object(record).to_string();
    assert_eq!(decode(text.into_bytes()), Ok(World { size: 41 }));
}

#[test]
fn pretty_printed_json_decodes_here() {
    let mut record = serde_json::Map::new();
    record.insert("size".to_string(), serde_json::Value::from(8u64));
    let text = serde_json::to_string_pretty(&serde_json::Value::Object(record)).unwrap();
    assert_eq!(decode(text.into_bytes()), Ok(World { size: 8 }));
}
