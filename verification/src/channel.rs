//! The error channel. Every failure kind collapses to one human-readable
//! textual message, delivered through the same buffer mechanism as a
//! successful payload; the host never sees a structured error.

use vstd::prelude::*;

verus! {

/// Internal failure kinds. They exist for diagnostics on the native side
/// only; at the boundary all of them become text plus a `-1` status.
#[derive(Debug, PartialEq, Eq, Structural, Clone, Copy)]
pub enum BridgeError {
    /// The inbound bytes are not valid text.
    Decode,
    /// The text does not parse into the expected record shape.
    Schema,
    /// The result cannot be carried by a terminated buffer.
    Encode,
    /// The native computation itself failed.
    Logic,
}

/// The message text of each failure kind.
pub open spec fn message_of(e: BridgeError) -> Seq<u8> {
    match e {
        // "input is not valid utf-8"
        BridgeError::Decode => seq![0x69u8, 0x6eu8, 0x70u8, 0x75u8, 0x74u8, 0x20u8, 0x69u8, 0x73u8, 0x20u8, 0x6eu8, 0x6fu8, 0x74u8, 0x20u8, 0x76u8, 0x61u8, 0x6cu8, 0x69u8, 0x64u8, 0x20u8, 0x75u8, 0x74u8, 0x66u8, 0x2du8, 0x38u8],
        // "input is not a size record"
        BridgeError::Schema => seq![0x69u8, 0x6eu8, 0x70u8, 0x75u8, 0x74u8, 0x20u8, 0x69u8, 0x73u8, 0x20u8, 0x6eu8, 0x6fu8, 0x74u8, 0x20u8, 0x61u8, 0x20u8, 0x73u8, 0x69u8, 0x7au8, 0x65u8, 0x20u8, 0x72u8, 0x65u8, 0x63u8, 0x6fu8, 0x72u8, 0x64u8],
        // "result cannot be encoded"
        BridgeError::Encode => seq![0x72u8, 0x65u8, 0x73u8, 0x75u8, 0x6cu8, 0x74u8, 0x20u8, 0x63u8, 0x61u8, 0x6eu8, 0x6eu8, 0x6fu8, 0x74u8, 0x20u8, 0x62u8, 0x65u8, 0x20u8, 0x65u8, 0x6eu8, 0x63u8, 0x6fu8, 0x64u8, 0x65u8, 0x64u8],
        // "native logic failed"
        BridgeError::Logic => seq![0x6eu8, 0x61u8, 0x74u8, 0x69u8, 0x76u8, 0x65u8, 0x20u8, 0x6cu8, 0x6fu8, 0x67u8, 0x69u8, 0x63u8, 0x20u8, 0x66u8, 0x61u8, 0x69u8, 0x6cu8, 0x65u8, 0x64u8],
    }
}

/// Every message is non-empty printable ASCII, so it is human-readable
/// text, valid UTF-8, and free of the terminator byte.
pub proof fn lemma_message_wf(e: BridgeError)
    ensures
        message_of(e).len() > 0,
        forall|k: int|
            0 <= k < message_of(e).len() ==> 0x20 <= #[trigger] message_of(e)[k]
                && message_of(e)[k] < 0x7f,
{
}

impl BridgeError {
    /// Render this failure into a fresh outbound buffer holding its
    /// message, under the same allocation discipline as a payload.
    pub fn message(&self) -> (r: Vec<u8>)
        ensures
            r@ == message_of(*self),
    {
        let mut r: Vec<u8> = Vec::new();
        match self {
            // "input is not valid utf-8"
            BridgeError::Decode => {
                r.push(0x69);
                r.push(0x6e);
                r.push(0x70);
                r.push(0x75);
                r.push(0x74);
                r.push(0x20);
                r.push(0x69);
                r.push(0x73);
                r.push(0x20);
                r.push(0x6e);
                r.push(0x6f);
                r.push(0x74);
                r.push(0x20);
                r.push(0x76);
                r.push(0x61);
                r.push(0x6c);
                r.push(0x69);
                r.push(0x64);
                r.push(0x20);
                r.push(0x75);
                r.push(0x74);
                r.push(0x66);
                r.push(0x2d);
                r.push(0x38);
            },
            // "input is not a size record"
            BridgeError::Schema => {
                r.push(0x69);
                r.push(0x6e);
                r.push(0x70);
                r.push(0x75);
                r.push(0x74);
                r.push(0x20);
                r.push(0x69);
                r.push(0x73);
                r.push(0x20);
                r.push(0x6e);
                r.push(0x6f);
                r.push(0x74);
                r.push(0x20);
                r.push(0x61);
                r.push(0x20);
                r.push(0x73);
                r.push(0x69);
                r.push(0x7a);
                r.push(0x65);
                r.push(0x20);
                r.push(0x72);
                r.push(0x65);
                r.push(0x63);
                r.push(0x6f);
                r.push(0x72);
                r.push(0x64);
            },
            // "result cannot be encoded"
            BridgeError::Encode => {
                r.push(0x72);
                r.push(0x65);
                r.push(0x73);
                r.push(0x75);
                r.push(0x6c);
                r.push(0x74);
                r.push(0x20);
                r.push(0x63);
                r.push(0x61);
                r.push(0x6e);
                r.push(0x6e);
                r.push(0x6f);
                r.push(0x74);
                r.push(0x20);
                r.push(0x62);
                r.push(0x65);
                r.push(0x20);
                r.push(0x65);
                r.push(0x6e);
                r.push(0x63);
                r.push(0x6f);
                r.push(0x64);
                r.push(0x65);
                r.push(0x64);
            },
            // "native logic failed"
            BridgeError::Logic => {
                r.push(0x6e);
                r.push(0x61);
                r.push(0x74);
                r.push(0x69);
                r.push(0x76);
                r.push(0x65);
                r.push(0x20);
                r.push(0x6c);
                r.push(0x6f);
                r.push(0x67);
                r.push(0x69);
                r.push(0x63);
                r.push(0x20);
                r.push(0x66);
                r.push(0x61);
                r.push(0x69);
                r.push(0x6c);
                r.push(0x65);
                r.push(0x64);
            },
        }
        proof {
            assert(r@ =~= message_of(*self));
        }
        r
    }
}

} // verus!
