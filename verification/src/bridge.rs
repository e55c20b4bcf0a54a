//! The boundary call adapter. One call runs the whole pipeline — decode,
//! invoke the native logic, encode the result or the failure message — and
//! produces exactly one outbound buffer together with a status code that
//! says which kind of buffer it is.

use vstd::prelude::*;
use crate::world::{World, HelloStruct};
use crate::codec::{parse_world, encoding_of, contains_nul, encode, decode};
use crate::codec::{lemma_round_trip, lemma_encoding_no_nul};
use crate::channel::{BridgeError, message_of, lemma_message_wf};
use crate::utf8::is_utf8;

verus! {

/// What one call answers for a given input text: the status code and the
/// bytes handed back through the out-slot. The answer depends on the input
/// text alone — no handle and no earlier call can change it.
pub open spec fn response_of(input: Seq<u8>) -> (i8, Seq<u8>) {
    match parse_world(input) {
        Some(w) => {
            if w.size == usize::MAX {
                (-1i8, message_of(BridgeError::Logic))
            } else {
                let enc = encoding_of(World { size: (w.size + 1) as usize });
                if contains_nul(enc) {
                    (-1i8, message_of(BridgeError::Encode))
                } else {
                    (0i8, enc)
                }
            }
        },
        None => {
            if is_utf8(input) {
                (-1i8, message_of(BridgeError::Schema))
            } else {
                (-1i8, message_of(BridgeError::Decode))
            }
        },
    }
}

fn has_nul(buf: &Vec<u8>) -> (r: bool)
    ensures
        r == contains_nul(buf@),
{
    let n = buf.len();
    let mut i: usize = 0;
    while i < n
        invariant
            i <= n,
            n == buf@.len(),
            forall|k: int| 0 <= k < i ==> buf@[k] != 0,
        decreases n - i,
    {
        if buf[i] == 0 {
            assert(contains_nul(buf@)) by {
                assert(buf@[i as int] == 0);
            }
            return true;
        }
        i = i + 1;
    }
    false
}

/// The single exposed pipeline operation. It takes ownership of the inbound
/// buffer (consumed by decoding whatever happens) and returns the status
/// code together with the one freshly allocated outbound buffer: `0` and a
/// payload encoding, or `-1` and a non-empty error message.
pub fn invoke(this: &HelloStruct, input: Vec<u8>) -> (r: (i8, Vec<u8>))
    ensures
        (r.0, r.1@) == response_of(input@),
        r.0 == 0 || r.0 == -1,
        r.0 == 0 <==> (parse_world(input@) matches Some(w) && w.size < usize::MAX),
        r.0 == -1 ==> r.1@.len() > 0,
{
    proof {
        lemma_message_wf(BridgeError::Decode);
        lemma_message_wf(BridgeError::Schema);
        lemma_message_wf(BridgeError::Encode);
        lemma_message_wf(BridgeError::Logic);
    }
    match decode(input) {
        Ok(w) => {
            if w.size < usize::MAX {
                let grown = this.hello(w);
                proof {
                    lemma_encoding_no_nul(grown);
                }
                let enc = encode(&grown);
                if has_nul(&enc) {
                    (-1, BridgeError::Encode.message())
                } else {
                    (0i8, enc)
                }
            } else {
                (-1, BridgeError::Logic.message())
            }
        },
        Err(e) => (-1, e.message()),
    }
}

/// Status/slot consistency, success side: whenever the input text denotes a
/// payload whose grown size still fits, the call answers `0`, and the
/// buffer it hands out parses back to exactly the grown payload.
pub proof fn lemma_success_parses_back(input: Seq<u8>, w: World)
    requires
        parse_world(input) == Some(w),
        w.size < usize::MAX,
    ensures
        response_of(input).0 == 0,
        parse_world(response_of(input).1) == Some(World { size: (w.size + 1) as usize }),
{
    lemma_encoding_no_nul(World { size: (w.size + 1) as usize });
    lemma_round_trip(World { size: (w.size + 1) as usize });
}

/// Status/slot consistency, failure side: on every other input the call
/// answers `-1`, and the buffer holds a non-empty message of readable
/// ASCII text.
pub proof fn lemma_failure_is_message(input: Seq<u8>)
    requires
        !(parse_world(input) matches Some(w) && w.size < usize::MAX),
    ensures
        response_of(input).0 == -1,
        response_of(input).1.len() > 0,
        forall|k: int|
            0 <= k < response_of(input).1.len() ==> 0x20 <= #[trigger] response_of(input).1[k]
                && response_of(input).1[k] < 0x7f,
{
    lemma_message_wf(BridgeError::Decode);
    lemma_message_wf(BridgeError::Schema);
    lemma_message_wf(BridgeError::Encode);
    lemma_message_wf(BridgeError::Logic);
}

/// Handles are independent and calls are repeatable: the response is a
/// function of the input text alone, so the same text always draws the same
/// status and the same buffer, whichever handle is used, however often the
/// call is made, and whatever was invoked in between.
pub proof fn lemma_response_input_only(a: Seq<u8>, b: Seq<u8>)
    requires
        a == b,
    ensures
        response_of(a) == response_of(b),
{
}

} // verus!
