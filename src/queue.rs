use vstd::prelude::*;
use vstd::string::StringSliceAdditionalSpecFns;
use crate::error::{NodeError, message_of};

verus! {

#[verifier::external_type_specification]
#[verifier::external_body]
pub struct ExValue(serde_json::Value);

#[verifier::external_type_specification]
#[verifier::external_body]
pub struct ExJsonError(serde_json::Error);

/// Number of slots of the internal queue.
pub const QUEUE_CAPACITY: usize = 100_000;

/// Largest document accepted on one unidirectional stream, in bytes.
pub const MAX_STREAM_BYTES: usize = 65_536;

/// Largest request body accepted on the request/response transport, in bytes.
pub const MAX_BODY_BYTES: usize = 65_536;

/// Whether serde_json reads the bytes as exactly one JSON document.
pub uninterp spec fn is_json_document(b: Seq<u8>) -> bool;

/// The JSON value serde_json reads from the bytes.
pub uninterp spec fn json_value_of(b: Seq<u8>) -> serde_json::Value;

/// Relies on `serde_json::from_slice::<serde_json::Value>`: the result
/// depends on the bytes alone, and is `Ok` exactly for one JSON document
/// with nothing but white space after it, and then holds the value read.
#[verifier::external_body]
fn decode_value(b: &[u8]) -> (r: Result<serde_json::Value, serde_json::Error>)
    ensures
        r is Ok <==> is_json_document(b@),
        r is Ok ==> r->Ok_0 == json_value_of(b@),
{
    serde_json::from_slice::<serde_json::Value>(b)
}

/// Relies on `Display` of `serde_json::Error`: a description of the failure.
#[verifier::external_body]
fn describe(e: &serde_json::Error) -> String {
    e.to_string()
}

/// What becomes of the content of one stream on the multiplexed transport:
/// a document within the size limit that decodes is forwarded to the
/// queue, anything else is discarded.
pub fn decode_stream_document(data: &[u8]) -> (r: Option<serde_json::Value>)
    ensures
        r is Some <==> (data@.len() <= MAX_STREAM_BYTES && is_json_document(data@)),
        r is Some ==> r->Some_0 == json_value_of(data@),
{
    if data.len() > MAX_STREAM_BYTES {
        return None;
    }
    match decode_value(data) {
        Ok(v) => Some(v),
        Err(_) => None,
    }
}

/// The queue slot value of a serialized envelope: the envelope decoded
/// back into a JSON value.
pub fn queue_payload(message: &str) -> (r: Result<serde_json::Value, NodeError>)
    ensures
        r is Ok <==> is_json_document(message.spec_bytes()),
        r is Ok ==> r->Ok_0 == json_value_of(message.spec_bytes()),
        r is Err ==> r->Err_0 is InvalidPayload,
        r is Err ==> message_of(r->Err_0).subrange(0, "queue payload parse failed: "@.len() as int)
            == "queue payload parse failed: "@,
{
    match decode_value(message.as_bytes()) {
        Ok(v) => Ok(v),
        Err(e) => {
            let detail = describe(&e);
            let text = String::from_str("queue payload parse failed: ").concat(detail.as_str());
            proof {
                assert(text@.subrange(0, "queue payload parse failed: "@.len() as int)
                    =~= "queue payload parse failed: "@);
            }
            Err(NodeError::InvalidPayload(text))
        },
    }
}

} // verus!
