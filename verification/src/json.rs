//! JSON documents. Parsing and printing are `serde_json`'s; this module
//! states what the rest of the crate relies on.

use crate::error::EmberError;
use vstd::prelude::*;
use vstd::utf8::encode_utf8;

verus! {

/// A parsed JSON document. Its inside is `serde_json`'s business; this
/// crate carries documents from the request body to a handler and from a
/// handler to the response body.
#[verifier::external_type_specification]
#[verifier::external_body]
pub struct ExJsonValue(serde_json::Value);

/// What `serde_json::from_slice` makes of `body`: the document it holds,
/// or the text of the parser's complaint.
pub uninterp spec fn json_decoded(body: Seq<u8>) -> Result<serde_json::Value, Seq<char>>;

/// What `serde_json::to_vec` prints for `doc`, or the text of the
/// printer's complaint.
pub uninterp spec fn json_encoded(doc: serde_json::Value) -> Result<Seq<u8>, Seq<char>>;

/// Calls `serde_json::from_slice` for a `serde_json::Value`. The parser
/// reads nothing but `body`, so equal bodies give equal outcomes; an error
/// comes back as the text it displays.
#[verifier::external_body]
pub(crate) fn decode_json(body: &[u8]) -> (r: Result<serde_json::Value, String>)
    ensures
        match r {
            Ok(doc) => json_decoded(body@) == Ok::<serde_json::Value, Seq<char>>(doc),
            Err(text) => json_decoded(body@) == Err::<serde_json::Value, Seq<char>>(text@),
        },
{
    serde_json::from_slice::<serde_json::Value>(body).map_err(|e| e.to_string())
}

/// Calls `serde_json::to_vec` on a `serde_json::Value`. The printer reads
/// nothing but `doc`, so equal documents give equal outcomes; an error
/// comes back as the text it displays.
#[verifier::external_body]
pub(crate) fn encode_json(doc: &serde_json::Value) -> (r: Result<Vec<u8>, String>)
    ensures
        match r {
            Ok(bytes) => json_encoded(*doc) == Ok::<Seq<u8>, Seq<char>>(bytes@),
            Err(text) => json_encoded(*doc) == Err::<Seq<u8>, Seq<char>>(text@),
        },
{
    serde_json::to_vec(doc).map_err(|e| e.to_string())
}

/// The text of the service's OpenAPI document: version 3.0.0, the title
/// and version of the API, and no paths.
pub open spec fn openapi_text() -> Seq<char> {
    "{\"openapi\":\"3.0.0\",\"info\":{\"title\":\"Ember API\",\"version\":\"0.1.0\"},\"paths\":{}}"@
}

/// The service's OpenAPI document: what the parser makes of
/// [`openapi_text`].
pub fn generate_openapi() -> (r: Result<serde_json::Value, EmberError>)
    ensures
        match r {
            Ok(doc) => json_decoded(encode_utf8(openapi_text())) == Ok::<
                serde_json::Value,
                Seq<char>,
            >(doc),
            Err(e) => json_decoded(encode_utf8(openapi_text())) == Err::<
                serde_json::Value,
                Seq<char>,
            >(e@),
        },
{
    let text = "{\"openapi\":\"3.0.0\",\"info\":{\"title\":\"Ember API\",\"version\":\"0.1.0\"},\"paths\":{}}";
    match decode_json(text.as_bytes()) {
        Ok(doc) => Ok(doc),
        Err(message) => Err(EmberError::msg(message.as_str())),
    }
}

} // verus!
