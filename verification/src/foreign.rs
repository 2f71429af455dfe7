//! Calls into other crates, with what is relied on of them.

use vstd::prelude::*;
use vstd::utf8::decode_utf8;
use vstd::utf8::valid_utf8;

use crate::text::is_lower_hex_digit;

verus! {

#[verifier::external_type_specification]
#[verifier::external_body]
pub struct ExJsonDocument(serde_json::Value);

#[verifier::external_type_specification]
#[verifier::external_body]
pub struct ExMetadataMap(tonic::metadata::MetadataMap);

/// What `serde_json::from_str` reads from a text: a document, or the text of the error.
pub uninterp spec fn json_document(text: Seq<char>) -> Result<serde_json::Value, Seq<char>>;

/// What `serde_json::from_slice` reads from bytes: a document, or the text of the error.
pub uninterp spec fn json_document_in(bytes: Seq<u8>) -> Result<serde_json::Value, Seq<char>>;

/// What `serde_json::Value::is_object` says of a document.
pub uninterp spec fn is_json_object(document: serde_json::Value) -> bool;

/// The text values of call metadata, each under its key: the characters, or nothing for a value
/// that is not visible ASCII throughout.
pub uninterp spec fn metadata_entries(metadata: tonic::metadata::MetadataMap) -> Map<
    Seq<char>,
    Option<Seq<char>>,
>;

/// Calls `serde_json::from_str`. Whether a text is a JSON document, which document it is, and
/// what the error says depends on the text alone.
#[verifier::external_body]
pub(crate) fn parse_json(text: &str) -> (document: Result<serde_json::Value, String>)
    ensures
        match document {
            Ok(value) => json_document(text@) == Ok::<serde_json::Value, Seq<char>>(value),
            Err(error) => json_document(text@) == Err::<serde_json::Value, Seq<char>>(error@),
        },
{
    serde_json::from_str(text).map_err(|error| error.to_string())
}

/// Calls `serde_json::from_slice`. Whether bytes are a JSON document, which document it is, and
/// what the error says depends on the bytes alone.
#[verifier::external_body]
pub(crate) fn parse_json_bytes(bytes: &[u8]) -> (document: Result<serde_json::Value, String>)
    ensures
        match document {
            Ok(value) => json_document_in(bytes@) == Ok::<serde_json::Value, Seq<char>>(value),
            Err(error) => json_document_in(bytes@) == Err::<serde_json::Value, Seq<char>>(error@),
        },
{
    serde_json::from_slice(bytes).map_err(|error| error.to_string())
}

/// Calls `serde_json::Value::is_object`. Whether a document is an object depends on the document
/// alone.
#[verifier::external_body]
pub(crate) fn holds_object(document: &serde_json::Value) -> (found: bool)
    ensures
        found == is_json_object(*document),
{
    document.is_object()
}

/// Calls `tonic::metadata::MetadataMap::get` and turns the value, where there is one, into text
/// with `MetadataValue::to_str`. What comes back is what the metadata holds under the key.
#[verifier::external_body]
pub(crate) fn metadata_text(metadata: &tonic::metadata::MetadataMap, key: &str) -> (value: Option<
    Option<String>,
>)
    ensures
        match value {
            Some(Some(text)) => metadata_entries(*metadata).contains_pair(key@, Some(text@)),
            Some(None) => metadata_entries(*metadata).contains_pair(key@, None),
            None => !metadata_entries(*metadata).contains_key(key@),
        },
{
    metadata.get(key).map(|value| value.to_str().ok().map(|text| text.to_string()))
}

/// The text of a random UUID: 32 lower-case hexadecimal digits in five groups, with the version
/// and the variant that mark it as random.
pub open spec fn is_random_uuid(s: Seq<char>) -> bool {
    &&& s.len() == 36
    &&& forall|i: int|
        0 <= i < 36 ==> if i == 8 || i == 13 || i == 18 || i == 23 {
            #[trigger] s[i] == '-'
        } else {
            is_lower_hex_digit(s[i])
        }
    &&& s[14] == '4'
    &&& s[19] == '8' || s[19] == '9' || s[19] == 'a' || s[19] == 'b'
}

/// Calls `uuid::Uuid::new_v4` and writes the result as text. The digits are random; the shape is
/// that of every version 4 UUID.
#[verifier::external_body]
pub(crate) fn fresh_uuid() -> (id: String)
    ensures
        is_random_uuid(id@),
{
    uuid::Uuid::new_v4().to_string()
}

/// What the error of `std::str::from_utf8` says of bytes that are no UTF-8.
pub uninterp spec fn utf8_fault(bytes: Seq<u8>) -> Seq<char>;

/// Calls `std::str::from_utf8`. Bytes that are UTF-8 become the text that they encode. What the
/// error says of others depends on the bytes alone.
#[verifier::external_body]
pub(crate) fn utf8_text(bytes: &[u8]) -> (text: Result<String, String>)
    ensures
        match text {
            Ok(text) => valid_utf8(bytes@) && text@ == decode_utf8(bytes@),
            Err(error) => !valid_utf8(bytes@) && error@ == utf8_fault(bytes@),
        },
{
    std::str::from_utf8(bytes).map(|text| text.to_string()).map_err(|error| error.to_string())
}

/// The text that `String::from_utf8_lossy` makes of bytes.
pub uninterp spec fn lossy(bytes: Seq<u8>) -> Seq<char>;

/// Calls `String::from_utf8_lossy`. Bytes that are UTF-8 become the text that they encode. What
/// becomes of others depends on the bytes alone.
#[verifier::external_body]
pub(crate) fn lossy_text(bytes: &[u8]) -> (text: String)
    ensures
        text@ == lossy(bytes@),
        valid_utf8(bytes@) ==> text@ == decode_utf8(bytes@),
{
    String::from_utf8_lossy(bytes).into_owned()
}

} // verus!
