//! The JSON document a client sends once decrypted, read through `serde_json`.

use vstd::prelude::*;

verus! {

/// A parsed JSON document (`serde_json::Value`), opaque to proofs.
#[verifier::external_type_specification]
#[verifier::external_body]
pub struct ExJsonValue(serde_json::Value);

/// The JSON pointers (RFC 6901) that address a value inside a document, each
/// mapped to the compact JSON text of the value it addresses.
pub uninterp spec fn json_pointers(v: serde_json::Value) -> Map<Seq<char>, Seq<char>>;

/// The compact JSON text of a document, as its `Display` writes it.
pub uninterp spec fn json_text(v: serde_json::Value) -> Seq<char>;

/// What `serde_json::from_slice::<Value>` gives for a byte sequence: `None` when
/// the bytes are not one JSON document, else the pointers that resolve in the
/// parsed document (with the text of what each addresses) and its compact text.
pub uninterp spec fn spec_json_parse(bytes: Seq<u8>) -> Option<(Map<Seq<char>, Seq<char>>, Seq<char>)>;

/// The message `serde_json` gives (its error's `Display`) when a byte sequence
/// is not one JSON document.
pub uninterp spec fn spec_json_error_text(bytes: Seq<u8>) -> Seq<char>;

/// `serde_json::from_slice::<serde_json::Value>`, with a syntax error turned
/// into its `Display` text: parses the bytes as one JSON document. Which
/// inputs parse, into what, and the error message are taken as given (named
/// `spec_json_parse` and `spec_json_error_text`); the claim is only that they
/// are functions of the bytes and that a parsed document is described by
/// `json_pointers` and `json_text`.
#[verifier::external_body]
pub(crate) fn json_from_slice(bytes: &[u8]) -> (res: Result<serde_json::Value, String>)
    ensures
        res is Ok <==> spec_json_parse(bytes@) is Some,
        res matches Ok(v) ==> spec_json_parse(bytes@) == Some((json_pointers(v), json_text(v))),
        res matches Err(m) ==> m@ == spec_json_error_text(bytes@),
{
    serde_json::from_slice(bytes).map_err(|e| e.to_string())
}

/// `serde_json::Value::pointer`: looks a value up by a JSON pointer; it is found
/// exactly when the pointer is one of the document's `json_pointers`, and its
/// compact text is the one `json_pointers` maps the pointer to.
#[verifier::external_body]
pub(crate) fn json_pointer<'a>(v: &'a serde_json::Value, pointer: &str) -> (res: Option<
    &'a serde_json::Value,
>)
    ensures
        res is Some <==> json_pointers(*v).dom().contains(pointer@),
        res matches Some(a) ==> json_text(*a) == json_pointers(*v)[pointer@],
{
    v.pointer(pointer)
}

/// `serde_json::Value::is_null`: whether the document is `null`. The crate's
/// serializer writes `null` for that variant only (strings are quoted), so this
/// holds exactly when the compact text is `null`; and in `null` the only pointer
/// that resolves is the empty one (`Value::pointer` descends only into objects
/// and arrays).
#[verifier::external_body]
pub(crate) fn json_is_null(v: &serde_json::Value) -> (res: bool)
    ensures
        res == (json_text(*v) == seq!['n', 'u', 'l', 'l']),
        res ==> forall|p: Seq<char>| #[trigger] json_pointers(*v).dom().contains(p) ==> p.len() == 0,
{
    v.is_null()
}

/// `ToString::to_string` on a `serde_json::Value` (its `Display`): the compact JSON text.
#[verifier::external_body]
pub(crate) fn json_to_string(v: &serde_json::Value) -> (res: String)
    ensures
        res@ == json_text(*v),
{
    v.to_string()
}

} // verus!
