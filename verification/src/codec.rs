//! Trusted wrappers around the outside codecs: JSON and CBOR parsing,
//! query-string decoding, content-type parsing, and header syntax checks.
//! Each spec function without a body names what the wrapped call returns;
//! every call is a function of its arguments alone.

use vstd::prelude::*;
use crate::filemap::FileMap;

verus! {

/// The raw serialized documents of an `operations` field, before uploads
/// are bound: one lone document, or the elements of an array in order.
pub enum RawOps {
    Single(Vec<u8>),
    Many(Vec<Vec<u8>>),
}

/// Mathematical model of [`RawOps`].
pub enum OpsModel {
    Single(Seq<u8>),
    Many(Seq<Seq<u8>>),
}

impl RawOps {
    pub open spec fn model(&self) -> OpsModel {
        match self {
            RawOps::Single(b) => OpsModel::Single(b@),
            RawOps::Many(v) => OpsModel::Many(v.deep_view()),
        }
    }
}

/// What parsing an `operations` payload as JSON yields: `None` when the
/// bytes are neither a JSON object nor a JSON array, otherwise the
/// re-serialized document or documents.
pub uninterp spec fn json_documents_of(bytes: Seq<u8>) -> Option<OpsModel>;

/// Relies on serde_json::from_slice::<serde_json::Value> and
/// serde_json::to_vec: both are functions of their argument alone. An
/// object is a single document; an array is one document per element,
/// re-serialized in array order; anything else is malformed.
#[verifier::external_body]
pub(crate) fn parse_operations_json(bytes: &Vec<u8>) -> (r: Option<RawOps>)
    ensures
        r is Some <==> json_documents_of(bytes@) is Some,
        r matches Some(ops) ==> ops.model() == json_documents_of(bytes@)->Some_0,
{
    match serde_json::from_slice::<serde_json::Value>(bytes) {
        Ok(serde_json::Value::Array(items)) => {
            let docs: Option<Vec<Vec<u8>>> = items
                .iter()
                .map(|item| serde_json::to_vec(item).ok())
                .collect();
            docs.map(RawOps::Many)
        }
        Ok(value @ serde_json::Value::Object(_)) => {
            serde_json::to_vec(&value).ok().map(RawOps::Single)
        }
        _ => None,
    }
}

/// What parsing a `map` payload as JSON yields: `None` when the bytes are
/// not a JSON map from strings to arrays of strings, otherwise the
/// key-to-paths mapping.
pub uninterp spec fn json_file_map_of(bytes: Seq<u8>) -> Option<
    Map<Seq<char>, Seq<Seq<char>>>,
>;

/// Relies on serde_json::from_slice::<HashMap<String, Vec<String>>>: the
/// mapping it yields is a function of the bytes alone. Only the iteration
/// order of the entries is not, so nothing is said of entry order.
#[verifier::external_body]
pub(crate) fn parse_file_map_json(bytes: &Vec<u8>) -> (r: Option<FileMap>)
    ensures
        r is Some <==> json_file_map_of(bytes@) is Some,
        r matches Some(m) ==> m.wf() && m.as_map() == json_file_map_of(bytes@)->Some_0,
{
    let parsed: std::collections::HashMap<String, Vec<String>> =
        match serde_json::from_slice(bytes) {
            Ok(m) => m,
            Err(_) => return None,
        };
    Some(FileMap { entries: parsed.into_iter().collect() })
}

/// What parsing a `map` payload as CBOR yields, in the same shape as
/// [`json_file_map_of`].
pub uninterp spec fn cbor_file_map_of(bytes: Seq<u8>) -> Option<
    Map<Seq<char>, Seq<Seq<char>>>,
>;

/// Relies on serde_cbor::from_slice::<HashMap<String, Vec<String>>>: the
/// mapping it yields is a function of the bytes alone; nothing is said of
/// entry order.
#[verifier::external_body]
pub(crate) fn parse_file_map_cbor(bytes: &Vec<u8>) -> (r: Option<FileMap>)
    ensures
        r is Some <==> cbor_file_map_of(bytes@) is Some,
        r matches Some(m) ==> m.wf() && m.as_map() == cbor_file_map_of(bytes@)->Some_0,
{
    let parsed: std::collections::HashMap<String, Vec<String>> =
        match serde_cbor::from_slice(bytes) {
            Ok(m) => m,
            Err(_) => return None,
        };
    Some(FileMap { entries: parsed.into_iter().collect() })
}

/// What decoding a GET query string into one operation document yields:
/// `None` when the query string does not decode, otherwise the JSON
/// serialization of an object with one string member per parameter.
pub uninterp spec fn query_document_of(q: Seq<char>) -> Option<Seq<u8>>;

/// Relies on serde_urlencoded::from_str and serde_json::to_vec: the decoded
/// pairs and their re-serialization are functions of the query string alone.
#[verifier::external_body]
pub(crate) fn parse_query_document(q: &str) -> (r: Option<Vec<u8>>)
    ensures
        r is Some <==> query_document_of(q@) is Some,
        r matches Some(b) ==> b@ == query_document_of(q@)->Some_0,
{
    let pairs: Vec<(String, String)> = match serde_urlencoded::from_str(q) {
        Ok(p) => p,
        Err(_) => return None,
    };
    let object: serde_json::Map<String, serde_json::Value> = pairs
        .into_iter()
        .map(|(k, v)| (k, serde_json::Value::String(v)))
        .collect();
    serde_json::to_vec(&serde_json::Value::Object(object)).ok()
}

/// What parsing a content type yields: its type and subtype, or `None`
/// when the string is not a media type.
pub uninterp spec fn mime_essence_of(s: Seq<char>) -> Option<(Seq<char>, Seq<char>)>;

/// Relies on mime::Mime's str::parse: the parsed type and subtype are
/// functions of the string alone. Parameters such as a boundary or a
/// charset are dropped.
#[verifier::external_body]
pub(crate) fn parse_mime_essence(s: &str) -> (r: Option<(String, String)>)
    ensures
        r is Some <==> mime_essence_of(s@) is Some,
        r matches Some(p) ==> (p.0@, p.1@) == mime_essence_of(s@)->Some_0,
{
    let m: mime::Mime = match s.parse() {
        Ok(m) => m,
        Err(_) => return None,
    };
    Some((m.type_().as_str().to_owned(), m.subtype().as_str().to_owned()))
}

/// Whether a string is acceptable as an HTTP header value.
pub uninterp spec fn header_value_ok(s: Seq<char>) -> bool;

/// Relies on http::HeaderValue::from_str: acceptance depends on the string
/// alone.
#[verifier::external_body]
pub(crate) fn check_header_value(s: &str) -> (r: bool)
    ensures
        r == header_value_ok(s@),
{
    http::HeaderValue::from_str(s).is_ok()
}

/// Whether a string is a well-formed HTTP header name.
pub uninterp spec fn header_name_ok(s: Seq<char>) -> bool;

/// Relies on http::header::HeaderName::try_from a string: acceptance
/// depends on the string alone.
#[verifier::external_body]
pub(crate) fn check_header_name(s: &str) -> (r: bool)
    ensures
        r == header_name_ok(s@),
{
    http::header::HeaderName::try_from(s).is_ok()
}

} // verus!
