//! The request extraction facade: classify an incoming request by method
//! and content type, then decode it as a query string, a multipart upload,
//! or a plain JSON body.

use vstd::prelude::*;

use crate::DecodeError;
use crate::codec::{
    OpsModel, RawOps, json_documents_of, mime_essence_of, parse_mime_essence,
    parse_operations_json, parse_query_document, query_document_of,
};
use crate::model::{Batch, BatchModel, BindingModel, Doc, DocModel};
use crate::multipart::{Field, MultipartConfig, decode_multipart, models, multipart_outcome};

verus! {

/// How an incoming request is decoded, fixed by one classification step
/// on the method and the content type.
#[derive(Debug, Clone, Copy, PartialEq, Eq, Structural)]
pub enum RequestKind {
    GetQuery,
    MultipartUpload,
    JsonBody,
}

/// A GET request is decoded from its query string; a body whose content
/// type has essence multipart/form-data is a multipart upload; anything
/// else is a plain JSON body.
pub open spec fn spec_classify(is_get: bool, ct: Option<Seq<char>>) -> RequestKind {
    if is_get {
        RequestKind::GetQuery
    } else if ct matches Some(s) && mime_essence_of(s) matches Some(e) && e.0 == "multipart"@
        && e.1 == "form-data"@ {
        RequestKind::MultipartUpload
    } else {
        RequestKind::JsonBody
    }
}

pub fn classify(is_get: bool, content_type: Option<&String>) -> (r: RequestKind)
    ensures
        r == spec_classify(
            is_get,
            match content_type {
                Some(s) => Some(s@),
                None => None,
            },
        ),
{
    if is_get {
        return RequestKind::GetQuery;
    }
    match content_type {
        Some(s) => match parse_mime_essence(s) {
            Some(p) => {
                let mp: String = "multipart".to_owned();
                let fd: String = "form-data".to_owned();
                if p.0.eq(&mp) && p.1.eq(&fd) {
                    RequestKind::MultipartUpload
                } else {
                    RequestKind::JsonBody
                }
            },
            None => RequestKind::JsonBody,
        },
        None => RequestKind::JsonBody,
    }
}

/// The batch a parsed operations payload decodes to before any upload is
/// bound: the same shape, every document without uploads.
pub open spec fn empty_batch_of(ops: OpsModel) -> BatchModel {
    match ops {
        OpsModel::Single(b) => BatchModel::Single(DocModel { operation: b, uploads: Seq::empty() }),
        OpsModel::Many(ds) => BatchModel::Batch(
            Seq::new(ds.len(), |j: int| DocModel { operation: ds[j], uploads: Seq::empty() }),
        ),
    }
}

/// Outcome of decoding a plain JSON body: the shape the bytes parse as,
/// or a rejection when they parse as neither an object nor an array.
pub open spec fn json_body_outcome(bytes: Seq<u8>) -> Result<BatchModel, DecodeError> {
    match json_documents_of(bytes) {
        None => Err(DecodeError::InvalidRequest),
        Some(ops) => Ok(empty_batch_of(ops)),
    }
}

/// Decode a whole request body as a batch. A JSON object yields a
/// single-shaped batch, an array a batch-shaped one of the same length
/// and order; no uploads are attached.
pub fn decode_json_body(bytes: &Vec<u8>) -> (r: Result<Batch, DecodeError>)
    ensures
        (match json_body_outcome(bytes@) {
            Ok(bm) => r matches Ok(b) && b.model() == bm,
            Err(e) => r == Err::<Batch, DecodeError>(e),
        }),
{
    match parse_operations_json(bytes) {
        None => Err(DecodeError::InvalidRequest),
        Some(RawOps::Single(b)) => {
            let doc = Doc { operation: b, uploads: Vec::new() };
            proof {
                assert(doc.model().uploads =~= Seq::<BindingModel>::empty());
            }
            Ok(Batch::Single(doc))
        },
        Some(RawOps::Many(bs)) => {
            let mut docs: Vec<Doc> = Vec::new();
            let mut d: usize = 0;
            while d < bs.len()
                invariant
                    d <= bs@.len(),
                    docs@.len() == d,
                    forall|x: int| #![all_triggers] 0 <= x < d ==> docs@[x].operation@ == bs@[x]@
                        && docs@[x].uploads@.len() == 0,
                decreases bs@.len() - d,
            {
                docs.push(Doc { operation: bs[d].clone(), uploads: Vec::new() });
                d += 1;
            }
            proof {
                let dv = bs.deep_view();
                let target = Seq::new(
                    dv.len(),
                    |j: int| DocModel { operation: dv[j], uploads: Seq::empty() },
                );
                assert forall|j: int| 0 <= j < dv.len() implies docs@.map_values(
                    |dd: Doc| dd.model(),
                )[j] == target[j] by {
                    assert(dv[j] =~= bs@[j]@);
                    assert(docs@[j].model().operation == dv[j]);
                    assert(docs@[j].model().uploads =~= Seq::<BindingModel>::empty());
                }
                assert(docs@.map_values(|dd: Doc| dd.model()) =~= target);
            }
            Ok(Batch::Batch(docs))
        },
    }
}

/// Outcome of decoding a GET query string: one single-shaped operation,
/// or a rejection when the query string does not decode.
pub open spec fn get_outcome(q: Seq<char>) -> Result<BatchModel, DecodeError> {
    match query_document_of(q) {
        None => Err(DecodeError::InvalidRequest),
        Some(b) => Ok(BatchModel::Single(DocModel { operation: b, uploads: Seq::empty() })),
    }
}

/// Decode the query string of a GET request as a single operation.
pub fn decode_get(query: &String) -> (r: Result<Batch, DecodeError>)
    ensures
        (match get_outcome(query@) {
            Ok(bm) => r matches Ok(b) && b.model() == bm,
            Err(e) => r == Err::<Batch, DecodeError>(e),
        }),
{
    match parse_query_document(query.as_str()) {
        None => Err(DecodeError::InvalidRequest),
        Some(b) => {
            let doc = Doc { operation: b, uploads: Vec::new() };
            proof {
                assert(doc.model().uploads =~= Seq::<BindingModel>::empty());
            }
            Ok(Batch::Single(doc))
        },
    }
}

/// The decodable payload of a classified request.
pub enum RequestPayload {
    /// The query string of a GET request.
    Query(String),
    /// The fields of a multipart body, in arrival order.
    Multipart(Vec<Field>),
    /// A plain body, decoded as JSON.
    Body(Vec<u8>),
}

/// Outcome of decoding a classified request.
pub open spec fn request_outcome(
    p: RequestPayload,
    config: MultipartConfig,
) -> Result<BatchModel, DecodeError> {
    match p {
        RequestPayload::Query(q) => get_outcome(q@),
        RequestPayload::Multipart(fs) => multipart_outcome(
            models(fs@),
            config.limits,
            config.cbor_enabled,
        ),
        RequestPayload::Body(b) => json_body_outcome(b@),
    }
}

/// Decode a classified request into a batch.
pub fn decode_request(payload: RequestPayload, config: &MultipartConfig) -> (r: Result<
    Batch,
    DecodeError,
>)
    ensures
        (match request_outcome(payload, *config) {
            Ok(bm) => r matches Ok(b) && b.model() == bm,
            Err(e) => r == Err::<Batch, DecodeError>(e),
        }),
{
    match payload {
        RequestPayload::Query(q) => decode_get(&q),
        RequestPayload::Multipart(fields) => decode_multipart(&fields, config),
        RequestPayload::Body(bytes) => decode_json_body(&bytes),
    }
}

/// Typed rejection produced when a request cannot be decoded.
pub struct GraphQLRejection(pub DecodeError);

impl GraphQLRejection {
    /// The HTTP status the rejection is surfaced with: payload-too-large
    /// and the server-side clone failure keep their own statuses; every
    /// other decode error is a plain bad request.
    pub fn status(&self) -> (s: u16)
        ensures
            self.0 == DecodeError::PayloadTooLarge ==> s == 413,
            self.0 == DecodeError::UploadCloneError ==> s == 500,
            self.0 != DecodeError::PayloadTooLarge && self.0 != DecodeError::UploadCloneError
                ==> s == 400,
    {
        match self.0 {
            DecodeError::PayloadTooLarge => 413,
            DecodeError::UploadCloneError => 500,
            _ => 400,
        }
    }

    /// A diagnostic line for the client, one per error kind.
    pub fn message(&self) -> (m: String)
        ensures
            self.0 == DecodeError::MissingOperationsPart ==> m@ == "missing operations part"@,
            self.0 == DecodeError::MissingMapPart ==> m@ == "missing map part"@,
            self.0 == DecodeError::MalformedOperations ==> m@ == "malformed operations"@,
            self.0 == DecodeError::InvalidFilesMap ==> m@ == "invalid files map"@,
            self.0 == DecodeError::MissingFiles ==> m@ == "missing files"@,
            self.0 == DecodeError::PayloadTooLarge ==> m@ == "payload too large"@,
            self.0 == DecodeError::TransportError ==> m@ == "transport error"@,
            self.0 == DecodeError::UploadCloneError ==> m@ == "upload clone error"@,
            self.0 == DecodeError::InvalidRequest ==> m@ == "invalid request"@,
    {
        match self.0 {
            DecodeError::MissingOperationsPart => "missing operations part".to_owned(),
            DecodeError::MissingMapPart => "missing map part".to_owned(),
            DecodeError::MalformedOperations => "malformed operations".to_owned(),
            DecodeError::InvalidFilesMap => "invalid files map".to_owned(),
            DecodeError::MissingFiles => "missing files".to_owned(),
            DecodeError::PayloadTooLarge => "payload too large".to_owned(),
            DecodeError::TransportError => "transport error".to_owned(),
            DecodeError::UploadCloneError => "upload clone error".to_owned(),
            DecodeError::InvalidRequest => "invalid request".to_owned(),
        }
    }
}

/// Extractor for a GraphQL batch request.
pub struct GraphQLBatchRequest(pub Batch);

impl GraphQLBatchRequest {
    /// Unwraps the value to the decoded batch.
    pub fn into_inner(self) -> (r: Batch)
        ensures
            r == self.0,
    {
        self.0
    }

    /// Decode a classified request, wrapping any decode error as a
    /// rejection.
    pub fn extract(payload: RequestPayload, config: &MultipartConfig) -> (r: Result<
        GraphQLBatchRequest,
        GraphQLRejection,
    >)
        ensures
            (match request_outcome(payload, *config) {
                Ok(bm) => r matches Ok(g) && g.0.model() == bm,
                Err(e) => r matches Err(rej) && rej.0 == e,
            }),
    {
        match decode_request(payload, config) {
            Ok(b) => Ok(GraphQLBatchRequest(b)),
            Err(e) => Err(GraphQLRejection(e)),
        }
    }
}

/// Extractor for a single GraphQL request.
pub struct GraphQLRequest(pub Doc);

impl GraphQLRequest {
    /// Unwraps the value to the decoded operation document.
    pub fn into_inner(self) -> (r: Doc)
        ensures
            r == self.0,
    {
        self.0
    }

    /// Decode a classified request that must hold exactly one operation:
    /// a batch-shaped result is rejected as an invalid request.
    pub fn extract(payload: RequestPayload, config: &MultipartConfig) -> (r: Result<
        GraphQLRequest,
        GraphQLRejection,
    >)
        ensures
            (match request_outcome(payload, *config) {
                Ok(bm) => match bm {
                    BatchModel::Single(dm) => r matches Ok(g) && g.0.model() == dm,
                    BatchModel::Batch(_) => r matches Err(rej) && rej.0
                        == DecodeError::InvalidRequest,
                },
                Err(e) => r matches Err(rej) && rej.0 == e,
            }),
    {
        match GraphQLBatchRequest::extract(payload, config) {
            Ok(g) => match g.into_inner().into_single() {
                Ok(d) => Ok(GraphQLRequest(d)),
                Err(e) => Err(GraphQLRejection(e)),
            },
            Err(rej) => Err(rej),
        }
    }
}

} // verus!
