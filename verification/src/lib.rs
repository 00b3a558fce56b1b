//! GraphQL transport binding: decoding HTTP requests (query string, JSON
//! body, or multipart file upload) into batches of GraphQL operation
//! documents, encoding execution results back into transport responses,
//! and bridging a WebSocket byte stream into a subscription session.

use vstd::prelude::*;

pub mod codec;
pub mod extract;
pub mod filemap;
pub mod model;
pub mod multipart;
pub mod paths;
pub mod response;
pub mod subscription;

verus! {

/// The error kinds a request decode can end in. All are request-local.
#[derive(Debug, PartialEq, Eq, Structural)]
pub enum DecodeError {
    /// The multipart body had no `operations` field.
    MissingOperationsPart,
    /// The multipart body had no `map` field.
    MissingMapPart,
    /// The `operations` field parsed as neither an object nor an array.
    MalformedOperations,
    /// The `map` field did not decode as a map from names to path lists.
    InvalidFilesMap,
    /// A `map` entry was never satisfied by an uploaded file part.
    MissingFiles,
    /// A file part exceeded the configured size or count limits.
    PayloadTooLarge,
    /// The underlying transport failed while the body was being read.
    TransportError,
    /// Temporary storage for an upload could not be duplicated.
    UploadCloneError,
    /// A query-string or plain-body request did not decode.
    InvalidRequest,
}

} // verus!
