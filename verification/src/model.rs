//! The data model: uploaded files, operation documents, and batches.

use vstd::prelude::*;

verus! {

/// An uploaded file attached to an operation document: the filename the
/// client declared, an optional content type, and the payload bytes.
pub struct Upload {
    pub filename: String,
    pub content_type: Option<String>,
    pub content: Vec<u8>,
}

/// Mathematical model of an [`Upload`].
pub struct UploadModel {
    pub filename: Seq<char>,
    pub content_type: Option<Seq<char>>,
    pub content: Seq<u8>,
}

impl Upload {
    pub open spec fn model(&self) -> UploadModel {
        UploadModel {
            filename: self.filename@,
            content_type: match self.content_type {
                Some(ct) => Some(ct@),
                None => None,
            },
            content: self.content@,
        }
    }

    /// Duplicate the upload so the same file can satisfy one more
    /// variable path.
    pub fn duplicate(&self) -> (r: Upload)
        ensures
            r.model() == self.model(),
    {
        let content_type = match &self.content_type {
            Some(ct) => Some(ct.clone()),
            None => None,
        };
        let r = Upload {
            filename: self.filename.clone(),
            content_type,
            content: self.content.clone(),
        };
        proof {
            assert(r.content@ =~= self.content@);
            assert(r.model() =~= self.model());
        }
        r
    }
}

/// An upload bound at one dotted variable path of a document.
pub struct Binding {
    pub path: String,
    pub upload: Upload,
}

/// Mathematical model of a [`Binding`].
pub struct BindingModel {
    pub path: Seq<char>,
    pub upload: UploadModel,
}

impl Binding {
    pub open spec fn model(&self) -> BindingModel {
        BindingModel { path: self.path@, upload: self.upload.model() }
    }
}

/// One GraphQL operation document: its serialized form, plus the uploads
/// bound into it so far, in binding order.
pub struct Doc {
    pub operation: Vec<u8>,
    pub uploads: Vec<Binding>,
}

/// Mathematical model of a [`Doc`].
pub struct DocModel {
    pub operation: Seq<u8>,
    pub uploads: Seq<BindingModel>,
}

impl Doc {
    pub open spec fn model(&self) -> DocModel {
        DocModel {
            operation: self.operation@,
            uploads: self.uploads@.map_values(|b: Binding| b.model()),
        }
    }
}

/// One or more operation documents decoded together. The shape is fixed
/// at decode time: a lone object stays single, an array stays a batch,
/// even when the array has one element.
pub enum Batch {
    Single(Doc),
    Batch(Vec<Doc>),
}

/// Mathematical model of a [`Batch`].
pub enum BatchModel {
    Single(DocModel),
    Batch(Seq<DocModel>),
}

impl Batch {
    pub open spec fn model(&self) -> BatchModel {
        match self {
            Batch::Single(d) => BatchModel::Single(d.model()),
            Batch::Batch(ds) => BatchModel::Batch(ds@.map_values(|d: Doc| d.model())),
        }
    }

    /// A single-shaped batch yields its lone document; a batch-shaped one
    /// is refused.
    pub fn into_single(self) -> (r: Result<Doc, crate::DecodeError>)
        ensures
            (self matches Batch::Single(d) ==> r matches Ok(d2) && d2 == d),
            (self matches Batch::Batch(ds) ==> r == Err::<Doc, crate::DecodeError>(
                crate::DecodeError::InvalidRequest,
            )),
    {
        match self {
            Batch::Single(d) => Ok(d),
            Batch::Batch(_) => Err(crate::DecodeError::InvalidRequest),
        }
    }
}

} // verus!
