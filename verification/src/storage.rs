//! What the durable stores report.

use vstd::prelude::*;
use vstd::string::*;

use crate::text::concat2;
use crate::text::concat3;

verus! {

/// A storage failure as data.
pub ghost enum StorageErrorView {
    Malformed { field: Seq<char>, detail: Seq<char> },
    IntegrityViolation(Seq<char>),
    NotFound { entity: Seq<char>, id: Seq<char> },
    Duplicate(Seq<char>),
    Unavailable(Seq<char>),
}

impl StorageErrorView {
    /// The failure in words.
    pub open spec fn rendered(self) -> Seq<char> {
        match self {
            StorageErrorView::Malformed { field, detail } => field + " is malformed: "@ + detail,
            StorageErrorView::IntegrityViolation(detail) => "integrity violation: "@ + detail,
            StorageErrorView::NotFound { entity, id } => entity + " not found: "@ + id,
            StorageErrorView::Duplicate(entity) => "duplicate "@ + entity,
            StorageErrorView::Unavailable(detail) => "storage is unavailable: "@ + detail,
        }
    }
}

/// Why a durable store refused or failed.
#[derive(Debug, Clone, PartialEq, Eq)]
pub enum StorageError {
    /// A value does not have the shape its field requires.
    Malformed { field: String, detail: String },
    /// A reference or a binding would be broken.
    IntegrityViolation { detail: String },
    /// The row does not exist.
    NotFound { entity: String, id: String },
    /// The row exists already.
    Duplicate { entity: String },
    /// The store could not be asked.
    Unavailable { detail: String },
}

impl View for StorageError {
    type V = StorageErrorView;

    open spec fn view(&self) -> StorageErrorView {
        match self {
            StorageError::Malformed { field, detail } => StorageErrorView::Malformed {
                field: field@,
                detail: detail@,
            },
            StorageError::IntegrityViolation { detail } => StorageErrorView::IntegrityViolation(
                detail@,
            ),
            StorageError::NotFound { entity, id } => StorageErrorView::NotFound {
                entity: entity@,
                id: id@,
            },
            StorageError::Duplicate { entity } => StorageErrorView::Duplicate(entity@),
            StorageError::Unavailable { detail } => StorageErrorView::Unavailable(detail@),
        }
    }
}

impl StorageError {
    /// A field that is not what it must be.
    pub fn malformed(field: &str, detail: &str) -> (error: StorageError)
        ensures
            error@ == (StorageErrorView::Malformed { field: field@, detail: detail@ }),
    {
        StorageError::Malformed { field: field.to_owned(), detail: detail.to_owned() }
    }

    /// The failure in words.
    pub fn to_string(&self) -> (text: String)
        ensures
            text@ == self@.rendered(),
    {
        match self {
            StorageError::Malformed { field, detail } => {
                concat3(field.as_str(), " is malformed: ", detail.as_str())
            },
            StorageError::IntegrityViolation { detail } => {
                concat2("integrity violation: ", detail.as_str())
            },
            StorageError::NotFound { entity, id } => {
                concat3(entity.as_str(), " not found: ", id.as_str())
            },
            StorageError::Duplicate { entity } => concat2("duplicate ", entity.as_str()),
            StorageError::Unavailable { detail } => {
                concat2("storage is unavailable: ", detail.as_str())
            },
        }
    }
}

} // verus!
