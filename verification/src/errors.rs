//! Error taxonomy of the content manager.
//!
//! `NotFound` marks a lookup of an absent record id, `BadRequest` a
//! malformed submission, `Unauthorized` a failed access check, and
//! `InternalServerError` everything else (storage failures that are not
//! "row not found", asset save failures).

use vstd::prelude::*;

verus! {

#[derive(Clone, Copy, Debug, PartialEq, Eq, Structural)]
pub enum DreamError {
    NotFound,
    InternalServerError,
    BadRequest,
    Unauthorized,
}

impl DreamError {
    /// The short name of the error, as shown in logs.
    pub open spec fn message_spec(&self) -> Seq<char> {
        match self {
            DreamError::NotFound => "NotFound"@,
            DreamError::InternalServerError => "InternalServerError"@,
            DreamError::BadRequest => "BadRequest"@,
            DreamError::Unauthorized => "Unauthorized"@,
        }
    }

    pub fn message(&self) -> (r: String)
        ensures
            r@ == self.message_spec(),
    {
        match self {
            DreamError::NotFound => String::from_str("NotFound"),
            DreamError::InternalServerError => String::from_str("InternalServerError"),
            DreamError::BadRequest => String::from_str("BadRequest"),
            DreamError::Unauthorized => String::from_str("Unauthorized"),
        }
    }

    /// The longer human-readable description of the error.
    pub open spec fn description_spec(&self) -> Seq<char> {
        match self {
            DreamError::NotFound => "Record not found"@,
            DreamError::InternalServerError => "Internal server error"@,
            DreamError::BadRequest => "Bad Request"@,
            DreamError::Unauthorized => "Unauthorized"@,
        }
    }

    pub fn description(&self) -> (r: String)
        ensures
            r@ == self.description_spec(),
    {
        match self {
            DreamError::NotFound => String::from_str("Record not found"),
            DreamError::InternalServerError => String::from_str("Internal server error"),
            DreamError::BadRequest => String::from_str("Bad Request"),
            DreamError::Unauthorized => String::from_str("Unauthorized"),
        }
    }

    /// The HTTP status an error maps to at the boundary layer:
    /// 404 for `NotFound`, 400 for `BadRequest`, 401 for `Unauthorized`,
    /// 500 for everything else.
    pub open spec fn status_spec(&self) -> int {
        match self {
            DreamError::NotFound => 404,
            DreamError::BadRequest => 400,
            DreamError::Unauthorized => 401,
            DreamError::InternalServerError => 500,
        }
    }

    pub fn status(&self) -> (r: u16)
        ensures
            r == self.status_spec(),
    {
        match self {
            DreamError::NotFound => 404,
            DreamError::BadRequest => 400,
            DreamError::Unauthorized => 401,
            DreamError::InternalServerError => 500,
        }
    }

    /// Classification of a storage-layer failure: the explicit
    /// "missing row" case maps to `NotFound`, every other storage
    /// failure escalates to `InternalServerError`.
    pub fn from_storage(not_found: bool) -> (r: DreamError)
        ensures
            r == (if not_found { DreamError::NotFound } else { DreamError::InternalServerError }),
    {
        if not_found {
            DreamError::NotFound
        } else {
            DreamError::InternalServerError
        }
    }
}

} // verus!
