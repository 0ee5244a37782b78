use vstd::prelude::*;
use crate::crypto::CryptoError;

verus! {

/// The request field that failed validation.
#[derive(Clone, Copy, Debug, PartialEq, Eq, Structural)]
pub enum ValidationField {
    OriginalUrl,
    ShortCode,
    ExpiresInDays,
}

/// Why a field failed validation.
#[derive(Clone, Copy, Debug, PartialEq, Eq, Structural)]
pub enum ValidationReason {
    InvalidUrl,
    InvalidLength,
    AlreadyExists,
    OutOfRange,
}

/// A client-facing validation failure: which field, and why.
#[derive(Clone, Copy, Debug, PartialEq, Eq, Structural)]
pub struct ValidationError {
    pub field: ValidationField,
    pub reason: ValidationReason,
}

impl ValidationField {
    /// The field's name as it appears in requests and stored entries.
    pub fn name(&self) -> (r: &'static str)
        ensures
            *self == ValidationField::OriginalUrl ==> r@ == "original_url"@,
            *self == ValidationField::ShortCode ==> r@ == "short_code"@,
            *self == ValidationField::ExpiresInDays ==> r@ == "expires_in_days"@,
    {
        match self {
            ValidationField::OriginalUrl => "original_url",
            ValidationField::ShortCode => "short_code",
            ValidationField::ExpiresInDays => "expires_in_days",
        }
    }
}

impl ValidationReason {
    /// The reason as a machine-readable tag.
    pub fn name(&self) -> (r: &'static str)
        ensures
            *self == ValidationReason::InvalidUrl ==> r@ == "invalid_url"@,
            *self == ValidationReason::InvalidLength ==> r@ == "invalid_length"@,
            *self == ValidationReason::AlreadyExists ==> r@ == "already_exists"@,
            *self == ValidationReason::OutOfRange ==> r@ == "out_of_range"@,
    {
        match self {
            ValidationReason::InvalidUrl => "invalid_url",
            ValidationReason::InvalidLength => "invalid_length",
            ValidationReason::AlreadyExists => "already_exists",
            ValidationReason::OutOfRange => "out_of_range",
        }
    }
}

/// Everything the URL service can fail with.
#[derive(Clone, Debug, PartialEq, Eq)]
pub enum UrlError {
    /// The store failed; carries the store's message.
    DatabaseError(String),
    /// The request was rejected before any write.
    ValidationError(ValidationError),
    /// No entry has the requested short code.
    NotFound,
    /// A stored blob could not be decrypted, or a URL could not be encrypted.
    CryptoError(CryptoError),
    /// A generated short code collided with a stored one, twice in a row.
    CodeCollision,
}

impl UrlError {
    /// The HTTP status the error is reported with: 400 for validation, 404 for
    /// an unknown code, 500 for everything internal.
    pub fn status_code(&self) -> (r: u16)
        ensures
            r == (match *self {
                UrlError::ValidationError(_) => 400u16,
                UrlError::NotFound => 404u16,
                _ => 500u16,
            }),
    {
        match self {
            UrlError::ValidationError(_) => 400,
            UrlError::NotFound => 404,
            _ => 500,
        }
    }
}

} // verus!
