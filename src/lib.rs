//! URL-shortening service logic: short-code generation, at-rest encryption of
//! stored URLs, validation, and the create / lookup flows over a document store.
pub mod code;
pub mod crypto;
pub mod error;
pub mod model;
pub mod service;
pub mod text;

pub use code::{generate_short_code, short_code_from};
pub use crypto::{CryptoError, Encryptor};
pub use error::{UrlError, ValidationError, ValidationField, ValidationReason};
pub use model::UrlEntry;
pub use service::{
    check_short_code, expiry, new_entry, redirect_location, CreateStep, CreateUrlRequest,
    InsertOutcome, UrlService,
};
