//! A minimal user agent: parses resource locators, decides how each is
//! fetched, decodes HTTP responses, and renders bodies as plain text.
pub mod error;
pub mod fetch;
pub mod locator;
pub mod render;
pub mod response;
pub mod text;

pub use error::FetchError;
pub use fetch::Step;
pub use locator::{Scheme, URL};
pub use render::{decode_entity, parse_entity, show};
pub use response::{decode_response, is_unsupported_encoding};
