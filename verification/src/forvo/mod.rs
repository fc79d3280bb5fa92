//! Requests to the Forvo pronunciation service: the request path and URL.
pub mod serde;
pub mod word_pronunciations;
