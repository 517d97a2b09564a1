//! A client for The Orange Alliance, the public statistics service of the
//! FIRST Tech Challenge.
//!
//! The library builds the requests that the service expects and decodes its
//! JSON answers into typed values. Sending a request and reading the answer's
//! body is left to the caller: every decoding function takes the body as text.

pub mod client;
pub mod error;
pub mod events;
pub mod json;
pub mod properties;
pub mod season;
pub mod stats;
pub mod text;

pub use client::{Client, Event, Request, Team};
pub use error::ApiError;
pub use events::EventMap;
pub use json::Json;
pub use properties::PropertyMap;
pub use season::Season;
