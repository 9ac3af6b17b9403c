//! A small HTTP command-line client, as a library: it turns command-line
//! tokens into a request, and a received response into terminal text.

pub mod args;
pub mod error;
pub mod highlight;
pub mod media;
pub mod paint;
pub mod render;
pub mod request;
pub mod response;
pub mod text;
