//! Verified core of a file-preview service: text snippets, metadata summaries,
//! MIME detection, Base64 data URLs, request parsing and the hover state machine.
pub mod text;
pub mod base64;
pub mod url;
pub mod size;
pub mod meta;
pub mod path;
pub mod mime;
pub mod carry;
pub mod snippet;
pub mod picture;
pub mod preview;
pub mod request;
pub mod listing;
pub mod hover;
pub mod daemon;
