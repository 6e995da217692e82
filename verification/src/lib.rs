//! Core of a small plain-text editor: a document paired with a same-length
//! style overlay, a search engine over byte offsets with optional case
//! folding, cyclic navigation over the match list, line/column derivation
//! for the status bar, and byte-order-mark aware decoding of loaded bytes.

pub mod document;
pub mod encoding;
pub mod navigate;
pub mod search;
pub mod session;
pub mod status;
