//! A small HTML-to-text-blocks engine: the document tree is split into
//! paragraph and heading blocks of styled text spans, ready for layout.

pub mod dom;
pub mod html;
pub mod render;
pub mod laws;
pub mod events;
