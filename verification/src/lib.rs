//! A wikitext-to-HTML renderer.
//!
//! Articles are parsed into an abstract syntax tree of wikitext nodes
//! ([`ast::Node`]); the renderer walks that tree and emits an HTML fragment.
//! Internal links and template transclusions are resolved against an
//! [`store::ArticleStore`], and per-call render state (the pending inline-tag
//! queue, the external-link counter and the link/category accumulators) lives
//! in [`state::State`].

pub mod ast;
pub mod text;
pub mod attrs;
pub mod store;
pub mod state;
pub mod model;
pub mod bold_italic;
pub mod paragraph;
pub mod hr;
pub mod heading;
pub mod preformatted;
pub mod list;
pub mod link;
pub mod template;
pub mod table;
pub mod renderer;
pub mod headings;
pub mod laws;
pub mod api;
pub mod permission;
pub mod namespace;
