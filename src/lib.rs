//! The content transformations of a reverse proxy that rewrites the pages it
//! forwards: a character obfuscation codec, walkers that patch or obfuscate
//! an HTML document held as an arena tree, an obfuscation walker for JSON
//! values, and the decisions of the fetch pipeline around them.
//!
//! Every item here is verified with Verus against its contract; the calls
//! into html5ever, csv, comrak, rand, url and http sit behind small trusted
//! wrappers whose contracts say what those crates return.

pub mod config;
pub mod content;
pub mod dom;
pub mod html;
pub mod json;
pub mod laws;
pub mod obfuscation;
pub mod parse;
pub mod patch;
pub mod pipeline;
pub mod special;
pub mod text;
pub mod walker;
