//! Localizes a packaged web-quiz ZIP bundle: finds the single
//! `main.<hash>.bundle.js` entry, decodes its `\uXXXX`-escaped text,
//! applies a fixed multi-pattern substitution, and rebuilds the archive
//! with every other entry preserved verbatim.

pub mod chars;
pub mod decode;
pub mod errors;
pub mod extzip;
pub mod locate;
pub mod pipeline;
pub mod subst;
pub mod textio;

pub use errors::TransformError;
pub use pipeline::process_bytes;
