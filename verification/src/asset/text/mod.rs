use vstd::prelude::*;

pub mod content;
pub mod parse;

pub use content::{TextContent, TextContentView, TextNode, TextNodeView};
pub use parse::parse_text;

verus! {

/// The two-character line separator used by the text payloads.
pub const WINDOWS_SEPARATOR: [char; 2] = ['\r', '\n'];

} // verus!
