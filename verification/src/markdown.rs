//! Markdown capability information.
//!
//! The client's declared markdown capabilities carry nothing the engine acts
//! on yet, so the information reduces to a unit marker; hover text is always
//! produced as plain markdown.

use vstd::prelude::*;

verus! {

/// What the engine keeps of the client's markdown capabilities.
#[derive(Clone, Copy, Debug, PartialEq, Eq, Structural)]
pub struct MarkdownInfo;

impl Default for MarkdownInfo {
    fn default() -> (r: Self)
        ensures
            r == MarkdownInfo,
    {
        MarkdownInfo
    }
}

} // verus!
