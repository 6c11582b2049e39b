//! A reader-mode document library: it distills HTML into a simplified tree of
//! sections and attributed text fragments, simplifies that tree, and lays the
//! result out for a terminal viewport with scrolling and link hit-testing.

use vstd::prelude::*;

pub mod ast;
pub mod buffer;
pub mod builder;
pub mod chars;
pub mod dom;
pub mod html;
pub mod layout;
pub mod node;
pub mod parse;
pub mod render;
pub mod style;
pub mod text;
pub mod widget;

verus! {

/// The failures the tree builder can report.
///
/// Both are recoverable: a parent drops the offending subtree and keeps the
/// remaining children. Only a failure of the root element reaches the caller.
#[derive(Copy, Clone, Debug)]
pub enum Error {
    /// The recursion budget ran out before the subtree could be entered.
    DepthExceeded,
    /// No builder rule exists for the element's tag.
    Unsupported,
}

impl Error {
    /// A short human-readable description of the error.
    pub fn describe(&self) -> (r: &'static str)
        ensures
            matches!(*self, Error::DepthExceeded) ==> r@ == "depth exceeded"@,
            matches!(*self, Error::Unsupported) ==> r@ == "unsupported element"@,
    {
        match self {
            Error::DepthExceeded => "depth exceeded",
            Error::Unsupported => "unsupported element",
        }
    }
}

} // verus!
