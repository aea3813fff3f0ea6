//! Traits shared across the crate.

use vstd::prelude::*;

verus! {

/// For what names the extension of the files it is stored in.
pub trait AsExtension {
    /// The extension, without the dot.
    fn as_extension(&self) -> String;
}

} // verus!
