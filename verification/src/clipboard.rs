//! The outbound sink interface. Delivery itself is outside the library:
//! an embedding program implements this for the real system clipboard, and
//! tests implement it with an in-memory buffer.

use vstd::prelude::*;

verus! {

/// A destination for the finished document.
pub trait ClipboardInterface {
    /// Delivers the document text, or describes why delivery failed.
    fn copy_to_clipboard(&self, text: &str) -> Result<(), String>;
}

} // verus!
