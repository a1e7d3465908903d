use vstd::prelude::*;

verus! {

/// The ways the store's own rules refuse an input.
#[derive(Debug, PartialEq, Eq)]
pub enum StoreError {
    /// A file's length does not fit the store's signed 64-bit size column.
    FileTooLarge { path: String },
}

} // verus!
