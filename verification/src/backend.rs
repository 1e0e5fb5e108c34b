//! Errors of the Cairo drawing backend of the graphs.

use vstd::prelude::*;

verus! {

/// An error of the Cairo drawing backend.
#[derive(Debug, Clone, Copy, PartialEq, Eq, Structural)]
pub struct CairoError;

impl CairoError {
    /// The error's message, as its `Display` writes it: its debug form.
    pub fn to_string(&self) -> (r: String)
        ensures
            r@ == "CairoError"@,
    {
        "CairoError".to_owned()
    }
}

} // verus!
