//! Why an EPUB publication cannot be read.
use vstd::prelude::*;

verus! {

/// Why a publication is not supported.
#[derive(Debug, Clone, Copy, PartialEq, Eq, Structural)]
pub enum UnsupportedReason {
    /// The publication is encrypted.
    Encrypted,
}

impl UnsupportedReason {
    /// The message that describes the reason.
    pub fn to_string(&self) -> (r: String)
        ensures
            r@ == "Encrypted epubs are not supported"@,
    {
        match self {
            UnsupportedReason::Encrypted => "Encrypted epubs are not supported".to_owned(),
        }
    }
}

} // verus!
