//! A package document of a known version.
use vstd::prelude::*;
use super::v3;

verus! {

/// A package document of a known version.
#[derive(Clone, Debug)]
pub enum Package {
    V3(v3::package::Package),
}

} // verus!
