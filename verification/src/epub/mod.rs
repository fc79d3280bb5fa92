//! EPUB publications: the container, the package document, the tables of
//! contents, and the text of the chapters.
pub mod archive;
pub mod container;
pub mod error;
pub mod layout;
pub mod package;
pub mod package_specifier;
pub mod v2;
pub mod v3;

use vstd::prelude::*;

verus! {

/// A package document of any supported version.
#[derive(Debug)]
pub enum GeneralPackage {
    V3(v3::package::Package),
}

} // verus!
