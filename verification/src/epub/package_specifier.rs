//! The version of a package document.
use vstd::prelude::*;
use crate::text::str_eq;

verus! {

/// The `version` attribute of a package document.
pub struct PackageSpecifier {
    pub version: PackageVersion,
}

/// A package document version that the library reads.
#[derive(Debug, Clone, Copy, PartialEq, Eq, Structural)]
pub enum PackageVersion {
    V2,
    V3,
}

/// The message for a version attribute that is neither `2.0` nor `3.0`.
pub open spec fn version_mismatch(v: Seq<char>) -> Seq<char> {
    "Deserialized value '"@ + v + "' does not match the expected value `2.0`, or `3.0`"@
}

impl PackageVersion {
    /// Reads a version attribute: `2.0` or `3.0`, else an error message.
    pub fn parse(v: &str) -> (r: Result<PackageVersion, String>)
        ensures
            v@ == "2.0"@ ==> r == Ok::<PackageVersion, String>(PackageVersion::V2),
            v@ == "3.0"@ ==> r == Ok::<PackageVersion, String>(PackageVersion::V3),
            v@ != "2.0"@ && v@ != "3.0"@ ==> (r matches Err(e) && e@ == version_mismatch(v@)),
    {
        proof {
            reveal_strlit("2.0");
            reveal_strlit("3.0");
            assert("2.0"@[0] != "3.0"@[0]);
        }
        if str_eq(v, "2.0") {
            Ok(PackageVersion::V2)
        } else if str_eq(v, "3.0") {
            Ok(PackageVersion::V3)
        } else {
            let mut message = String::new();
            message.append("Deserialized value '");
            message.append(v);
            message.append("' does not match the expected value `2.0`, or `3.0`");
            Err(message)
        }
    }
}

} // verus!
