use vstd::prelude::*;
use crate::text::{append_decimal, spec_decimal};

verus! {

/// A PDF version as declared in the file header (`%PDF-X.Y`).
///
/// Versions defined by the specification have named variants; anything else
/// is kept as `Other` rather than rejected.
#[derive(Debug, Clone, Copy, PartialEq, Eq, Hash)]
pub enum PdfVersion {
    V1_0,
    V1_1,
    V1_2,
    V1_3,
    V1_4,
    V1_5,
    V1_6,
    V1_7,
    V2_0,
    /// A version the specification does not define.
    Other { major: u8, minor: u8 },
}

/// The version a `(major, minor)` pair denotes.
pub open spec fn spec_version_from(major: u8, minor: u8) -> PdfVersion {
    if major == 1 && minor == 0 { PdfVersion::V1_0 }
    else if major == 1 && minor == 1 { PdfVersion::V1_1 }
    else if major == 1 && minor == 2 { PdfVersion::V1_2 }
    else if major == 1 && minor == 3 { PdfVersion::V1_3 }
    else if major == 1 && minor == 4 { PdfVersion::V1_4 }
    else if major == 1 && minor == 5 { PdfVersion::V1_5 }
    else if major == 1 && minor == 6 { PdfVersion::V1_6 }
    else if major == 1 && minor == 7 { PdfVersion::V1_7 }
    else if major == 2 && minor == 0 { PdfVersion::V2_0 }
    else { PdfVersion::Other { major, minor } }
}

impl PdfVersion {
    /// The major version number.
    pub open spec fn spec_major(self) -> u8 {
        match self {
            PdfVersion::V2_0 => 2,
            PdfVersion::Other { major, .. } => major,
            _ => 1,
        }
    }

    /// The minor version number.
    pub open spec fn spec_minor(self) -> u8 {
        match self {
            PdfVersion::V1_0 => 0,
            PdfVersion::V1_1 => 1,
            PdfVersion::V1_2 => 2,
            PdfVersion::V1_3 => 3,
            PdfVersion::V1_4 => 4,
            PdfVersion::V1_5 => 5,
            PdfVersion::V1_6 => 6,
            PdfVersion::V1_7 => 7,
            PdfVersion::V2_0 => 0,
            PdfVersion::Other { minor, .. } => minor,
        }
    }

    /// Builds the version for a `(major, minor)` pair.
    pub fn from_bytes(major: u8, minor: u8) -> (v: PdfVersion)
        ensures
            v == spec_version_from(major, minor),
    {
        match (major, minor) {
            (1, 0) => PdfVersion::V1_0,
            (1, 1) => PdfVersion::V1_1,
            (1, 2) => PdfVersion::V1_2,
            (1, 3) => PdfVersion::V1_3,
            (1, 4) => PdfVersion::V1_4,
            (1, 5) => PdfVersion::V1_5,
            (1, 6) => PdfVersion::V1_6,
            (1, 7) => PdfVersion::V1_7,
            (2, 0) => PdfVersion::V2_0,
            _ => PdfVersion::Other { major, minor },
        }
    }

    pub fn major(&self) -> (m: u8)
        ensures
            m == self.spec_major(),
    {
        match self {
            PdfVersion::V2_0 => 2,
            PdfVersion::Other { major, .. } => *major,
            _ => 1,
        }
    }

    pub fn minor(&self) -> (m: u8)
        ensures
            m == self.spec_minor(),
    {
        match self {
            PdfVersion::V1_0 => 0,
            PdfVersion::V1_1 => 1,
            PdfVersion::V1_2 => 2,
            PdfVersion::V1_3 => 3,
            PdfVersion::V1_4 => 4,
            PdfVersion::V1_5 => 5,
            PdfVersion::V1_6 => 6,
            PdfVersion::V1_7 => 7,
            PdfVersion::V2_0 => 0,
            PdfVersion::Other { minor, .. } => *minor,
        }
    }

    /// The version as text, `major.minor` (for example `1.7`).
    pub fn to_text(&self) -> (r: String)
        ensures
            r@ == spec_decimal(self.spec_major() as nat) + "."@ + spec_decimal(self.spec_minor() as nat),
    {
        let mut s = String::new();
        append_decimal(&mut s, self.major() as u64);
        s.append(".");
        append_decimal(&mut s, self.minor() as u64);
        s
    }
}

/// Building a version from a pair and reading it back gives the pair again.
pub proof fn lemma_version_roundtrip(major: u8, minor: u8)
    ensures
        spec_version_from(major, minor).spec_major() == major,
        spec_version_from(major, minor).spec_minor() == minor,
{
}

/// The versions the specification defines are exactly 1.0 to 1.7 and 2.0:
/// a pair gets a named variant exactly when it is one of them, and is kept
/// as `Other` otherwise.
pub proof fn lemma_version_named_exactly_when_defined(major: u8, minor: u8)
    ensures
        (spec_version_from(major, minor) is Other) <==> !((major == 1 && minor <= 7) || (major == 2 && minor == 0)),
{
}

} // verus!
