//! Clip schema versions, ordered as in semantic versioning.

use vstd::prelude::*;
use core::cmp::Ordering;

verus! {

/// A data model version, compared lexicographically by major, minor, patch.
#[derive(Clone, Copy, Debug, PartialEq, Eq, Structural)]
pub struct Version {
    pub major: u32,
    pub minor: u32,
    pub patch: u32,
}

/// The order that `Version::partial_cmp` implements: lexicographic by
/// major, then minor, then patch.
pub open spec fn spec_version_cmp(a: Version, b: Version) -> Ordering {
    if a.major != b.major {
        if a.major < b.major { Ordering::Less } else { Ordering::Greater }
    } else if a.minor != b.minor {
        if a.minor < b.minor { Ordering::Less } else { Ordering::Greater }
    } else if a.patch != b.patch {
        if a.patch < b.patch { Ordering::Less } else { Ordering::Greater }
    } else {
        Ordering::Equal
    }
}

impl PartialOrd for Version {
    fn partial_cmp(&self, other: &Version) -> (r: Option<Ordering>)
    {
        if self.major != other.major {
            if self.major < other.major { Some(Ordering::Less) } else { Some(Ordering::Greater) }
        } else if self.minor != other.minor {
            if self.minor < other.minor { Some(Ordering::Less) } else { Some(Ordering::Greater) }
        } else if self.patch != other.patch {
            if self.patch < other.patch { Some(Ordering::Less) } else { Some(Ordering::Greater) }
        } else {
            Some(Ordering::Equal)
        }
    }
}

impl vstd::std_specs::cmp::PartialOrdSpecImpl for Version {
    open spec fn obeys_partial_cmp_spec() -> bool {
        true
    }

    open spec fn partial_cmp_spec(&self, other: &Version) -> Option<Ordering> {
        Some(spec_version_cmp(*self, *other))
    }
}

impl Version {
    /// The default for minor and patch when a file names only the major part.
    pub fn default_minor_patch() -> (r: u32)
        ensures
            r == 0,
    {
        0
    }
}

impl Default for Version {
    /// The version assumed for files whose version field cannot be read:
    /// the legacy schema, 0.2.0.
    fn default() -> (v: Version)
        ensures
            v == (Version { major: 0, minor: 2, patch: 0 }),
    {
        Version { major: 0, minor: 2, patch: 0 }
    }
}

/// Implemented by each data model to tell its current schema revision.
pub trait DataModelVersion {
    /// The latest revision of the model.
    fn current() -> Version;

    /// The revision of this model instance.
    fn version(&self) -> &Version;
}

} // verus!
