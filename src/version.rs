use vstd::prelude::*;

verus! {

/// The format version of a recorded game: major, minor and patch numbers,
/// and a pre-release text, empty for a release.
#[derive(Debug, Clone, PartialEq, Eq)]
pub struct Version {
    pub major: u64,
    pub minor: u64,
    pub patch: u64,
    pub pre: String,
}

impl View for Version {
    type V = (u64, u64, u64, Seq<char>);

    open spec fn view(&self) -> (u64, u64, u64, Seq<char>) {
        (self.major, self.minor, self.patch, self.pre@)
    }
}

/// Whether pre-release `a` comes before pre-release `b` in semver's order.
pub uninterp spec fn pre_release_precedes(a: Seq<char>, b: Seq<char>) -> bool;

/// Relies on `semver::Prerelease::new` to read each text, and on the order of
/// `semver::Prerelease` to compare them; the result depends on the two texts
/// alone. A text that does not read as a pre-release is ordered before none.
#[verifier::external_body]
fn pre_release_before(a: &String, b: &String) -> (r: bool)
    ensures
        r == pre_release_precedes(a@, b@),
{
    match (semver::Prerelease::new(a), semver::Prerelease::new(b)) {
        (Ok(x), Ok(y)) => x < y,
        _ => false,
    }
}

/// `a` precedes `b`: numbers compare in the order major, minor, patch, and
/// equal numbers by their pre-release.
pub open spec fn precedes(a: (u64, u64, u64, Seq<char>), b: (u64, u64, u64, Seq<char>)) -> bool {
    a.0 < b.0 || (a.0 == b.0 && (a.1 < b.1 || (a.1 == b.1 && (a.2 < b.2 || (a.2 == b.2
        && pre_release_precedes(a.3, b.3))))))
}

impl Version {
    /// A release version, without pre-release.
    pub fn new(major: u64, minor: u64, patch: u64) -> (r: Version)
        ensures
            r@ == (major, minor, patch, Seq::<char>::empty()),
    {
        Version { major, minor, patch, pre: String::new() }
    }

    /// Returns a copy of `self`.
    pub fn copied(&self) -> (r: Version)
        ensures
            r@ == self@,
    {
        Version { major: self.major, minor: self.minor, patch: self.patch, pre: self.pre.clone() }
    }

    /// Returns `true` when `self` precedes `other`.
    pub fn is_before(&self, other: &Version) -> (r: bool)
        ensures
            r == precedes(self@, other@),
    {
        if self.major != other.major {
            self.major < other.major
        } else if self.minor != other.minor {
            self.minor < other.minor
        } else if self.patch != other.patch {
            self.patch < other.patch
        } else {
            pre_release_before(&self.pre, &other.pre)
        }
    }
}

/// The oldest format version of a game log that can still be read.
pub open spec fn spec_min_ver() -> (u64, u64, u64, Seq<char>) {
    (0, 2, 0, Seq::empty())
}

/// Returns the oldest format version of a game log that can still be read.
pub fn min_ver() -> (r: Version)
    ensures
        r@ == spec_min_ver(),
{
    Version::new(0, 2, 0)
}

} // verus!
