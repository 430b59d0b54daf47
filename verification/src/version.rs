use vstd::prelude::*;

use crate::errors::VersionError;
use crate::text::{digits_val, is_digits, parse_u64, split_spec, split_at_char, unsigned_body};

verus! {

/// A version string parses exactly when it has three dot-separated
/// parts, each an unsigned decimal (one leading plus allowed, as the
/// standard parser reads) whose value fits in a `u64`.
pub open spec fn version_parses(s: Seq<char>) -> bool {
    let parts = split_spec(s, '.');
    &&& parts.len() == 3
    &&& is_digits(unsigned_body(parts[0])) && digits_val(unsigned_body(parts[0])) <= u64::MAX
    &&& is_digits(unsigned_body(parts[1])) && digits_val(unsigned_body(parts[1])) <= u64::MAX
    &&& is_digits(unsigned_body(parts[2])) && digits_val(unsigned_body(parts[2])) <= u64::MAX
}

/// A semantic version in `<major>.<minor>.<patch>` form.
pub struct Version {
    pub major: u64,
    pub minor: u64,
    pub patch: u64,
}

impl Version {
    /// Parse a `<major>.<minor>.<patch>` string. Anything else — a
    /// different number of parts, a non-digit character, or a value out
    /// of range — is rejected.
    pub fn from_str(s: String) -> (r: Result<Version, VersionError>)
        ensures
            r is Ok <==> version_parses(s@),
            (match r {
                Ok(v) => {
                    let parts = split_spec(s@, '.');
                    v.major as nat == digits_val(unsigned_body(parts[0]))
                        && v.minor as nat == digits_val(unsigned_body(parts[1]))
                        && v.patch as nat == digits_val(unsigned_body(parts[2]))
                },
                Err(e) => true,
            }),
    {
        let parts = split_at_char(s.as_str(), '.');
        if parts.len() != 3 {
            return Err(VersionError::InvalidFormat);
        }
        let major = match parse_u64(parts[0].as_str()) {
            Some(v) => v,
            None => {
                return Err(VersionError::InvalidNumber);
            },
        };
        let minor = match parse_u64(parts[1].as_str()) {
            Some(v) => v,
            None => {
                return Err(VersionError::InvalidNumber);
            },
        };
        let patch = match parse_u64(parts[2].as_str()) {
            Some(v) => v,
            None => {
                return Err(VersionError::InvalidNumber);
            },
        };
        Ok(Version { major, minor, patch })
    }

    /// Lexicographic order on (major, minor, patch).
    pub open spec fn spec_lt(self, other: Version) -> bool {
        self.major < other.major
            || (self.major == other.major && self.minor < other.minor)
            || (self.major == other.major && self.minor == other.minor
                && self.patch < other.patch)
    }

    /// Compare two versions, major first, then minor, then patch.
    pub fn cmp(&self, other: &Version) -> (r: core::cmp::Ordering)
        ensures
            r == core::cmp::Ordering::Less <==> self.spec_lt(*other),
            r == core::cmp::Ordering::Greater <==> other.spec_lt(*self),
            r == core::cmp::Ordering::Equal <==> (self.major == other.major
                && self.minor == other.minor && self.patch == other.patch),
    {
        if self.major < other.major {
            core::cmp::Ordering::Less
        } else if self.major > other.major {
            core::cmp::Ordering::Greater
        } else if self.minor < other.minor {
            core::cmp::Ordering::Less
        } else if self.minor > other.minor {
            core::cmp::Ordering::Greater
        } else if self.patch < other.patch {
            core::cmp::Ordering::Less
        } else if self.patch > other.patch {
            core::cmp::Ordering::Greater
        } else {
            core::cmp::Ordering::Equal
        }
    }
}

} // verus!
