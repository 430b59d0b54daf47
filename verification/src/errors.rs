use vstd::prelude::*;

verus! {

/// Programming-error faults raised by the feed data model.
#[derive(Debug)]
pub enum FeedFault {
    /// The latest-article-age attribute was queried on an unsorted,
    /// non-empty feed.
    UnsortedLatestAge,
}

impl FeedFault {
    /// A human-readable description of the fault.
    pub fn message(&self) -> (r: String)
        ensures
            r@ == "Matcher called against unsorted feed"@,
    {
        String::from_str("Matcher called against unsorted feed")
    }
}

/// Errors raised while reading the subscription file.
#[derive(Debug)]
pub enum UrlReaderError {
    /// A query-feed line has fewer than the required colon-delimited parts.
    InvalidQueryError(String),
    /// The external filter evaluator rejected the filter expression.
    MatcherError(String),
}

impl UrlReaderError {
    /// A human-readable description of the error.
    pub fn message(&self) -> (r: String)
        ensures
            (match self {
                UrlReaderError::InvalidQueryError(s) => r@ == "Invalid query found: "@ + s@,
                UrlReaderError::MatcherError(s) => r@ == "Error matching query feed "@ + s@,
            }),
    {
        match self {
            UrlReaderError::InvalidQueryError(s) => {
                let mut m = String::from_str("Invalid query found: ");
                m.append(s.as_str());
                m
            },
            UrlReaderError::MatcherError(s) => {
                let mut m = String::from_str("Error matching query feed ");
                m.append(s.as_str());
                m
            },
        }
    }
}

/// Errors for filesystem conditions, reported by the surrounding
/// application code.
#[derive(Debug)]
pub enum FilesystemError {
    /// A required file or directory does not exist.
    PathDoesNotExist(String),
    /// The configuration has never been initialized.
    NotInitialized,
    /// Any other filesystem problem.
    Unknown(String),
}

impl FilesystemError {
    /// A human-readable description of the error.
    pub fn message(&self) -> (r: String)
        ensures
            (match self {
                FilesystemError::PathDoesNotExist(p) =>
                    r@ == "File or directory does not exist: "@ + p@,
                FilesystemError::NotInitialized =>
                    r@ == "Looks like liveboat has not been initialized, run liveboat -x init first."@,
                FilesystemError::Unknown(s) => r@ == "Unknown filesystem error "@ + s@,
            }),
    {
        match self {
            FilesystemError::PathDoesNotExist(p) => {
                let mut m = String::from_str("File or directory does not exist: ");
                m.append(p.as_str());
                m
            },
            FilesystemError::NotInitialized => String::from_str(
                "Looks like liveboat has not been initialized, run liveboat -x init first.",
            ),
            FilesystemError::Unknown(s) => {
                let mut m = String::from_str("Unknown filesystem error ");
                m.append(s.as_str());
                m
            },
        }
    }
}

/// Errors for invalid user configuration.
#[derive(Debug)]
pub enum ConfigurationError {
    /// The configured site URL cannot be parsed.
    InvalidSiteUrl,
}

impl ConfigurationError {
    /// A human-readable description of the error.
    pub fn message(&self) -> (r: String)
        ensures
            r@ == "Invalid site URL defined in Liveboat options"@,
    {
        String::from_str("Invalid site URL defined in Liveboat options")
    }
}

/// Errors raised while parsing a version string.
#[derive(Debug)]
pub enum VersionError {
    /// Not of the `<major>.<minor>.<patch>` form.
    InvalidFormat,
    /// A part is not an unsigned decimal number in range.
    InvalidNumber,
}

impl VersionError {
    /// A human-readable description of the error.
    pub fn message(&self) -> (r: String)
        ensures
            (match self {
                VersionError::InvalidFormat =>
                    r@ == "Invalid version detected, proper format is <major>.<minor>.<patch>"@,
                VersionError::InvalidNumber => r@ == "invalid digit found in string"@,
            }),
    {
        match self {
            VersionError::InvalidFormat => String::from_str(
                "Invalid version detected, proper format is <major>.<minor>.<patch>",
            ),
            VersionError::InvalidNumber => String::from_str("invalid digit found in string"),
        }
    }
}

/// Errors raised by the content enrichment pipeline.
#[derive(Debug)]
pub enum ContentError {
    /// The article URL cannot be parsed.
    InvalidUrl,
    /// The feed URL or site link needed for comment-link resolution
    /// cannot be parsed.
    InvalidFeedUrl,
}

impl ContentError {
    /// A human-readable description of the error.
    pub fn message(&self) -> (r: String)
        ensures
            (match self {
                ContentError::InvalidUrl => r@ == "cannot parse article url"@,
                ContentError::InvalidFeedUrl => r@ == "cannot parse feed url"@,
            }),
    {
        match self {
            ContentError::InvalidUrl => String::from_str("cannot parse article url"),
            ContentError::InvalidFeedUrl => String::from_str("cannot parse feed url"),
        }
    }
}

} // verus!
