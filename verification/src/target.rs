//! Which bucket and which keys a run is about, read from a URI of the form
//! `scheme://bucket/prefix`.

use url::{ParseError, Url};
use vstd::prelude::*;

verus! {

/// `url::ParseError`, the error of `url::Url::parse`. Nothing is known of it
/// here: it is only handed on to the caller.
#[verifier::external_type_specification]
#[verifier::external_body]
pub struct ExParseError(ParseError);

/// [`UriParts`] as a mathematical value.
pub struct UriPartsView {
    pub host: Option<Seq<char>>,
    pub path: Seq<char>,
}

/// The two components of a parsed URI that name a target.
#[derive(Debug, PartialEq, Eq)]
pub struct UriParts {
    /// The host component, where the URI has one.
    pub host: Option<String>,
    /// The path component, with the separator it begins with.
    pub path: String,
}

impl View for UriParts {
    type V = UriPartsView;

    open spec fn view(&self) -> UriPartsView {
        UriPartsView { host: self.host.deep_view(), path: self.path@ }
    }
}

/// The host and path that `url::Url::parse` finds in `uri`, or `None` where it
/// rejects `uri`.
pub uninterp spec fn parsed_uri(uri: Seq<char>) -> Option<UriPartsView>;

/// Parses `uri` with `url::Url::parse` and reads the host and the path of the
/// result with `Url::host_str` and `Url::path`.
///
/// Not proved: that the parts returned are those that [`parsed_uri`] names for
/// this text, and that an error comes exactly where it names none. Nothing is
/// claimed of what the parts are.
#[verifier::external_body]
fn split_uri(uri: &str) -> (parts: Result<UriParts, ParseError>)
    ensures
        match parts {
            Ok(p) => parsed_uri(uri@) == Some(p@),
            Err(_) => parsed_uri(uri@) is None,
        },
{
    let url = Url::parse(uri)?;
    Ok(UriParts { host: url.host_str().map(String::from), path: url.path().to_string() })
}

/// The key prefix that a URI path stands for: the path without the separator
/// it begins with, and no prefix at all where nothing is left.
pub open spec fn prefix_of(path: Seq<char>) -> Option<Seq<char>> {
    let rest = if path.len() > 0 && path[0] == '/' {
        path.subrange(1, path.len() as int)
    } else {
        path
    };
    if rest.len() == 0 {
        None
    } else {
        Some(rest)
    }
}

/// A prefix is never empty, and there is none exactly where the path is
/// empty or nothing but the separator.
pub proof fn no_prefix_is_empty(path: Seq<char>)
    ensures
        prefix_of(path) matches Some(prefix) ==> prefix.len() > 0,
        prefix_of(path) is None <==> path.len() == 0 || path == seq!['/'],
{
    if path.len() == 1 && path[0] == '/' {
        assert(path =~= seq!['/']);
    }
}

/// Returns the key prefix that the URI path `path` stands for. `None` means
/// that the whole bucket is meant.
pub fn prefix_filter(path: &str) -> (prefix: Option<String>)
    ensures
        prefix.deep_view() == prefix_of(path@),
{
    let len: usize = path.unicode_len();
    if len == 0 {
        return None;
    }
    let start: usize = if path.get_char(0) == '/' {
        1
    } else {
        0
    };
    if start == len {
        None
    } else {
        assert(path@.subrange(0, len as int) =~= path@);
        Some(String::from_str(path.substring_char(start, len)))
    }
}

/// A [`Target`] as a mathematical value.
pub struct TargetView {
    pub bucket: Seq<char>,
    pub prefix: Option<Seq<char>>,
}

/// The bucket to walk, and the prefix of the keys to walk in it.
#[derive(Debug, PartialEq, Eq)]
pub struct Target {
    pub bucket: String,
    /// `None` for the whole bucket. Never `Some` of an empty string.
    pub prefix: Option<String>,
}

impl View for Target {
    type V = TargetView;

    open spec fn view(&self) -> TargetView {
        TargetView { bucket: self.bucket@, prefix: self.prefix.deep_view() }
    }
}

/// Why a URI names no target.
#[derive(Debug, PartialEq, Eq)]
pub enum TargetError {
    /// The text is no URI. The parser's own error is kept for the caller to
    /// show.
    Malformed(ParseError),
    /// The URI has no host component, so it names no bucket.
    MissingBucket,
}

/// The target that the parts of a URI name: the host is the bucket, the path
/// gives the prefix. Parts without a host name none.
pub open spec fn target_of(parts: UriPartsView) -> Option<TargetView> {
    match parts.host {
        Some(bucket) => Some(TargetView { bucket, prefix: prefix_of(parts.path) }),
        None => None,
    }
}

impl Target {
    /// Reads a target from the host and path of a URI.
    pub fn from_parts(parts: UriParts) -> (target: Result<Target, TargetError>)
        ensures
            match target {
                Ok(t) => target_of(parts@) == Some(t@),
                Err(e) => target_of(parts@) is None && e is MissingBucket,
            },
    {
        let prefix = prefix_filter(parts.path.as_str());
        match parts.host {
            Some(bucket) => Ok(Target { bucket, prefix }),
            None => Err(TargetError::MissingBucket),
        }
    }

    /// Reads a target from a URI of the form `scheme://bucket/prefix`.
    ///
    /// The URI is parsed by the `url` crate; [`parsed_uri`] stands for the host
    /// and path it finds. A text it rejects is `Malformed`, a URI without a
    /// host is `MissingBucket`, and every other URI names a target.
    pub fn parse(uri: &str) -> (target: Result<Target, TargetError>)
        ensures
            match target {
                Ok(t) => parsed_uri(uri@) matches Some(parts) && target_of(parts) == Some(t@),
                Err(TargetError::Malformed(_)) => parsed_uri(uri@) is None,
                Err(TargetError::MissingBucket) => parsed_uri(uri@) matches Some(parts)
                    && target_of(parts) is None,
            },
    {
        match split_uri(uri) {
            Ok(parts) => Target::from_parts(parts),
            Err(error) => Err(TargetError::Malformed(error)),
        }
    }
}

} // verus!
