//! Checks made while an Arcfile is located and read: where the package
//! root lies, and whether the running compiler satisfies the version which
//! the manifest requires.
use vstd::prelude::*;

use crate::arc::version::{req_matches, semver_req_matches, PkgVersion};

verus! {

/// The name of the manifest file within a package root.
pub const DEFAULT_ARCFILE: &'static str = "Arcfile";

/// No Arcfile was found within the directory.
pub struct ArcfileMissing {
    pub dir: String,
}

/// Why a package root or its manifest was refused.
pub enum ManifestError {
    /// No Arcfile within the package root.
    Missing(ArcfileMissing),
    /// The path is no valid URI, not even with `file://` in front.
    InvalidFileUri { path: String },
    /// The package root is not on the local file system.
    UnsupportedScheme { scheme: String },
    /// The manifest requires a compiler version which is not the running one.
    IncompatibleLumeVersion { current: PkgVersion, required: String },
    /// The manifest's version requirement is not a valid requirement.
    InvalidVersionRequirement { required: String },
}

/// What `url::Url::parse` makes of the text: the scheme, the path and the
/// serialization of the parsed URL, or `None` when the text does not
/// parse.
pub uninterp spec fn url_parse(input: Seq<char>) -> Option<(Seq<char>, Seq<char>, Seq<char>)>;

/// The parts of a parsed URL which are read here.
pub struct UrlParts {
    /// The scheme, such as `file` or `https`.
    pub scheme: String,
    /// The path.
    pub path: String,
    /// The whole URL, as the `url` crate writes it out.
    pub serialized: String,
}

impl UrlParts {
    /// The scheme, path and serialization, as text.
    pub open spec fn parts(&self) -> (Seq<char>, Seq<char>, Seq<char>) {
        (self.scheme@, self.path@, self.serialized@)
    }
}

/// Parses the text with `url::Url::parse` and gives the parsed URL's
/// scheme (`Url::scheme`), path (`Url::path`) and serialization
/// (`Url::as_str`); the result is named by [`url_parse`].
#[verifier::external_body]
pub(crate) fn parse_url(input: &str) -> (r: Option<UrlParts>)
    ensures
        match r {
            Some(u) => url_parse(input@) == Some(u.parts()),
            None => url_parse(input@) is None,
        },
{
    match url::Url::parse(input) {
        Ok(u) => Some(UrlParts { scheme: u.scheme().to_string(), path: u.path().to_string(), serialized: u.as_str().to_string() }),
        Err(_) => None,
    }
}

/// A path, as a URL: its text and its scheme.
pub struct NormalizedUrl {
    pub text: String,
    pub scheme: String,
}

/// The text `file://` followed by the path.
pub open spec fn file_uri_of(path: Seq<char>) -> Seq<char> {
    "file://"@ + path
}

/// Reads a path as a URL: as it is when it parses, else with `file://` in
/// front of it.
pub fn normalize_path_url(path: &str) -> (r: Result<NormalizedUrl, ManifestError>)
    ensures
        match url_parse(path@) {
            Some(u) => r matches Ok(n) && n.text@ == path@ && n.scheme@ == u.0,
            None => match url_parse(file_uri_of(path@)) {
                Some(u) => r matches Ok(n) && n.text@ == file_uri_of(path@) && n.scheme@ == u.0,
                None => r matches Err(ManifestError::InvalidFileUri { path: p }) && p@ == path@,
            },
        },
{
    match parse_url(path) {
        Some(u) => {
            return Ok(NormalizedUrl { text: path.to_string(), scheme: u.scheme });
        },
        None => {},
    }
    let prefix = "file://";
    proof {
        reveal_strlit("file://");
    }
    let text = prefix.to_string().concat(path);
    match parse_url(text.as_str()) {
        Some(u) => Ok(NormalizedUrl { text, scheme: u.scheme }),
        None => Err(ManifestError::InvalidFileUri { path: path.to_string() }),
    }
}

/// Accepts a package root only when its URL is a `file://` one.
pub fn check_root_scheme(url: &NormalizedUrl) -> (r: Result<(), ManifestError>)
    ensures
        url.scheme@ == "file"@ <==> r is Ok,
        r is Err ==> (r matches Err(ManifestError::UnsupportedScheme { scheme: s }) && s@ == url.scheme@),
{
    let file = "file";
    proof {
        reveal_strlit("file");
    }
    if crate::hir::path::str_eq(url.scheme.as_str(), file) {
        Ok(())
    } else {
        Err(ManifestError::UnsupportedScheme { scheme: url.scheme.clone() })
    }
}

/// The version requirement put on the standard library: the manifest's
/// requirement on the compiler, or any version (`*`) when it has none.
pub fn std_requirement(lume_version: Option<&str>) -> (r: String)
    ensures
        match lume_version {
            Some(req) => r@ == req@,
            None => r@ == "*"@,
        },
{
    match lume_version {
        Some(req) => req.to_string(),
        None => {
            let star = "*";
            proof {
                reveal_strlit("*");
            }
            star.to_string()
        },
    }
}

/// Checks that the running compiler's version satisfies the version which
/// the manifest requires, if it requires one.
pub fn verify_lume_version(required: Option<&str>, current: &PkgVersion) -> (r: Result<(), ManifestError>)
    ensures
        match required {
            None => r is Ok,
            Some(req) => match semver_req_matches(req@, current@) {
                Some(true) => r is Ok,
                Some(false) => r matches Err(ManifestError::IncompatibleLumeVersion { current: c, required: q })
                    && c@ == current@ && q@ == req@,
                None => r matches Err(ManifestError::InvalidVersionRequirement { required: q }) && q@ == req@,
            },
        },
{
    match required {
        None => Ok(()),
        Some(req) => match req_matches(req, current) {
            Some(true) => Ok(()),
            Some(false) => Err(
                ManifestError::IncompatibleLumeVersion { current: current.clone(), required: req.to_string() },
            ),
            None => Err(ManifestError::InvalidVersionRequirement { required: req.to_string() }),
        },
    }
}

} // verus!
