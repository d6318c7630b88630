//! Semantic versions and version requirements.
use vstd::prelude::*;

verus! {

/// A semantic version, `major.minor.patch-pre+build`.
#[derive(Debug)]
pub struct PkgVersion {
    pub major: u64,
    pub minor: u64,
    pub patch: u64,
    /// Pre-release identifiers, without the leading `-`; empty if none.
    pub pre: String,
    /// Build metadata, without the leading `+`; empty if none.
    pub build: String,
}

/// Mathematical model of a [`PkgVersion`].
pub struct VersionView {
    pub major: u64,
    pub minor: u64,
    pub patch: u64,
    pub pre: Seq<char>,
    pub build: Seq<char>,
}

impl View for PkgVersion {
    type V = VersionView;

    open spec fn view(&self) -> VersionView {
        VersionView {
            major: self.major,
            minor: self.minor,
            patch: self.patch,
            pre: self.pre@,
            build: self.build@,
        }
    }
}

impl Clone for PkgVersion {
    fn clone(&self) -> (r: Self)
        ensures
            r@ == self@,
    {
        PkgVersion {
            major: self.major,
            minor: self.minor,
            patch: self.patch,
            pre: self.pre.clone(),
            build: self.build.clone(),
        }
    }
}

impl PkgVersion {
    /// The version `major.minor.patch`, without pre-release or build
    /// metadata.
    pub fn new(major: u64, minor: u64, patch: u64) -> (r: PkgVersion)
        ensures
            r@ == (VersionView { major, minor, patch, pre: Seq::empty(), build: Seq::empty() }),
    {
        PkgVersion { major, minor, patch, pre: String::new(), build: String::new() }
    }

    /// The model of version `0.0.0`.
    pub open spec fn zero_view() -> VersionView {
        VersionView { major: 0, minor: 0, patch: 0, pre: Seq::empty(), build: Seq::empty() }
    }

    /// Whether both versions are identical, build metadata included.
    pub fn same(&self, other: &PkgVersion) -> (r: bool)
        ensures
            r == (self@ == other@),
    {
        self.major == other.major && self.minor == other.minor && self.patch == other.patch
            && self.pre == other.pre && self.build == other.build
    }
}

/// Whether `(major, minor, patch)` of `a` orders before that of `b`,
/// field by field.
pub open spec fn numeric_precedes(a: VersionView, b: VersionView) -> bool {
    ||| a.major < b.major
    ||| a.major == b.major && a.minor < b.minor
    ||| a.major == b.major && a.minor == b.minor && a.patch < b.patch
}

/// Whether both versions carry the same `(major, minor, patch)`.
pub open spec fn same_numbers(a: VersionView, b: VersionView) -> bool {
    a.major == b.major && a.minor == b.minor && a.patch == b.patch
}

/// Whether `a` orders before `b` in the total order of the `semver` crate.
pub uninterp spec fn semver_precedes(a: VersionView, b: VersionView) -> bool;

/// Whether the version requirement `req` parses and admits `v`, as decided
/// by the `semver` crate; `None` when `req` is not a valid requirement.
pub uninterp spec fn semver_req_matches(req: Seq<char>, v: VersionView) -> Option<bool>;

/// A version of the `semver` crate.
#[verifier::external_type_specification]
#[verifier::external_body]
pub struct ExSemverVersion(semver::Version);

/// Builds the `semver` version with the same fields; pre-release or build
/// text that `semver` rejects is left empty.
#[verifier::external_body]
fn to_semver(v: &PkgVersion) -> (r: semver::Version) {
    semver::Version {
        major: v.major,
        minor: v.minor,
        patch: v.patch,
        pre: match semver::Prerelease::new(&v.pre) {
            Ok(p) => p,
            Err(_) => semver::Prerelease::EMPTY,
        },
        build: match semver::BuildMetadata::new(&v.build) {
            Ok(b) => b,
            Err(_) => semver::BuildMetadata::EMPTY,
        },
    }
}

/// Compares two versions with `semver::Version`'s `Ord`, which compares
/// the fields in order: major, minor, patch, pre-release, build metadata.
/// The contract names the result; it states that the order is irreflexive
/// and asymmetric, as `Ord` documents, and that versions with different
/// `(major, minor, patch)` compare by those numbers. How pre-release and
/// build metadata compare is not written out.
#[verifier::external_body]
pub(crate) fn version_precedes(a: &PkgVersion, b: &PkgVersion) -> (r: bool)
    ensures
        r == semver_precedes(a@, b@),
        r ==> !semver_precedes(b@, a@),
        a@ == b@ ==> !r,
        !same_numbers(a@, b@) ==> r == numeric_precedes(a@, b@),
{
    to_semver(a) < to_semver(b)
}

/// Parses `req` with `semver::VersionReq::parse` and evaluates
/// `VersionReq::matches` on `v`; the result is named by
/// [`semver_req_matches`].
#[verifier::external_body]
pub(crate) fn req_matches(req: &str, v: &PkgVersion) -> (r: Option<bool>)
    ensures
        r == semver_req_matches(req@, v@),
{
    match semver::VersionReq::parse(req) {
        Ok(parsed) => Some(parsed.matches(&to_semver(v))),
        Err(_) => None,
    }
}

/// The version which `semver::Version::parse` reads from the text, with
/// its pre-release and build metadata as text; `None` when the text is no
/// valid version.
pub uninterp spec fn semver_parse(text: Seq<char>) -> Option<VersionView>;

/// Reads a version with `semver::Version::parse`; the result is named by
/// [`semver_parse`].
#[verifier::external_body]
fn semver_parse_version(text: &str) -> (r: Option<PkgVersion>)
    ensures
        match r {
            Some(v) => semver_parse(text@) == Some(v@),
            None => semver_parse(text@) is None,
        },
{
    match semver::Version::parse(text) {
        Ok(v) => Some(PkgVersion {
            major: v.major,
            minor: v.minor,
            patch: v.patch,
            pre: v.pre.as_str().to_string(),
            build: v.build.as_str().to_string(),
        }),
        Err(_) => None,
    }
}

/// Reads a version such as `1.2.3-alpha.1+build.5`, as the `semver` crate
/// reads it; `None` when the text is no valid version.
pub fn parse_version(text: &str) -> (r: Option<PkgVersion>)
    ensures
        match r {
            Some(v) => semver_parse(text@) == Some(v@),
            None => semver_parse(text@) is None,
        },
{
    semver_parse_version(text)
}

/// The decimal digit `d`.
pub open spec fn digit_char(d: nat) -> char {
    if d == 0 {
        '0'
    } else if d == 1 {
        '1'
    } else if d == 2 {
        '2'
    } else if d == 3 {
        '3'
    } else if d == 4 {
        '4'
    } else if d == 5 {
        '5'
    } else if d == 6 {
        '6'
    } else if d == 7 {
        '7'
    } else if d == 8 {
        '8'
    } else {
        '9'
    }
}

/// The decimal text of a number, without leading zeros.
pub open spec fn decimal(n: nat) -> Seq<char>
    decreases n,
{
    if n < 10 {
        seq![digit_char(n)]
    } else {
        decimal(n / 10).push(digit_char(n % 10))
    }
}

/// The text of a version as `semver::Version` writes it: the three numbers
/// joined by `.`, then `-` and the pre-release identifiers and `+` and the
/// build metadata, each only when there are some.
pub open spec fn version_text(v: VersionView) -> Seq<char> {
    decimal(v.major as nat) + "."@ + decimal(v.minor as nat) + "."@ + decimal(v.patch as nat) + (if v.pre.len() > 0 {
        "-"@ + v.pre
    } else {
        Seq::empty()
    }) + (if v.build.len() > 0 {
        "+"@ + v.build
    } else {
        Seq::empty()
    })
}

/// The text of one decimal digit.
fn digit_text(d: u64) -> (r: &'static str)
    requires
        d < 10,
    ensures
        r@ == seq![digit_char(d as nat)],
{
    match d {
        0 => {
            proof {
                reveal_strlit("0");
            }
            "0"
        },
        1 => {
            proof {
                reveal_strlit("1");
            }
            "1"
        },
        2 => {
            proof {
                reveal_strlit("2");
            }
            "2"
        },
        3 => {
            proof {
                reveal_strlit("3");
            }
            "3"
        },
        4 => {
            proof {
                reveal_strlit("4");
            }
            "4"
        },
        5 => {
            proof {
                reveal_strlit("5");
            }
            "5"
        },
        6 => {
            proof {
                reveal_strlit("6");
            }
            "6"
        },
        7 => {
            proof {
                reveal_strlit("7");
            }
            "7"
        },
        8 => {
            proof {
                reveal_strlit("8");
            }
            "8"
        },
        _ => {
            proof {
                reveal_strlit("9");
            }
            "9"
        },
    }
}

/// The decimal text of a number.
fn decimal_text(n: u64) -> (r: String)
    ensures
        r@ == decimal(n as nat),
    decreases n,
{
    if n < 10 {
        digit_text(n).to_string()
    } else {
        let head = decimal_text(n / 10);
        let r = head.concat(digit_text(n % 10));
        proof {
            assert(r@ =~= decimal(n as nat));
        }
        r
    }
}

impl PkgVersion {
    /// The text of the version, as `semver::Version` writes it.
    pub fn to_string(&self) -> (r: String)
        ensures
            r@ == version_text(self@),
    {
        let dot = ".";
        let dash = "-";
        let plus = "+";
        proof {
            reveal_strlit(".");
            reveal_strlit("-");
            reveal_strlit("+");
        }
        let mut r = decimal_text(self.major).concat(dot);
        r = r.concat(decimal_text(self.minor).as_str());
        r = r.concat(dot);
        r = r.concat(decimal_text(self.patch).as_str());
        let ghost numbers = r@;
        if self.pre.as_str().unicode_len() > 0 {
            r = r.concat(dash);
            r = r.concat(self.pre.as_str());
        }
        let ghost with_pre = r@;
        if self.build.as_str().unicode_len() > 0 {
            r = r.concat(plus);
            r = r.concat(self.build.as_str());
        }
        proof {
            assert(r@ =~= version_text(self@));
        }
        r
    }
}

} // verus!
