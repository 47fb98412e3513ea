//! What the program says of its versions.

use crate::text::{concat, concat3, opt_str, opt_text, or_text, own, trim, trimmed};
use vstd::prelude::*;

verus! {

/// The setting that stands in for the installed version in tests.
pub const TEST_VERSION_ENV: &'static str = "GROK_TEST_VERSION";

/// The product's name for its users.
pub const DISPLAY_NAME: &'static str = "Grok To Mars";

/// The versions that the program was built with and told of.
pub struct Versions {
    build: String,
    gtm: String,
    full: Option<String>,
    gtm_full: Option<String>,
    gtm_cli: bool,
}

/// The versions, as mathematics.
pub struct VersionFacts {
    pub build: Seq<char>,
    pub gtm: Seq<char>,
    pub full: Option<Seq<char>>,
    pub gtm_full: Option<Seq<char>>,
    pub gtm_cli: bool,
}

impl View for Versions {
    type V = VersionFacts;

    closed spec fn view(&self) -> VersionFacts {
        VersionFacts {
            build: self.build@,
            gtm: self.gtm@,
            full: opt_text(self.full),
            gtm_full: opt_text(self.gtm_full),
            gtm_cli: self.gtm_cli,
        }
    }
}

impl VersionFacts {
    /// The version with its commit, or the plain one.
    pub open spec fn full_version(self) -> Seq<char> {
        or_text(self.full, self.build)
    }

    /// The fork's version with its commit, or the plain one.
    pub open spec fn gtm_full_version(self) -> Seq<char> {
        or_text(self.gtm_full, self.gtm)
    }

    /// What `--version` prints.
    pub open spec fn text(self, label: Seq<char>) -> Seq<char> {
        if self.gtm_cli {
            "gtm "@ + self.gtm_full_version() + "\nGrok Build "@ + self.build + "\n"@
        } else {
            "grok "@ + (self.full_version() + label) + "\n"@
        }
    }

    /// The version in one line.
    pub open spec fn line(self, label: Seq<char>) -> Seq<char> {
        if self.gtm_cli {
            self.gtm_full_version() + " (Grok Build "@ + self.build + ")"@
        } else {
            self.full_version() + label
        }
    }

    /// With a value told that counts only if none was told before.
    pub open spec fn first_told(told: Option<Seq<char>>, v: Seq<char>) -> Option<Seq<char>> {
        match told {
            Some(s) => Some(s),
            None => Some(v),
        }
    }
}

/// The version with a channel's label behind it.
pub fn display_version_with_commit(version_with_commit: &str, channel_label: &str) -> (r: String)
    ensures
        r@ == version_with_commit@ + channel_label@,
{
    concat(version_with_commit, channel_label)
}

impl Versions {
    /// The versions that the program was built with: its own, and the text of
    /// the fork's.
    pub fn new(build: &str, gtm_raw: &str) -> (r: Versions)
        ensures
            r@ == (VersionFacts {
                build: build@,
                gtm: trimmed(gtm_raw@),
                full: None,
                gtm_full: None,
                gtm_cli: false,
            }),
    {
        Versions {
            build: own(build),
            gtm: trim(gtm_raw),
            full: None,
            gtm_full: None,
            gtm_cli: false,
        }
    }

    /// The version that the program was built as.
    pub fn version(&self) -> (r: &str)
        ensures
            r@ == self@.build,
    {
        self.build.as_str()
    }

    /// The fork's version.
    pub fn gtm_version(&self) -> (r: &str)
        ensures
            r@ == self@.gtm,
    {
        self.gtm.as_str()
    }

    /// Tells the version with its commit. Only the first one told counts.
    pub fn set_full_version(&mut self, v: &str)
        ensures
            final(self)@ == (VersionFacts {
                full: VersionFacts::first_told(old(self)@.full, v@),
                ..old(self)@
            }),
    {
        if self.full.is_none() {
            self.full = Some(own(v));
        }
    }

    /// The version with its commit, or the plain one.
    pub fn full_version(&self) -> (r: &str)
        ensures
            r@ == self@.full_version(),
    {
        match &self.full {
            Some(s) => s.as_str(),
            None => self.build.as_str(),
        }
    }

    /// Tells whether this is the fork's program.
    pub fn set_gtm_cli(&mut self, on: bool)
        ensures
            final(self)@ == (VersionFacts { gtm_cli: on, ..old(self)@ }),
    {
        self.gtm_cli = on;
    }

    /// Whether this is the fork's program.
    pub fn is_gtm_cli(&self) -> (r: bool)
        ensures
            r == self@.gtm_cli,
    {
        self.gtm_cli
    }

    /// Tells the fork's version with its commit. Only the first one told
    /// counts.
    pub fn set_gtm_full_version(&mut self, v: &str)
        ensures
            final(self)@ == (VersionFacts {
                gtm_full: VersionFacts::first_told(old(self)@.gtm_full, v@),
                ..old(self)@
            }),
    {
        if self.gtm_full.is_none() {
            self.gtm_full = Some(own(v));
        }
    }

    /// The fork's version with its commit, or the plain one.
    pub fn gtm_full_version(&self) -> (r: &str)
        ensures
            r@ == self@.gtm_full_version(),
    {
        match &self.gtm_full {
            Some(s) => s.as_str(),
            None => self.gtm.as_str(),
        }
    }

    /// What `--version` prints.
    pub fn product_version_text(&self, channel_label: &str) -> (r: String)
        ensures
            r@ == self@.text(channel_label@),
    {
        if self.gtm_cli {
            let mut out: String = concat("gtm ", self.gtm_full_version());
            out.push_str("\nGrok Build ");
            out.push_str(self.build.as_str());
            out.push_str("\n");
            out
        } else {
            let shown: String = display_version_with_commit(self.full_version(), channel_label);
            concat3("grok ", shown.as_str(), "\n")
        }
    }

    /// The version in one line.
    pub fn product_version_line(&self, channel_label: &str) -> (r: String)
        ensures
            r@ == self@.line(channel_label@),
    {
        if self.gtm_cli {
            let mut out: String = concat(self.gtm_full_version(), " (Grok Build ");
            out.push_str(self.build.as_str());
            out.push_str(")");
            out
        } else {
            display_version_with_commit(self.full_version(), channel_label)
        }
    }

    /// The installed version: what the setting says, trimmed, otherwise the
    /// one that the program was built as.
    pub fn installed(&self, setting: Option<&str>) -> (r: String)
        ensures
            r@ == installed_text(self@, opt_str(setting)),
    {
        match setting {
            Some(v) => trim(v),
            None => own(self.build.as_str()),
        }
    }

    /// The installed version, taken apart.
    pub fn installed_semver(&self, setting: Option<&str>) -> (r: Result<Semver, NotSemver>)
        ensures
            match r {
                Ok(v) => semver_of(installed_text(self@, opt_str(setting))) == Some(v@),
                Err(e) => {
                    &&& semver_of(installed_text(self@, opt_str(setting))) is None
                    &&& e.text@ == installed_text(self@, opt_str(setting))
                },
            },
    {
        parse_semver(self.installed(setting).as_str())
    }

    /// The version that the program was built as, with a channel's label
    /// behind it.
    pub fn display_version(&self, channel_label: &str) -> (r: String)
        ensures
            r@ == self@.build + channel_label@,
    {
        concat(self.build.as_str(), channel_label)
    }
}

/// The installed version: what the setting says, trimmed, otherwise the one
/// that the program was built as.
pub open spec fn installed_text(v: VersionFacts, setting: Option<Seq<char>>) -> Seq<char> {
    match setting {
        Some(s) => trimmed(s),
        None => v.build,
    }
}

/// Whichever two versions are told one after the other, the first one stays.
pub proof fn first_version_told_wins(told: Option<Seq<char>>, first: Seq<char>, second: Seq<char>)
    ensures
        VersionFacts::first_told(VersionFacts::first_told(told, first), second)
            == VersionFacts::first_told(told, first),
        told is None ==> VersionFacts::first_told(told, first) == Some(first),
{
}

/// A version, taken apart.
pub struct Semver {
    pub major: u64,
    pub minor: u64,
    pub patch: u64,
    pub pre: String,
    pub build: String,
}

/// A version, taken apart, as mathematics.
pub struct SemverParts {
    pub major: u64,
    pub minor: u64,
    pub patch: u64,
    pub pre: Seq<char>,
    pub build: Seq<char>,
}

impl View for Semver {
    type V = SemverParts;

    open spec fn view(&self) -> SemverParts {
        SemverParts {
            major: self.major,
            minor: self.minor,
            patch: self.patch,
            pre: self.pre@,
            build: self.build@,
        }
    }
}

/// A text that is no version.
pub struct NotSemver {
    pub text: String,
}

/// semver's own error.
#[verifier::external_type_specification]
#[verifier::external_body]
pub struct ExSemverError(semver::Error);

/// The version that semver reads from a text, if it accepts it.
pub uninterp spec fn semver_of(text: Seq<char>) -> Option<SemverParts>;

/// `semver::Version::parse`: takes a version apart. What it accepts and gives
/// is a function of the text alone.
#[verifier::external_body]
fn read_semver(text: &str) -> (r: Result<Semver, semver::Error>)
    ensures
        match r {
            Ok(v) => semver_of(text@) == Some(v@),
            Err(_) => semver_of(text@) is None,
        },
{
    semver::Version::parse(text).map(
        |v| Semver {
            major: v.major,
            minor: v.minor,
            patch: v.patch,
            pre: v.pre.to_string(),
            build: v.build.to_string(),
        },
    )
}

/// A version, taken apart.
pub fn parse_semver(text: &str) -> (r: Result<Semver, NotSemver>)
    ensures
        match r {
            Ok(v) => semver_of(text@) == Some(v@),
            Err(e) => semver_of(text@) is None && e.text@ == text@,
        },
{
    match read_semver(text) {
        Ok(v) => Ok(v),
        Err(_) => Err(NotSemver { text: own(text) }),
    }
}

} // verus!
