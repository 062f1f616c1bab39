//! Release versions and the release train: which versions are stable, which
//! one is in beta, and which are still nightly.

use vstd::prelude::*;
use crate::data::DataError;
use crate::text::{decimal_u32, find_char, first_index_of, parse_u32};

verus! {

/// A release: major and minor version, ordered by major, then minor.
#[derive(Clone, Copy, Debug, PartialEq, Eq, Structural, PartialOrd, Ord, Hash)]
pub struct RustcVersion {
    pub major: u32,
    pub minor: u32,
}

/// `a` is released no later than `b`.
pub open spec fn version_le(a: RustcVersion, b: RustcVersion) -> bool {
    a.major < b.major || (a.major == b.major && a.minor <= b.minor)
}

/// A number of the version grammar: one or more ASCII digits that fit a `u32`.
pub open spec fn plain_u32(s: Seq<char>) -> Option<u32> {
    if s.len() > 0 && s[0] == '+' {
        None
    } else {
        decimal_u32(s)
    }
}

/// `<major>.<minor>`, both plain numbers, and nothing else.
pub open spec fn rustc_version_of(s: Seq<char>) -> Option<RustcVersion> {
    match first_index_of(s, '.') {
        Some(i) => match (plain_u32(s.subrange(0, i)), plain_u32(s.subrange(i + 1, s.len() as int))) {
            (Some(major), Some(minor)) => Some(RustcVersion { major, minor }),
            _ => None,
        },
        None => None,
    }
}

/// The day number of 2015-12-11, when 1.5 was the stable release.
pub const EPOCH_DAY: i32 = 735943;

/// The day number of the earliest date for which a stable minor version exists.
pub const FIRST_DAY: i32 = 735733;

/// Releases come every six weeks.
pub const RELEASE_DAYS: i64 = 42;

/// Counts the days of the proleptic Gregorian calendar, 0001-01-01 being day 1,
/// as chrono does; `None` where there is no such date.
pub uninterp spec fn day_number(year: i32, month: u32, day: u32) -> Option<i32>;

/// Relies on chrono's `NaiveDate::from_ymd_opt`, which makes a date when the
/// calendar has it, and `Datelike::num_days_from_ce`, which numbers that date.
#[verifier::external_body]
fn days_from_ce(year: i32, month: u32, day: u32) -> (r: Option<i32>)
    ensures
        r == day_number(year, month, day),
{
    chrono::NaiveDate::from_ymd_opt(year, month, day).map(|d| chrono::Datelike::num_days_from_ce(&d))
}

/// A calendar date, held as its day number.
#[derive(Clone, Copy, Debug, PartialEq, Eq, Structural)]
pub struct Date {
    pub day_number: i32,
}

impl Date {
    /// The date of a year, month and day, if the calendar has it.
    pub fn from_ymd(year: i32, month: u32, day: u32) -> (r: Option<Date>)
        ensures
            r is Some <==> day_number(year, month, day) is Some,
            r matches Some(d) ==> day_number(year, month, day) == Some(d.day_number),
    {
        match days_from_ce(year, month, day) {
            Some(n) => Some(Date { day_number: n }),
            None => None,
        }
    }
}

impl RustcVersion {
    /// Reads `<major>.<minor>`.
    pub fn parse(s: &str) -> (r: Result<RustcVersion, DataError>)
        ensures
            rustc_version_of(s@) matches Some(v) ==> r == Ok::<RustcVersion, DataError>(v),
            rustc_version_of(s@) is None ==> r == Err::<RustcVersion, DataError>(DataError::MalformedVersion),
    {
        let n = s.unicode_len();
        let dot = match find_char(s, '.') {
            Some(d) => d,
            None => return Err(DataError::MalformedVersion),
        };
        let head = s.substring_char(0, dot);
        let tail = s.substring_char(dot + 1, n);
        let major = match parse_plain_u32(head) {
            Some(m) => m,
            None => return Err(DataError::MalformedVersion),
        };
        let minor = match parse_plain_u32(tail) {
            Some(m) => m,
            None => return Err(DataError::MalformedVersion),
        };
        Ok(RustcVersion { major, minor })
    }

    /// The stable release on a date: 1.5 on 2015-12-11, one minor version more
    /// every six weeks.
    pub fn stable_at(date: Date) -> (r: RustcVersion)
        requires
            date.day_number >= FIRST_DAY,
        ensures
            r.major == 1,
            r.minor == 5 + (date.day_number - EPOCH_DAY) / (RELEASE_DAYS as int),
    {
        let since_first = (date.day_number as i64 - FIRST_DAY as i64) as u64;
        let minor = since_first / (RELEASE_DAYS as u64);
        let ghost d = date.day_number - EPOCH_DAY;
        assert(d + 210 == since_first);
        assert((d + 210) / 42 == 5 + d / 42) by (nonlinear_arith);
        RustcVersion { major: 1, minor: minor as u32 }
    }

    /// Whether this version is released no later than `other`.
    pub fn le(&self, other: &RustcVersion) -> (r: bool)
        ensures
            r == version_le(*self, *other),
    {
        self.major < other.major || (self.major == other.major && self.minor <= other.minor)
    }
}

impl std::str::FromStr for RustcVersion {
    type Err = DataError;

    fn from_str(s: &str) -> Result<RustcVersion, DataError> {
        RustcVersion::parse(s)
    }
}

fn parse_plain_u32(s: &str) -> (r: Option<u32>)
    ensures
        r == plain_u32(s@),
{
    if s.unicode_len() > 0 && s.get_char(0) == '+' {
        return None;
    }
    parse_u32(s)
}

/// Whether a version, as the feature data writes it, is released by `current_stable`.
pub fn in_stable(version: &str, current_stable: RustcVersion) -> (r: Result<bool, DataError>)
    ensures
        rustc_version_of(version@) matches Some(v) ==> r == Ok::<bool, DataError>(version_le(v, current_stable)),
        rustc_version_of(version@) is None ==> r == Err::<bool, DataError>(DataError::MalformedVersion),
{
    let v = RustcVersion::parse(version)?;
    Ok(v.le(&current_stable))
}

/// Whether a version, as the feature data writes it, is the one after `current_stable`.
pub fn in_beta(version: &str, current_stable: RustcVersion) -> (r: Result<bool, DataError>)
    requires
        current_stable.minor < u32::MAX,
    ensures
        rustc_version_of(version@) matches Some(v) ==> r == Ok::<bool, DataError>(
            v.major == current_stable.major && v.minor == current_stable.minor + 1,
        ),
        rustc_version_of(version@) is None ==> r == Err::<bool, DataError>(DataError::MalformedVersion),
{
    let v = RustcVersion::parse(version)?;
    let beta = RustcVersion { major: current_stable.major, minor: current_stable.minor + 1 };
    Ok(v == beta)
}

/// Where a version stands on the release train.
#[derive(Clone, Copy, Debug, PartialEq, Eq, Structural)]
pub enum VersionState {
    Stable,
    Beta,
    Nightly,
}

/// Released by `current_stable`: stable; the release after it: beta; later: nightly.
pub open spec fn state_of(current_stable: RustcVersion, target: RustcVersion) -> VersionState {
    if version_le(target, current_stable) {
        VersionState::Stable
    } else if target.major < current_stable.major || (target.major == current_stable.major && target.minor
        <= current_stable.minor + 1) {
        VersionState::Beta
    } else {
        VersionState::Nightly
    }
}

impl VersionState {
    /// Places `target` on the release train whose stable release is `current_stable`.
    pub fn classify(current_stable: RustcVersion, target: RustcVersion) -> (r: VersionState)
        ensures
            r == state_of(current_stable, target),
    {
        if target.le(&current_stable) {
            VersionState::Stable
        } else if target.major < current_stable.major || (target.major == current_stable.major
            && target.minor as u64 <= current_stable.minor as u64 + 1) {
            VersionState::Beta
        } else {
            VersionState::Nightly
        }
    }
}

/// semver's parse error; it is only carried until it is mapped to `DataError`.
#[verifier::external_type_specification]
#[verifier::external_body]
pub struct ExSemverError(semver::Error);

/// A version as semver reads it: three numbers, then pre-release and build text.
#[derive(Debug, PartialEq, Eq)]
pub struct SemVer {
    pub major: u64,
    pub minor: u64,
    pub patch: u64,
    pub pre: String,
    pub build: String,
}

/// What semver reads from a string: major, minor, patch, pre-release, build.
pub uninterp spec fn semver_parse(s: Seq<char>) -> Option<(u64, u64, u64, Seq<char>, Seq<char>)>;

/// Relies on semver's `Version::parse`: it reads a version or fails, and its
/// result depends on the text alone.
#[verifier::external_body]
fn parse_semver(s: &str) -> (r: Result<SemVer, semver::Error>)
    ensures
        r is Ok <==> semver_parse(s@) is Some,
        r matches Ok(v) ==> semver_parse(s@) == Some((v.major, v.minor, v.patch, v.pre@, v.build@)),
{
    semver::Version::parse(s).map(
        |v| SemVer {
            major: v.major,
            minor: v.minor,
            patch: v.patch,
            pre: v.pre.as_str().to_string(),
            build: v.build.as_str().to_string(),
        },
    )
}

/// The release that a semver version names: one without pre-release or build
/// text, whose major and minor fit a `u32`.
pub open spec fn release_of(t: (u64, u64, u64, Seq<char>, Seq<char>)) -> Option<RustcVersion> {
    if t.3.len() == 0 && t.4.len() == 0 && t.0 <= u32::MAX && t.1 <= u32::MAX {
        Some(RustcVersion { major: t.0 as u32, minor: t.1 as u32 })
    } else {
        None
    }
}

/// The release that a version string names, when semver reads it as one.
pub open spec fn release_of_text(s: Seq<char>) -> Result<RustcVersion, DataError> {
    match semver_parse(s) {
        Some(t) => match release_of(t) {
            Some(v) => Ok(v),
            None => Err(DataError::MalformedVersion),
        },
        None => Err(DataError::MalformedVersion),
    }
}

impl SemVer {
    /// The release this version names, if it is a plain release.
    pub fn release(&self) -> (r: Result<RustcVersion, DataError>)
        ensures
            release_of((self.major, self.minor, self.patch, self.pre@, self.build@)) matches Some(v) ==> r
                == Ok::<RustcVersion, DataError>(v),
            release_of((self.major, self.minor, self.patch, self.pre@, self.build@)) is None ==> r
                == Err::<RustcVersion, DataError>(DataError::MalformedVersion),
    {
        if !self.pre.as_str().is_empty() || !self.build.as_str().is_empty() {
            return Err(DataError::MalformedVersion);
        }
        if self.major > u32::MAX as u64 || self.minor > u32::MAX as u64 {
            return Err(DataError::MalformedVersion);
        }
        Ok(RustcVersion { major: self.major as u32, minor: self.minor as u32 })
    }
}

fn release_from_text(s: &str) -> (r: Result<RustcVersion, DataError>)
    ensures
        r == release_of_text(s@),
{
    match parse_semver(s) {
        Ok(v) => v.release(),
        Err(_) => Err(DataError::MalformedVersion),
    }
}

impl RustcVersion {
    /// The release that a tag of the compiler repository names (`1.39.0`).
    pub fn from_tag(tag: &str) -> (r: Result<RustcVersion, DataError>)
        ensures
            r == release_of_text(tag@),
    {
        release_from_text(tag)
    }
}

/// Where a stabilization version (`<major>.<minor>`, read with a `.0` patch
/// appended) stands when `current_stable` is the stable release.
pub open spec fn version_state(current_stable: RustcVersion, version: Seq<char>) -> Result<VersionState, DataError> {
    match release_of_text(version + ".0"@) {
        Ok(target) => Ok(state_of(current_stable, target)),
        Err(e) => Err(e),
    }
}

pub fn get_version_state(current_stable: RustcVersion, version: &str) -> (r: Result<VersionState, DataError>)
    ensures
        r == version_state(current_stable, version@),
{
    let mut full = String::from_str(version);
    full.append(".0");
    let target = release_from_text(full.as_str())?;
    Ok(VersionState::classify(current_stable, target))
}

} // verus!
