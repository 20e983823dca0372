//! The update lifecycle: comparing the running version with a published one,
//! the single phase that owns update progress, and the parsed manifest.

use vstd::prelude::*;
use vstd::string::StringExecFns;

use semver::Version;

use crate::text::chars_eq;
use crate::text::chars_of;

verus! {

/// `semver::Version`, carried through the lifecycle as an opaque value.
#[verifier::external_type_specification]
#[verifier::external_body]
pub struct ExVersion(semver::Version);

/// How two versions compare.
#[derive(Debug, Clone, Copy, PartialEq, Eq, Structural)]
pub enum VersionOrder {
    Less,
    Equal,
    Greater,
}

/// The opposite order: how `b` compares with `a` when `a` compares with `b`
/// as `o`.
pub open spec fn reversed(o: VersionOrder) -> VersionOrder {
    match o {
        VersionOrder::Less => VersionOrder::Greater,
        VersionOrder::Equal => VersionOrder::Equal,
        VersionOrder::Greater => VersionOrder::Less,
    }
}

/// How `semver` orders the versions it parses from two texts: SemVer
/// precedence (major, minor and patch numerically, a pre-release before its
/// release, pre-release identifiers field by field), then build metadata.
pub uninterp spec fn semver_order(a: Seq<char>, b: Seq<char>) -> VersionOrder;

/// A semantic version and the text `semver` parsed it from. Only
/// [`SemVersion::parse`] makes one, so the version is always the parse of
/// the text.
#[derive(Debug, PartialEq, Eq)]
pub struct SemVersion {
    text: String,
    version: Version,
}

impl View for SemVersion {
    type V = Seq<char>;

    closed spec fn view(&self) -> Seq<char> {
        self.text@
    }
}

impl Clone for SemVersion {
    fn clone(&self) -> (r: SemVersion)
        ensures
            r == *self,
    {
        SemVersion { text: self.text.clone(), version: self.version.clone() }
    }
}

/// `Ord::cmp` of the two `semver::Version`s, derived over major, minor,
/// patch, pre-release (a release after its pre-releases) and build metadata.
/// The result is named by the texts the versions were parsed from; `Ord`
/// makes it the reverse of comparing the other way round, and a text
/// compares equal to itself.
#[verifier::external_body]
fn version_order(a: &SemVersion, b: &SemVersion) -> (r: VersionOrder)
    ensures
        r == semver_order(a@, b@),
        semver_order(b@, a@) == reversed(r),
        a@ == b@ ==> r == VersionOrder::Equal,
{
    match a.version.cmp(&b.version) {
        std::cmp::Ordering::Less => VersionOrder::Less,
        std::cmp::Ordering::Equal => VersionOrder::Equal,
        std::cmp::Ordering::Greater => VersionOrder::Greater,
    }
}

/// `Clone::clone` of `semver::Version`, derived, so it copies every field and
/// the clone is the same version.
pub assume_specification[ <semver::Version as core::clone::Clone>::clone ](v: &semver::Version) -> (r:
    semver::Version)
    ensures
        r == *v,
;

/// Why a version string was rejected; carries `semver`'s message.
#[derive(Debug, Clone, PartialEq, Eq)]
pub struct VersionError(pub String);

/// Whether `semver::Version::parse` accepts the text: exactly three
/// dot-separated numbers without leading zeros, optionally followed by a
/// pre-release and build metadata.
pub uninterp spec fn semver_accepts(text: Seq<char>) -> bool;

/// `semver::Version::parse`. Whether it succeeds is a function of the text
/// alone and is named; the version keeps the text it came from.
#[verifier::external_body]
fn parse_version(text: &str) -> (r: Result<SemVersion, VersionError>)
    ensures
        r is Ok <==> semver_accepts(text@),
        r matches Ok(v) ==> v@ == text@,
{
    match Version::parse(text) {
        Ok(v) => Ok(SemVersion { text: text.to_string(), version: v }),
        Err(e) => Err(VersionError(e.to_string())),
    }
}

impl SemVersion {
    /// Parses a semantic version; it fails exactly on the texts `semver`
    /// rejects, and keeps the text.
    pub fn parse(text: &str) -> (r: Result<SemVersion, VersionError>)
        ensures
            r is Ok <==> semver_accepts(text@),
            r matches Ok(v) ==> v@ == text@,
    {
        parse_version(text)
    }

    /// The text the version was parsed from.
    pub fn text(&self) -> (r: &str)
        ensures
            r@ == self@,
    {
        self.text.as_str()
    }

    /// The `semver` version held beside the text.
    pub closed spec fn parsed(&self) -> Version {
        self.version
    }

    /// The version itself: the one held beside the text.
    pub fn version(&self) -> (r: &Version)
        ensures
            *r == self.parsed(),
    {
        &self.version
    }
}

/// The action implied by comparing the running and published versions.
#[derive(Debug, Clone, PartialEq, Eq)]
pub enum Decision {
    UpToDate,
    UpdateAvailable { version: SemVersion },
    /// The running build is newer than the newest release.
    Ahead,
}

/// The decision for a given comparison of the running version with the
/// newest one: older is an update, equal is up to date, newer is ahead.
pub open spec fn decision_spec(order: VersionOrder, latest: SemVersion) -> Decision {
    match order {
        VersionOrder::Less => Decision::UpdateAvailable { version: latest },
        VersionOrder::Equal => Decision::UpToDate,
        VersionOrder::Greater => Decision::Ahead,
    }
}

/// The decision once the versions have been compared.
pub fn decision_for(order: VersionOrder, latest: &SemVersion) -> (r: Decision)
    ensures
        r == decision_spec(order, *latest),
{
    match order {
        VersionOrder::Less => Decision::UpdateAvailable { version: latest.clone() },
        VersionOrder::Equal => Decision::UpToDate,
        VersionOrder::Greater => Decision::Ahead,
    }
}

/// Compares the running version with the newest published version: an
/// update is offered exactly when the running version precedes the newest
/// one, so a newer running build is never offered a downgrade; equal
/// versions are up to date and a newer build is ahead.
pub fn decide(current: &SemVersion, latest: &SemVersion) -> (r: Decision)
    ensures
        r == decision_spec(semver_order(current@, latest@), *latest),
        current@ == latest@ ==> r == Decision::UpToDate,
{
    let order = version_order(current, latest);
    decision_for(order, latest)
}

/// The single source of truth for update progress.
#[derive(Debug, Clone, PartialEq, Eq)]
pub enum UpdatePhase {
    Idle,
    Checking,
    UpToDate,
    Available { version: SemVersion },
    Failed { reason: String },
    Downloading,
    ReadyToInstall,
    Quiescing,
    Installing,
}

/// Why a check was requested.
#[derive(Debug, Clone, Copy, PartialEq, Eq, Structural)]
pub enum CheckSource {
    Manual,
    Scheduled,
}

/// Inputs accepted by the update state machine.
#[derive(Debug, Clone, PartialEq, Eq)]
pub enum Event {
    CheckRequested(CheckSource),
    CheckCompleted(Decision),
    CheckFailed(String),
    Dismiss,
    Confirm,
    DownloadCompleted,
    BeginQuiescing,
    BeginInstalling,
    Cancel,
    Quit,
}

/// The transition of the lifecycle; every event that does not apply to the
/// current phase leaves it unchanged.
pub open spec fn reduce_spec(phase: UpdatePhase, event: Event) -> UpdatePhase {
    match (phase, event) {
        (UpdatePhase::Idle, Event::CheckRequested(_)) => UpdatePhase::Checking,
        (UpdatePhase::Checking, Event::CheckCompleted(Decision::UpToDate)) => UpdatePhase::UpToDate,
        (UpdatePhase::Checking, Event::CheckCompleted(Decision::Ahead)) => UpdatePhase::UpToDate,
        (UpdatePhase::Checking, Event::CheckCompleted(Decision::UpdateAvailable { version })) => {
            UpdatePhase::Available { version }
        },
        (UpdatePhase::Checking, Event::CheckFailed(reason)) => UpdatePhase::Failed { reason },
        (UpdatePhase::UpToDate, Event::Dismiss) => UpdatePhase::Idle,
        (UpdatePhase::Available { .. }, Event::Dismiss) => UpdatePhase::Idle,
        (UpdatePhase::Failed { .. }, Event::Dismiss) => UpdatePhase::Idle,
        (UpdatePhase::Available { .. }, Event::Confirm) => UpdatePhase::Downloading,
        (UpdatePhase::Downloading, Event::DownloadCompleted) => UpdatePhase::ReadyToInstall,
        (UpdatePhase::ReadyToInstall, Event::BeginQuiescing) => UpdatePhase::Quiescing,
        (UpdatePhase::Quiescing, Event::BeginInstalling) => UpdatePhase::Installing,
        (UpdatePhase::Downloading, Event::Cancel) => UpdatePhase::Idle,
        (UpdatePhase::Downloading, Event::Quit) => UpdatePhase::Idle,
        (phase, _) => phase,
    }
}

/// Applies one event. Invalid or duplicate events are no-ops.
pub fn reduce(phase: UpdatePhase, event: Event) -> (r: UpdatePhase)
    ensures
        r == reduce_spec(phase, event),
{
    match (phase, event) {
        (UpdatePhase::Idle, Event::CheckRequested(_)) => UpdatePhase::Checking,
        (UpdatePhase::Checking, Event::CheckCompleted(Decision::UpToDate)) => UpdatePhase::UpToDate,
        (UpdatePhase::Checking, Event::CheckCompleted(Decision::Ahead)) => UpdatePhase::UpToDate,
        (UpdatePhase::Checking, Event::CheckCompleted(Decision::UpdateAvailable { version })) => {
            UpdatePhase::Available { version }
        },
        (UpdatePhase::Checking, Event::CheckFailed(reason)) => UpdatePhase::Failed { reason },
        (UpdatePhase::UpToDate, Event::Dismiss) => UpdatePhase::Idle,
        (UpdatePhase::Available { .. }, Event::Dismiss) => UpdatePhase::Idle,
        (UpdatePhase::Failed { .. }, Event::Dismiss) => UpdatePhase::Idle,
        (UpdatePhase::Available { .. }, Event::Confirm) => UpdatePhase::Downloading,
        (UpdatePhase::Downloading, Event::DownloadCompleted) => UpdatePhase::ReadyToInstall,
        (UpdatePhase::ReadyToInstall, Event::BeginQuiescing) => UpdatePhase::Quiescing,
        (UpdatePhase::Quiescing, Event::BeginInstalling) => UpdatePhase::Installing,
        (UpdatePhase::Downloading, Event::Cancel) => UpdatePhase::Idle,
        (UpdatePhase::Downloading, Event::Quit) => UpdatePhase::Idle,
        (phase, _) => phase,
    }
}

/// Checks cannot overlap: a check request only starts a check from idle, and
/// in any other phase, a running check included, it changes nothing.
pub proof fn lemma_checks_never_overlap(phase: UpdatePhase, source: CheckSource)
    ensures
        phase == UpdatePhase::Idle ==> reduce_spec(phase, Event::CheckRequested(source))
            == UpdatePhase::Checking,
        phase != UpdatePhase::Idle ==> reduce_spec(phase, Event::CheckRequested(source)) == phase,
{
}

/// Only a running check can be completed or failed, so a stale result never
/// advances a newer operation.
pub proof fn lemma_results_only_complete_a_check(phase: UpdatePhase, event: Event)
    requires
        phase != UpdatePhase::Checking,
        event is CheckCompleted || event is CheckFailed,
    ensures
        reduce_spec(phase, event) == phase,
{
}

/// Installation is reached only through the full sequence: a confirmed
/// download completes, the app quiesces, then installs.
pub proof fn lemma_install_requires_quiescing(phase: UpdatePhase, event: Event)
    requires
        reduce_spec(phase, event) == UpdatePhase::Installing,
        phase != UpdatePhase::Installing,
    ensures
        phase == UpdatePhase::Quiescing,
        event == Event::BeginInstalling,
{
}

/// Being ahead of the newest release is presented as up to date.
pub proof fn lemma_ahead_is_up_to_date()
    ensures
        reduce_spec(UpdatePhase::Checking, Event::CheckCompleted(Decision::Ahead))
            == UpdatePhase::UpToDate,
{
}

/// The signed artifact published for one runtime target.
#[derive(Debug, Clone, PartialEq, Eq)]
pub struct Platform {
    pub signature: String,
    pub url: String,
}

/// A manifest as the JSON decoder reads it, before the version is checked.
#[derive(Debug, Clone, PartialEq, Eq)]
pub struct RawManifest {
    pub version: String,
    pub notes: Option<String>,
    pub pub_date: Option<String>,
    pub platforms: Vec<(String, Platform)>,
}

/// A parsed update manifest.
#[derive(Debug, Clone, PartialEq, Eq)]
pub struct Manifest {
    pub version: SemVersion,
    pub notes: Option<String>,
    pub pub_date: Option<String>,
    /// The published targets, as the document lists them.
    pub platforms: Vec<(String, Platform)>,
}

/// Why a manifest could not be interpreted.
#[derive(Debug, Clone, PartialEq, Eq)]
pub enum ParseError {
    /// The text is not a manifest; carries the decoder's message.
    Json(String),
    /// The version is not a semantic version; carries `semver`'s message.
    Version(String),
}

/// Finishes a decoded manifest: its version must parse; notes, date and
/// platforms pass through unchanged.
pub fn manifest_from_raw(raw: RawManifest) -> (r: Result<Manifest, ParseError>)
    ensures
        r is Ok <==> semver_accepts(raw.version@),
        match r {
            Ok(m) => m.version@ == raw.version@ && m.notes == raw.notes && m.pub_date == raw.pub_date
                && m.platforms@ == raw.platforms@,
            Err(e) => e is Version,
        },
{
    match parse_version(raw.version.as_str()) {
        Ok(version) => Ok(
            Manifest {
                version,
                notes: raw.notes,
                pub_date: raw.pub_date,
                platforms: raw.platforms,
            },
        ),
        Err(VersionError(message)) => Err(ParseError::Version(message)),
    }
}
/// The index of the last platform entry keyed `target`: a target listed
/// twice is served by its later entry, as when the entries fill a map.
pub open spec fn platform_index(ps: Seq<(String, Platform)>, target: Seq<char>) -> Option<int>
    decreases ps.len(),
{
    if ps.len() == 0 {
        None
    } else if ps.last().0@ == target {
        Some(ps.len() - 1)
    } else {
        platform_index(ps.drop_last(), target)
    }
}

/// The key a manifest lists an artifact under for an OS and architecture:
/// `darwin` stands for `macos`, and the architecture follows a hyphen.
pub fn platform_key(os: &str, arch: &str) -> (r: String)
    ensures
        r@ == (if os@ == "macos"@ {
            "darwin"@
        } else {
            os@
        }) + "-"@ + arch@,
{
    let is_macos = {
        let a = chars_of(os);
        let b = chars_of("macos");
        chars_eq(a.as_slice(), b.as_slice())
    };
    let mut key = if is_macos {
        "darwin".to_owned()
    } else {
        os.to_owned()
    };
    key.append("-");
    key.append(arch);
    key
}

impl Manifest {
    /// The artifact for `target`, or `None` when the publisher did not ship
    /// this target, which is a normal outcome rather than an error.
    pub fn platform(&self, target: &str) -> (r: Option<&Platform>)
        ensures
            match platform_index(self.platforms@, target@) {
                Some(i) => r == Some(&self.platforms@[i].1),
                None => r is None,
            },
    {
        let wanted = chars_of(target);
        let mut i: usize = self.platforms.len();
        assert(self.platforms@.subrange(0, i as int) =~= self.platforms@);
        while i > 0
            invariant
                wanted@ == target@,
                i <= self.platforms.len(),
                platform_index(self.platforms@, target@) == platform_index(
                    self.platforms@.subrange(0, i as int),
                    target@,
                ),
            decreases i,
        {
            let ghost head = self.platforms@.subrange(0, i as int);
            assert(head.last() == self.platforms@[i - 1]);
            assert(head.drop_last() =~= self.platforms@.subrange(0, i - 1));
            let key = chars_of(self.platforms[i - 1].0.as_str());
            if chars_eq(key.as_slice(), wanted.as_slice()) {
                return Some(&self.platforms[i - 1].1);
            }
            i = i - 1;
        }
        None
    }
}

/// Provides manifest text, keeping network I/O replaceable by an in-memory
/// stub.
pub trait ManifestFetcher {
    type Error;

    fn fetch_manifest(&self) -> Result<String, Self::Error>;
}

} // verus!
