use vstd::prelude::*;

verus! {

/// A resolved version of a package on one distribution track.
pub struct VersionInfo {
    pub version: String,
    pub release: String,
}

#[verifier::ext_equal]
pub ghost struct VersionInfoV {
    pub version: Seq<char>,
    pub release: Seq<char>,
}

impl View for VersionInfo {
    type V = VersionInfoV;

    open spec fn view(&self) -> VersionInfoV {
        VersionInfoV { version: self.version@, release: self.release@ }
    }
}

/// One binary publication reported by the build service, with absent
/// attributes filled in as empty strings.
pub struct PublicationRecord {
    pub project: String,
    pub repository: String,
    pub package: String,
    pub version: String,
    pub release: String,
}

#[verifier::ext_equal]
pub ghost struct RecordV {
    pub project: Seq<char>,
    pub repository: Seq<char>,
    pub package: Seq<char>,
    pub version: Seq<char>,
    pub release: Seq<char>,
}

impl View for PublicationRecord {
    type V = RecordV;

    open spec fn view(&self) -> RecordV {
        RecordV {
            project: self.project@,
            repository: self.repository@,
            package: self.package@,
            version: self.version@,
            release: self.release@,
        }
    }
}

pub open spec fn records_view(v: Seq<PublicationRecord>) -> Seq<RecordV> {
    v.map_values(|r: PublicationRecord| r@)
}

/// The attributes a publication entry can carry, before any of them has been
/// checked for presence.
pub struct RawEntry {
    pub project: Option<String>,
    pub repository: Option<String>,
    pub package: Option<String>,
    pub version: Option<String>,
    pub release: Option<String>,
}

#[verifier::ext_equal]
pub ghost struct RawEntryV {
    pub project: Option<Seq<char>>,
    pub repository: Option<Seq<char>>,
    pub package: Option<Seq<char>>,
    pub version: Option<Seq<char>>,
    pub release: Option<Seq<char>>,
}

pub open spec fn opt_str_view(o: Option<String>) -> Option<Seq<char>> {
    match o {
        Some(s) => Some(s@),
        None => None,
    }
}

impl View for RawEntry {
    type V = RawEntryV;

    open spec fn view(&self) -> RawEntryV {
        RawEntryV {
            project: opt_str_view(self.project),
            repository: opt_str_view(self.repository),
            package: opt_str_view(self.package),
            version: opt_str_view(self.version),
            release: opt_str_view(self.release),
        }
    }
}

pub open spec fn entries_view(v: Seq<RawEntry>) -> Seq<RawEntryV> {
    v.map_values(|e: RawEntry| e@)
}

/// Names of the record attributes, used to report which one a matched entry
/// lacks.
#[derive(Clone, Copy, Debug, PartialEq, Eq, Structural)]
pub enum AttrName {
    Project,
    Repository,
    Package,
    Version,
    Release,
}

/// Every failure the pipeline can report. `MalformedPatchInfo` is recovered
/// from locally (the offending record is skipped); the others surface as one
/// of the fixed user-facing messages.
#[derive(Clone, Copy, Debug, PartialEq, Eq, Structural)]
pub enum PkgError {
    EmptyInput,
    FetchFailed,
    MalformedResponse,
    MissingAttribute { child: usize, attribute: AttrName },
    MalformedPatchInfo,
}

/// Per track: the one authoritative build, if any, and the secondary builds in
/// encounter order, each with the project it came from.
pub struct TrackResult {
    pub official: Option<VersionInfo>,
    pub experimental: Vec<(String, VersionInfo)>,
}

#[verifier::ext_equal]
pub ghost struct TrackResultV {
    pub official: Option<VersionInfoV>,
    pub experimental: Seq<(Seq<char>, VersionInfoV)>,
}

pub open spec fn opt_vinfo_view(o: Option<VersionInfo>) -> Option<VersionInfoV> {
    match o {
        Some(v) => Some(v@),
        None => None,
    }
}

pub open spec fn exp_view(v: Seq<(String, VersionInfo)>) -> Seq<(Seq<char>, VersionInfoV)> {
    v.map_values(|p: (String, VersionInfo)| (p.0@, p.1@))
}

impl View for TrackResult {
    type V = TrackResultV;

    open spec fn view(&self) -> TrackResultV {
        TrackResultV {
            official: opt_vinfo_view(self.official),
            experimental: exp_view(self.experimental@),
        }
    }
}

/// The final resolved answer for one query: one `TrackResult` per known
/// track, in the track table's order.
pub struct PkgVersionSummary {
    pub package_name: String,
    pub tracks: Vec<TrackResult>,
}

#[verifier::ext_equal]
pub ghost struct SummaryV {
    pub package_name: Seq<char>,
    pub tracks: Seq<TrackResultV>,
}

pub open spec fn tracks_view(v: Seq<TrackResult>) -> Seq<TrackResultV> {
    v.map_values(|t: TrackResult| t@)
}

impl View for PkgVersionSummary {
    type V = SummaryV;

    open spec fn view(&self) -> SummaryV {
        SummaryV { package_name: self.package_name@, tracks: tracks_view(self.tracks@) }
    }
}

} // verus!
