use vstd::prelude::*;

use crate::model::{
    PkgError, PkgVersionSummary, PublicationRecord, RecordV, SummaryV, TrackResult, TrackResultV,
    VersionInfo, VersionInfoV, exp_view, opt_str_view, opt_vinfo_view, records_view,
};

verus! {

/// The rule set of one distribution track: the project whose builds are
/// authoritative outright, the optional update stream whose builds compete by
/// patch revision, and the repository that marks secondary builds.
pub struct TrackRule {
    pub label: String,
    pub official_project: String,
    pub update_project: Option<String>,
    pub experimental_repository: String,
}

#[verifier::ext_equal]
pub ghost struct TrackRuleV {
    pub label: Seq<char>,
    pub official_project: Seq<char>,
    pub update_project: Option<Seq<char>>,
    pub experimental_repository: Seq<char>,
}

impl View for TrackRule {
    type V = TrackRuleV;

    open spec fn view(&self) -> TrackRuleV {
        TrackRuleV {
            label: self.label@,
            official_project: self.official_project@,
            update_project: opt_str_view(self.update_project),
            experimental_repository: self.experimental_repository@,
        }
    }
}

pub open spec fn rules_view(v: Seq<TrackRule>) -> Seq<TrackRuleV> {
    v.map_values(|r: TrackRule| r@)
}

/// The fixed table of known tracks, in rendering order.
pub open spec fn track_table() -> Seq<TrackRuleV> {
    seq![
        TrackRuleV {
            label: "openSUSE Tumbleweed"@,
            official_project: "openSUSE:Factory"@,
            update_project: None,
            experimental_repository: "openSUSE_Tumbleweed"@,
        },
        TrackRuleV {
            label: "openSUSE Leap 15.2"@,
            official_project: "openSUSE:Leap:15.2"@,
            update_project: Some("openSUSE:Leap:15.2:Update"@),
            experimental_repository: "openSUSE_Leap_15.2"@,
        },
    ]
}

/// The track table as data, for the resolver's single pass.
pub fn track_rules() -> (r: Vec<TrackRule>)
    ensures
        rules_view(r@) == track_table(),
{
    let mut v: Vec<TrackRule> = Vec::new();
    v.push(
        TrackRule {
            label: "openSUSE Tumbleweed".to_owned(),
            official_project: "openSUSE:Factory".to_owned(),
            update_project: None,
            experimental_repository: "openSUSE_Tumbleweed".to_owned(),
        },
    );
    v.push(
        TrackRule {
            label: "openSUSE Leap 15.2".to_owned(),
            official_project: "openSUSE:Leap:15.2".to_owned(),
            update_project: Some("openSUSE:Leap:15.2:Update".to_owned()),
            experimental_repository: "openSUSE_Leap_15.2".to_owned(),
        },
    );
    proof {
        assert(rules_view(v@) =~= track_table());
    }
    v
}

pub open spec fn is_digit(c: char) -> bool {
    '0' <= c && c <= '9'
}

pub open spec fn digit_val(c: char) -> nat {
    ((c as int) - ('0' as int)) as nat
}

/// The value of a digit string, most significant digit first.
pub open spec fn digits_val(s: Seq<char>) -> nat
    decreases s.len(),
{
    if s.len() == 0 {
        0
    } else {
        digits_val(s.drop_last()) * 10 + digit_val(s.last())
    }
}

pub open spec fn all_digits(s: Seq<char>) -> bool {
    forall|i: int| 0 <= i < s.len() ==> is_digit(s[i])
}

/// The characters after the last `.`, or the whole string when it has none.
pub open spec fn last_dot_suffix(s: Seq<char>) -> Seq<char>
    decreases s.len(),
{
    if s.len() == 0 {
        s
    } else if s.last() == '.' {
        Seq::empty()
    } else {
        last_dot_suffix(s.drop_last()).push(s.last())
    }
}

/// The patch revision encoded in a package name's trailing dotted segment:
/// defined exactly when that segment is a non-empty digit string whose value
/// fits in 32 bits.
pub open spec fn patch_revision_of(pkg: Seq<char>) -> Option<u32> {
    let seg = last_dot_suffix(pkg);
    if seg.len() > 0 && all_digits(seg) && digits_val(seg) <= u32::MAX {
        Some(digits_val(seg) as u32)
    } else {
        None
    }
}

proof fn lemma_last_dot_suffix_skip(s: Seq<char>, start: int)
    requires
        0 <= start <= s.len(),
        forall|j: int| start <= j < s.len() ==> s[j] != '.',
        start != 0 ==> s[start - 1] == '.',
    ensures
        last_dot_suffix(s) == s.skip(start),
    decreases s.len(),
{
    if s.len() == 0 {
        assert(last_dot_suffix(s) =~= s.skip(start));
    } else if start == s.len() {
        if start != 0 {
            assert(s.last() == '.');
        }
        assert(last_dot_suffix(s) =~= s.skip(start));
    } else {
        assert(s.last() != '.');
        lemma_last_dot_suffix_skip(s.drop_last(), start);
        assert(last_dot_suffix(s) == s.drop_last().skip(start).push(s.last()));
        assert(s.drop_last().skip(start).push(s.last()) =~= s.skip(start));
    }
}

proof fn lemma_digits_val_mono(s: Seq<char>, m: int)
    requires
        0 <= m <= s.len(),
    ensures
        digits_val(s) >= digits_val(s.take(m)),
    decreases s.len(),
{
    if m == s.len() {
        assert(s.take(m) =~= s);
    } else {
        assert(s.len() > 0);
        lemma_digits_val_mono(s.drop_last(), m);
        assert(s.drop_last().take(m) =~= s.take(m));
    }
}

/// Parses the trailing dot-separated numeric suffix of a package name as its
/// patch revision; any other shape is a `MalformedPatchInfo`, which callers
/// recover from by skipping the record.
pub fn parse_patch_revision(package: &str) -> (r: Result<u32, PkgError>)
    ensures
        match r {
            Ok(v) => patch_revision_of(package@) == Some(v),
            Err(e) => patch_revision_of(package@) is None && e == PkgError::MalformedPatchInfo,
        },
{
    let n: usize = package.unicode_len();
    let mut k: usize = n;
    while k > 0 && package.get_char(k - 1) != '.'
        invariant
            0 <= k <= n,
            n == package@.len(),
            forall|j: int| k <= j < n ==> package@[j] != '.',
        decreases k,
    {
        k = k - 1;
    }
    proof {
        lemma_last_dot_suffix_skip(package@, k as int);
    }
    let ghost seg = package@.skip(k as int);
    if k == n {
        proof {
            assert(seg.len() == 0);
        }
        return Err(PkgError::MalformedPatchInfo);
    }
    let mut acc: u32 = 0;
    let mut i: usize = k;
    while i < n
        invariant
            k <= i <= n,
            k < n,
            n == package@.len(),
            seg == package@.skip(k as int),
            seg == last_dot_suffix(package@),
            seg.len() == n - k,
            forall|j: int| k <= j < i ==> is_digit(package@[j]),
            acc == digits_val(seg.take(i - k)),
        decreases n - i,
    {
        let c = package.get_char(i);
        proof {
            assert(seg[i - k] == package@[i as int]);
        }
        if !('0' <= c && c <= '9') {
            proof {
                assert(!is_digit(seg[i - k]));
                assert(!all_digits(seg));
            }
            return Err(PkgError::MalformedPatchInfo);
        }
        let d: u32 = c as u32 - '0' as u32;
        proof {
            assert(seg.take(i - k + 1).drop_last() =~= seg.take(i - k));
            assert(seg.take(i - k + 1).last() == seg[i - k]);
            assert(digits_val(seg.take(i - k + 1)) == digits_val(seg.take(i - k)) * 10 + digit_val(
                seg[i - k],
            ));
            assert(digit_val(seg[i - k]) == d);
        }
        let wide: u64 = acc as u64 * 10 + d as u64;
        proof {
            assert(wide == digits_val(seg.take(i - k + 1)));
        }
        if wide > u32::MAX as u64 {
            proof {
                lemma_digits_val_mono(seg, i - k + 1);
                assert(digits_val(seg) > u32::MAX);
            }
            return Err(PkgError::MalformedPatchInfo);
        }
        acc = wide as u32;
        i = i + 1;
    }
    proof {
        assert(seg.take(n - k) =~= seg);
        assert(forall|j: int| 0 <= j < seg.len() ==> is_digit(#[trigger] seg[j]));
        assert(patch_revision_of(package@) == Some(acc));
    }
    Ok(acc)
}

/// The resolver's running state for one track: the best patch revision seen
/// on the update stream, the official candidate so far, and the secondary
/// builds in encounter order.
#[verifier::ext_equal]
pub ghost struct TrackStateV {
    pub best_rev: u32,
    pub official: Option<VersionInfoV>,
    pub experimental: Seq<(Seq<char>, VersionInfoV)>,
}

pub open spec fn initial_state() -> TrackStateV {
    TrackStateV { best_rev: 0, official: None, experimental: Seq::empty() }
}

pub open spec fn version_of(r: RecordV) -> VersionInfoV {
    VersionInfoV { version: r.version, release: r.release }
}

/// One step of the per-track fold. The bare official project sets the
/// official build only while no update-stream record has produced a positive
/// revision; update-stream records compete by revision, with an unparsable
/// revision skipped; repository matches accumulate as secondary builds.
pub open spec fn track_step(rule: TrackRuleV, st: TrackStateV, r: RecordV) -> TrackStateV {
    if r.project == rule.official_project {
        if st.best_rev == 0 {
            TrackStateV { official: Some(version_of(r)), ..st }
        } else {
            st
        }
    } else if rule.update_project matches Some(u) && r.project == u {
        match patch_revision_of(r.package) {
            Some(rev) => if rev > st.best_rev {
                TrackStateV { best_rev: rev, official: Some(version_of(r)), ..st }
            } else {
                st
            },
            None => st,
        }
    } else if r.repository == rule.experimental_repository {
        TrackStateV { experimental: st.experimental.push((r.project, version_of(r))), ..st }
    } else {
        st
    }
}

/// The per-track fold over the record sequence, in encounter order.
pub open spec fn run_track(rule: TrackRuleV, records: Seq<RecordV>, st: TrackStateV) -> TrackStateV
    decreases records.len(),
{
    if records.len() == 0 {
        st
    } else {
        run_track(rule, records.drop_first(), track_step(rule, st, records.first()))
    }
}

pub open spec fn resolve_track(rule: TrackRuleV, records: Seq<RecordV>) -> TrackResultV {
    let st = run_track(rule, records, initial_state());
    TrackResultV { official: st.official, experimental: st.experimental }
}

/// The whole resolution: one independent pass per known track.
pub open spec fn resolve_spec(name: Seq<char>, records: Seq<RecordV>) -> SummaryV {
    SummaryV {
        package_name: name,
        tracks: track_table().map_values(|rule: TrackRuleV| resolve_track(rule, records)),
    }
}

pub open spec fn state_of(
    best_rev: u32,
    official: Option<VersionInfo>,
    experimental: Seq<(String, VersionInfo)>,
) -> TrackStateV {
    TrackStateV {
        best_rev: best_rev,
        official: opt_vinfo_view(official),
        experimental: exp_view(experimental),
    }
}

fn record_version(r: &PublicationRecord) -> (v: VersionInfo)
    ensures
        v@ == version_of(r@),
{
    VersionInfo { version: r.version.clone(), release: r.release.clone() }
}

/// Classifies every record against every known track and resolves, per track,
/// one official build and the ordered secondary builds.
pub fn resolve_summary(pkgname: &str, records: &Vec<PublicationRecord>) -> (s: PkgVersionSummary)
    ensures
        s@ == resolve_spec(pkgname@, records_view(records@)),
{
    let rules = track_rules();
    let ghost recs = records_view(records@);
    let mut tracks: Vec<TrackResult> = Vec::new();
    let mut t: usize = 0;
    while t < rules.len()
        invariant
            rules_view(rules@) == track_table(),
            rules@.len() == track_table().len(),
            0 <= t <= rules@.len(),
            tracks@.len() == t,
            recs == records_view(records@),
            forall|x: int|
                0 <= x < t ==> tracks@[x]@ == resolve_track(track_table()[x], recs),
        decreases rules@.len() - t,
    {
        let rule = &rules[t];
        proof {
            assert(rule@ == rules_view(rules@)[t as int]);
        }
        let mut best_rev: u32 = 0;
        let mut official: Option<VersionInfo> = None;
        let mut experimental: Vec<(String, VersionInfo)> = Vec::new();
        proof {
            assert(state_of(best_rev, official, experimental@) =~= initial_state());
            assert(recs.skip(0) =~= recs);
        }
        let mut j: usize = 0;
        while j < records.len()
            invariant
                0 <= j <= records@.len(),
                recs == records_view(records@),
                recs.len() == records@.len(),
                0 <= t < track_table().len(),
                rule@ == track_table()[t as int],
                run_track(rule@, recs, initial_state()) == run_track(
                    rule@,
                    recs.skip(j as int),
                    state_of(best_rev, official, experimental@),
                ),
            decreases records@.len() - j,
        {
            let r = &records[j];
            let ghost pre = state_of(best_rev, official, experimental@);
            proof {
                assert(recs[j as int] == records@[j as int]@);
                assert(recs.skip(j as int).first() == recs[j as int]);
                assert(recs.skip(j as int).drop_first() =~= recs.skip(j as int + 1));
            }
            if r.project == rule.official_project {
                if best_rev == 0 {
                    official = Some(record_version(r));
                }
            } else {
                let mut is_update = false;
                if let Some(u) = &rule.update_project {
                    if r.project == *u {
                        is_update = true;
                    }
                }
                if is_update {
                    match parse_patch_revision(r.package.as_str()) {
                        Ok(rev) => {
                            if rev > best_rev {
                                best_rev = rev;
                                official = Some(record_version(r));
                            }
                        },
                        Err(_) => {},
                    }
                } else if r.repository == rule.experimental_repository {
                    experimental.push((r.project.clone(), record_version(r)));
                }
            }
            proof {
                assert(exp_view(experimental@) =~= track_step(rule@, pre, recs[j as int]).experimental);
                assert(state_of(best_rev, official, experimental@) =~= track_step(
                    rule@,
                    pre,
                    recs[j as int],
                ));
            }
            j = j + 1;
        }
        proof {
            assert(recs.skip(recs.len() as int) =~= Seq::<RecordV>::empty());
            assert(run_track(rule@, recs, initial_state()) == state_of(
                best_rev,
                official,
                experimental@,
            ));
        }
        let tr = TrackResult { official: official, experimental: experimental };
        proof {
            assert(tr@ =~= resolve_track(track_table()[t as int], recs));
        }
        let ghost old_tracks = tracks@;
        tracks.push(tr);
        proof {
            assert(tracks@ == old_tracks.push(tracks@.last()));
            assert(forall|x: int| 0 <= x < t ==> tracks@[x] == old_tracks[x]);
        }
        t = t + 1;
    }
    let s = PkgVersionSummary { package_name: pkgname.to_owned(), tracks: tracks };
    proof {
        let goal = resolve_spec(pkgname@, recs);
        assert(goal.tracks.len() == track_table().len());
        assert(forall|x: int|
            0 <= x < track_table().len() ==> #[trigger] goal.tracks[x] == resolve_track(
                track_table()[x],
                recs,
            ));
        assert(s@.tracks =~= goal.tracks);
        assert(s@ =~= goal);
    }
    s
}

/// A record set holding one record under a track's bare official project and
/// nothing for its update stream resolves that track's official build to
/// exactly that record's version and release.
pub proof fn lemma_single_official(rule: TrackRuleV, r: RecordV)
    requires
        r.project == rule.official_project,
    ensures
        resolve_track(rule, seq![r]).official == Some(version_of(r)),
{
    reveal_with_fuel(run_track, 3);
    let recs = seq![r];
    assert(recs.first() == r);
    assert(recs.drop_first() =~= Seq::<RecordV>::empty());
    assert(run_track(rule, recs, initial_state()) == track_step(rule, initial_state(), r));
}

/// Of two update-stream records with parsable positive revisions, the higher
/// revision decides the official build, whichever of the two is encountered
/// first.
pub proof fn lemma_update_higher_wins(rule: TrackRuleV, a: RecordV, b: RecordV, ra: u32, rb: u32)
    requires
        rule.update_project matches Some(u) && a.project == u && b.project == u,
        a.project != rule.official_project,
        b.project != rule.official_project,
        patch_revision_of(a.package) == Some(ra),
        patch_revision_of(b.package) == Some(rb),
        0 < ra < rb,
    ensures
        resolve_track(rule, seq![a, b]).official == Some(version_of(b)),
        resolve_track(rule, seq![b, a]).official == Some(version_of(b)),
{
    reveal_with_fuel(run_track, 4);
    let ab = seq![a, b];
    assert(ab.first() == a);
    assert(ab.drop_first() =~= seq![b]);
    assert(seq![b].first() == b);
    assert(seq![b].drop_first() =~= Seq::<RecordV>::empty());
    let st1 = track_step(rule, initial_state(), a);
    assert(st1.best_rev == ra && st1.official == Some(version_of(a)));
    let st2 = track_step(rule, st1, b);
    assert(st2.official == Some(version_of(b)));
    assert(run_track(rule, ab, initial_state()) == st2);

    let ba = seq![b, a];
    assert(ba.first() == b);
    assert(ba.drop_first() =~= seq![a]);
    assert(seq![a].first() == a);
    assert(seq![a].drop_first() =~= Seq::<RecordV>::empty());
    let st3 = track_step(rule, initial_state(), b);
    assert(st3.best_rev == rb && st3.official == Some(version_of(b)));
    let st4 = track_step(rule, st3, a);
    assert(st4.official == Some(version_of(b)));
    assert(run_track(rule, ba, initial_state()) == st4);
}

/// An update-stream record whose revision suffix does not parse changes
/// nothing: the record is skipped, not fatal.
pub proof fn lemma_malformed_update_skipped(rule: TrackRuleV, st: TrackStateV, r: RecordV)
    requires
        rule.update_project matches Some(u) && r.project == u,
        r.project != rule.official_project,
        patch_revision_of(r.package) is None,
    ensures
        track_step(rule, st, r) == st,
{
}

/// Resolving a malformed update-stream record interleaved before a valid one
/// yields exactly what the valid record alone yields.
pub proof fn lemma_malformed_interleaved(rule: TrackRuleV, m: RecordV, v: RecordV)
    requires
        rule.update_project matches Some(u) && m.project == u,
        m.project != rule.official_project,
        patch_revision_of(m.package) is None,
    ensures
        resolve_track(rule, seq![m, v]) == resolve_track(rule, seq![v]),
{
    reveal_with_fuel(run_track, 4);
    lemma_malformed_update_skipped(rule, initial_state(), m);
    let mv = seq![m, v];
    assert(mv.first() == m);
    assert(mv.drop_first() =~= seq![v]);
    assert(run_track(rule, mv, initial_state()) == run_track(rule, seq![v], initial_state()));
}

} // verus!
