use vstd::prelude::*;

use crate::model::{PkgError, PkgVersionSummary, SummaryV, TrackResultV, VersionInfoV};
use crate::resolve::{TrackRuleV, resolve_spec, track_rules, track_table};

verus! {

/// Fixed reply when no package name was given.
pub open spec fn empty_name_msg() -> Seq<char> {
    "No pkgname provided."@
}

/// Fixed reply when the fetch collaborator failed.
pub open spec fn fetch_failed_msg() -> Seq<char> {
    "An error occurred during requesting."@
}

/// Fixed reply when the response could not be parsed.
pub open spec fn parse_failed_msg() -> Seq<char> {
    "An error occurred during parsing."@
}

/// Fixed reply for a summary with no data on any track.
pub open spec fn no_version_msg() -> Seq<char> {
    "No official version founded."@
}

/// The output channel's escaping rules (HTML): every data-derived field runs
/// through this, so no field can break the message's markup.
pub open spec fn escape_char(c: char) -> Seq<char> {
    if c == '&' {
        "&amp;"@
    } else if c == '<' {
        "&lt;"@
    } else if c == '>' {
        "&gt;"@
    } else {
        seq![c]
    }
}

pub open spec fn escaped(s: Seq<char>) -> Seq<char>
    decreases s.len(),
{
    if s.len() == 0 {
        Seq::empty()
    } else {
        escaped(s.drop_last()) + escape_char(s.last())
    }
}

/// Escapes a piece of user-influenced or data-derived text for the output
/// channel.
pub fn escape(s: &str) -> (r: String)
    ensures
        r@ == escaped(s@),
{
    let n: usize = s.unicode_len();
    let mut out = String::new();
    let mut i: usize = 0;
    while i < n
        invariant
            0 <= i <= n,
            n == s@.len(),
            out@ == escaped(s@.take(i as int)),
        decreases n - i,
    {
        let c = s.get_char(i);
        proof {
            assert(s@.take(i + 1).drop_last() =~= s@.take(i as int));
            assert(s@.take(i + 1).last() == s@[i as int]);
        }
        if c == '&' {
            out.append("&amp;");
        } else if c == '<' {
            out.append("&lt;");
        } else if c == '>' {
            out.append("&gt;");
        } else {
            let piece = s.substring_char(i, i + 1);
            proof {
                assert(piece@ =~= seq![s@[i as int]]);
            }
            out.append(piece);
        }
        i = i + 1;
    }
    proof {
        assert(s@.take(n as int) =~= s@);
    }
    out
}

pub open spec fn bold_of(s: Seq<char>) -> Seq<char> {
    "<b>"@ + s + "</b>"@
}

/// Wraps a label in the output channel's bold markup.
pub fn bold(s: &str) -> (r: String)
    ensures
        r@ == bold_of(s@),
{
    let mut out = String::new();
    out.append("<b>");
    out.append(s);
    out.append("</b>");
    out
}

/// One rendered line of the version listing.
pub open spec fn version_line(project: Seq<char>, version: Seq<char>, release: Seq<char>) -> Seq<
    char,
> {
    " - "@ + project + ": "@ + version + "-"@ + release + "\n"@
}

/// Renders one listing line for a build: its source label, then
/// `version-release`.
pub fn format_version(project: &str, version: &str, release: &str) -> (r: String)
    ensures
        r@ == version_line(project@, version@, release@),
{
    let mut out = String::new();
    out.append(" - ");
    out.append(project);
    out.append(": ");
    out.append(version);
    out.append("-");
    out.append(release);
    out.append("\n");
    proof {
        assert(out@ =~= version_line(project@, version@, release@));
    }
    out
}

pub open spec fn official_part(o: Option<VersionInfoV>) -> Seq<char> {
    match o {
        Some(vi) => version_line("official"@, escaped(vi.version), escaped(vi.release)),
        None => Seq::empty(),
    }
}

pub open spec fn exp_lines(l: Seq<(Seq<char>, VersionInfoV)>) -> Seq<char>
    decreases l.len(),
{
    if l.len() == 0 {
        Seq::empty()
    } else {
        exp_lines(l.drop_last()) + version_line(
            escaped(l.last().0),
            escaped(l.last().1.version),
            escaped(l.last().1.release),
        )
    }
}

pub open spec fn track_empty(tr: TrackResultV) -> bool {
    tr.official is None && tr.experimental.len() == 0
}

/// The rendered block of one track: its bold label, the official build
/// first, then the secondary builds in encounter order. A track with no data
/// is omitted, not rendered empty.
pub open spec fn track_block(rule: TrackRuleV, tr: TrackResultV) -> Seq<char> {
    if track_empty(tr) {
        Seq::empty()
    } else {
        bold_of(rule.label) + ":\n"@ + official_part(tr.official) + exp_lines(tr.experimental)
    }
}

pub open spec fn blocks_from(rules: Seq<TrackRuleV>, tracks: Seq<TrackResultV>) -> Seq<char>
    decreases rules.len(),
{
    if rules.len() == 0 || tracks.len() == 0 {
        Seq::empty()
    } else {
        track_block(rules.first(), tracks.first()) + blocks_from(
            rules.drop_first(),
            tracks.drop_first(),
        )
    }
}

pub open spec fn all_empty(s: SummaryV) -> bool {
    forall|i: int| 0 <= i < s.tracks.len() ==> track_empty(s.tracks[i])
}

/// What rendering yields: the fixed message for a fully empty summary, else
/// the escaped package-name header followed by each non-empty track's block
/// in table order.
pub open spec fn render_spec(s: SummaryV) -> Seq<char> {
    if all_empty(s) {
        no_version_msg()
    } else {
        bold_of("Package"@) + ": "@ + escaped(s.package_name) + "\n-------------------------\n"@
            + blocks_from(track_table(), s.tracks)
    }
}

/// Renders the resolved summary into a single escaped text block.
pub fn render_summary(summary: &PkgVersionSummary) -> (r: String)
    ensures
        r@ == render_spec(summary@),
{
    let mut all_tracks_empty = true;
    let mut i: usize = 0;
    while i < summary.tracks.len()
        invariant
            0 <= i <= summary.tracks@.len(),
            all_tracks_empty <==> (forall|x: int|
                0 <= x < i ==> track_empty(#[trigger] summary.tracks@[x]@)),
        decreases summary.tracks@.len() - i,
    {
        let tr = &summary.tracks[i];
        let tr_empty = tr.official.is_none() && tr.experimental.len() == 0;
        proof {
            assert(tr_empty == track_empty(summary.tracks@[i as int]@));
        }
        all_tracks_empty = all_tracks_empty && tr_empty;
        i = i + 1;
    }
    proof {
        if all_tracks_empty {
            assert forall|x: int| 0 <= x < summary@.tracks.len() implies track_empty(
                #[trigger] summary@.tracks[x],
            ) by {
                assert(summary@.tracks[x] == summary.tracks@[x]@);
                assert(track_empty(summary.tracks@[x]@));
            }
            assert(all_empty(summary@));
        } else {
            let x = choose|x: int|
                !(0 <= x < summary.tracks@.len() ==> track_empty(summary.tracks@[x]@));
            assert(summary@.tracks[x] == summary.tracks@[x]@);
            assert(!track_empty(summary@.tracks[x]));
            assert(!all_empty(summary@));
        }
        assert(all_tracks_empty == all_empty(summary@));
    }
    if all_tracks_empty {
        return "No official version founded.".to_owned();
    }
    let mut out = String::new();
    let b = bold("Package");
    out.append(b.as_str());
    out.append(": ");
    let esc_name = escape(summary.package_name.as_str());
    out.append(esc_name.as_str());
    out.append("\n-------------------------\n");
    let ghost header = bold_of("Package"@) + ": "@ + escaped(summary@.package_name)
        + "\n-------------------------\n"@;
    proof {
        assert(out@ =~= header);
        assert(track_table().skip(0) =~= track_table());
        assert(summary@.tracks.skip(0) =~= summary@.tracks);
    }
    let rules = track_rules();
    let mut t: usize = 0;
    while t < rules.len() && t < summary.tracks.len()
        invariant
            crate::resolve::rules_view(rules@) == track_table(),
            rules@.len() == track_table().len(),
            0 <= t <= rules@.len(),
            t <= summary.tracks@.len(),
            !all_empty(summary@),
            render_spec(summary@) == out@ + blocks_from(
                track_table().skip(t as int),
                summary@.tracks.skip(t as int),
            ),
        decreases rules@.len() - t,
    {
        let rule = &rules[t];
        let tr = &summary.tracks[t];
        let ghost trv = summary@.tracks[t as int];
        let ghost pre = out@;
        proof {
            assert(rule@ == track_table()[t as int]);
            assert(trv == summary.tracks@[t as int]@);
            assert(track_table().skip(t as int).first() == track_table()[t as int]);
            assert(track_table().skip(t as int).drop_first() =~= track_table().skip(t as int + 1));
            assert(summary@.tracks.skip(t as int).first() == trv);
            assert(summary@.tracks.skip(t as int).drop_first() =~= summary@.tracks.skip(
                t as int + 1,
            ));
        }
        let tr_empty = tr.official.is_none() && tr.experimental.len() == 0;
        proof {
            assert(tr_empty == track_empty(trv));
        }
        if !tr_empty {
            let lb = bold(rule.label.as_str());
            out.append(lb.as_str());
            out.append(":\n");
            match &tr.official {
                Some(vi) => {
                    let ev = escape(vi.version.as_str());
                    let er = escape(vi.release.as_str());
                    let line = format_version("official", ev.as_str(), er.as_str());
                    out.append(line.as_str());
                },
                None => {},
            }
            proof {
                assert(out@ =~= pre + bold_of(rule@.label) + ":\n"@ + official_part(trv.official));
                assert(trv.experimental.take(0) =~= Seq::<(Seq<char>, VersionInfoV)>::empty());
            }
            let ghost mid = out@;
            let mut j: usize = 0;
            while j < tr.experimental.len()
                invariant
                    0 <= j <= tr.experimental@.len(),
                    trv.experimental.len() == tr.experimental@.len(),
                    forall|y: int|
                        0 <= y < trv.experimental.len() ==> #[trigger] trv.experimental[y] == (
                        tr.experimental@[y].0@,
                        tr.experimental@[y].1@,
                        ),
                    out@ == mid + exp_lines(trv.experimental.take(j as int)),
                decreases tr.experimental@.len() - j,
            {
                let p = &tr.experimental[j];
                let ep = escape(p.0.as_str());
                let ev = escape(p.1.version.as_str());
                let er = escape(p.1.release.as_str());
                let line = format_version(ep.as_str(), ev.as_str(), er.as_str());
                out.append(line.as_str());
                proof {
                    assert(trv.experimental.take(j + 1).drop_last() =~= trv.experimental.take(
                        j as int,
                    ));
                    assert(trv.experimental.take(j + 1).last() == trv.experimental[j as int]);
                    assert(out@ =~= mid + exp_lines(trv.experimental.take(j + 1)));
                }
                j = j + 1;
            }
            proof {
                assert(trv.experimental.take(trv.experimental.len() as int) =~= trv.experimental);
                assert(out@ =~= pre + track_block(rule@, trv));
            }
        } else {
            proof {
                assert(out@ =~= pre + track_block(rule@, trv));
            }
        }
        proof {
            assert(blocks_from(track_table().skip(t as int), summary@.tracks.skip(t as int))
                == track_block(rule@, trv) + blocks_from(
                track_table().skip(t as int + 1),
                summary@.tracks.skip(t as int + 1),
            ));
            assert(pre + (track_block(rule@, trv) + blocks_from(
                track_table().skip(t as int + 1),
                summary@.tracks.skip(t as int + 1),
            )) =~= out@ + blocks_from(
                track_table().skip(t as int + 1),
                summary@.tracks.skip(t as int + 1),
            ));
        }
        t = t + 1;
    }
    proof {
        assert(blocks_from(track_table().skip(t as int), summary@.tracks.skip(t as int))
            =~= Seq::<char>::empty());
        assert(out@ + Seq::<char>::empty() =~= out@);
    }
    out
}

/// The fixed, escaped, user-safe message for each failure kind; raw transport
/// or parser detail never reaches the user.
pub open spec fn error_message_of(e: PkgError) -> Seq<char> {
    match e {
        PkgError::EmptyInput => empty_name_msg(),
        PkgError::FetchFailed => fetch_failed_msg(),
        PkgError::MalformedResponse => parse_failed_msg(),
        PkgError::MissingAttribute { .. } => parse_failed_msg(),
        PkgError::MalformedPatchInfo => parse_failed_msg(),
    }
}

/// Renders an error state as its fixed user-facing message.
pub fn render_error(e: &PkgError) -> (r: String)
    ensures
        r@ == error_message_of(*e),
{
    match e {
        PkgError::EmptyInput => "No pkgname provided.".to_owned(),
        PkgError::FetchFailed => "An error occurred during requesting.".to_owned(),
        _ => "An error occurred during parsing.".to_owned(),
    }
}

/// Rendering an all-empty summary always yields the same fixed message, byte
/// for byte, whatever package name it carries: formatting such a summary is
/// stable under repetition.
pub proof fn lemma_render_all_empty(s1: SummaryV, s2: SummaryV)
    requires
        all_empty(s1),
        all_empty(s2),
    ensures
        render_spec(s1) == no_version_msg(),
        render_spec(s1) == render_spec(s2),
{
}

/// An empty record set resolves to a fully empty summary, and its rendering
/// is the fixed no-official-version message, independent of the requested
/// package name.
pub proof fn lemma_empty_records(name: Seq<char>)
    ensures
        all_empty(resolve_spec(name, Seq::empty())),
        render_spec(resolve_spec(name, Seq::empty())) == no_version_msg(),
{
    let s = resolve_spec(name, Seq::empty());
    assert forall|i: int| 0 <= i < s.tracks.len() implies track_empty(s.tracks[i]) by {
        assert(s.tracks[i] == crate::resolve::resolve_track(track_table()[i], Seq::empty()));
        assert(crate::resolve::run_track(
            track_table()[i],
            Seq::empty(),
            crate::resolve::initial_state(),
        ) == crate::resolve::initial_state());
    }
}

} // verus!
