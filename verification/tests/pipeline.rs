use monacebot::model::{AttrName, PkgError, PublicationRecord};
use monacebot::parse::parse_records;
use monacebot::query::build_query;
use monacebot::render::{bold, escape, format_version, render_error, render_summary};
use monacebot::resolve::{parse_patch_revision, resolve_summary};
use monacebot::sanitize::sanitize;
use monacebot::{get_pkg_version, plan_request, respond, RequestPlan};

const NO_VERSION: &str = "No official version founded.";
const NO_NAME: &str = "No pkgname provided.";
const FETCH_FAILED: &str = "An error occurred during requesting.";
const PARSE_FAILED: &str = "An error occurred during parsing.";

fn record(project: &str, repository: &str, package: &str, version: &str, release: &str) -> PublicationRecord {
    PublicationRecord {
        project: project.to_string(),
        repository: repository.to_string(),
        package: package.to_string(),
        version: version.to_string(),
        release: release.to_string(),
    }
}

#[test]
fn sanitize_trims_and_strips() {
    assert!(sanitize(" neofetch! ") == "neofetch");
}

#[test]
fn sanitize_whitespace_and_punctuation_only() {
    assert!(sanitize(" \t !?.,;:()[]{}@#$%^&*+=~ \n ") == "");
}

#[test]
fn sanitize_identity_on_allowed_characters() {
    assert!(sanitize("abc-DEF_09") == "abc-DEF_09");
}

#[test]
fn get_pkg_version_branches() {
    assert!(get_pkg_version("") == NO_NAME);
    assert!(get_pkg_version("neofetch") == "Function under constructing!");
}

#[test]
fn plan_request_short_circuits_on_empty() {
    match plan_request(" !!! ") {
        RequestPlan::Reply(m) => assert!(m == NO_NAME),
        RequestPlan::Fetch { .. } => panic!("a fetch was planned for an empty token"),
    }
}

#[test]
fn plan_request_builds_the_query() {
    match plan_request(" neofetch! ") {
        RequestPlan::Reply(_) => panic!("no fetch was planned"),
        RequestPlan::Fetch { pkgname, url } => {
            assert!(pkgname == "neofetch");
            assert!(url == build_query("neofetch"));
        },
    }
}

#[test]
fn query_has_the_exact_filter() {
    let url = build_query("neofetch");
    let expected = "https://api.opensuse.org/search/published/binary/id?match=@name=\"neofetch\" and (contains-ic(@arch, \"x86_64\") or contains-ic(@arch, \"noarch\")) and contains-ic(@baseproject, \"openSUSE:\") and not(contains-ic(@project, \"home:\")) and not(contains-ic(@project, \"devel:\"))";
    assert!(url == expected);
}

#[test]
fn escape_rewrites_markup_characters() {
    assert!(escape("<b>&") == "&lt;b&gt;&amp;");
    assert!(escape("plain-1.2_3") == "plain-1.2_3");
}

#[test]
fn bold_wraps_in_markup() {
    assert!(bold("Package") == "<b>Package</b>");
}

#[test]
fn format_version_exact_line() {
    assert!(format_version("official", "1.0", "2.1") == " - official: 1.0-2.1\n");
}

#[test]
fn parse_patch_revision_reads_trailing_segment() {
    assert!(parse_patch_revision("neofetch.123") == Ok(123));
    assert!(parse_patch_revision("a.b.7") == Ok(7));
}

#[test]
fn parse_patch_revision_rejects_non_numeric() {
    assert!(parse_patch_revision("neofetch.x2") == Err(PkgError::MalformedPatchInfo));
    assert!(parse_patch_revision("neofetch.") == Err(PkgError::MalformedPatchInfo));
    assert!(parse_patch_revision("neofetch.99999999999999999999") == Err(PkgError::MalformedPatchInfo));
}

#[test]
fn parse_fails_without_a_line_break() {
    let r = parse_records("<collection matches=\"0\"></collection>");
    assert!(matches!(r, Err(PkgError::MalformedResponse)));
}

#[test]
fn parse_fails_on_broken_markup() {
    let r = parse_records("<collection matches=\"0\">\n<binary\n</collection>");
    assert!(matches!(r, Err(PkgError::MalformedResponse)));
}

#[test]
fn parse_extracts_records_in_document_order() {
    let xml = "<collection matches=\"2\">\n  <binary project=\"openSUSE:Factory\" repository=\"standard\" package=\"neofetch\" version=\"7.1.0\" release=\"1.1\" arch=\"x86_64\"/>\n  <binary project=\"home:u\" repository=\"openSUSE_Tumbleweed\" package=\"neofetch\" version=\"7.0.0\" release=\"2.3\" arch=\"x86_64\"/>\n</collection>";
    let records = parse_records(xml).unwrap();
    assert!(records.len() == 2);
    assert!(records[0].project == "openSUSE:Factory");
    assert!(records[0].repository == "standard");
    assert!(records[0].package == "neofetch");
    assert!(records[0].version == "7.1.0");
    assert!(records[0].release == "1.1");
    assert!(records[1].project == "home:u");
    assert!(records[1].version == "7.0.0");
}

#[test]
fn parse_reports_the_missing_attribute() {
    let xml = "<collection matches=\"2\">\n  <binary project=\"x\" repository=\"y\" version=\"1\" release=\"2\"/>\n  <binary project=\"openSUSE:Factory\" repository=\"standard\" release=\"1.1\"/>\n</collection>";
    match parse_records(xml) {
        Err(PkgError::MissingAttribute { child, attribute }) => {
            assert!(child == 1);
            assert!(attribute == AttrName::Version);
        },
        _ => panic!("the missing version attribute was not reported"),
    }
}

#[test]
fn resolve_single_official_record() {
    let records = vec![record("openSUSE:Factory", "standard", "neofetch", "7.1.0", "1.1")];
    let summary = resolve_summary("neofetch", &records);
    let official = summary.tracks[0].official.as_ref().unwrap();
    assert!(official.version == "7.1.0");
    assert!(official.release == "1.1");
    assert!(summary.tracks[0].experimental.is_empty());
    assert!(summary.tracks[1].official.is_none());
}

#[test]
fn resolve_update_stream_higher_revision_wins() {
    let three = record("openSUSE:Leap:15.2:Update", "standard", "neofetch.3", "1.0", "3.1");
    let seven = record("openSUSE:Leap:15.2:Update", "standard", "neofetch.7", "1.1", "7.1");
    let forward = resolve_summary("neofetch", &vec![three, seven]);
    let official = forward.tracks[1].official.as_ref().unwrap();
    assert!(official.version == "1.1" && official.release == "7.1");

    let three = record("openSUSE:Leap:15.2:Update", "standard", "neofetch.3", "1.0", "3.1");
    let seven = record("openSUSE:Leap:15.2:Update", "standard", "neofetch.7", "1.1", "7.1");
    let reversed = resolve_summary("neofetch", &vec![seven, three]);
    let official = reversed.tracks[1].official.as_ref().unwrap();
    assert!(official.version == "1.1" && official.release == "7.1");
}

#[test]
fn resolve_skips_malformed_update_record() {
    let bad = record("openSUSE:Leap:15.2:Update", "standard", "neofetch.broken", "9.9", "9.9");
    let five = record("openSUSE:Leap:15.2:Update", "standard", "neofetch.5", "1.5", "5.1");
    let summary = resolve_summary("neofetch", &vec![bad, five]);
    let official = summary.tracks[1].official.as_ref().unwrap();
    assert!(official.version == "1.5" && official.release == "5.1");
}

#[test]
fn resolve_bare_official_defers_to_positive_revision() {
    let update = record("openSUSE:Leap:15.2:Update", "standard", "neofetch.2", "1.2", "2.1");
    let bare = record("openSUSE:Leap:15.2", "standard", "neofetch", "1.0", "1.1");
    let summary = resolve_summary("neofetch", &vec![update, bare]);
    let official = summary.tracks[1].official.as_ref().unwrap();
    assert!(official.version == "1.2" && official.release == "2.1");
}

#[test]
fn resolve_keeps_experimental_duplicates_in_order() {
    let a = record("home:a", "openSUSE_Tumbleweed", "neofetch", "1.0", "1.1");
    let b = record("home:b", "openSUSE_Tumbleweed", "neofetch", "2.0", "2.1");
    let a_again = record("home:a", "openSUSE_Tumbleweed", "neofetch", "3.0", "3.1");
    let summary = resolve_summary("neofetch", &vec![a, b, a_again]);
    let exp = &summary.tracks[0].experimental;
    assert!(exp.len() == 3);
    assert!(exp[0].0 == "home:a" && exp[0].1.version == "1.0");
    assert!(exp[1].0 == "home:b" && exp[1].1.version == "2.0");
    assert!(exp[2].0 == "home:a" && exp[2].1.version == "3.0");
}

#[test]
fn render_empty_summary_is_the_fixed_message() {
    let summary = resolve_summary("whatever-name", &Vec::new());
    assert!(render_summary(&summary) == NO_VERSION);
    let summary = resolve_summary("another_name", &Vec::new());
    assert!(render_summary(&summary) == NO_VERSION);
}

#[test]
fn render_empty_summary_is_stable() {
    let summary = resolve_summary("neofetch", &Vec::new());
    let first = render_summary(&summary);
    let second = render_summary(&summary);
    assert!(first == second);
    assert!(first == NO_VERSION);
}

#[test]
fn render_escapes_data_derived_text() {
    let records = vec![record("openSUSE:Factory", "standard", "neofetch", "1<2&3", "1.1")];
    let summary = resolve_summary("neofetch", &records);
    let out = render_summary(&summary);
    assert!(out.contains(" - official: 1&lt;2&amp;3-1.1\n"));
    assert!(!out.contains("1<2&3"));
}

#[test]
fn render_error_messages_are_fixed() {
    assert!(render_error(&PkgError::EmptyInput) == NO_NAME);
    assert!(render_error(&PkgError::FetchFailed) == FETCH_FAILED);
    assert!(render_error(&PkgError::MalformedResponse) == PARSE_FAILED);
    assert!(
        render_error(&PkgError::MissingAttribute { child: 0, attribute: AttrName::Release })
            == PARSE_FAILED
    );
    assert!(render_error(&PkgError::MalformedPatchInfo) == PARSE_FAILED);
}

#[test]
fn respond_reports_a_failed_fetch() {
    assert!(respond("neofetch", None) == FETCH_FAILED);
}

#[test]
fn respond_reports_an_unparsable_response() {
    assert!(respond("neofetch", Some("garbage with no line break")) == PARSE_FAILED);
}

#[test]
fn respond_end_to_end_official_tumbleweed() {
    let raw = " neofetch! ";
    let (name, _url) = match plan_request(raw) {
        RequestPlan::Fetch { pkgname, url } => (pkgname, url),
        RequestPlan::Reply(_) => panic!("no fetch was planned"),
    };
    assert!(name == "neofetch");
    let xml = "<collection matches=\"1\">\n  <binary project=\"openSUSE:Factory\" repository=\"standard\" package=\"neofetch\" version=\"7.1.0\" release=\"1.1\" arch=\"x86_64\"/>\n</collection>";
    let out = respond(&name, Some(xml));
    assert!(out.contains("<b>openSUSE Tumbleweed</b>:\n"));
    assert!(out.contains(" - official: 7.1.0-1.1\n"));
    assert!(!out.contains("Leap"));
    assert!(out.contains("<b>Package</b>: neofetch"));
}

#[test]
fn respond_end_to_end_empty_records() {
    let xml = "<collection matches=\"0\">\n</collection>";
    assert!(respond("neofetch", Some(xml)) == NO_VERSION);
}
