use vstd::prelude::*;

use crate::model::{
    AttrName, PkgError, PublicationRecord, RawEntry, RawEntryV, RecordV, entries_view,
    records_view,
};
use crate::resolve::{TrackRule, TrackRuleV, rules_view, track_rules, track_table};

verus! {

/// Index of the first line break, if any.
pub open spec fn find_newline(s: Seq<char>) -> Option<int>
    decreases s.len(),
{
    if s.len() == 0 {
        None
    } else if s.first() == '\n' {
        Some(0)
    } else {
        match find_newline(s.drop_first()) {
            Some(j) => Some(j + 1),
            None => None,
        }
    }
}

/// The declaration spliced into the document's opening tag, just before the
/// end of the first line, so that a markup parser that rejects namespace-less
/// documents accepts the response.
pub open spec fn xmlns_decl() -> Seq<char> {
    " xmlns=\"\""@
}

/// The normalized response text: the empty default-namespace declaration
/// inserted just before the end of the first line. Undefined (`None`) when
/// the text has no line break, or none before its second character.
pub open spec fn inject_spec(s: Seq<char>) -> Option<Seq<char>> {
    match find_newline(s) {
        None => None,
        Some(i) => if i == 0 {
            None
        } else {
            Some(s.take(i - 1) + xmlns_decl() + s.skip(i - 1))
        },
    }
}

proof fn lemma_find_newline_at(s: Seq<char>, i: int)
    requires
        0 <= i < s.len(),
        s[i] == '\n',
        forall|j: int| 0 <= j < i ==> s[j] != '\n',
    ensures
        find_newline(s) == Some(i),
    decreases s.len(),
{
    if i == 0 {
    } else {
        lemma_find_newline_at(s.drop_first(), i - 1);
    }
}

proof fn lemma_find_newline_none(s: Seq<char>)
    requires
        forall|j: int| 0 <= j < s.len() ==> s[j] != '\n',
    ensures
        find_newline(s) is None,
    decreases s.len(),
{
    if s.len() > 0 {
        lemma_find_newline_none(s.drop_first());
    }
}

/// Pure response normalization: splices an explicit empty default-namespace
/// declaration into the opening tag. A blob with fewer than one line break,
/// or one that opens with a line break, is malformed.
pub fn inject_namespace(response: &str) -> (r: Option<String>)
    ensures
        match r {
            Some(out) => inject_spec(response@) == Some(out@),
            None => inject_spec(response@) is None,
        },
{
    let n: usize = response.unicode_len();
    let mut i: usize = 0;
    while i < n && response.get_char(i) != '\n'
        invariant
            0 <= i <= n,
            n == response@.len(),
            forall|j: int| 0 <= j < i ==> response@[j] != '\n',
        decreases n - i,
    {
        i = i + 1;
    }
    if i == n {
        proof {
            lemma_find_newline_none(response@);
        }
        return None;
    }
    proof {
        lemma_find_newline_at(response@, i as int);
    }
    if i == 0 {
        return None;
    }
    let mut out = String::new();
    out.append(response.substring_char(0, i - 1));
    out.append(" xmlns=\"\"");
    out.append(response.substring_char(i - 1, n));
    proof {
        assert(out@ =~= response@.take(i - 1) + xmlns_decl() + response@.skip(i - 1));
    }
    Some(out)
}

/// What minidom extracts from the normalized response: for each immediate
/// child of the root element, in document order, the five attributes the
/// resolver reads; `None` when minidom rejects the text. The result depends
/// on the text alone.
pub uninterp spec fn xml_entries(s: Seq<char>) -> Option<Seq<RawEntryV>>;

/// Relies on minidom (`Element` as `FromStr`, `Element::children`,
/// `Element::attr`): parses the document and hands back, per child element of
/// the root in document order, its `project`, `repository`, `package`,
/// `version` and `release` attributes.
#[verifier::external_body]
fn read_entries(xml: &str) -> (r: Option<Vec<RawEntry>>)
    ensures
        r is Some <==> xml_entries(xml@) is Some,
        r matches Some(v) ==> entries_view(v@) == xml_entries(xml@)->Some_0,
{
    let root: minidom::Element = match xml.parse() {
        Ok(e) => e,
        Err(_) => return None,
    };
    let mut out: Vec<RawEntry> = Vec::new();
    for c in root.children() {
        out.push(RawEntry {
            project: c.attr("project").map(str::to_string),
            repository: c.attr("repository").map(str::to_string),
            package: c.attr("package").map(str::to_string),
            version: c.attr("version").map(str::to_string),
            release: c.attr("release").map(str::to_string),
        });
    }
    Some(out)
}

/// The branch of one track's rule set that an entry matches, evaluated in the
/// rule's order: official project first, then update stream, then the
/// experimental repository.
pub open spec fn missing_for_rule(rule: TrackRuleV, e: RawEntryV) -> Option<AttrName> {
    if e.project == Some(rule.official_project) {
        if e.version is None {
            Some(AttrName::Version)
        } else if e.release is None {
            Some(AttrName::Release)
        } else {
            None
        }
    } else if rule.update_project matches Some(u) && e.project == Some(u) {
        if e.package is None {
            Some(AttrName::Package)
        } else if e.version is None {
            Some(AttrName::Version)
        } else if e.release is None {
            Some(AttrName::Release)
        } else {
            None
        }
    } else if e.repository == Some(rule.experimental_repository) {
        if e.project is None {
            Some(AttrName::Project)
        } else if e.version is None {
            Some(AttrName::Version)
        } else if e.release is None {
            Some(AttrName::Release)
        } else {
            None
        }
    } else {
        None
    }
}

pub open spec fn missing_from(rules: Seq<TrackRuleV>, e: RawEntryV) -> Option<AttrName>
    decreases rules.len(),
{
    if rules.len() == 0 {
        None
    } else {
        match missing_for_rule(rules.first(), e) {
            Some(a) => Some(a),
            None => missing_from(rules.drop_first(), e),
        }
    }
}

/// The first required attribute an entry lacks for any branch it matches, in
/// track-table order; `None` when every matched branch has what it needs.
pub open spec fn entry_missing(e: RawEntryV) -> Option<AttrName> {
    missing_from(track_table(), e)
}

pub open spec fn opt_or_empty(o: Option<Seq<char>>) -> Seq<char> {
    match o {
        Some(s) => s,
        None => Seq::empty(),
    }
}

/// The publication record an entry yields once its matched branches are known
/// to be complete: absent attributes (which then matter to no branch) are
/// filled in as empty strings.
pub open spec fn entry_record(e: RawEntryV) -> RecordV {
    RecordV {
        project: opt_or_empty(e.project),
        repository: opt_or_empty(e.repository),
        package: opt_or_empty(e.package),
        version: opt_or_empty(e.version),
        release: opt_or_empty(e.release),
    }
}

/// Record extraction from position `i` on: the records of the remaining
/// entries in document order, or the first missing-attribute failure with the
/// index of the child that caused it.
pub open spec fn extract_from(entries: Seq<RawEntryV>, i: int) -> Result<Seq<RecordV>, PkgError>
    decreases entries.len() - i,
{
    if i < 0 || i >= entries.len() {
        Ok(Seq::empty())
    } else {
        match entry_missing(entries[i]) {
            Some(a) => Err(PkgError::MissingAttribute { child: i as usize, attribute: a }),
            None => match extract_from(entries, i + 1) {
                Ok(rest) => Ok(seq![entry_record(entries[i])] + rest),
                Err(e) => Err(e),
            },
        }
    }
}

pub open spec fn extract_spec(entries: Seq<RawEntryV>) -> Result<Seq<RecordV>, PkgError> {
    extract_from(entries, 0)
}

proof fn lemma_extract_prefix(entries: Seq<RawEntryV>, i: int)
    requires
        0 <= i <= entries.len(),
        forall|j: int| 0 <= j < i ==> entry_missing(entries[j]) is None,
    ensures
        extract_from(entries, 0) == match extract_from(entries, i) {
            Ok(rest) => Ok::<Seq<RecordV>, PkgError>(
                entries.take(i).map_values(|e: RawEntryV| entry_record(e)) + rest,
            ),
            Err(e) => Err::<Seq<RecordV>, PkgError>(e),
        },
    decreases i,
{
    if i == 0 {
        match extract_from(entries, 0) {
            Ok(rest) => {
                assert(entries.take(0).map_values(|e: RawEntryV| entry_record(e)) + rest =~= rest);
            },
            Err(_) => {},
        }
    } else {
        lemma_extract_prefix(entries, i - 1);
        assert(entry_missing(entries[i - 1]) is None);
        assert(extract_from(entries, i - 1) == match extract_from(entries, i) {
            Ok(rest) => Ok::<Seq<RecordV>, PkgError>(seq![entry_record(entries[i - 1])] + rest),
            Err(e) => Err::<Seq<RecordV>, PkgError>(e),
        });
        match extract_from(entries, i) {
            Ok(rest) => {
                assert(entries.take(i - 1).map_values(|e: RawEntryV| entry_record(e)) + (seq![
                    entry_record(entries[i - 1]),
                ] + rest) =~= entries.take(i).map_values(|e: RawEntryV| entry_record(e)) + rest);
            },
            Err(_) => {},
        }
    }
}

fn entry_record_exec(e: &RawEntry) -> (r: PublicationRecord)
    ensures
        r@ == entry_record(e@),
{
    PublicationRecord {
        project: clone_or_empty(&e.project),
        repository: clone_or_empty(&e.repository),
        package: clone_or_empty(&e.package),
        version: clone_or_empty(&e.version),
        release: clone_or_empty(&e.release),
    }
}

fn clone_or_empty(o: &Option<String>) -> (r: String)
    ensures
        r@ == opt_or_empty(crate::model::opt_str_view(*o)),
{
    match o {
        Some(s) => s.clone(),
        None => String::new(),
    }
}

/// Checks one entry against every track's rule set, in table order, and
/// reports the first required attribute it lacks.
fn check_entry(e: &RawEntry, rules: &Vec<TrackRule>) -> (r: Option<AttrName>)
    requires
        rules_view(rules@) == track_table(),
    ensures
        r == entry_missing(e@),
{
    proof {
        assert(track_table().skip(0) =~= track_table());
    }
    let mut i: usize = 0;
    while i < rules.len()
        invariant
            0 <= i <= rules@.len(),
            rules_view(rules@) == track_table(),
            rules@.len() == track_table().len(),
            missing_from(track_table(), e@) == missing_from(track_table().skip(i as int), e@),
        decreases rules@.len() - i,
    {
        let rule = &rules[i];
        proof {
            assert(rule@ == track_table()[i as int]);
            assert(track_table().skip(i as int).first() == track_table()[i as int]);
            assert(track_table().skip(i as int).drop_first() =~= track_table().skip(i as int + 1));
        }
        let found = check_entry_rule(e, rule);
        if let Some(a) = found {
            return Some(a);
        }
        i = i + 1;
    }
    proof {
        assert(track_table().skip(track_table().len() as int) =~= Seq::<TrackRuleV>::empty());
    }
    None
}

fn check_entry_rule(e: &RawEntry, rule: &TrackRule) -> (r: Option<AttrName>)
    ensures
        r == missing_for_rule(rule@, e@),
{
    let matches_official = match &e.project {
        Some(p) => *p == rule.official_project,
        None => false,
    };
    if matches_official {
        if e.version.is_none() {
            return Some(AttrName::Version);
        }
        if e.release.is_none() {
            return Some(AttrName::Release);
        }
        return None;
    }
    let matches_update = match (&e.project, &rule.update_project) {
        (Some(p), Some(u)) => *p == *u,
        _ => false,
    };
    if matches_update {
        if e.package.is_none() {
            return Some(AttrName::Package);
        }
        if e.version.is_none() {
            return Some(AttrName::Version);
        }
        if e.release.is_none() {
            return Some(AttrName::Release);
        }
        return None;
    }
    let matches_experimental = match &e.repository {
        Some(rep) => *rep == rule.experimental_repository,
        None => false,
    };
    if matches_experimental {
        if e.project.is_none() {
            return Some(AttrName::Project);
        }
        if e.version.is_none() {
            return Some(AttrName::Version);
        }
        if e.release.is_none() {
            return Some(AttrName::Release);
        }
        return None;
    }
    None
}

/// What parsing makes of a raw response: normalize the text, hand it to the
/// markup parser, then turn each child entry into a publication record,
/// failing on a matched entry that lacks a required attribute.
pub open spec fn parse_spec(s: Seq<char>) -> Result<Seq<RecordV>, PkgError> {
    match inject_spec(s) {
        None => Err(PkgError::MalformedResponse),
        Some(fixed) => match xml_entries(fixed) {
            None => Err(PkgError::MalformedResponse),
            Some(entries) => extract_spec(entries),
        },
    }
}

/// Turns the collaborator's raw textual response into the ordered sequence of
/// publication records, in document order.
pub fn parse_records(response: &str) -> (r: Result<Vec<PublicationRecord>, PkgError>)
    ensures
        match r {
            Ok(v) => parse_spec(response@) == Ok::<Seq<RecordV>, PkgError>(records_view(v@)),
            Err(e) => parse_spec(response@) == Err::<Seq<RecordV>, PkgError>(e),
        },
{
    let fixed = match inject_namespace(response) {
        Some(f) => f,
        None => {
            return Err(PkgError::MalformedResponse);
        },
    };
    let entries = match read_entries(fixed.as_str()) {
        Some(v) => v,
        None => {
            return Err(PkgError::MalformedResponse);
        },
    };
    let ghost entries_v = entries_view(entries@);
    proof {
        assert(parse_spec(response@) == extract_spec(entries_v));
    }
    let rules = track_rules();
    let mut out: Vec<PublicationRecord> = Vec::new();
    let mut i: usize = 0;
    while i < entries.len()
        invariant
            0 <= i <= entries@.len(),
            entries_v == entries_view(entries@),
            entries_v.len() == entries@.len(),
            parse_spec(response@) == extract_spec(entries_v),
            rules_view(rules@) == track_table(),
            forall|j: int| 0 <= j < i ==> entry_missing(entries_v[j]) is None,
            out@.len() == i,
            forall|j: int| 0 <= j < i ==> out@[j]@ == entry_record(entries_v[j]),
        decreases entries@.len() - i,
    {
        let e = &entries[i];
        proof {
            assert(entries_v[i as int] == entries@[i as int]@);
        }
        if let Some(a) = check_entry(e, &rules) {
            proof {
                assert(extract_from(entries_v, i as int) == Err::<Seq<RecordV>, PkgError>(
                    PkgError::MissingAttribute { child: i as usize, attribute: a },
                ));
                lemma_extract_prefix(entries_v, i as int);
            }
            return Err(PkgError::MissingAttribute { child: i, attribute: a });
        }
        out.push(entry_record_exec(e));
        i = i + 1;
    }
    proof {
        lemma_extract_prefix(entries_v, entries_v.len() as int);
        assert(extract_from(entries_v, entries_v.len() as int) == Ok::<Seq<RecordV>, PkgError>(
            Seq::empty(),
        ));
        let mapped = entries_v.take(entries_v.len() as int).map_values(
            |e: RawEntryV| entry_record(e),
        );
        assert(extract_spec(entries_v) == Ok::<Seq<RecordV>, PkgError>(mapped + Seq::empty()));
        assert(mapped + Seq::<RecordV>::empty() =~= mapped);
        assert(entries_v.take(entries_v.len() as int) =~= entries_v);
        assert(records_view(out@) =~= mapped);
    }
    Ok(out)
}

} // verus!
