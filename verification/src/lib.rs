pub mod model;
pub mod parse;
pub mod query;
pub mod render;
pub mod resolve;
pub mod sanitize;

use vstd::prelude::*;

use crate::render::empty_name_msg;

verus! {

/// Placeholder entry point of the plain version query: answers with a fixed
/// text, or with the empty-name reply.
pub fn get_pkg_version(pkgname: &str) -> (r: String)
    ensures
        pkgname@.len() == 0 ==> r@ == empty_name_msg(),
        pkgname@.len() != 0 ==> r@ == "Function under constructing!"@,
{
    if pkgname.is_empty() {
        "No pkgname provided.".to_owned()
    } else {
        "Function under constructing!".to_owned()
    }
}

/// What a raw query leads to: an immediate reply, or a fetch for a sanitized
/// name.
pub enum RequestPlan {
    Reply(String),
    Fetch { pkgname: String, url: String },
}

/// Decides the first half of the pipeline: sanitizes the raw name and either
/// short-circuits with the fixed empty-name reply (no fetch is ever issued
/// then) or hands back the sanitized name with the query to fetch.
pub fn plan_request(raw: &str) -> (r: RequestPlan)
    ensures
        crate::sanitize::sanitized_of(raw@).len() == 0 ==> (r matches RequestPlan::Reply(m)
            && m@ == empty_name_msg()),
        crate::sanitize::sanitized_of(raw@).len() != 0 ==> (r matches RequestPlan::Fetch {
            pkgname,
            url,
        } && pkgname@ == crate::sanitize::sanitized_of(raw@) && url@ == crate::query::query_of(
            crate::sanitize::sanitized_of(raw@),
        )),
{
    let name = crate::sanitize::sanitize(raw);
    if name.as_str().is_empty() {
        RequestPlan::Reply(crate::render::render_error(&crate::model::PkgError::EmptyInput))
    } else {
        let url = crate::query::build_query(name.as_str());
        RequestPlan::Fetch { pkgname: name, url: url }
    }
}

/// What the second half of the pipeline replies once the fetch collaborator
/// has answered (or failed): a fixed message for a failed fetch or an
/// unparsable response, else the rendered resolution of the records.
pub open spec fn respond_spec(name: Seq<char>, fetched: Option<Seq<char>>) -> Seq<char> {
    match fetched {
        None => crate::render::fetch_failed_msg(),
        Some(body) => match crate::parse::parse_spec(body) {
            Ok(recs) => crate::render::render_spec(crate::resolve::resolve_spec(name, recs)),
            Err(e) => crate::render::error_message_of(e),
        },
    }
}

/// Runs parsing, resolution and rendering on a fetch outcome (`None` when
/// the transport failed) for an already sanitized, non-empty name.
pub fn respond(pkgname: &str, fetched: Option<&str>) -> (r: String)
    ensures
        r@ == respond_spec(
            pkgname@,
            match fetched {
                Some(b) => Some(b@),
                None => None,
            },
        ),
{
    match fetched {
        None => crate::render::render_error(&crate::model::PkgError::FetchFailed),
        Some(body) => match crate::parse::parse_records(body) {
            Ok(records) => {
                let summary = crate::resolve::resolve_summary(pkgname, &records);
                crate::render::render_summary(&summary)
            },
            Err(e) => crate::render::render_error(&e),
        },
    }
}

} // verus!
