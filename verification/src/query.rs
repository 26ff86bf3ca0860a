use vstd::prelude::*;

verus! {

/// The search request sent for a sanitized token: an exact name match,
/// restricted to the x86_64 and noarch architectures and to the vendor's
/// umbrella namespace, excluding personal and in-development namespaces.
pub open spec fn query_of(name: Seq<char>) -> Seq<char> {
    "https://api.opensuse.org/search/published/binary/id?match=@name="@ + "\""@ + name + "\""@
        + " and (contains-ic(@arch, \"x86_64\") or contains-ic(@arch, \"noarch\")) and contains-ic(@baseproject, \"openSUSE:\")"@
        + " and not(contains-ic(@project, \"home:\")) and not(contains-ic(@project, \"devel:\"))"@
}

/// Builds the search query for a non-empty sanitized package name. The caller
/// performs the fetch; this only constructs the filter, so behaviour is
/// testable without any transport.
pub fn build_query(pkgname: &str) -> (r: String)
    requires
        pkgname@.len() > 0,
    ensures
        r@ == query_of(pkgname@),
{
    let mut out = String::new();
    out.append("https://api.opensuse.org/search/published/binary/id?match=@name=");
    out.append("\"");
    out.append(pkgname);
    out.append("\"");
    out.append(
        " and (contains-ic(@arch, \"x86_64\") or contains-ic(@arch, \"noarch\")) and contains-ic(@baseproject, \"openSUSE:\")",
    );
    out.append(
        " and not(contains-ic(@project, \"home:\")) and not(contains-ic(@project, \"devel:\"))",
    );
    proof {
        assert(out@ =~= query_of(pkgname@));
    }
    out
}

} // verus!
