//! Where the registry's tag list of a project is asked for.
use vstd::prelude::*;

verus! {

/// Base address of the registry's HTTP API.
pub const HARBOR_API_URL: &'static str = "http://10.12.135.233/api";

/// The address of the detailed tag list of project `name` in `repo`.
pub open spec fn full_url_spec(repo: Seq<char>, name: Seq<char>) -> Seq<char> {
    HARBOR_API_URL@ + "/repositories/"@ + repo + "/"@ + name + "/tags?detail=true"@
}

/// The address of the detailed tag list of project `name` in `repo`.
pub fn get_full_url(repo: &str, name: &str) -> (r: String)
    ensures
        r@ == full_url_spec(repo@, name@),
{
    let mut s = String::from_str(HARBOR_API_URL);
    s.append("/repositories/");
    s.append(repo);
    s.append("/");
    s.append(name);
    s.append("/tags?detail=true");
    s
}

} // verus!
