//! Organisation-argument handling: the engine is pointed at an organisation
//! by its bare name, and these helpers validate the argument and derive the
//! repository-listing URL from it.

use vstd::prelude::*;
use vstd::string::StringExecFns;

use crate::strutil::{contains_seq, contains_substr, str_ends_with, str_starts_with};

verus! {

/// Whether the argument looks like a bare organisation name rather than a
/// pasted API URL.
pub fn org_is_just_org(org: &str) -> (r: bool)
    ensures
        r == !contains_seq(org@, "https://api.github.com"@),
{
    !contains_substr(org, "https://api.github.com")
}

/// For an argument that is a full organisation-repositories URL, the bare
/// organisation name to suggest instead: the part strictly between the API
/// prefix and the trailing `/repos`.  Anything else earns no suggestion.
pub fn suggest_org_arg(org: &str) -> (r: Result<String, String>)
    ensures
        ({
            let p = "https://api.github.com/orgs/"@;
            let q = "/repos"@;
            let shaped = p.len() + q.len() <= org@.len() && org@.take(p.len() as int) == p
                && org@.skip(org@.len() - q.len()) == q;
            match r {
                Ok(u) => shaped && u@ == org@.subrange(p.len() as int, org@.len() - q.len()),
                Err(m) => !shaped && m@ == "Can't make a suggestion"@,
            }
        }),
{
    let prefix = "https://api.github.com/orgs/";
    let suffix = "/repos";
    let n = org.unicode_len();
    let pn = prefix.unicode_len();
    let qn = suffix.unicode_len();
    proof {
        reveal_strlit("https://api.github.com/orgs/");
        reveal_strlit("/repos");
    }
    if pn + qn <= n && str_starts_with(org, prefix) && str_ends_with(org, suffix) {
        let middle = org.substring_char(pn, n - qn);
        Ok(String::from_str(middle))
    } else {
        Err(String::from_str("Can't make a suggestion"))
    }
}

/// The repository-listing URL of an organisation.
pub fn make_org_url(org: &str) -> (r: String)
    ensures
        r@ == "https://api.github.com/orgs/"@ + org@ + "/repos"@,
{
    let mut s = String::from_str("https://api.github.com/orgs/");
    s.append(org);
    s.append("/repos");
    s
}

} // verus!
