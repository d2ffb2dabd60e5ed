//! Endpoint URLs.
//!
//! Every endpoint the engine talks to is derived from a repository's API
//! base URL by plain concatenation; the `url` crate then validates the
//! result (and appends query parameters) exactly as the transport layer
//! will read it.  Validation failures feed the conservative defaults of the
//! decision procedures, so the builders return `Option`/`Result` rather
//! than panicking.

use vstd::prelude::*;
use vstd::string::StringExecFns;

verus! {

/// Declares `url::Url` so that validated URLs can flow through signatures;
/// the engine never looks inside one.
#[verifier::external_type_specification]
#[verifier::external_body]
pub struct ExUrl(url::Url);

/// Whether `url::Url::parse` accepts `s` as an absolute URL.  The parser is
/// a pure function of its input, so acceptance is too.
pub uninterp spec fn url_parse_ok(s: Seq<char>) -> bool;

/// Relies on url::Url::parse: parses an absolute URL from a string and
/// returns `Err` exactly when the string is not one.
#[verifier::external_body]
pub(crate) fn parse_url(s: &str) -> (r: Result<url::Url, String>)
    ensures
        r is Ok <==> url_parse_ok(s@),
{
    match url::Url::parse(s) {
        Ok(u) => Ok(u),
        Err(e) => Err(format!("{}", e)),
    }
}

/// Relies on url::Url::parse_with_params: parses an absolute URL and then
/// appends the given query pairs; appending never fails, so the result is
/// `Err` exactly when `url::Url::parse` would refuse the string itself.
#[verifier::external_body]
fn parse_url_with_params(s: &str, params: &Vec<(String, String)>) -> (r: Result<url::Url, String>)
    ensures
        r is Ok <==> url_parse_ok(s@),
{
    match url::Url::parse_with_params(s, params) {
        Ok(u) => Ok(u),
        Err(e) => Err(format!("{}", e)),
    }
}

/// The compare endpoint asking how far the release branch lags behind the
/// development branch.
pub open spec fn compare_url_str(repo_url: Seq<char>) -> Seq<char> {
    repo_url + "/compare/master...release"@
}

/// The pulls collection endpoint of a repository.
pub open spec fn pulls_url_str(repo_url: Seq<char>) -> Seq<char> {
    repo_url + "/pulls"@
}

/// The commit list endpoint of one pull request.
pub open spec fn pr_commits_url_str(repo_url: Seq<char>, pr_number: Seq<char>) -> Seq<char> {
    repo_url + "/pulls/"@ + pr_number + "/commits"@
}

/// The endpoint of one pull request.
pub open spec fn pr_update_url_str(repo_url: Seq<char>, pr_number: Seq<char>) -> Seq<char> {
    repo_url + "/pulls/"@ + pr_number
}

/// The validated URL of the compare probe, or `None` when the repository's
/// base URL does not yield a well-formed one (the caller then assumes the
/// release is up to date rather than acting on a probe it cannot make).
pub fn compare_probe_url(repo_url: &str) -> (r: Option<url::Url>)
    ensures
        r is Some <==> url_parse_ok(compare_url_str(repo_url@)),
{
    let mut s = String::from_str(repo_url);
    s.append("/compare/master...release");
    match parse_url(s.as_str()) {
        Ok(u) => Some(u),
        Err(_) => None,
    }
}

/// The pulls collection URL of a repository, used for creating a pull
/// request.
pub fn pulls_url(repo_url: &str) -> (r: String)
    ensures
        r@ == pulls_url_str(repo_url@),
{
    let mut s = String::from_str(repo_url);
    s.append("/pulls");
    s
}

/// The validated URL asking for open pull requests from the development
/// branch into the release branch, or `None` when the repository's base URL
/// does not yield a well-formed one.
pub fn pulls_query_url(repo_url: &str) -> (r: Option<url::Url>)
    ensures
        r is Some <==> url_parse_ok(pulls_url_str(repo_url@)),
{
    let base = pulls_url(repo_url);
    let mut params: Vec<(String, String)> = Vec::new();
    params.push((String::from_str("head"), String::from_str("master")));
    params.push((String::from_str("base"), String::from_str("release")));
    match parse_url_with_params(base.as_str(), &params) {
        Ok(u) => Some(u),
        Err(_) => None,
    }
}

/// The validated URL of the first repository-list page, asking for large
/// pages to keep the number of round trips down.
pub fn repos_first_page_url(repos_url: &str) -> (r: Option<url::Url>)
    ensures
        r is Some <==> url_parse_ok(repos_url@),
{
    let mut params: Vec<(String, String)> = Vec::new();
    params.push((String::from_str("per_page"), String::from_str("100")));
    match parse_url_with_params(repos_url, &params) {
        Ok(u) => Some(u),
        Err(_) => None,
    }
}

/// The commit list URL of one pull request.
pub fn pr_commits_url(repo_url: &str, pr_number: &str) -> (r: String)
    ensures
        r@ == pr_commits_url_str(repo_url@, pr_number@),
{
    let mut s = String::from_str(repo_url);
    s.append("/pulls/");
    s.append(pr_number);
    s.append("/commits");
    s
}

/// The URL of one pull request, used for rewriting its description body.
pub fn pr_update_url(repo_url: &str, pr_number: &str) -> (r: String)
    ensures
        r@ == pr_update_url_str(repo_url@, pr_number@),
{
    let mut s = String::from_str(repo_url);
    s.append("/pulls/");
    s.append(pr_number);
    s
}

} // verus!
