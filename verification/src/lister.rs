//! The repository lister: accumulating a paginated repository list.
//!
//! The caller fetches one page at a time; each page's decoded body and
//! response headers come here, the repositories are appended in arrival
//! order, and the step result says whether to follow a next-page link,
//! stop, or abort the whole listing.  Listing failures are fatal to the
//! run: the engine must never reconcile against a silently truncated
//! repository universe, so an undecodable page aborts with no partial
//! result.

use vstd::prelude::*;

use crate::github::GithubRepo;
use crate::headers::ResponseHeaders;
use crate::links::{
    lemma_next_page_url_cases, link_view, next_page_url, response_has_a_next_link,
    response_next_link, LinkError,
};
use crate::urls::{parse_url, repos_first_page_url, url_parse_ok};

verus! {

/// Why a repository listing aborted.  Every one of these is fatal to the
/// run.
#[derive(Clone, Copy, Debug, PartialEq, Eq, Structural)]
pub enum ListError {
    /// The listing URL itself is not a well-formed URL.
    BadRepoListUrl,
    /// The first page answered with a non-success status.
    FirstPageHttpError,
    /// A page's body did not decode as a repository list.
    DecodeError,
    /// A page announced a next page but its link is unusable.
    BadNextLink,
}

/// What to do after ingesting one page.
#[derive(Debug, Clone, PartialEq, Eq)]
pub enum ListStep {
    /// Another page follows at this URL.
    Continue(String),
    /// The accumulated list is complete.
    Finished,
    /// Abort the whole listing; no partial result may be used.
    Abort(ListError),
}

/// The validated URL of the first repository-list page, or the fatal
/// listing error when the given listing URL is not well-formed.
pub fn start_repo_listing(repos_url: &str) -> (r: Result<url::Url, ListError>)
    ensures
        r is Ok <==> url_parse_ok(repos_url@),
        r matches Err(e) ==> e == ListError::BadRepoListUrl,
{
    match repos_first_page_url(repos_url) {
        Some(u) => Ok(u),
        None => Err(ListError::BadRepoListUrl),
    }
}

/// Ingest one page of the repository listing: append its repositories to
/// the accumulator in arrival order, then follow the headers.  A
/// non-success first page and an undecodable body abort without touching
/// the accumulator; otherwise the step continues at the next-page link
/// exactly when the headers announce a usable one.
pub fn ingest_repo_page(
    acc: &mut Vec<GithubRepo>,
    first_page: bool,
    status_success: bool,
    decoded: Option<Vec<GithubRepo>>,
    headers: &ResponseHeaders,
) -> (step: ListStep)
    ensures
        first_page && !status_success ==> final(acc)@ == old(acc)@ && step == ListStep::Abort(
            ListError::FirstPageHttpError,
        ),
        !(first_page && !status_success) ==> ({
            match decoded {
                None => final(acc)@ == old(acc)@ && step == ListStep::Abort(ListError::DecodeError),
                Some(page) => final(acc)@ == old(acc)@ + page@ && ({
                    match next_page_url(link_view(*headers)) {
                        Ok(u) => if url_parse_ok(u) {
                            step matches ListStep::Continue(s) && s@ == u
                        } else {
                            step == ListStep::Abort(ListError::BadNextLink)
                        },
                        Err(LinkError::NoNextLink) => step == ListStep::Finished,
                        Err(LinkError::MalformedNextLink) => step == ListStep::Abort(
                            ListError::BadNextLink,
                        ),
                    }
                }),
            }
        }),
{
    if first_page && !status_success {
        return ListStep::Abort(ListError::FirstPageHttpError);
    }
    match decoded {
        None => ListStep::Abort(ListError::DecodeError),
        Some(mut page) => {
            acc.append(&mut page);
            if response_has_a_next_link(headers) {
                proof {
                    lemma_next_page_url_cases(link_view(*headers));
                }
                match response_next_link(headers) {
                    Ok(u) => {
                        match parse_url(u.as_str()) {
                            Ok(_) => ListStep::Continue(u),
                            Err(_) => ListStep::Abort(ListError::BadNextLink),
                        }
                    },
                    Err(_) => ListStep::Abort(ListError::BadNextLink),
                }
            } else {
                proof {
                    lemma_next_page_url_cases(link_view(*headers));
                }
                ListStep::Finished
            }
        },
    }
}

} // verus!
