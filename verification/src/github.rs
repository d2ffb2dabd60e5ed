//! Repository and pull-request data, and the per-probe decision procedures.
//!
//! The caller performs the network traffic and the JSON decoding; every
//! function here receives the decoded outcome as a plain value and turns it
//! into a decision.  The decisions are deliberately asymmetric: a failed
//! probe must never cause a pull request to be created, so probe failures
//! read as "nothing to do".

use vstd::prelude::*;
use vstd::string::StringExecFns;

use crate::strutil::{contains_seq, contains_substr, split_seq, split_str};

verus! {

/// A repository as the listing endpoint reports it.
#[derive(Debug, Clone)]
pub struct GithubRepo {
    pub id: i32,
    /// Human name, unique within the account; used for ignore-list matching.
    pub name: String,
    /// API base URL from which every other endpoint of the repository is
    /// derived.
    pub url: String,
}

/// The compare endpoint's answer: how far the release branch lags behind
/// the development branch.
#[derive(Debug, Clone)]
pub struct CompareCommitsResponse {
    pub status: String,
    pub behind_by: i32,
}

/// One branch endpoint of a pull request.
#[derive(Debug, Clone)]
pub struct Commit {
    pub sha: String,
}

/// A pull request as the pulls endpoints report it.
#[derive(Debug, Clone)]
pub struct GithubPullRequest {
    pub id: i32,
    pub url: String,
    pub html_url: String,
    pub head: Commit,
    pub base: Commit,
}

/// The message part of a commit in a pull request's history.
#[derive(Debug, Clone)]
pub struct ActualCommitInPR {
    pub message: String,
}

/// A commit in a pull request's history.
#[derive(Debug, Clone)]
pub struct CommitInPR {
    pub sha: String,
    pub actual_commit: ActualCommitInPR,
}

/// Whether the release branch needs no pull request, given the outcome of
/// the compare probe (`None` when the probe failed in any way: bad URL,
/// transport error, or undecodable body).  Only a decoded answer that is
/// behind by at least one commit asks for a pull request; every failure
/// reads as up to date, so that a failed probe never creates one.
pub fn is_release_up_to_date_with_master(probe: &Option<CompareCommitsResponse>) -> (r: bool)
    ensures
        r == !(*probe matches Some(c) && c.behind_by > 0),
{
    match probe {
        Some(c) => c.behind_by <= 0,
        None => true,
    }
}

/// The human-facing URL of an existing release pull request, given the
/// decoded answer of the filtered pulls query (`None` when the probe failed;
/// a failure reads as an empty list).  Returns the first entry's URL.
pub fn existing_release_pr_location(pulls: &Option<Vec<GithubPullRequest>>) -> (r: Option<String>)
    ensures
        ({
            match pulls {
                None => r is None,
                Some(v) => if v@.len() == 0 {
                    r is None
                } else {
                    r matches Some(u) && u@ == v@[0].html_url@
                },
            }
        }),
{
    match pulls {
        None => None,
        Some(v) => {
            if v.len() == 0 {
                None
            } else {
                Some(v[0].html_url.clone())
            }
        },
    }
}

/// What came back from posting a new pull request.
pub enum CreatePrOutcome {
    /// The request never completed.
    TransportError,
    /// The service answered with a non-success status (it uses one status
    /// both for "a pull request already exists" and for "the branches are
    /// already equal", and the two cannot be told apart).
    Rejected,
    /// The service created the pull request and the body decoded to it.
    Created(GithubPullRequest),
    /// The service reported success but the body did not decode.
    UndecodableBody,
}

/// Why creating a pull request yielded no URL.
#[derive(Clone, Copy, Debug, PartialEq, Eq, Structural)]
pub enum CreatePrError {
    /// The request never completed.
    TransportError,
    /// The creation response's body did not decode.
    DecodeError,
    /// The service refused: the pull request already exists or the branches
    /// are already equal; the caller must not treat this as fatal.
    AlreadyUpToDateOrExists,
}

/// The URL of the created pull request, or the reason there is none, given
/// what came back from the creation request.
pub fn create_release_pull_request(outcome: CreatePrOutcome) -> (r: Result<String, CreatePrError>)
    ensures
        ({
            match outcome {
                CreatePrOutcome::TransportError => r == Err::<String, _>(
                    CreatePrError::TransportError,
                ),
                CreatePrOutcome::Rejected => r == Err::<String, _>(
                    CreatePrError::AlreadyUpToDateOrExists,
                ),
                CreatePrOutcome::Created(pr) => r matches Ok(u) && u@ == pr.html_url@,
                CreatePrOutcome::UndecodableBody => r == Err::<String, _>(
                    CreatePrError::DecodeError,
                ),
            }
        }),
{
    match outcome {
        CreatePrOutcome::TransportError => Err(CreatePrError::TransportError),
        CreatePrOutcome::Rejected => Err(CreatePrError::AlreadyUpToDateOrExists),
        CreatePrOutcome::Created(pr) => Ok(pr.html_url),
        CreatePrOutcome::UndecodableBody => Err(CreatePrError::DecodeError),
    }
}

/// A name stands in the ignore list.
pub open spec fn name_in_list(names: Seq<String>, name: Seq<char>) -> bool {
    exists|i: int| 0 <= i < names.len() && names[i]@ == name
}

fn name_is_listed(names: &Vec<String>, name: &String) -> (r: bool)
    ensures
        r == name_in_list(names@, name@),
{
    let mut i: usize = 0;
    while i < names.len()
        invariant
            0 <= i <= names@.len(),
            forall|k: int| 0 <= k < i ==> names@[k]@ != name@,
        decreases names@.len() - i,
    {
        if names[i] == *name {
            return true;
        }
        i = i + 1;
    }
    false
}

/// The repositories that are not ignored, in their original order.
pub open spec fn without_ignored(repos: Seq<GithubRepo>, ignored: Seq<String>) -> Seq<GithubRepo>
    decreases repos.len(),
{
    if repos.len() == 0 {
        Seq::empty()
    } else {
        let rest = without_ignored(repos.drop_last(), ignored);
        if name_in_list(ignored, repos.last().name@) {
            rest
        } else {
            rest.push(repos.last())
        }
    }
}

/// Drop every repository whose name stands in the ignore list, keeping the
/// order of the rest.
pub fn filter_ignored_repos(repos: Vec<GithubRepo>, ignored: &Vec<String>) -> (r: Vec<GithubRepo>)
    ensures
        r@ == without_ignored(repos@, ignored@),
{
    let ghost orig = repos@;
    let mut remaining = repos;
    let mut out: Vec<GithubRepo> = Vec::new();
    loop
        invariant
            remaining@.len() <= orig.len(),
            remaining@ == orig.skip(orig.len() - remaining@.len()),
            out@ == without_ignored(orig.take(orig.len() - remaining@.len()), ignored@),
        ensures
            remaining@.len() == 0,
            out@ == without_ignored(orig.take(orig.len() as int), ignored@),
        decreases remaining@.len(),
    {
        if remaining.len() == 0 {
            break;
        }
        let ghost k = orig.len() - remaining@.len();
        let rep = remaining.remove(0);
        proof {
            assert(rep == orig[k]);
            assert(remaining@ =~= orig.skip(k + 1));
            assert(orig.take(k + 1).drop_last() =~= orig.take(k));
            assert(orig.take(k + 1).last() == orig[k]);
        }
        if !name_is_listed(ignored, &rep.name) {
            out.push(rep);
        }
    }
    proof {
        assert(orig.take(orig.len() as int) =~= orig);
    }
    out
}

/// The pull-request reference contributed by one commit message: messages
/// holding the merge-commit marker contribute their fourth
/// space-separated field (the `#N` token of the canonical template), and
/// every other message contributes nothing.
pub open spec fn pr_reference(msg: Seq<char>) -> Option<Seq<char>> {
    if contains_seq(msg, "Merge pull request #"@) {
        let toks = split_seq(msg, ' ', false);
        if toks.len() >= 4 {
            Some(toks[3])
        } else {
            None
        }
    } else {
        None
    }
}

/// The reference lines of a description body, in commit order.
pub open spec fn body_refs(commits: Seq<CommitInPR>) -> Seq<char>
    decreases commits.len(),
{
    if commits.len() == 0 {
        Seq::empty()
    } else {
        body_refs(commits.drop_last()) + match pr_reference(commits.last().actual_commit.message@) {
            Some(t) => "\n* "@ + t,
            None => Seq::<char>::empty(),
        }
    }
}

/// The generated description body: a fixed heading, one line per
/// merge-commit reference, and a trailing attribution naming the tool
/// version.
pub open spec fn release_body(commits: Seq<CommitInPR>, version: Seq<char>) -> Seq<char> {
    "automated release partay!\n\nPRs in this release:"@ + body_refs(commits)
        + "\n\n---\nMade by `"@ + version + "`."@
}

/// Build a pull request's description body from its commit history: list
/// the pull-request references found in merge-commit messages and close
/// with an attribution line naming the tool version.
pub fn get_commits_from_pr(commits: &Vec<CommitInPR>, rp_version: &str) -> (r: String)
    ensures
        r@ == release_body(commits@, rp_version@),
{
    let mut body = String::from_str("automated release partay!\n\nPRs in this release:");
    let ghost heading: Seq<char> = body@;
    let mut i: usize = 0;
    while i < commits.len()
        invariant
            0 <= i <= commits@.len(),
            body@ == heading + body_refs(commits@.take(i as int)),
        decreases commits@.len() - i,
    {
        proof {
            assert(commits@.take(i + 1).drop_last() =~= commits@.take(i as int));
            assert(commits@.take(i + 1).last() == commits@[i as int]);
        }
        let msg = &commits[i].actual_commit.message;
        if contains_substr(msg.as_str(), "Merge pull request #") {
            let toks = split_str(msg.as_str(), ' ', false);
            if toks.len() >= 4 {
                body.append("\n* ");
                body.append(toks[3].as_str());
                proof {
                    let t = pr_reference(commits@[i as int].actual_commit.message@)->0;
                    assert(heading + body_refs(commits@.take(i as int)) + "\n* "@ + t =~= heading
                        + body_refs(commits@.take(i + 1)));
                }
            } else {
                proof {
                    assert(body_refs(commits@.take(i + 1)) =~= body_refs(commits@.take(i as int)));
                }
            }
        } else {
            proof {
                assert(body_refs(commits@.take(i + 1)) =~= body_refs(commits@.take(i as int)));
            }
        }
        i = i + 1;
    }
    proof {
        assert(commits@.take(commits@.len() as int) =~= commits@);
    }
    body.append("\n\n---\nMade by `");
    body.append(rp_version);
    body.append("`.");
    proof {
        assert(heading + body_refs(commits@) + "\n\n---\nMade by `"@ + rp_version@ + "`."@
            =~= release_body(commits@, rp_version@));
    }
    body
}

} // verus!
