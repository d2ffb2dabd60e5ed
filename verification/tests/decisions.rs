use release_party::github::{
    create_release_pull_request, existing_release_pr_location, get_commits_from_pr,
    is_release_up_to_date_with_master, ActualCommitInPR, Commit, CommitInPR,
    CompareCommitsResponse, CreatePrError, CreatePrOutcome, GithubPullRequest,
};
use release_party::orgs::{make_org_url, org_is_just_org, suggest_org_arg};
use release_party::urls::{compare_probe_url, pr_commits_url, pr_update_url, pulls_url};

fn pull_request(html_url: &str) -> GithubPullRequest {
    GithubPullRequest {
        id: 1,
        url: "https://api.github.com/repos/me/proj/pulls/7".to_string(),
        html_url: html_url.to_string(),
        head: Commit { sha: "abc123".to_string() },
        base: Commit { sha: "def456".to_string() },
    }
}

fn commit_with_message(message: &str) -> CommitInPR {
    CommitInPR {
        sha: "abc123".to_string(),
        actual_commit: ActualCommitInPR { message: message.to_string() },
    }
}

#[test]
fn handle_malformed_org() {
    assert_eq!(false, org_is_just_org("https://api.github.com/orgs/ORG-HERE/repos"));
}

#[test]
fn handle_okay_org() {
    assert_eq!(true, org_is_just_org("ORG-HERE"));
}

#[test]
fn suggestion_for_org_happy() {
    assert_eq!(
        "ORG-HERE",
        suggest_org_arg("https://api.github.com/orgs/ORG-HERE/repos").unwrap()
    );
}

#[test]
fn suggestion_for_org_sad() {
    assert_eq!(true, suggest_org_arg("https://api.github.com/orgs/ORG-HERE/").is_err());
    assert_eq!(true, suggest_org_arg("http://api.github.com/orgs/ORG-HERE/").is_err());
    assert_eq!(true, suggest_org_arg("api.github.com/orgs/ORG-HERE/repos").is_err());
}

#[test]
fn org_url_is_derived_from_the_name() {
    assert_eq!(
        "https://api.github.com/orgs/ORG-HERE/repos",
        make_org_url("ORG-HERE")
    );
}

#[test]
fn failed_compare_probe_reads_as_up_to_date() {
    assert_eq!(true, is_release_up_to_date_with_master(&None));
}

#[test]
fn behind_release_needs_a_pull_request() {
    let behind = CompareCommitsResponse { status: "behind".to_string(), behind_by: 3 };
    assert_eq!(false, is_release_up_to_date_with_master(&Some(behind)));
    let even = CompareCommitsResponse { status: "identical".to_string(), behind_by: 0 };
    assert_eq!(true, is_release_up_to_date_with_master(&Some(even)));
    let ahead = CompareCommitsResponse { status: "ahead".to_string(), behind_by: -2 };
    assert_eq!(true, is_release_up_to_date_with_master(&Some(ahead)));
}

#[test]
fn failed_or_empty_pull_lookup_finds_nothing() {
    assert_eq!(None, existing_release_pr_location(&None));
    assert_eq!(None, existing_release_pr_location(&Some(vec![])));
}

#[test]
fn first_existing_pull_request_is_reported() {
    let pulls = vec![
        pull_request("https://github.com/me/proj/pull/7"),
        pull_request("https://github.com/me/proj/pull/8"),
    ];
    assert_eq!(
        Some("https://github.com/me/proj/pull/7".to_string()),
        existing_release_pr_location(&Some(pulls))
    );
}

#[test]
fn creation_outcomes_map_to_urls_and_errors() {
    let created = CreatePrOutcome::Created(pull_request("https://github.com/me/proj/pull/9"));
    assert_eq!(
        Ok("https://github.com/me/proj/pull/9".to_string()),
        create_release_pull_request(created)
    );
    assert_eq!(
        Err(CreatePrError::TransportError),
        create_release_pull_request(CreatePrOutcome::TransportError)
    );
    assert_eq!(
        Err(CreatePrError::AlreadyUpToDateOrExists),
        create_release_pull_request(CreatePrOutcome::Rejected)
    );
    assert_eq!(
        Err(CreatePrError::DecodeError),
        create_release_pull_request(CreatePrOutcome::UndecodableBody)
    );
}

#[test]
fn merge_commits_contribute_their_reference() {
    let commits = vec![
        commit_with_message("Merge pull request #42 from foo/bar"),
        commit_with_message("fix typo"),
    ];
    let body = get_commits_from_pr(&commits, "release-party-br v9.9.9");
    assert_eq!(
        "automated release partay!\n\nPRs in this release:\n* #42\n\n---\nMade by `release-party-br v9.9.9`.",
        body
    );
    assert!(body.contains("#42"));
    assert!(!body.contains("typo"));
}

#[test]
fn plain_commits_contribute_nothing() {
    let commits = vec![commit_with_message("fix typo"), commit_with_message("bump version")];
    let body = get_commits_from_pr(&commits, "v1");
    assert_eq!(
        "automated release partay!\n\nPRs in this release:\n\n---\nMade by `v1`.",
        body
    );
}

#[test]
fn endpoint_urls_are_derived_from_the_repository_url() {
    let repo = "https://api.github.com/repos/me/proj";
    assert_eq!("https://api.github.com/repos/me/proj/pulls", pulls_url(repo));
    assert_eq!(
        "https://api.github.com/repos/me/proj/pulls/39/commits",
        pr_commits_url(repo, "39")
    );
    assert_eq!(
        "https://api.github.com/repos/me/proj/pulls/39",
        pr_update_url(repo, "39")
    );
}

#[test]
fn compare_probe_url_rejects_malformed_bases() {
    assert!(compare_probe_url("https://api.github.com/repos/me/proj").is_some());
    assert!(compare_probe_url("not a url at all").is_none());
}

#[test]
fn compare_probe_url_appends_the_compare_path() {
    let probe = compare_probe_url("https://api.github.com/repos/me/proj").unwrap();
    assert_eq!(
        "https://api.github.com/repos/me/proj/compare/master...release",
        probe.as_str()
    );
}
