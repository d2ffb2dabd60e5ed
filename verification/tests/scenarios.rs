use release_party::driver::{
    after_create_attempt, after_pr_lookup, after_up_to_date_check, outcome_link,
    pr_number_from_url, start_reconciliation, ReconcileStep, ReconciliationOutcome,
};
use release_party::github::{
    create_release_pull_request, is_release_up_to_date_with_master, CompareCommitsResponse,
    Commit, CreatePrOutcome, GithubPullRequest, GithubRepo,
};
use release_party::headers::ResponseHeaders;
use release_party::lister::{ingest_repo_page, start_repo_listing, ListError, ListStep};
use release_party::urls::{pulls_query_url, repos_first_page_url};

fn repo(name: &str) -> GithubRepo {
    GithubRepo {
        id: 1,
        name: name.to_string(),
        url: format!("https://api.github.com/repos/me/{}", name),
    }
}

fn headers_with_link(v: &str) -> ResponseHeaders {
    ResponseHeaders {
        link: Some(v.to_string()),
        rate_limit_remaining: None,
    }
}

fn empty_headers() -> ResponseHeaders {
    ResponseHeaders {
        link: None,
        rate_limit_remaining: None,
    }
}

#[test]
fn two_page_listing_concatenates_in_arrival_order() {
    let mut acc: Vec<GithubRepo> = Vec::new();
    let page1 = vec![repo("alpha"), repo("beta")];
    let first_headers =
        headers_with_link("<https://api.github.com/orgs/me/repos?page=2>; rel=\"next\"");
    let step1 = ingest_repo_page(&mut acc, true, true, Some(page1), &first_headers);
    assert_eq!(
        ListStep::Continue("https://api.github.com/orgs/me/repos?page=2".to_string()),
        step1
    );

    let page2 = vec![repo("gamma")];
    let step2 = ingest_repo_page(&mut acc, false, true, Some(page2), &empty_headers());
    assert_eq!(ListStep::Finished, step2);

    let names: Vec<&str> = acc.iter().map(|r| r.name.as_str()).collect();
    assert_eq!(vec!["alpha", "beta", "gamma"], names);
}

#[test]
fn first_page_http_error_aborts_the_listing() {
    let mut acc: Vec<GithubRepo> = Vec::new();
    let step = ingest_repo_page(&mut acc, true, false, Some(vec![repo("alpha")]), &empty_headers());
    assert_eq!(ListStep::Abort(ListError::FirstPageHttpError), step);
    assert!(acc.is_empty());
}

#[test]
fn undecodable_page_aborts_without_partial_results() {
    let mut acc: Vec<GithubRepo> = Vec::new();
    let step1 = ingest_repo_page(&mut acc, true, true, Some(vec![repo("alpha")]), &empty_headers());
    assert_eq!(ListStep::Finished, step1);
    let step2 = ingest_repo_page(&mut acc, false, true, None, &empty_headers());
    assert_eq!(ListStep::Abort(ListError::DecodeError), step2);
    assert_eq!(1, acc.len());
}

#[test]
fn unusable_next_link_aborts_the_listing() {
    let mut acc: Vec<GithubRepo> = Vec::new();
    let headers = headers_with_link("<ht tp://broken>; rel=\"next\"");
    let step = ingest_repo_page(&mut acc, true, true, Some(vec![repo("alpha")]), &headers);
    assert_eq!(ListStep::Abort(ListError::BadNextLink), step);
}

#[test]
fn listing_urls_are_validated_up_front() {
    let first = start_repo_listing("https://api.github.com/orgs/me/repos").unwrap();
    assert_eq!("https://api.github.com/orgs/me/repos?per_page=100", first.as_str());
    assert_eq!(
        Err(ListError::BadRepoListUrl),
        start_repo_listing("no scheme here").map(|u| u.to_string())
    );
    assert!(repos_first_page_url("no scheme here").is_none());
}

#[test]
fn pulls_query_url_filters_by_branches() {
    let u = pulls_query_url("https://api.github.com/repos/me/proj").unwrap();
    assert_eq!(
        "https://api.github.com/repos/me/proj/pulls?head=master&base=release",
        u.as_str()
    );
}

#[test]
fn behind_repository_without_pr_gets_one_created() {
    // No existing pull request, three commits behind, live run.
    let step = start_reconciliation();
    assert_eq!(ReconcileStep::CheckExistingPr, step);
    let step = after_pr_lookup(None);
    assert_eq!(ReconcileStep::CheckUpToDate, step);
    let compare = CompareCommitsResponse { status: "behind".to_string(), behind_by: 3 };
    let up_to_date = is_release_up_to_date_with_master(&Some(compare));
    let step = after_up_to_date_check(up_to_date, false, "https://api.github.com/repos/me/proj");
    assert_eq!(ReconcileStep::CreatePr, step);
    let created = CreatePrOutcome::Created(GithubPullRequest {
        id: 9,
        url: "https://api.github.com/repos/me/proj/pulls/9".to_string(),
        html_url: "https://github.com/me/proj/pull/9".to_string(),
        head: Commit { sha: "abc".to_string() },
        base: Commit { sha: "def".to_string() },
    });
    let step = after_create_attempt(create_release_pull_request(created));
    let outcome = match step {
        ReconcileStep::Settled(o) => o,
        other => panic!("not settled: {:?}", other),
    };
    assert_eq!(
        ReconciliationOutcome::PrCreated("https://github.com/me/proj/pull/9".to_string()),
        outcome
    );
    assert_eq!(
        Some("https://github.com/me/proj/pull/9".to_string()),
        outcome_link(&outcome)
    );
}

#[test]
fn up_to_date_repository_never_reaches_creation() {
    let step = after_pr_lookup(None);
    assert_eq!(ReconcileStep::CheckUpToDate, step);
    let compare = CompareCommitsResponse { status: "identical".to_string(), behind_by: 0 };
    let up_to_date = is_release_up_to_date_with_master(&Some(compare));
    let step = after_up_to_date_check(up_to_date, false, "https://api.github.com/repos/me/proj");
    assert_eq!(ReconcileStep::Settled(ReconciliationOutcome::UpToDate), step);
    assert_eq!(None, outcome_link(&ReconciliationOutcome::UpToDate));
}

#[test]
fn existing_pull_request_settles_before_any_compare() {
    let step = after_pr_lookup(Some("https://github.com/me/proj/pull/7".to_string()));
    assert_eq!(
        ReconcileStep::Settled(ReconciliationOutcome::ExistingPrFound(
            "https://github.com/me/proj/pull/7".to_string()
        )),
        step
    );
}

#[test]
fn dry_run_reports_a_note_instead_of_creating() {
    let step = after_up_to_date_check(false, true, "https://api.github.com/repos/me/proj");
    let outcome = match step {
        ReconcileStep::Settled(o) => o,
        other => panic!("not settled: {:?}", other),
    };
    assert_eq!(
        ReconciliationOutcome::DryRunWouldCreate(
            "Dry run: https://api.github.com/repos/me/proj would get a release PR.".to_string()
        ),
        outcome
    );
}

#[test]
fn failed_creation_contributes_no_link() {
    let step = after_create_attempt(Err(
        release_party::github::CreatePrError::AlreadyUpToDateOrExists,
    ));
    let outcome = match step {
        ReconcileStep::Settled(o) => o,
        other => panic!("not settled: {:?}", other),
    };
    assert_eq!(None, outcome_link(&outcome));
}

#[test]
fn ignored_repositories_are_dropped_in_order() {
    let repos = vec![repo("alpha"), repo("calagator"), repo("beta"), repo("moe")];
    let ignored = vec!["calagator".to_string(), "moe".to_string()];
    let kept = release_party::github::filter_ignored_repos(repos, &ignored);
    let names: Vec<&str> = kept.iter().map(|r| r.name.as_str()).collect();
    assert_eq!(vec!["alpha", "beta"], names);
}

#[test]
fn pr_number_is_the_last_url_segment() {
    assert_eq!("39", pr_number_from_url("https://github.com/me/proj/pull/39"));
}
