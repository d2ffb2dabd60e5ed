//! The reconciliation driver: one repository's decision procedure.
//!
//! The decision is an ordered state check with first-match-wins semantics:
//! an existing release pull request settles the matter before the compare
//! probe is ever asked for, an up-to-date release settles it before any
//! creation is attempted, and dry-run mode settles it with a note instead
//! of the creation call.  The caller performs one probe per step and feeds
//! the outcome back in.

use vstd::prelude::*;
use vstd::string::StringExecFns;

use crate::github::CreatePrError;
use crate::strutil::{lemma_split_seq_nonempty, split_seq, split_str};

verus! {

/// What one reconciliation pass concluded for one repository.
#[derive(Debug, Clone, PartialEq, Eq)]
pub enum ReconciliationOutcome {
    /// An open release pull request already exists at this URL.
    ExistingPrFound(String),
    /// A release pull request was created at this URL.
    PrCreated(String),
    /// Dry-run mode: one would have been created; the note says so.
    DryRunWouldCreate(String),
    /// The release branch lacks nothing (or no probe could show that it
    /// does).
    UpToDate,
    /// Creation was attempted and yielded no URL; the run goes on.
    CreationFailed(CreatePrError),
}

/// Where one repository's reconciliation stands: which probe is owed next,
/// or the settled outcome.
#[derive(Debug, Clone, PartialEq, Eq)]
pub enum ReconcileStep {
    /// Ask whether an open release pull request already exists.
    CheckExistingPr,
    /// Ask whether the release branch is up to date.
    CheckUpToDate,
    /// Attempt to create the release pull request.
    CreatePr,
    /// Nothing more to ask.
    Settled(ReconciliationOutcome),
}

/// The note reported instead of a creation in dry-run mode.
pub open spec fn dry_run_note_str(repo_url: Seq<char>) -> Seq<char> {
    "Dry run: "@ + repo_url + " would get a release PR."@
}

/// Reconciliation of a repository begins by looking for an existing release
/// pull request.
pub fn start_reconciliation() -> (s: ReconcileStep)
    ensures
        s == ReconcileStep::CheckExistingPr,
{
    ReconcileStep::CheckExistingPr
}

/// Step after the existing-pull-request probe: a hit settles the outcome at
/// once (the compare probe is never owed), a miss asks for the up-to-date
/// check.
pub fn after_pr_lookup(located: Option<String>) -> (s: ReconcileStep)
    ensures
        ({
            match located {
                Some(u) => s matches ReconcileStep::Settled(o) && (o
                    matches ReconciliationOutcome::ExistingPrFound(w) && w@ == u@),
                None => s == ReconcileStep::CheckUpToDate,
            }
        }),
{
    match located {
        Some(u) => ReconcileStep::Settled(ReconciliationOutcome::ExistingPrFound(u)),
        None => ReconcileStep::CheckUpToDate,
    }
}

/// Step after the up-to-date check: an up-to-date release settles the
/// outcome (creation is never attempted), otherwise dry-run mode settles it
/// with a note, and only a live run proceeds to creation.
pub fn after_up_to_date_check(up_to_date: bool, dry_run: bool, repo_url: &str) -> (s: ReconcileStep)
    ensures
        up_to_date ==> s == ReconcileStep::Settled(ReconciliationOutcome::UpToDate),
        !up_to_date && dry_run ==> (s matches ReconcileStep::Settled(o) && (o
            matches ReconciliationOutcome::DryRunWouldCreate(w) && w@ == dry_run_note_str(
            repo_url@,
        ))),
        !up_to_date && !dry_run ==> s == ReconcileStep::CreatePr,
{
    if up_to_date {
        ReconcileStep::Settled(ReconciliationOutcome::UpToDate)
    } else if dry_run {
        let mut note = String::from_str("Dry run: ");
        note.append(repo_url);
        note.append(" would get a release PR.");
        ReconcileStep::Settled(ReconciliationOutcome::DryRunWouldCreate(note))
    } else {
        ReconcileStep::CreatePr
    }
}

/// Step after the creation attempt: success settles the outcome with the
/// new URL, failure settles it with the reason (the run goes on either
/// way).
pub fn after_create_attempt(attempt: Result<String, CreatePrError>) -> (s: ReconcileStep)
    ensures
        ({
            match attempt {
                Ok(u) => s matches ReconcileStep::Settled(o) && (o
                    matches ReconciliationOutcome::PrCreated(w) && w@ == u@),
                Err(e) => s == ReconcileStep::Settled(ReconciliationOutcome::CreationFailed(e)),
            }
        }),
{
    match attempt {
        Ok(u) => ReconcileStep::Settled(ReconciliationOutcome::PrCreated(u)),
        Err(e) => ReconcileStep::Settled(ReconciliationOutcome::CreationFailed(e)),
    }
}

/// The link an outcome contributes to the final report: found, created and
/// dry-run outcomes report their URL (or note); an up-to-date repository
/// and a failed creation report nothing.
pub fn outcome_link(o: &ReconciliationOutcome) -> (r: Option<String>)
    ensures
        ({
            match *o {
                ReconciliationOutcome::ExistingPrFound(u) => r matches Some(w) && w@ == u@,
                ReconciliationOutcome::PrCreated(u) => r matches Some(w) && w@ == u@,
                ReconciliationOutcome::DryRunWouldCreate(u) => r matches Some(w) && w@ == u@,
                ReconciliationOutcome::UpToDate => r is None,
                ReconciliationOutcome::CreationFailed(_) => r is None,
            }
        }),
{
    match o {
        ReconciliationOutcome::ExistingPrFound(u) => Some(u.clone()),
        ReconciliationOutcome::PrCreated(u) => Some(u.clone()),
        ReconciliationOutcome::DryRunWouldCreate(u) => Some(u.clone()),
        ReconciliationOutcome::UpToDate => None,
        ReconciliationOutcome::CreationFailed(_) => None,
    }
}

/// The pull-request number at the end of a human-facing pull-request URL:
/// the part after the last slash.
pub fn pr_number_from_url(pr_url: &str) -> (r: String)
    ensures
        r@ == split_seq(pr_url@, '/', false).last(),
{
    proof {
        lemma_split_seq_nonempty(pr_url@, '/', false);
    }
    let toks = split_str(pr_url, '/', false);
    let last = toks.len() - 1;
    toks[last].clone()
}

} // verus!
