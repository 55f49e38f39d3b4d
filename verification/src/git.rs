//! Git repository statistics: commit and branch counts and the latest
//! commit's record. The repository lives on disk, so the counts come from
//! the version-control library and carry no promise here; the fallbacks of
//! the commit record and the relative-time description are verified.

use vstd::prelude::*;

verus! {

#[verifier::external_type_specification]
#[verifier::external_body]
pub struct ExRepository(git2::Repository);

#[verifier::external_type_specification]
#[verifier::external_body]
pub struct ExGitError(git2::Error);

/// Relies on git2::Repository::open: opens the repository at the path, an
/// error when there is none to open. What comes back depends on the disk.
#[verifier::external_body]
fn open_repository(path: &str) -> Result<git2::Repository, git2::Error> {
    git2::Repository::open(path)
}

/// Relies on git2::Repository::revwalk, git2::Revwalk::push_head and
/// Iterator::count: the number of commits reachable from the current head.
/// What comes back depends on the repository on disk.
#[verifier::external_body]
fn count_head_commits(repo: &git2::Repository) -> Result<usize, git2::Error> {
    let mut walk = repo.revwalk()?;
    walk.push_head()?;
    Ok(walk.count())
}

/// Relies on git2::Repository::branches and Iterator::count: the number of
/// branches of every kind. What comes back depends on the repository on
/// disk.
#[verifier::external_body]
fn count_branches(repo: &git2::Repository) -> Result<usize, git2::Error> {
    Ok(repo.branches(None)?.count())
}

/// Relies on git2::Repository::head, git2::Reference::peel_to_commit and
/// git2::Commit::author/message/time: the head commit's author name,
/// message and time in seconds; None when no head commit can be read, and
/// None inside for a name or message that is not valid text.
#[verifier::external_body]
fn head_commit_raw(repo: &git2::Repository) -> Option<(Option<String>, Option<String>, i64)> {
    let commit = repo.head().ok()?.peel_to_commit().ok()?;
    let signature = commit.author();
    let author = signature.name().ok().map(str::to_string);
    let message = commit.message().ok().map(str::to_string);
    Some((author, message, commit.time().seconds()))
}

/// The latest commit's record.
pub struct CommitInfo {
    pub author: String,
    pub message: String,
    pub time: i64,
}

/// Repository statistics from one analysis.
pub struct GitStats {
    pub total_commits: usize,
    pub branch_count: usize,
    pub latest_commit: Option<CommitInfo>,
}

impl Default for GitStats {
    /// The empty statistics: no commits, no branches, no latest commit.
    fn default() -> (r: Self)
        ensures
            r.total_commits == 0,
            r.branch_count == 0,
            r.latest_commit is None,
    {
        GitStats { total_commits: 0, branch_count: 0, latest_commit: None }
    }
}

/// The displayable commit record: a missing author or message falls back to
/// a fixed placeholder.
pub fn commit_info_from(author: Option<String>, message: Option<String>, time: i64) -> (r:
    CommitInfo)
    ensures
        r.author@ == match author {
            Option::Some(a) => a@,
            Option::None => "Unknown"@,
        },
        r.message@ == match message {
            Option::Some(m) => m@,
            Option::None => "No message"@,
        },
        r.time == time,
{
    let a = match author {
        Some(a) => a,
        None => "Unknown".to_owned(),
    };
    let m = match message {
        Some(m) => m,
        None => "No message".to_owned(),
    };
    CommitInfo { author: a, message: m, time }
}

/// A git repository under analysis.
pub struct GitAnalyzer {
    repo: git2::Repository,
}

impl GitAnalyzer {
    /// Open the repository at `path`; an error when none can be opened.
    pub fn new(path: &str) -> (r: Result<GitAnalyzer, git2::Error>) {
        match open_repository(path) {
            Ok(repo) => Ok(GitAnalyzer { repo }),
            Err(e) => Err(e),
        }
    }

    /// Gather the commit count, the branch count and the latest commit's
    /// record; an unreadable head leaves the record out without failing.
    pub fn analyze(&self) -> (r: Result<GitStats, git2::Error>) {
        let commits = match count_head_commits(&self.repo) {
            Ok(c) => c,
            Err(e) => return Err(e),
        };
        let branches = match count_branches(&self.repo) {
            Ok(b) => b,
            Err(e) => return Err(e),
        };
        let latest = match head_commit_raw(&self.repo) {
            Some((a, m, t)) => Some(commit_info_from(a, m, t)),
            None => None,
        };
        Ok(GitStats { total_commits: commits, branch_count: branches, latest_commit: latest })
    }
}

/// A commit's age in the coarsest applicable unit.
#[derive(PartialEq, Eq, Structural, Clone, Copy, Debug)]
pub enum RelativeTime {
    JustNow,
    Minutes(i64),
    Hours(i64),
    Days(i64),
}

/// When `then` happened relative to `now`, both in seconds: under a minute
/// (or in the future) reads as just now, then whole minutes, hours, days.
pub fn describe_elapsed(now: i64, then: i64) -> (r: RelativeTime)
    requires
        i64::MIN <= now - then <= i64::MAX,
    ensures
        ({
            let diff = now - then;
            if diff < 60 {
                r == RelativeTime::JustNow
            } else if diff < 3600 {
                r == RelativeTime::Minutes((diff / 60) as i64)
            } else if diff < 86400 {
                r == RelativeTime::Hours((diff / 3600) as i64)
            } else {
                r == RelativeTime::Days((diff / 86400) as i64)
            }
        }),
{
    let diff = now - then;
    if diff < 60 {
        RelativeTime::JustNow
    } else if diff < 3600 {
        RelativeTime::Minutes(((diff as u64) / 60) as i64)
    } else if diff < 86400 {
        RelativeTime::Hours(((diff as u64) / 3600) as i64)
    } else {
        RelativeTime::Days(((diff as u64) / 86400) as i64)
    }
}

} // verus!
