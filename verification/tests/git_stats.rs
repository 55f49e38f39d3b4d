use devkit::git::commit_info_from;
use devkit::git::describe_elapsed;
use devkit::git::GitAnalyzer;
use devkit::git::RelativeTime;

#[test]
fn opening_a_missing_repository_fails() {
    assert!(GitAnalyzer::new("/no/such/repository/anywhere").is_err());
}

#[test]
fn commit_record_keeps_given_fields() {
    let info = commit_info_from(
        Some("Alice".to_string()),
        Some("initial commit".to_string()),
        1700000000,
    );
    assert_eq!(info.author, "Alice");
    assert_eq!(info.message, "initial commit");
    assert_eq!(info.time, 1700000000);
}

#[test]
fn commit_record_fallbacks() {
    let info = commit_info_from(None, None, 7);
    assert_eq!(info.author, "Unknown");
    assert_eq!(info.message, "No message");
    assert_eq!(info.time, 7);
}

#[test]
fn elapsed_time_units() {
    assert_eq!(describe_elapsed(1000, 1000 - 30), RelativeTime::JustNow);
    assert_eq!(describe_elapsed(1000, 1000 - 59), RelativeTime::JustNow);
    assert_eq!(describe_elapsed(1000, 1000 - 60), RelativeTime::Minutes(1));
    assert_eq!(describe_elapsed(10000, 10000 - 120), RelativeTime::Minutes(2));
    assert_eq!(describe_elapsed(10000, 10000 - 3599), RelativeTime::Minutes(59));
    assert_eq!(describe_elapsed(10000, 10000 - 3600), RelativeTime::Hours(1));
    assert_eq!(describe_elapsed(10000, 10000 - 7200), RelativeTime::Hours(2));
    assert_eq!(describe_elapsed(200000, 200000 - 86400), RelativeTime::Days(1));
    assert_eq!(describe_elapsed(300000, 300000 - 200000), RelativeTime::Days(2));
}

#[test]
fn future_commits_read_as_just_now() {
    assert_eq!(describe_elapsed(1000, 2000), RelativeTime::JustNow);
}

#[test]
fn default_git_stats_are_empty() {
    let stats = devkit::git::GitStats::default();
    assert_eq!(stats.total_commits, 0);
    assert_eq!(stats.branch_count, 0);
    assert!(stats.latest_commit.is_none());
}
