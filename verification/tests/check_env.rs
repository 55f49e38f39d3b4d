use devkit::check::command_status;
use devkit::check::unknown_status;
use devkit::check::EnvironmentChecker;
use devkit::check::ToolQuery;

#[test]
fn recognized_tools_map_to_commands() {
    let checker = EnvironmentChecker::new();
    let queries = checker.check_tools("git,rust,node,python");
    assert_eq!(queries.len(), 4);
    let programs: Vec<String> = queries
        .iter()
        .map(|q| match q {
            ToolQuery::Run(c) => c.program.clone(),
            ToolQuery::Unknown(_) => panic!("expected a recognized tool"),
        })
        .collect();
    assert_eq!(programs, vec!["git", "rustc", "node", "python"]);
    for q in &queries {
        if let ToolQuery::Run(c) = q {
            assert_eq!(c.arg, "--version");
        }
    }
}

#[test]
fn tokens_are_trimmed_but_unknown_names_kept_raw() {
    let checker = EnvironmentChecker::new();
    let queries = checker.check_tools(" git , foo");
    assert_eq!(queries.len(), 2);
    match &queries[0] {
        ToolQuery::Run(c) => assert_eq!(c.program, "git"),
        ToolQuery::Unknown(_) => panic!("expected git to be recognized"),
    }
    match &queries[1] {
        ToolQuery::Unknown(name) => assert_eq!(name.as_slice(), b" foo"),
        ToolQuery::Run(_) => panic!("expected an unrecognized token"),
    }
}

#[test]
fn empty_list_is_one_empty_unknown_token() {
    let checker = EnvironmentChecker::new();
    let queries = checker.check_tools("");
    assert_eq!(queries.len(), 1);
    match &queries[0] {
        ToolQuery::Unknown(name) => assert_eq!(name.as_slice(), b""),
        ToolQuery::Run(_) => panic!("expected an unrecognized token"),
    }
}

#[test]
fn trailing_comma_yields_empty_token() {
    let checker = EnvironmentChecker::new();
    let queries = checker.check_tools("git,");
    assert_eq!(queries.len(), 2);
}

#[test]
fn per_tool_commands() {
    let checker = EnvironmentChecker::new();
    assert_eq!(checker.check_git().program, "git");
    assert_eq!(checker.check_rust().program, "rustc");
    assert_eq!(checker.check_node().program, "node");
    assert_eq!(checker.check_python().program, "python");
    assert_eq!(checker.check_git().arg, "--version");
}

#[test]
fn status_from_successful_run() {
    let checker = EnvironmentChecker::new();
    let cmd = checker.check_git();
    let status = command_status(&cmd, Some("git version 2.39.0\n".to_string()));
    assert_eq!(status.name, "git");
    assert!(status.installed);
    assert_eq!(status.version.as_deref(), Some("git version 2.39.0\n"));
}

#[test]
fn status_from_failed_run() {
    let checker = EnvironmentChecker::new();
    let cmd = checker.check_node();
    let status = command_status(&cmd, None);
    assert_eq!(status.name, "node");
    assert!(!status.installed);
    assert!(status.version.is_none());
}

#[test]
fn status_of_unknown_tool() {
    let status = unknown_status("cmake".to_string());
    assert_eq!(status.name, "cmake");
    assert!(!status.installed);
    assert!(status.version.is_none());
}
