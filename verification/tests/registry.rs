use fs_agent::registry::{CallFacts, DispatchOutcome, GuardedCall, READ_BEFORE_WRITE_PREFIX};
use fs_agent::tool::{Effect, ReadSet, ToolError, ToolOutput};

fn write_call(targets: &[&str]) -> CallFacts {
    let targets: Vec<String> = targets.iter().map(|t| t.to_string()).collect();
    CallFacts {
        tool_name: "write_file".to_string(),
        effect: Effect::WritePaths(targets.clone()),
        write_targets: targets,
        read_paths: Vec::new(),
        argv: None,
        path_error: None,
    }
}

fn refusal(path: &str) -> String {
    format!("{READ_BEFORE_WRITE_PREFIX}{path} exists but has not been read in this session; read it first")
}

#[test]
fn an_unresolvable_target_never_reaches_the_tool() {
    let mut call = write_call(&["../outside"]);
    call.path_error = Some(ToolError::Message("path escapes the workspace".to_string()));
    match call.guardrails_given(&ReadSet::new(), &vec![true]) {
        GuardedCall::Refused(error) => {
            assert_eq!(error, ToolError::Message("path escapes the workspace".to_string()))
        }
        GuardedCall::Run(_) => panic!("an unresolvable target ran"),
    }
}

#[test]
fn an_existing_file_must_be_read_before_it_is_written() {
    let call = write_call(&["/w/new.txt", "/w/a.txt"]);
    match call.guardrails_given(&ReadSet::new(), &vec![false, true]) {
        GuardedCall::Refused(error) => assert_eq!(error, ToolError::Message(refusal("/w/a.txt"))),
        GuardedCall::Run(_) => panic!("an unread file was written"),
    }
    let mut read = ReadSet::new();
    read.record("/w/a.txt".to_string());
    match call.guardrails_given(&read, &vec![false, true]) {
        GuardedCall::Run(allowed) => {
            assert_eq!(allowed.write_targets, vec!["/w/new.txt".to_string(), "/w/a.txt".to_string()]);
            assert!(allowed.read_paths.is_empty());
            assert!(!allowed.exclusive);
        }
        GuardedCall::Refused(error) => panic!("refused after reading: {error:?}"),
    }
}

#[test]
fn an_exclusive_call_takes_the_workspace_lock() {
    let call = CallFacts {
        tool_name: "bash".to_string(),
        effect: Effect::Exclusive,
        write_targets: Vec::new(),
        read_paths: vec!["/w/x".to_string()],
        argv: Some(vec!["sh".to_string(), "-c".to_string(), "ls".to_string()]),
        path_error: None,
    };
    match call.guardrails_given(&ReadSet::new(), &vec![]) {
        GuardedCall::Run(allowed) => {
            assert!(allowed.exclusive);
            assert_eq!(allowed.read_paths, vec!["/w/x".to_string()]);
        }
        GuardedCall::Refused(error) => panic!("refused: {error:?}"),
    }
}

#[test]
fn the_disk_decides_which_targets_exist() {
    match write_call(&["/"]).guardrails(&ReadSet::new()) {
        GuardedCall::Refused(error) => assert_eq!(error, ToolError::Message(refusal("/"))),
        GuardedCall::Run(_) => panic!("the root directory was written unread"),
    }
    let fresh = "/no/such/dir/for/fs_agent/tests/file.txt";
    match write_call(&[fresh]).guardrails(&ReadSet::new()) {
        GuardedCall::Run(allowed) => assert_eq!(allowed.write_targets, vec![fresh.to_string()]),
        GuardedCall::Refused(error) => panic!("a new file was refused: {error:?}"),
    }
}

#[test]
fn a_stale_match_withdraws_the_read_permission() {
    let allowed = match write_call(&["/w/a.txt"]).guardrails_given(&ReadSet::new(), &vec![false]) {
        GuardedCall::Run(allowed) => allowed,
        GuardedCall::Refused(error) => panic!("refused: {error:?}"),
    };
    let stale = ToolError::InvalidatesReads { message: "no match".to_string(), path: "/w/a.txt".to_string() };
    assert_eq!(stale.invalidated_path(), Some("/w/a.txt"));
    assert!(stale.invalidates_reads());
    assert_eq!(stale.text(), "no match");
    let outcome = DispatchOutcome::of_call(Err(stale.clone()), &allowed);
    assert!(outcome.invalidated_reads);
    assert!(!outcome.is_ok());
    let plain = DispatchOutcome::of_call(Err(ToolError::message("boom".to_string())), &allowed);
    assert!(!plain.invalidated_reads);
    let ok = DispatchOutcome::of_call(Ok(ToolOutput::new("done".to_string())), &allowed);
    assert!(ok.is_ok());
    assert!(!ok.invalidated_reads);
    let no_writes = match write_call(&[]).guardrails_given(&ReadSet::new(), &vec![]) {
        GuardedCall::Run(allowed) => allowed,
        GuardedCall::Refused(error) => panic!("refused: {error:?}"),
    };
    assert!(!DispatchOutcome::of_call(Err(stale), &no_writes).invalidated_reads);
}

#[test]
fn the_read_set_forgets_an_invalidated_path() {
    let mut read = ReadSet::new();
    read.record_all(vec!["/a".to_string(), "/b".to_string(), "/a".to_string()]);
    assert_eq!(read.len(), 2);
    read.invalidate("/a");
    assert!(!read.contains("/a"));
    assert!(read.contains("/b"));
    read.invalidate("/zzz");
    assert_eq!(read.len(), 1);
    assert!(!read.is_empty());
}
