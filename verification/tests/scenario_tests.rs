use gitstatus::branch::{get_branch_info, BranchStep};
use gitstatus::counter::{count_files, FileClass};
use gitstatus::invoker::{command_output, CommandError, Completion, Reply};
use gitstatus::status::{finish, UnitReport};

fn printed(bytes: &[u8]) -> Reply {
    command_output(&Completion::Exited { success: true, stdout: bytes.to_vec() })
}

fn refused() -> Reply {
    command_output(&Completion::Exited { success: false, stdout: Vec::new() })
}

fn branch_unit(script: Vec<Reply>) -> UnitReport {
    let mut script = script.into_iter();
    let mut replies: Vec<Reply> = Vec::new();
    loop {
        match get_branch_info(&replies) {
            BranchStep::Ask(_) => replies.push(script.next().unwrap_or(Err(CommandError::NotRun))),
            BranchStep::Done(result) => return UnitReport::Branch(result),
        }
    }
}

fn files_unit(class: FileClass, reply: Reply) -> UnitReport {
    UnitReport::Files(class, count_files(&reply))
}

#[test]
fn scenario_clean_repository_in_sync() {
    let reports = vec![
        branch_unit(vec![
            printed(b"main\n"),
            printed(b"origin\n"),
            printed(b"refs/heads/main\n"),
            printed(b""),
        ]),
        files_unit(FileClass::Staged, printed(b"")),
        files_unit(FileClass::Conflicts, printed(b"")),
        files_unit(FileClass::Modified, printed(b"")),
        files_unit(FileClass::Untracked, printed(b"")),
        files_unit(FileClass::Deleted, printed(b"")),
    ];
    let end = finish(&printed(b"true\n"), &reports);
    assert_eq!(end.output, Some("main 0 0 0 0 0 0 0".to_string()));
    assert_eq!(end.exit_status, 0);
}

#[test]
fn scenario_detached_head() {
    let reports = vec![
        files_unit(FileClass::Deleted, printed(b"")),
        files_unit(FileClass::Untracked, printed(b"")),
        files_unit(FileClass::Modified, printed(b"")),
        files_unit(FileClass::Conflicts, printed(b"")),
        files_unit(FileClass::Staged, printed(b"")),
        branch_unit(vec![printed(b"HEAD\n"), printed(b"abc1234\n")]),
    ];
    let end = finish(&printed(b"true\n"), &reports);
    assert_eq!(end.output, Some(":abc1234 0 0 0 0 0 0 0".to_string()));
    assert_eq!(end.exit_status, 0);
}

#[test]
fn scenario_work_in_progress() {
    let reports = vec![
        files_unit(FileClass::Modified, printed(b"a.rs\nb.rs\nc.rs\n")),
        files_unit(FileClass::Staged, printed(b"a.rs\nd.rs\n")),
        branch_unit(vec![
            printed(b"main\n"),
            printed(b"origin\n"),
            printed(b"refs/heads/main\n"),
            printed(b">1111111\n>2222222\n<3333333\n"),
        ]),
        files_unit(FileClass::Untracked, printed(b"")),
        files_unit(FileClass::Deleted, printed(b"old.rs\n")),
        files_unit(FileClass::Conflicts, printed(b"e.rs\n")),
    ];
    let end = finish(&printed(b"true\n"), &reports);
    assert_eq!(end.output, Some("main 2 1 2 1 3 0 1".to_string()));
    assert_eq!(end.exit_status, 0);
}

#[test]
fn scenario_outside_any_repository() {
    let end = finish(&refused(), &Vec::new());
    assert_eq!(end.output, None);
    assert_eq!(end.exit_status, 1);
}

#[test]
fn scenario_branch_without_upstream_configuration() {
    let reports = vec![
        branch_unit(vec![printed(b"topic\n"), refused(), refused(), refused()]),
        files_unit(FileClass::Staged, printed(b"x\n")),
        files_unit(FileClass::Conflicts, refused()),
        files_unit(FileClass::Modified, printed(b"")),
        files_unit(FileClass::Untracked, printed(b"y\nz\n")),
        files_unit(FileClass::Deleted, printed(b"")),
    ];
    let end = finish(&printed(b"true\n"), &reports);
    assert_eq!(end.output, Some("topic 0 0 1 0 0 2 0".to_string()));
    assert_eq!(end.exit_status, 0);
}

#[test]
fn scenario_repository_without_commits() {
    let reports = vec![
        branch_unit(vec![refused()]),
        files_unit(FileClass::Staged, printed(b"new.rs\n")),
        files_unit(FileClass::Untracked, printed(b"notes.txt\n")),
    ];
    let end = finish(&printed(b"true\n"), &reports);
    assert_eq!(end.output, Some("main 0 0 1 0 0 1 0".to_string()));
    assert_eq!(end.exit_status, 0);
}
