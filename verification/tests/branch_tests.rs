use gitstatus::branch::{get_branch_info, BranchStep};
use gitstatus::invoker::{CommandError, Reply};

fn ok(text: &str) -> Reply {
    Ok(text.to_string())
}

fn failed() -> Reply {
    Err(CommandError::Unsuccessful)
}

fn ask(args: &[&str]) -> BranchStep {
    BranchStep::Ask(args.iter().map(|a| a.to_string()).collect())
}

fn done(branch: &str, ahead: usize, behind: usize) -> BranchStep {
    BranchStep::Done(Ok((branch.to_string(), ahead, behind)))
}

#[test]
fn resolver_first_asks_for_the_branch_name() {
    assert_eq!(get_branch_info(&Vec::new()), ask(&["rev-parse", "--abbrev-ref", "HEAD"]));
}

#[test]
fn resolver_fails_when_the_branch_name_is_not_to_be_had() {
    assert_eq!(get_branch_info(&vec![failed()]), BranchStep::Done(Err(CommandError::Unsuccessful)));
    assert_eq!(
        get_branch_info(&vec![Err(CommandError::NotRun)]),
        BranchStep::Done(Err(CommandError::NotRun))
    );
}

#[test]
fn resolver_asks_its_questions_in_order() {
    let mut replies = vec![ok("main")];
    assert_eq!(get_branch_info(&replies), ask(&["config", "branch.main.remote"]));
    replies.push(ok("origin"));
    assert_eq!(get_branch_info(&replies), ask(&["config", "branch.main.merge"]));
    replies.push(ok("refs/heads/main"));
    assert_eq!(
        get_branch_info(&replies),
        ask(&["rev-list", "--left-right", "refs/remotes/origin/main...HEAD"])
    );
    replies.push(ok(""));
    assert_eq!(get_branch_info(&replies), done("main", 0, 0));
}

#[test]
fn resolver_on_a_synced_branch() {
    let replies = vec![ok("main"), ok("origin"), ok("refs/heads/main"), ok("")];
    assert_eq!(get_branch_info(&replies), done("main", 0, 0));
}

#[test]
fn resolver_counts_ahead_and_behind() {
    let replies =
        vec![ok("main"), ok("origin"), ok("refs/heads/main"), ok(">1a2b3c\n>4d5e6f\n<7a8b9c")];
    assert_eq!(get_branch_info(&replies), done("main", 2, 1));
    let behind = vec![ok("dev"), ok("origin"), ok("refs/heads/dev"), ok("<a\n<b\n<c\n<d")];
    assert_eq!(get_branch_info(&behind), done("dev", 0, 4));
}

#[test]
fn resolver_on_a_detached_head_asks_for_the_commit() {
    assert_eq!(get_branch_info(&vec![ok("HEAD")]), ask(&["rev-parse", "--short", "HEAD"]));
}

#[test]
fn resolver_on_a_detached_head_names_the_commit() {
    assert_eq!(get_branch_info(&vec![ok("HEAD"), ok("abc1234")]), done(":abc1234", 0, 0));
}

#[test]
fn resolver_on_a_detached_head_ignores_any_upstream() {
    let replies = vec![ok("HEAD"), ok("abc1234"), ok("refs/heads/main"), ok(">x\n<y")];
    assert_eq!(get_branch_info(&replies), done(":abc1234", 0, 0));
}

#[test]
fn resolver_on_a_detached_head_fails_without_the_commit() {
    assert_eq!(
        get_branch_info(&vec![ok("HEAD"), failed()]),
        BranchStep::Done(Err(CommandError::Unsuccessful))
    );
}

#[test]
fn resolver_takes_head_as_a_whole_word_only() {
    assert_eq!(get_branch_info(&vec![ok("HEADS")]), ask(&["config", "branch.HEADS.remote"]));
    assert_eq!(get_branch_info(&vec![ok("head")]), ask(&["config", "branch.head.remote"]));
}

#[test]
fn resolver_without_a_remote_falls_back_on_origin() {
    let replies = vec![ok("topic"), failed(), ok("refs/heads/trunk")];
    assert_eq!(
        get_branch_info(&replies),
        ask(&["rev-list", "--left-right", "refs/remotes/origin/trunk...HEAD"])
    );
}

#[test]
fn resolver_without_a_merge_reference_falls_back_on_the_branch() {
    let replies = vec![ok("topic"), ok("fork"), failed()];
    assert_eq!(
        get_branch_info(&replies),
        ask(&["rev-list", "--left-right", "refs/remotes/fork/topic...HEAD"])
    );
}

#[test]
fn resolver_without_any_configuration_compares_with_origin() {
    let mut replies = vec![ok("topic"), failed(), failed()];
    assert_eq!(
        get_branch_info(&replies),
        ask(&["rev-list", "--left-right", "refs/remotes/origin/topic...HEAD"])
    );
    replies.push(failed());
    assert_eq!(get_branch_info(&replies), done("topic", 0, 0));
}

#[test]
fn resolver_with_a_local_upstream_takes_the_reference_as_it_is() {
    let replies = vec![ok("topic"), ok("."), ok("refs/heads/main")];
    assert_eq!(
        get_branch_info(&replies),
        ask(&["rev-list", "--left-right", "refs/heads/main...HEAD"])
    );
    let unset = vec![ok("topic"), ok("."), failed()];
    assert_eq!(
        get_branch_info(&unset),
        ask(&["rev-list", "--left-right", "refs/heads/topic...HEAD"])
    );
}

#[test]
fn resolver_degrades_to_zero_when_the_upstream_is_missing() {
    let replies = vec![ok("main"), ok("origin"), ok("refs/heads/main"), failed()];
    assert_eq!(get_branch_info(&replies), done("main", 0, 0));
    let not_run = vec![ok("main"), ok("origin"), ok("refs/heads/main"), Err(CommandError::NotRun)];
    assert_eq!(get_branch_info(&not_run), done("main", 0, 0));
}

#[test]
fn resolver_is_done_after_four_replies() {
    let replies = vec![ok("main"), ok("origin"), ok("refs/heads/main"), ok(">a"), ok("<b\n<c")];
    assert_eq!(get_branch_info(&replies), done("main", 1, 0));
}

#[test]
fn resolver_run_to_its_end_against_a_scripted_backend() {
    let script = [ok("work"), failed(), ok("refs/heads/base"), ok("<1\n>2\n>3\n>4")];
    let mut replies: Vec<Reply> = Vec::new();
    let mut asked: Vec<Vec<String>> = Vec::new();
    let result = loop {
        match get_branch_info(&replies) {
            BranchStep::Ask(args) => {
                let next = match &script[replies.len()] {
                    Ok(text) => Ok(text.clone()),
                    Err(e) => Err(*e),
                };
                asked.push(args);
                replies.push(next);
            },
            BranchStep::Done(result) => break result,
        }
    };
    assert_eq!(result, Ok(("work".to_string(), 3, 1)));
    assert_eq!(asked.len(), 4);
    assert_eq!(asked[3][2], "refs/remotes/origin/base...HEAD");
}
