//! The branch resolver: which branch the working tree is on, and how far it
//! has diverged from the reference it tracks.
//!
//! The resolver asks the backend up to four questions, and each but the
//! first depends on earlier answers. It performs no question itself: given
//! the replies received so far it says which question comes next, or what
//! the resolution is. The caller runs the question and appends the reply.

use crate::invoker::{replies_view, reply_view, CommandError, Reply, ReplyView};
use crate::lines::{count_starting_with, lines, marked_lines};
use crate::query::{
    branch_name_args,
    branch_name_query,
    config_args,
    divergence_args,
    divergence_query,
    merge_key,
    merge_query,
    remote_key,
    remote_query,
    short_head_args,
    short_head_query,
    upstream_ref,
    upstream_reference,
};
use vstd::prelude::*;
use vstd::string::*;

verus! {

/// What the resolver does next.
#[derive(Debug, PartialEq, Eq)]
pub enum BranchStep {
    /// Run the backend with these arguments and append its reply.
    Ask(Vec<String>),
    /// The resolution: the branch with the commits it is ahead and behind,
    /// or the failure of a question that has no fallback.
    Done(Result<(String, usize, usize), CommandError>),
}

/// A resolver step with its texts as sequences of characters.
pub enum BranchStepView {
    Ask(Seq<Seq<char>>),
    Done(Result<(Seq<char>, nat, nat), CommandError>),
}

impl View for BranchStep {
    type V = BranchStepView;

    open spec fn view(&self) -> BranchStepView {
        match *self {
            BranchStep::Ask(args) => BranchStepView::Ask(args.deep_view()),
            BranchStep::Done(Ok((branch, ahead, behind))) => BranchStepView::Done(
                Ok((branch@, ahead as nat, behind as nat)),
            ),
            BranchStep::Done(Err(e)) => BranchStepView::Done(Err(e)),
        }
    }
}

/// The text of a reply, or `fallback` where the question failed.
pub open spec fn text_or(reply: ReplyView, fallback: Seq<char>) -> Seq<char> {
    match reply {
        Ok(text) => text,
        Err(_) => fallback,
    }
}

/// The reference that `branch` is compared with, given the replies to the
/// questions for its remote and for its merge reference. Without a
/// configured remote it is `origin`; without a configured merge reference it
/// is the branch's own name among the local branches.
pub open spec fn tracked_ref(branch: Seq<char>, remote: ReplyView, merge: ReplyView) -> Seq<char> {
    upstream_ref(text_or(remote, "origin"@), text_or(merge, "refs/heads/"@ + branch))
}

/// The step after `replies` where the first reply was the marker of a
/// detached head: the identifier of the current commit is asked for, and the
/// branch is that identifier behind a colon, with nothing ahead or behind.
pub open spec fn resolve_detached(replies: Seq<ReplyView>) -> BranchStepView {
    if replies.len() <= 1 {
        BranchStepView::Ask(short_head_args())
    } else {
        match replies[1] {
            Ok(id) => BranchStepView::Done(Ok((":"@ + id, 0, 0))),
            Err(e) => BranchStepView::Done(Err(e)),
        }
    }
}

/// The step after `replies` where the first reply named `branch`: the remote
/// and the merge reference are asked for, then the commits on either side of
/// the tracked reference. A failure of any of these questions stands for its
/// fallback: `origin`, the branch's own local reference, and no commits.
pub open spec fn resolve_on_branch(branch: Seq<char>, replies: Seq<ReplyView>) -> BranchStepView {
    if replies.len() <= 1 {
        BranchStepView::Ask(config_args(remote_key(branch)))
    } else if replies.len() == 2 {
        BranchStepView::Ask(config_args(merge_key(branch)))
    } else if replies.len() == 3 {
        BranchStepView::Ask(divergence_args(tracked_ref(branch, replies[1], replies[2])))
    } else {
        let listing = lines(text_or(replies[3], Seq::empty()));
        BranchStepView::Done(
            Ok((branch, count_starting_with(listing, '>'), count_starting_with(listing, '<'))),
        )
    }
}

/// The resolver's step after the backend has given `replies`, in the order
/// in which the questions were asked.
pub open spec fn resolve(replies: Seq<ReplyView>) -> BranchStepView {
    if replies.len() == 0 {
        BranchStepView::Ask(branch_name_args())
    } else {
        match replies[0] {
            Err(e) => BranchStepView::Done(Err(e)),
            Ok(branch) => if branch == "HEAD"@ {
                resolve_detached(replies)
            } else {
                resolve_on_branch(branch, replies)
            },
        }
    }
}

/// The text of `reply` as an owned string, or `fallback` where the question
/// failed.
fn text_or_else(reply: &Reply, fallback: String) -> (text: String)
    ensures
        text@ == text_or(reply_view(*reply), fallback@),
{
    match reply {
        Ok(t) => t.clone(),
        Err(_) => fallback,
    }
}

/// One step of the branch resolution: given the replies that the backend
/// has made so far, in the order in which the questions were asked, the
/// question to ask next, or the resolution once nothing is left to ask.
///
/// Only the first question, for the branch name, and on a detached head the
/// one for the commit identifier can fail the resolution. Replies beyond
/// those that the resolution needs are not looked at.
pub fn get_branch_info(replies: &Vec<Reply>) -> (step: BranchStep)
    ensures
        step@ == resolve(replies_view(replies@)),
{
    let n: usize = replies.len();
    let ghost views = replies_view(replies@);
    if n == 0 {
        return BranchStep::Ask(branch_name_query());
    }
    assert(views[0] == reply_view(replies@[0]));
    let branch: &String = match &replies[0] {
        Ok(name) => name,
        Err(e) => {
            return BranchStep::Done(Err(*e));
        },
    };
    if *branch == String::from_str("HEAD") {
        if n == 1 {
            return BranchStep::Ask(short_head_query());
        }
        assert(views[1] == reply_view(replies@[1]));
        return match &replies[1] {
            Ok(id) => BranchStep::Done(Ok((String::from_str(":").concat(id.as_str()), 0, 0))),
            Err(e) => BranchStep::Done(Err(*e)),
        };
    }
    if n == 1 {
        return BranchStep::Ask(remote_query(branch.as_str()));
    }
    if n == 2 {
        return BranchStep::Ask(merge_query(branch.as_str()));
    }
    assert(views[1] == reply_view(replies@[1]));
    assert(views[2] == reply_view(replies@[2]));
    if n == 3 {
        let remote = text_or_else(&replies[1], String::from_str("origin"));
        let merge = text_or_else(
            &replies[2],
            String::from_str("refs/heads/").concat(branch.as_str()),
        );
        let upstream = upstream_reference(remote.as_str(), merge.as_str());
        return BranchStep::Ask(divergence_query(upstream.as_str()));
    }
    assert(views[3] == reply_view(replies@[3]));
    let listing = text_or_else(&replies[3], String::new());
    let (ahead, behind) = marked_lines(listing.as_str());
    BranchStep::Done(Ok((branch.clone(), ahead, behind)))
}

/// On a detached head the branch is a colon and then the identifier of the
/// current commit, and nothing is ahead or behind, whatever else the
/// backend may have replied. No question about an upstream is asked.
pub proof fn lemma_detached_head(replies: Seq<ReplyView>, id: Seq<char>)
    requires
        replies.len() >= 2,
        replies[0] == Ok::<Seq<char>, CommandError>("HEAD"@),
        replies[1] == Ok::<Seq<char>, CommandError>(id),
    ensures
        resolve(replies) == BranchStepView::Done(Ok((":"@ + id, 0, 0))),
        resolve(replies.take(1)) == BranchStepView::Ask(short_head_args()),
        (":"@ + id).len() == 1 + id.len(),
        (":"@ + id)[0] == ':',
        (":"@ + id).skip(1) == id,
{
    reveal_strlit(":");
}

/// Once the branch is known by name the resolution cannot fail: after the
/// replies to its three further questions, whatever they are, it is the
/// branch with the counts of the marked lines of the last reply, and with
/// zero and zero where that question failed.
pub proof fn lemma_named_branch_resolves(replies: Seq<ReplyView>, branch: Seq<char>)
    requires
        replies.len() >= 4,
        replies[0] == Ok::<Seq<char>, CommandError>(branch),
        branch != "HEAD"@,
    ensures
        resolve(replies) matches BranchStepView::Done(Ok((name, _, _))) && name == branch,
        replies[3] is Err ==> resolve(replies) == BranchStepView::Done(Ok((branch, 0, 0))),
{
    let nothing = lines(Seq::<char>::empty());
    assert(nothing.len() == 0);
}

/// A branch with neither a remote nor a merge reference configured is
/// compared with the branch of its own name on `origin`, and the resolution
/// does not fail: where that reference cannot be listed, nothing is ahead
/// or behind.
pub proof fn lemma_unconfigured_upstream(replies: Seq<ReplyView>, branch: Seq<char>)
    requires
        replies.len() >= 3,
        replies[0] == Ok::<Seq<char>, CommandError>(branch),
        branch != "HEAD"@,
        replies[1] is Err,
        replies[2] is Err,
    ensures
        resolve(replies.take(3)) == BranchStepView::Ask(
            divergence_args("refs/remotes/origin/"@ + branch),
        ),
        replies.len() >= 4 ==> resolve(replies) is Done && resolve(replies)->Done_0 is Ok,
        replies.len() >= 4 && replies[3] is Err ==> resolve(replies) == BranchStepView::Done(
            Ok((branch, 0, 0)),
        ),
{
    reveal_strlit("origin");
    reveal_strlit(".");
    reveal_strlit("/");
    reveal_strlit("refs/heads/");
    reveal_strlit("refs/remotes/");
    reveal_strlit("refs/remotes/origin/");
    let heads = "refs/heads/"@;
    let merge = heads + branch;
    assert(heads.is_prefix_of(merge));
    assert(merge.skip(heads.len() as int) == branch);
    assert("refs/remotes/"@ + "origin"@ + "/"@ == "refs/remotes/origin/"@);
    assert(tracked_ref(branch, replies[1], replies[2]) == "refs/remotes/origin/"@ + branch);
    if replies.len() >= 4 {
        lemma_named_branch_resolves(replies, branch);
    }
}

/// The resolver asks four questions at most: after four replies it is done.
pub proof fn lemma_resolution_ends(replies: Seq<ReplyView>)
    requires
        replies.len() >= 4,
    ensures
        resolve(replies) is Done,
{
}

/// A resolution is final: replies that arrive after it change nothing.
pub proof fn lemma_resolution_is_final(replies: Seq<ReplyView>, more: Seq<ReplyView>)
    requires
        resolve(replies) is Done,
    ensures
        resolve(replies + more) == resolve(replies),
{
    let all = replies + more;
    assert(forall|i: int| 0 <= i < replies.len() ==> all[i] == replies[i]);
}

/// The resolved branch has a name, provided that the backend named one.
pub proof fn lemma_resolved_branch_is_named(replies: Seq<ReplyView>)
    requires
        replies.len() > 0,
        replies[0] matches Ok(name) ==> name.len() > 0,
    ensures
        resolve(replies) matches BranchStepView::Done(Ok((branch, _, _))) ==> branch.len() > 0,
{
    reveal_strlit(":");
}

} // verus!
