//! The file-set counter: how many paths the backend lists for one of the
//! five classes of files.

use crate::invoker::{reply_view, CommandError, Reply, ReplyView};
use crate::lines::{
    lemma_lines_of_listing,
    lemma_lines_without_final_break,
    lemma_listing_end,
    line_count,
    lines,
    listing,
    on_one_line,
};
use crate::query::args3;
use crate::text::{is_space, trim_end, trim_start, trimmed};
use vstd::prelude::*;

verus! {

/// A class of files that the status counts.
#[derive(Clone, Copy, Debug, PartialEq, Eq, Structural)]
pub enum FileClass {
    /// Files with changes staged for the next commit.
    Staged,
    /// Files left in conflict by a merge.
    Conflicts,
    /// Files with modifications that are not staged.
    Modified,
    /// Files that are neither tracked nor ignored.
    Untracked,
    /// Files whose deletion is not staged.
    Deleted,
}

impl FileClass {
    /// The arguments that make the backend list the paths of this class,
    /// one to a line.
    pub open spec fn args(self) -> Seq<Seq<char>> {
        match self {
            FileClass::Staged => seq!["diff"@, "--cached"@, "--name-only"@],
            FileClass::Conflicts => seq!["diff"@, "--name-only"@, "--diff-filter=U"@],
            FileClass::Modified => seq!["diff"@, "--name-only"@, "--diff-filter=M"@],
            FileClass::Untracked => seq!["ls-files"@, "--others"@, "--exclude-standard"@],
            FileClass::Deleted => seq!["diff"@, "--name-only"@, "--diff-filter=D"@],
        }
    }

    /// The query that lists the paths of this class.
    pub fn query(&self) -> (args: Vec<String>)
        ensures
            args.deep_view() == self.args(),
    {
        match self {
            FileClass::Staged => args3("diff", "--cached", "--name-only"),
            FileClass::Conflicts => args3("diff", "--name-only", "--diff-filter=U"),
            FileClass::Modified => args3("diff", "--name-only", "--diff-filter=M"),
            FileClass::Untracked => args3("ls-files", "--others", "--exclude-standard"),
            FileClass::Deleted => args3("diff", "--name-only", "--diff-filter=D"),
        }
    }
}

/// The count that a reply to a listing query amounts to: the number of its
/// lines, or the failure of the query.
pub open spec fn counted(reply: ReplyView) -> Result<nat, CommandError> {
    match reply {
        Ok(listing) => Ok(lines(listing).len()),
        Err(e) => Err(e),
    }
}

/// A count as a natural number.
pub open spec fn count_view(count: Result<usize, CommandError>) -> Result<nat, CommandError> {
    match count {
        Ok(n) => Ok(n as nat),
        Err(e) => Err(e),
    }
}

/// Counts the paths that the backend listed in reply to a listing query. A
/// failed query is handed on as it is; an empty listing counts zero.
pub fn count_files(reply: &Reply) -> (count: Result<usize, CommandError>)
    ensures
        count_view(count) == counted(reply_view(*reply)),
        reply matches Ok(listing) && listing@.len() == 0 ==> count == Ok::<usize, CommandError>(
            0usize,
        ),
{
    match reply {
        Ok(listing) => Ok(line_count(listing.as_str())),
        Err(e) => Err(*e),
    }
}

/// Where the backend lists no path twice, the count of a listing is the
/// number of different paths in it.
pub proof fn lemma_count_is_number_of_paths(listing: Seq<char>)
    requires
        lines(listing).no_duplicates(),
    ensures
        counted(Ok(listing)) == Ok::<nat, CommandError>(lines(listing).to_set().len()),
{
    lines(listing).unique_seq_to_set();
}

/// The count of what the backend lists is the number of paths that it
/// lists: for paths written one to a line and the text trimmed, as the
/// backend's replies are, the count is the number of the paths, and the
/// number of different paths where none is listed twice. The paths are not
/// empty and hold no line feed, and the listing neither begins nor ends with
/// white space.
pub proof fn lemma_count_of_listing(paths: Seq<Seq<char>>)
    requires
        forall|i: int|
            0 <= i < paths.len() ==> (#[trigger] paths[i]).len() > 0 && on_one_line(paths[i]),
        paths.len() > 0 ==> !is_space(paths[0][0]) && !is_space(paths.last().last()),
    ensures
        counted(Ok(trimmed(listing(paths)))) == Ok::<nat, CommandError>(paths.len()),
        paths.no_duplicates() ==> counted(Ok(trimmed(listing(paths)))) == Ok::<nat, CommandError>(
            paths.to_set().len(),
        ),
{
    let text = listing(paths);
    lemma_lines_of_listing(paths);
    if paths.len() > 0 {
        let last = paths.last();
        lemma_listing_end(paths);
        assert(text[0] == paths[0][0]);
        assert(text.last() == '\n');
        let body = text.drop_last();
        assert(body == listing(paths.drop_last()) + last);
        assert(body.last() == last.last());
        assert(on_one_line(last));
        assert(trim_start(text) == text);
        assert(is_space('\n'));
        assert(trim_end(body) == body);
        assert(trim_end(text) == body);
        lemma_lines_without_final_break(text);
    }
    if paths.no_duplicates() {
        paths.unique_seq_to_set();
    }
}

/// An empty listing counts zero, and no listing makes the count fail.
pub proof fn lemma_count_never_fails(listing: Seq<char>)
    ensures
        counted(Ok(listing)) is Ok,
        listing.len() == 0 ==> counted(Ok(listing)) == Ok::<nat, CommandError>(0),
{
}

} // verus!
