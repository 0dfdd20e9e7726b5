//! The status record, and the aggregator that assembles it from the reports
//! of six independent units of work.
//!
//! One unit resolves the branch and five count the files of one class each.
//! The units run side by side and report in no particular order; a unit may
//! report a failure, or nothing at all. Each report goes to the fields of
//! its own unit, and a field that no report fills keeps its fallback.

use crate::counter::FileClass;
use crate::invoker::{CommandError, Reply};
use crate::text::{decimal, to_decimal};
use vstd::prelude::*;
use vstd::string::*;

verus! {

/// A unit of work of the aggregator.
#[derive(Clone, Copy, Debug, PartialEq, Eq, Structural)]
pub enum Unit {
    /// The branch resolver.
    Branch,
    /// The counter of one class of files.
    Files(FileClass),
}

impl Unit {
    /// The six units, in the order of the fields that they fill.
    pub open spec fn each() -> Seq<Unit> {
        seq![
            Unit::Branch,
            Unit::Files(FileClass::Staged),
            Unit::Files(FileClass::Conflicts),
            Unit::Files(FileClass::Modified),
            Unit::Files(FileClass::Untracked),
            Unit::Files(FileClass::Deleted),
        ]
    }

    /// The units to launch: every unit, once.
    pub fn all() -> (units: Vec<Unit>)
        ensures
            units@ == Unit::each(),
            units@.no_duplicates(),
            forall|unit: Unit| units@.contains(unit),
    {
        let mut units: Vec<Unit> = Vec::new();
        units.push(Unit::Branch);
        units.push(Unit::Files(FileClass::Staged));
        units.push(Unit::Files(FileClass::Conflicts));
        units.push(Unit::Files(FileClass::Modified));
        units.push(Unit::Files(FileClass::Untracked));
        units.push(Unit::Files(FileClass::Deleted));
        proof {
            assert(units@ =~= Unit::each());
            assert forall|unit: Unit| units@.contains(unit) by {
                match unit {
                    Unit::Branch => assert(units@[0] == unit),
                    Unit::Files(FileClass::Staged) => assert(units@[1] == unit),
                    Unit::Files(FileClass::Conflicts) => assert(units@[2] == unit),
                    Unit::Files(FileClass::Modified) => assert(units@[3] == unit),
                    Unit::Files(FileClass::Untracked) => assert(units@[4] == unit),
                    Unit::Files(FileClass::Deleted) => assert(units@[5] == unit),
                }
            }
        }
        units
    }
}

/// What a unit of work reports when it has finished.
#[derive(Debug, PartialEq, Eq)]
pub enum UnitReport {
    /// The branch resolver: the branch, and the commits it is ahead and
    /// behind.
    Branch(Result<(String, usize, usize), CommandError>),
    /// The counter of one class of files.
    Files(FileClass, Result<usize, CommandError>),
}

/// A report with its text as a sequence of characters.
pub enum ReportView {
    Branch(Result<(Seq<char>, nat, nat), CommandError>),
    Files(FileClass, Result<nat, CommandError>),
}

impl View for UnitReport {
    type V = ReportView;

    open spec fn view(&self) -> ReportView {
        match *self {
            UnitReport::Branch(Ok((branch, ahead, behind))) => ReportView::Branch(
                Ok((branch@, ahead as nat, behind as nat)),
            ),
            UnitReport::Branch(Err(e)) => ReportView::Branch(Err(e)),
            UnitReport::Files(class, Ok(n)) => ReportView::Files(class, Ok(n as nat)),
            UnitReport::Files(class, Err(e)) => ReportView::Files(class, Err(e)),
        }
    }
}

impl ReportView {
    /// The unit that made this report.
    pub open spec fn unit(self) -> Unit {
        match self {
            ReportView::Branch(_) => Unit::Branch,
            ReportView::Files(class, _) => Unit::Files(class),
        }
    }

    /// What the report contributes to the fields of its unit: the values
    /// of a success, and nothing where the unit failed.
    pub open spec fn contribution(self) -> Option<Share> {
        match self {
            ReportView::Branch(Ok((branch, ahead, behind))) => Some(
                Share::Branch(branch, ahead, behind),
            ),
            ReportView::Files(_, Ok(n)) => Some(Share::Count(n)),
            _ => None,
        }
    }
}

/// The views of a sequence of reports.
pub open spec fn reports_view(reports: Seq<UnitReport>) -> Seq<ReportView> {
    reports.map_values(|r: UnitReport| r@)
}

/// The status of a working tree.
#[derive(Debug, PartialEq, Eq)]
pub struct GitStatus {
    /// The current branch, or a colon and a short commit identifier where
    /// the working tree is on no branch.
    pub branch: String,
    /// Commits of the branch that its upstream lacks.
    pub ahead: usize,
    /// Commits of the upstream that the branch lacks.
    pub behind: usize,
    /// Paths with staged changes.
    pub staged: usize,
    /// Paths in conflict.
    pub conflicts: usize,
    /// Paths with modifications that are not staged.
    pub modified: usize,
    /// Paths that are neither tracked nor ignored.
    pub untracked: usize,
    /// Paths whose deletion is not staged.
    pub deleted: usize,
}

/// A status over mathematical values.
pub struct StatusView {
    pub branch: Seq<char>,
    pub ahead: nat,
    pub behind: nat,
    pub staged: nat,
    pub conflicts: nat,
    pub modified: nat,
    pub untracked: nat,
    pub deleted: nat,
}

impl View for GitStatus {
    type V = StatusView;

    open spec fn view(&self) -> StatusView {
        StatusView {
            branch: self.branch@,
            ahead: self.ahead as nat,
            behind: self.behind as nat,
            staged: self.staged as nat,
            conflicts: self.conflicts as nat,
            modified: self.modified as nat,
            untracked: self.untracked as nat,
            deleted: self.deleted as nat,
        }
    }
}

/// What a unit contributes to a status.
pub enum Share {
    /// The branch with the commits ahead and behind.
    Branch(Seq<char>, nat, nat),
    /// A count of files.
    Count(nat),
}

impl StatusView {
    /// A status names its branch.
    pub open spec fn well_formed(self) -> bool {
        self.branch.len() > 0
    }

    /// The status before any unit has reported: the branch `main`, and zero
    /// everywhere else.
    pub open spec fn fallback() -> StatusView {
        StatusView {
            branch: "main"@,
            ahead: 0,
            behind: 0,
            staged: 0,
            conflicts: 0,
            modified: 0,
            untracked: 0,
            deleted: 0,
        }
    }

    /// The fields of this status that belong to `unit`.
    pub open spec fn share(self, unit: Unit) -> Share {
        match unit {
            Unit::Branch => Share::Branch(self.branch, self.ahead, self.behind),
            Unit::Files(FileClass::Staged) => Share::Count(self.staged),
            Unit::Files(FileClass::Conflicts) => Share::Count(self.conflicts),
            Unit::Files(FileClass::Modified) => Share::Count(self.modified),
            Unit::Files(FileClass::Untracked) => Share::Count(self.untracked),
            Unit::Files(FileClass::Deleted) => Share::Count(self.deleted),
        }
    }

    /// This status after `report`: a success fills the fields of its unit,
    /// and a failure changes nothing.
    pub open spec fn absorb(self, report: ReportView) -> StatusView {
        match report {
            ReportView::Branch(Ok((branch, ahead, behind))) => StatusView {
                branch,
                ahead,
                behind,
                ..self
            },
            ReportView::Files(FileClass::Staged, Ok(n)) => StatusView { staged: n, ..self },
            ReportView::Files(FileClass::Conflicts, Ok(n)) => StatusView { conflicts: n, ..self },
            ReportView::Files(FileClass::Modified, Ok(n)) => StatusView { modified: n, ..self },
            ReportView::Files(FileClass::Untracked, Ok(n)) => StatusView { untracked: n, ..self },
            ReportView::Files(FileClass::Deleted, Ok(n)) => StatusView { deleted: n, ..self },
            _ => self,
        }
    }

    /// The line that reports this status: the branch and the seven counts
    /// in decimal, in the order of the fields, with one space between two
    /// neighbours.
    pub open spec fn line(self) -> Seq<char> {
        self.branch + " "@ + decimal(self.ahead) + " "@ + decimal(self.behind) + " "@ + decimal(
            self.staged,
        ) + " "@ + decimal(self.conflicts) + " "@ + decimal(self.modified) + " "@ + decimal(
            self.untracked,
        ) + " "@ + decimal(self.deleted)
    }
}

/// The status assembled from `reports`, taken in the order of arrival.
pub open spec fn assembled(reports: Seq<ReportView>) -> StatusView
    decreases reports.len(),
{
    if reports.len() == 0 {
        StatusView::fallback()
    } else {
        assembled(reports.drop_last()).absorb(reports.last())
    }
}

/// No unit reports twice in `reports`.
pub open spec fn one_report_per_unit(reports: Seq<ReportView>) -> bool {
    forall|i: int, j: int|
        0 <= i < j < reports.len() ==> (#[trigger] reports[i]).unit() != (
        #[trigger] reports[j]).unit()
}

/// No unit makes two different reports in `reports`.
spec fn units_agree(reports: Seq<ReportView>) -> bool {
    forall|i: int, j: int|
        0 <= i < reports.len() && 0 <= j < reports.len() && (#[trigger] reports[i]).unit() == (
        #[trigger] reports[j]).unit() ==> reports[i] == reports[j]
}

/// How the run of the tool ends.
#[derive(Debug, PartialEq, Eq)]
pub struct Termination {
    /// The exit status of the process.
    pub exit_status: i32,
    /// The line to print on standard output, if there is one.
    pub output: Option<String>,
}

/// The exit status of a run that reported a status.
pub const EXIT_REPORTED: i32 = 0;

/// The exit status of a run outside any working tree.
pub const EXIT_NO_WORK_TREE: i32 = 1;

impl GitStatus {
    /// The status before any unit has reported.
    pub fn new() -> (status: GitStatus)
        ensures
            status@ == StatusView::fallback(),
            status@.well_formed(),
    {
        proof {
            reveal_strlit("main");
        }
        GitStatus {
            branch: String::from_str("main"),
            ahead: 0,
            behind: 0,
            staged: 0,
            conflicts: 0,
            modified: 0,
            untracked: 0,
            deleted: 0,
        }
    }

    /// Takes in the report of one unit: a success fills the fields of that
    /// unit and leaves the others as they are, a failure changes nothing.
    pub fn record(&mut self, report: &UnitReport)
        ensures
            final(self)@ == old(self)@.absorb(report@),
            report@.contribution() is None ==> final(self)@ == old(self)@,
            report@.contribution() matches Some(share) ==> final(self)@.share(report@.unit())
                == share,
            forall|unit: Unit|
                unit != report@.unit() ==> final(self)@.share(unit) == old(self)@.share(unit),
            old(self)@.well_formed() && (report@ matches ReportView::Branch(Ok((branch, _, _)))
                ==> branch.len() > 0) ==> final(self)@.well_formed(),
    {
        match report {
            UnitReport::Branch(Ok((branch, ahead, behind))) => {
                self.branch = branch.clone();
                self.ahead = *ahead;
                self.behind = *behind;
            },
            UnitReport::Files(FileClass::Staged, Ok(n)) => {
                self.staged = *n;
            },
            UnitReport::Files(FileClass::Conflicts, Ok(n)) => {
                self.conflicts = *n;
            },
            UnitReport::Files(FileClass::Modified, Ok(n)) => {
                self.modified = *n;
            },
            UnitReport::Files(FileClass::Untracked, Ok(n)) => {
                self.untracked = *n;
            },
            UnitReport::Files(FileClass::Deleted, Ok(n)) => {
                self.deleted = *n;
            },
            _ => {},
        }
    }

    /// The line that reports this status.
    pub fn to_line(&self) -> (line: String)
        ensures
            line@ == self@.line(),
    {
        let mut line = self.branch.clone();
        line.append(" ");
        line.append(to_decimal(self.ahead).as_str());
        line.append(" ");
        line.append(to_decimal(self.behind).as_str());
        line.append(" ");
        line.append(to_decimal(self.staged).as_str());
        line.append(" ");
        line.append(to_decimal(self.conflicts).as_str());
        line.append(" ");
        line.append(to_decimal(self.modified).as_str());
        line.append(" ");
        line.append(to_decimal(self.untracked).as_str());
        line.append(" ");
        line.append(to_decimal(self.deleted).as_str());
        line
    }
}

impl Default for GitStatus {
    /// The status before any unit has reported.
    fn default() -> (status: GitStatus)
        ensures
            status@ == StatusView::fallback(),
    {
        GitStatus::new()
    }
}

/// Assembles the status from the reports that arrived, in the order of
/// their arrival.
pub fn collect(reports: &Vec<UnitReport>) -> (status: GitStatus)
    ensures
        status@ == assembled(reports_view(reports@)),
        (forall|i: int|
            0 <= i < reports.len() ==> (#[trigger] reports[i]@ matches ReportView::Branch(
                Ok((branch, _, _)),
            ) ==> branch.len() > 0)) ==> status@.well_formed(),
{
    let mut status = GitStatus::new();
    let ghost views = reports_view(reports@);
    let mut i: usize = 0;
    assert(views.take(0) == Seq::<ReportView>::empty());
    while i < reports.len()
        invariant
            i <= reports.len(),
            views == reports_view(reports@),
            status@ == assembled(views.take(i as int)),
        decreases reports.len() - i,
    {
        proof {
            let next = views.take(i + 1);
            assert(next.drop_last() == views.take(i as int));
            assert(next.last() == reports@[i as int]@);
        }
        status.record(&reports[i]);
        i += 1;
    }
    assert(views.take(i as int) == views);
    proof {
        if forall|i: int|
            0 <= i < reports.len() ==> (#[trigger] reports[i]@ matches ReportView::Branch(
                Ok((branch, _, _)),
            ) ==> branch.len() > 0) {
            assert forall|i: int| 0 <= i < views.len() implies (#[trigger] views[i]
                matches ReportView::Branch(Ok((branch, _, _))) ==> branch.len() > 0) by {
                assert(views[i] == reports[i]@);
            }
            lemma_assembled_is_well_formed(views);
        }
    }
    status
}

/// Tells from the reply to the working-tree query whether the current
/// directory is under version control: it is where the query succeeded,
/// whatever it printed.
pub fn inside_work_tree(work_tree: &Reply) -> (inside: bool)
    ensures
        inside == (*work_tree is Ok),
{
    work_tree.is_ok()
}

/// Ends the run. Outside a working tree nothing is printed and the exit
/// status is [`EXIT_NO_WORK_TREE`], whatever `reports` holds. Inside one,
/// the line of the status assembled from `reports` is printed and the exit
/// status is [`EXIT_REPORTED`], however many units failed.
pub fn finish(work_tree: &Reply, reports: &Vec<UnitReport>) -> (end: Termination)
    ensures
        *work_tree is Err ==> end.output is None && end.exit_status == EXIT_NO_WORK_TREE,
        *work_tree is Ok ==> end.exit_status == EXIT_REPORTED && (end.output matches Some(line)
            && line@ == assembled(reports_view(reports@)).line()),
        end.exit_status != 0 <==> *work_tree is Err,
{
    if inside_work_tree(work_tree) {
        let status = collect(reports);
        Termination { exit_status: EXIT_REPORTED, output: Some(status.to_line()) }
    } else {
        Termination { exit_status: EXIT_NO_WORK_TREE, output: None }
    }
}

/// A unit whose report is a success has its fields filled with what it
/// reported, wherever in the order of arrival the report stands.
pub proof fn lemma_success_fills_share(reports: Seq<ReportView>, i: int)
    requires
        one_report_per_unit(reports),
        0 <= i < reports.len(),
        reports[i].contribution() is Some,
    ensures
        assembled(reports).share(reports[i].unit()) == reports[i].contribution()->0,
{
    assert(units_agree(reports));
    lemma_agreed_success_fills_share(reports, i);
}

/// A unit that reports no success, because it failed or because it never
/// reported, leaves its fields at their fallback.
pub proof fn lemma_failure_keeps_fallback(reports: Seq<ReportView>, unit: Unit)
    requires
        forall|i: int|
            0 <= i < reports.len() && (#[trigger] reports[i]).unit() == unit
                ==> reports[i].contribution() is None,
    ensures
        assembled(reports).share(unit) == StatusView::fallback().share(unit),
    decreases reports.len(),
{
    if reports.len() > 0 {
        let init = reports.drop_last();
        assert(forall|i: int| 0 <= i < init.len() ==> init[i] == reports[i]);
        lemma_failure_keeps_fallback(init, unit);
    }
}

/// The status does not depend on the order in which the units report: two
/// arrival orders of the same reports, one of each unit at most, assemble
/// the same status.
pub proof fn lemma_arrival_order_is_irrelevant(first: Seq<ReportView>, second: Seq<ReportView>)
    requires
        one_report_per_unit(first),
        first.to_multiset() == second.to_multiset(),
    ensures
        assembled(first) == assembled(second),
{
    first.to_multiset_ensures();
    second.to_multiset_ensures();
    assert forall|r: ReportView| first.contains(r) <==> second.contains(r) by {
        assert(first.contains(r) <==> first.to_multiset().count(r) > 0);
        assert(second.contains(r) <==> second.to_multiset().count(r) > 0);
    }
    assert(units_agree(first));
    assert(units_agree(second)) by {
        assert forall|i: int, j: int|
            0 <= i < second.len() && 0 <= j < second.len() && (#[trigger] second[i]).unit() == (
            #[trigger] second[j]).unit() implies second[i] == second[j] by {
            assert(second.contains(second[i]));
            assert(second.contains(second[j]));
            assert(first.contains(second[i]));
            assert(first.contains(second[j]));
        }
    }
    lemma_same_reports_same_share(first, second, Unit::Branch);
    lemma_same_reports_same_share(first, second, Unit::Files(FileClass::Staged));
    lemma_same_reports_same_share(first, second, Unit::Files(FileClass::Conflicts));
    lemma_same_reports_same_share(first, second, Unit::Files(FileClass::Modified));
    lemma_same_reports_same_share(first, second, Unit::Files(FileClass::Untracked));
    lemma_same_reports_same_share(first, second, Unit::Files(FileClass::Deleted));
}

/// The assembled status names its branch, provided that every branch that
/// a unit reports has a name.
pub proof fn lemma_assembled_is_well_formed(reports: Seq<ReportView>)
    requires
        forall|i: int|
            0 <= i < reports.len() ==> (#[trigger] reports[i] matches ReportView::Branch(
                Ok((branch, _, _)),
            ) ==> branch.len() > 0),
    ensures
        assembled(reports).well_formed(),
    decreases reports.len(),
{
    if reports.len() == 0 {
        reveal_strlit("main");
    } else {
        let init = reports.drop_last();
        assert(forall|i: int| 0 <= i < init.len() ==> init[i] == reports[i]);
        lemma_assembled_is_well_formed(init);
    }
}

/// Like [`lemma_success_fills_share`], for reports that may repeat.
proof fn lemma_agreed_success_fills_share(reports: Seq<ReportView>, i: int)
    requires
        units_agree(reports),
        0 <= i < reports.len(),
        reports[i].contribution() is Some,
    ensures
        assembled(reports).share(reports[i].unit()) == reports[i].contribution()->0,
    decreases reports.len(),
{
    let init = reports.drop_last();
    assert(forall|k: int| 0 <= k < init.len() ==> init[k] == reports[k]);
    if i < reports.len() - 1 {
        lemma_agreed_success_fills_share(init, i);
        assert(init[i] == reports[i]);
    }
}

/// Two sequences of the same reports, in which no unit makes two different
/// reports, give `unit` the same fields.
proof fn lemma_same_reports_same_share(first: Seq<ReportView>, second: Seq<ReportView>, unit: Unit)
    requires
        units_agree(first),
        units_agree(second),
        forall|r: ReportView| first.contains(r) <==> second.contains(r),
    ensures
        assembled(first).share(unit) == assembled(second).share(unit),
{
    if exists|i: int|
        0 <= i < first.len() && (#[trigger] first[i]).unit() == unit
            && first[i].contribution() is Some {
        let i = choose|i: int|
            0 <= i < first.len() && (#[trigger] first[i]).unit() == unit
                && first[i].contribution() is Some;
        assert(first.contains(first[i]));
        assert(second.contains(first[i]));
        let j = choose|j: int| 0 <= j < second.len() && second[j] == first[i];
        lemma_agreed_success_fills_share(first, i);
        lemma_agreed_success_fills_share(second, j);
    } else {
        assert forall|j: int| 0 <= j < second.len() && (#[trigger] second[j]).unit() == unit
            implies second[j].contribution() is None by {
            assert(second.contains(second[j]));
            assert(first.contains(second[j]));
            let i = choose|i: int| 0 <= i < first.len() && first[i] == second[j];
            assert(first[i].unit() == unit);
        }
        lemma_failure_keeps_fallback(first, unit);
        lemma_failure_keeps_fallback(second, unit);
    }
}

} // verus!
