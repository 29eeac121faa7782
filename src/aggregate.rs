//! The reports of all projects of a run, and the projects that failed.
use vstd::prelude::*;

use crate::fetch::FetchError;
use crate::label::{RankedLabel, decimal, decimal_text, labels_view};

verus! {

/// The report of one project.
pub struct ProjectEntry {
    pub project: String,
    pub labels: Vec<RankedLabel>,
}

/// A project whose tags could not be had, and why.
pub struct ProjectFailure {
    pub project: String,
    pub error: FetchError,
}

/// The view of a project's report: its labels as (rank, text) pairs.
pub type ReportView = Seq<(nat, Seq<char>)>;

/// The view of an aggregate result: the reports, keyed by project in the
/// order the projects were first reported, and the failures in the order
/// they were recorded.
pub struct AggregateView {
    pub reports: Seq<(Seq<char>, ReportView)>,
    pub failures: Seq<(Seq<char>, FetchError)>,
}

/// No project is keyed twice among `reports`.
pub open spec fn keys_unique(reports: Seq<(Seq<char>, ReportView)>) -> bool {
    forall|i: int, j: int| 0 <= i < j < reports.len() ==> reports[i].0 != reports[j].0
}

/// `reports` has an entry keyed `key`.
pub open spec fn has_key(reports: Seq<(Seq<char>, ReportView)>, key: Seq<char>) -> bool {
    exists|i: int| 0 <= i < reports.len() && reports[i].0 == key
}

/// `reports` with the report of `key` set to `report`: replaced in place
/// where `key` has one, added at the end where not.
pub open spec fn upsert(
    reports: Seq<(Seq<char>, ReportView)>,
    key: Seq<char>,
    report: ReportView,
) -> Seq<(Seq<char>, ReportView)> {
    if has_key(reports, key) {
        reports.update(choose|i: int| 0 <= i < reports.len() && reports[i].0 == key, (key, report))
    } else {
        reports.push((key, report))
    }
}

/// The report that `reports` holds for `key`, if any.
pub open spec fn lookup(reports: Seq<(Seq<char>, ReportView)>, key: Seq<char>) -> Option<
    ReportView,
> {
    if has_key(reports, key) {
        Some(reports[choose|i: int| 0 <= i < reports.len() && reports[i].0 == key].1)
    } else {
        None
    }
}

/// The reports and failures of a run.
pub struct AggregateResult {
    entries: Vec<ProjectEntry>,
    failures: Vec<ProjectFailure>,
}

impl View for AggregateResult {
    type V = AggregateView;

    closed spec fn view(&self) -> AggregateView {
        AggregateView {
            reports: self.entries@.map_values(
                |e: ProjectEntry| (e.project@, labels_view(e.labels@)),
            ),
            failures: self.failures@.map_values(|f: ProjectFailure| (f.project@, f.error)),
        }
    }
}

impl AggregateResult {
    /// Each project has at most one report.
    pub open spec fn wf(&self) -> bool {
        keys_unique(self@.reports)
    }

    /// An aggregate with no reports and no failures.
    pub fn new() -> (r: AggregateResult)
        ensures
            r.wf(),
            r@.reports.len() == 0,
            r@.failures.len() == 0,
    {
        let r = AggregateResult { entries: Vec::new(), failures: Vec::new() };
        assert(r@.reports =~= Seq::empty());
        assert(r@.failures =~= Seq::empty());
        r
    }

    /// The position of the report of `project`, if there is one.
    fn find(&self, project: &String) -> (r: Option<usize>)
        requires
            self.wf(),
        ensures
            r is Some ==> r->Some_0 < self@.reports.len() && self@.reports[r->Some_0 as int].0
                == project@,
            r is None ==> !has_key(self@.reports, project@),
    {
        let mut i: usize = 0;
        while i < self.entries.len()
            invariant
                i <= self.entries@.len(),
                forall|k: int| 0 <= k < i ==> self@.reports[k].0 != project@,
            decreases self.entries@.len() - i,
        {
            if self.entries[i].project == *project {
                return Some(i);
            }
            i = i + 1;
        }
        None
    }

    /// Sets the report of `project` to `labels`, replacing an earlier one.
    pub fn insert(&mut self, project: String, labels: Vec<RankedLabel>)
        requires
            old(self).wf(),
        ensures
            final(self).wf(),
            final(self)@.reports == upsert(old(self)@.reports, project@, labels_view(labels@)),
            final(self)@.failures == old(self)@.failures,
    {
        let ghost key = project@;
        let ghost report = labels_view(labels@);
        let ghost before = self@.reports;
        match self.find(&project) {
            Some(i) => {
                proof {
                    let c = choose|c: int| 0 <= c < before.len() && before[c].0 == key;
                    assert(c == i as int);
                }
                self.entries.set(i, ProjectEntry { project, labels });
                assert(self@.reports =~= before.update(i as int, (key, report)));
            },
            None => {
                self.entries.push(ProjectEntry { project, labels });
                assert(self@.reports =~= before.push((key, report)));
            },
        }
    }

    /// Records that `project` failed with `error`.
    pub fn record_failure(&mut self, project: String, error: FetchError)
        requires
            old(self).wf(),
        ensures
            final(self).wf(),
            final(self)@.reports == old(self)@.reports,
            final(self)@.failures == old(self)@.failures.push((project@, error)),
    {
        let ghost before = self@.failures;
        self.failures.push(ProjectFailure { project, error });
        assert(self@.failures =~= before.push((project@, error)));
        assert(self@.reports =~= old(self)@.reports);
    }

    /// The number of projects with a report.
    pub fn len(&self) -> (r: usize)
        ensures
            r == self@.reports.len(),
    {
        self.entries.len()
    }

    /// The report of `project`, if it has one.
    pub fn report(&self, project: &String) -> (r: Option<&Vec<RankedLabel>>)
        requires
            self.wf(),
        ensures
            r is None <==> !has_key(self@.reports, project@),
            r is Some ==> lookup(self@.reports, project@) == Some(labels_view(r->Some_0@)),
    {
        match self.find(project) {
            Some(i) => {
                proof {
                    let c = choose|c: int|
                        0 <= c < self@.reports.len() && self@.reports[c].0 == project@;
                    assert(c == i as int);
                }
                Some(&self.entries[i].labels)
            },
            None => None,
        }
    }

    /// The report at `index`, in the order the projects were first reported.
    pub fn entry(&self, index: usize) -> (r: &ProjectEntry)
        requires
            index < self@.reports.len(),
        ensures
            (r.project@, labels_view(r.labels@)) == self@.reports[index as int],
    {
        &self.entries[index]
    }

    /// The number of projects that failed.
    pub fn failure_count(&self) -> (r: usize)
        ensures
            r == self@.failures.len(),
    {
        self.failures.len()
    }

    /// The failure at `index`, in the order the failures were recorded.
    pub fn failure(&self, index: usize) -> (r: &ProjectFailure)
        requires
            index < self@.failures.len(),
        ensures
            (r.project@, r.error) == self@.failures[index as int],
    {
        &self.failures[index]
    }

    /// No project failed.
    pub fn all_succeeded(&self) -> (r: bool)
        ensures
            r == (self@.failures.len() == 0),
    {
        self.failures.len() == 0
    }

    /// The text of the whole run: each report under its project, then a
    /// notice for each project that failed.
    pub fn render(&self) -> (r: String)
        ensures
            r@ == render_spec(self@),
    {
        let mut s = String::new();
        let mut i: usize = 0;
        while i < self.entries.len()
            invariant
                i <= self@.reports.len(),
                s@ == render_reports(self@.reports.subrange(0, i as int)),
            decreases self@.reports.len() - i,
        {
            let entry = &self.entries[i];
            let ghost done = s@;
            s.append("\n");
            s.append(entry.project.as_str());
            s.append(":\n");
            let mut k: usize = 0;
            while k < entry.labels.len()
                invariant
                    k <= entry.labels@.len(),
                    s@ == done + "\n"@ + entry.project@ + ":\n"@ + render_lines(
                        labels_view(entry.labels@).subrange(0, k as int),
                    ),
                decreases entry.labels@.len() - k,
            {
                s.append("  ");
                s.append(entry.labels[k].text.as_str());
                s.append("\n");
                assert(labels_view(entry.labels@).subrange(0, k + 1).drop_last() =~= labels_view(
                    entry.labels@,
                ).subrange(0, k as int));
                k = k + 1;
            }
            assert(labels_view(entry.labels@).subrange(0, k as int) =~= labels_view(
                entry.labels@,
            ));
            assert(self@.reports.subrange(0, i + 1).drop_last() =~= self@.reports.subrange(
                0,
                i as int,
            ));
            i = i + 1;
        }
        assert(self@.reports.subrange(0, i as int) =~= self@.reports);
        let ghost reports_done = s@;
        let mut j: usize = 0;
        while j < self.failures.len()
            invariant
                j <= self@.failures.len(),
                s@ == reports_done + render_failures(self@.failures.subrange(0, j as int)),
            decreases self@.failures.len() - j,
        {
            let failure = &self.failures[j];
            s.append("\n");
            s.append(failure.project.as_str());
            s.append(": failed, ");
            let reason = error_text(failure.error);
            s.append(reason.as_str());
            s.append("\n");
            assert(self@.failures.subrange(0, j + 1).drop_last() =~= self@.failures.subrange(
                0,
                j as int,
            ));
            j = j + 1;
        }
        assert(self@.failures.subrange(0, j as int) =~= self@.failures);
        s
    }

    /// Records what the pipeline of `project` gave: its report, or its
    /// failure.
    pub fn record(&mut self, project: String, outcome: Result<Vec<RankedLabel>, FetchError>)
        requires
            old(self).wf(),
        ensures
            final(self).wf(),
            final(self)@ == recorded(old(self)@, project@, outcome_view(outcome)),
    {
        match outcome {
            Ok(labels) => self.insert(project, labels),
            Err(e) => self.record_failure(project, e),
        }
    }
}

/// The view of a pipeline's outcome.
pub open spec fn outcome_view(outcome: Result<Vec<RankedLabel>, FetchError>) -> Result<
    ReportView,
    FetchError,
> {
    match outcome {
        Ok(labels) => Ok(labels_view(labels@)),
        Err(e) => Err(e),
    }
}

/// `agg` after the outcome of `project` is recorded.
pub open spec fn recorded(
    agg: AggregateView,
    project: Seq<char>,
    outcome: Result<ReportView, FetchError>,
) -> AggregateView {
    match outcome {
        Ok(report) => AggregateView {
            reports: upsert(agg.reports, project, report),
            failures: agg.failures,
        },
        Err(e) => AggregateView { reports: agg.reports, failures: agg.failures.push((project, e)) },
    }
}

/// The lines of a report, each label indented on a line of its own.
pub open spec fn render_lines(report: ReportView) -> Seq<char>
    decreases report.len(),
{
    if report.len() == 0 {
        Seq::empty()
    } else {
        render_lines(report.drop_last()) + "  "@ + report.last().1 + "\n"@
    }
}

/// The reports, each under a line with its project.
pub open spec fn render_reports(reports: Seq<(Seq<char>, ReportView)>) -> Seq<char>
    decreases reports.len(),
{
    if reports.len() == 0 {
        Seq::empty()
    } else {
        render_reports(reports.drop_last()) + "\n"@ + reports.last().0 + ":\n"@ + render_lines(
            reports.last().1,
        )
    }
}

/// What an error says in a report.
pub open spec fn error_spec(e: FetchError) -> Seq<char> {
    match e {
        FetchError::Transport => "registry not reached"@,
        FetchError::UnexpectedStatus(status) => "unexpected status "@ + decimal(status as nat),
        FetchError::Decode => "tag list not readable"@,
    }
}

/// What an error says in a report.
pub fn error_text(e: FetchError) -> (r: String)
    ensures
        r@ == error_spec(e),
{
    match e {
        FetchError::Transport => String::from_str("registry not reached"),
        FetchError::UnexpectedStatus(status) => {
            let mut s = String::from_str("unexpected status ");
            let number = decimal_text(status as usize);
            s.append(number.as_str());
            s
        },
        FetchError::Decode => String::from_str("tag list not readable"),
    }
}

/// A notice for each failed project.
pub open spec fn render_failures(failures: Seq<(Seq<char>, FetchError)>) -> Seq<char>
    decreases failures.len(),
{
    if failures.len() == 0 {
        Seq::empty()
    } else {
        render_failures(failures.drop_last()) + "\n"@ + failures.last().0 + ": failed, "@
            + error_spec(failures.last().1) + "\n"@
    }
}

/// The text of a run: its reports, then its failures.
pub open spec fn render_spec(agg: AggregateView) -> Seq<char> {
    render_reports(agg.reports) + render_failures(agg.failures)
}

/// The names of the projects, as character sequences.
pub open spec fn names_view(projects: Seq<String>) -> Seq<Seq<char>> {
    projects.map_values(|p: String| p@)
}

/// The views of the outcomes of the pipelines.
pub open spec fn outcomes_view(outcomes: Seq<Result<Vec<RankedLabel>, FetchError>>) -> Seq<
    Result<ReportView, FetchError>,
> {
    outcomes.map_values(|o: Result<Vec<RankedLabel>, FetchError>| outcome_view(o))
}

/// The aggregate of a run in which the pipeline of `projects[i]` gave
/// `outcomes[i]`, recorded in the order of `projects`.
pub open spec fn gathered(
    projects: Seq<Seq<char>>,
    outcomes: Seq<Result<ReportView, FetchError>>,
) -> AggregateView
    decreases projects.len(),
{
    if projects.len() == 0 || outcomes.len() == 0 {
        AggregateView { reports: Seq::empty(), failures: Seq::empty() }
    } else {
        recorded(
            gathered(projects.drop_last(), outcomes.drop_last()),
            projects.last(),
            outcomes.last(),
        )
    }
}

/// The aggregate of a run in which the pipeline of `projects[i]` gave
/// `outcomes[i]`: every report and every failure, taken in the order of
/// `projects`, so that the result does not depend on which pipeline
/// finished first. A project named twice keeps its last report.
pub fn gather(projects: &Vec<String>, outcomes: Vec<Result<Vec<RankedLabel>, FetchError>>) -> (r:
    AggregateResult)
    requires
        projects@.len() == outcomes@.len(),
    ensures
        r.wf(),
        r@ == gathered(names_view(projects@), outcomes_view(outcomes@)),
{
    let ghost names = names_view(projects@);
    let ghost views = outcomes_view(outcomes@);
    let ghost all = outcomes@;
    let n = projects.len();
    let mut rest = outcomes;
    let mut r = AggregateResult::new();
    assert(r@.reports =~= Seq::empty() && r@.failures =~= Seq::empty());
    let mut i: usize = 0;
    while i < n
        invariant
            n == projects@.len(),
            n == all.len(),
            names == names_view(projects@),
            views == outcomes_view(all),
            i <= n,
            rest@ == all.subrange(i as int, n as int),
            r.wf(),
            r@ == gathered(names.subrange(0, i as int), views.subrange(0, i as int)),
        decreases n - i,
    {
        let outcome = rest.remove(0);
        let project = projects[i].clone();
        r.record(project, outcome);
        assert(names.subrange(0, i + 1).drop_last() =~= names.subrange(0, i as int));
        assert(views.subrange(0, i + 1).drop_last() =~= views.subrange(0, i as int));
        assert(rest@ =~= all.subrange(i + 1, n as int));
        i = i + 1;
    }
    assert(names.subrange(0, n as int) =~= names);
    assert(views.subrange(0, n as int) =~= views);
    r
}

} // verus!
