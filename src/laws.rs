//! Properties of whole runs, proved from the contracts of the pipeline.
use vstd::prelude::*;

use crate::aggregate::{
    ReportView,
    gathered,
    has_key,
    keys_unique,
    lookup,
    names_view,
    outcomes_view,
    outcome_view,
};
use crate::fetch::{FetchError, Fetched, is_outcome_for};
use crate::label::{RankedLabel, is_label_of, is_report, labels_view};
use crate::tag::{TagDescriptor, is_newest_first, newest_first_is_unique};

verus! {

/// Without push times, a report is fixed by its tags, count, repository and
/// project: two reports made of the same inputs are the same.
pub proof fn report_is_determined(
    first: Seq<RankedLabel>,
    second: Seq<RankedLabel>,
    tags: Seq<TagDescriptor>,
    count: usize,
    repo: Seq<char>,
    project: Seq<char>,
)
    requires
        is_report(first, tags, count, repo, project, false),
        is_report(second, tags, count, repo, project, false),
    ensures
        labels_view(first) == labels_view(second),
{
    let a = choose|order: Seq<usize>|
        is_newest_first(tags, order) && crate::label::reports_in_order(
            first,
            tags,
            order,
            repo,
            project,
            false,
        );
    let b = choose|order: Seq<usize>|
        is_newest_first(tags, order) && crate::label::reports_in_order(
            second,
            tags,
            order,
            repo,
            project,
            false,
        );
    newest_first_is_unique(tags, a, b);
    assert forall|i: int| 0 <= i < first.len() implies first[i]@ == second[i]@ by {
        assert(is_label_of(first[i], i as nat, repo, project, tags[a[i] as int].name@, false));
        assert(is_label_of(second[i], i as nat, repo, project, tags[b[i] as int].name@, false));
    }
    assert(labels_view(first) =~= labels_view(second));
}

/// Two runs against replies that did not change, with push times left out,
/// give the same aggregate: the same projects, reports, label texts, order
/// and failures.
pub proof fn same_replies_same_result(
    projects: Seq<String>,
    replies: Seq<Result<Fetched, FetchError>>,
    count: usize,
    repo: Seq<char>,
    first: Seq<Result<Vec<RankedLabel>, FetchError>>,
    second: Seq<Result<Vec<RankedLabel>, FetchError>>,
)
    requires
        replies.len() == projects.len(),
        first.len() == projects.len(),
        second.len() == projects.len(),
        forall|i: int|
            0 <= i < projects.len() ==> is_outcome_for(
                #[trigger] first[i],
                replies[i],
                count,
                repo,
                projects[i]@,
                false,
            ),
        forall|i: int|
            0 <= i < projects.len() ==> is_outcome_for(
                #[trigger] second[i],
                replies[i],
                count,
                repo,
                projects[i]@,
                false,
            ),
    ensures
        gathered(names_view(projects), outcomes_view(first)) == gathered(
            names_view(projects),
            outcomes_view(second),
        ),
{
    assert forall|i: int| 0 <= i < projects.len() implies outcome_view(first[i]) == outcome_view(
        second[i],
    ) by {
        assert(is_outcome_for(first[i], replies[i], count, repo, projects[i]@, false));
        assert(is_outcome_for(second[i], replies[i], count, repo, projects[i]@, false));
        match replies[i] {
            Ok(f) => {
                report_is_determined(
                    first[i]->Ok_0@,
                    second[i]->Ok_0@,
                    f.tags@,
                    count,
                    repo,
                    projects[i]@,
                );
            },
            Err(e) => {},
        }
    }
    assert(outcomes_view(first) =~= outcomes_view(second));
}

/// Some project `projects[j]` reported `report` under `key`.
pub open spec fn reported_by(
    projects: Seq<Seq<char>>,
    outcomes: Seq<Result<ReportView, FetchError>>,
    key: Seq<char>,
    report: ReportView,
) -> bool {
    exists|j: int|
        0 <= j < projects.len() && projects[j] == key && outcomes[j] == Ok::<
            ReportView,
            FetchError,
        >(report)
}

/// No project is named twice.
pub open spec fn distinct(projects: Seq<Seq<char>>) -> bool {
    forall|i: int, j: int| 0 <= i < j < projects.len() ==> projects[i] != projects[j]
}

proof fn gathered_reports_are_own(
    projects: Seq<Seq<char>>,
    outcomes: Seq<Result<ReportView, FetchError>>,
)
    requires
        projects.len() == outcomes.len(),
        distinct(projects),
    ensures
        keys_unique(gathered(projects, outcomes).reports),
        forall|k: int|
            0 <= k < gathered(projects, outcomes).reports.len() ==> #[trigger] reported_by(
                projects,
                outcomes,
                gathered(projects, outcomes).reports[k].0,
                gathered(projects, outcomes).reports[k].1,
            ),
        forall|j: int|
            0 <= j < projects.len() && outcomes[j] is Ok ==> #[trigger] has_key(
                gathered(projects, outcomes).reports,
                projects[j],
            ),
        (forall|j: int| 0 <= j < outcomes.len() ==> #[trigger] outcomes[j] is Ok) ==> gathered(
            projects,
            outcomes,
        ).reports.len() == projects.len(),
    decreases projects.len(),
{
    if projects.len() > 0 {
        let ps = projects.drop_last();
        let os = outcomes.drop_last();
        gathered_reports_are_own(ps, os);
        let prev = gathered(ps, os).reports;
        let g = gathered(projects, outcomes).reports;
        let n = projects.len() - 1;
        let p = projects.last();
        assert(!has_key(prev, p)) by {
            if has_key(prev, p) {
                let k = choose|k: int| 0 <= k < prev.len() && prev[k].0 == p;
                assert(reported_by(ps, os, prev[k].0, prev[k].1));
                let j = choose|j: int|
                    0 <= j < ps.len() && ps[j] == prev[k].0 && os[j] == Ok::<
                        ReportView,
                        FetchError,
                    >(prev[k].1);
                assert(projects[j] == projects[n]);
            }
        }
        assert forall|k: int| 0 <= k < prev.len() implies #[trigger] reported_by(
            projects,
            outcomes,
            prev[k].0,
            prev[k].1,
        ) by {
            assert(reported_by(ps, os, prev[k].0, prev[k].1));
            let j = choose|j: int|
                0 <= j < ps.len() && ps[j] == prev[k].0 && os[j] == Ok::<ReportView, FetchError>(
                    prev[k].1,
                );
            assert(projects[j] == prev[k].0 && outcomes[j] == os[j]);
        }
        assert forall|j: int| 0 <= j < n && outcomes[j] is Ok implies #[trigger] has_key(
            prev,
            projects[j],
        ) by {
            assert(ps[j] == projects[j] && os[j] == outcomes[j]);
            assert(has_key(prev, ps[j]));
        }
        match outcomes.last() {
            Ok(v) => {
                assert(g == prev.push((p, v)));
                assert(reported_by(projects, outcomes, p, v)) by {
                    assert(projects[n] == p && outcomes[n] == Ok::<ReportView, FetchError>(v));
                }
                assert forall|j: int| 0 <= j < projects.len() && outcomes[j] is Ok implies #[trigger] has_key(
                    g,
                    projects[j],
                ) by {
                    if j < n {
                        assert(has_key(prev, projects[j]));
                        let k = choose|k: int| 0 <= k < prev.len() && prev[k].0 == projects[j];
                        assert(g[k] == prev[k]);
                    } else {
                        assert(g[prev.len() as int].0 == p);
                    }
                }
                assert forall|k: int| 0 <= k < g.len() implies #[trigger] reported_by(
                    projects,
                    outcomes,
                    g[k].0,
                    g[k].1,
                ) by {
                    if k < prev.len() {
                        assert(g[k] == prev[k]);
                    }
                }
                if forall|j: int| 0 <= j < outcomes.len() ==> #[trigger] outcomes[j] is Ok {
                    assert forall|j: int| 0 <= j < os.len() implies #[trigger] os[j] is Ok by {
                        assert(os[j] == outcomes[j]);
                    }
                }
            },
            Err(e) => {
                assert(g == prev);
                if forall|j: int| 0 <= j < outcomes.len() ==> #[trigger] outcomes[j] is Ok {
                    assert(outcomes[n] is Ok);
                }
                assert forall|j: int| 0 <= j < projects.len() && outcomes[j] is Ok implies #[trigger] has_key(
                    g,
                    projects[j],
                ) by {
                    if j == n {
                        assert(outcomes[n] is Ok);
                    }
                }
            },
        }
    }
}

/// When no project is named twice, every project whose pipeline succeeded
/// has exactly the report that its own pipeline made, a failed project has
/// none, and where all succeed there are as many reports as projects.
pub proof fn distinct_projects_keep_their_own_reports(
    projects: Seq<Seq<char>>,
    outcomes: Seq<Result<ReportView, FetchError>>,
)
    requires
        projects.len() == outcomes.len(),
        distinct(projects),
    ensures
        forall|i: int|
            0 <= i < projects.len() && outcomes[i] is Ok ==> lookup(
                gathered(projects, outcomes).reports,
                #[trigger] projects[i],
            ) == Some(outcomes[i]->Ok_0),
        forall|i: int|
            0 <= i < projects.len() && outcomes[i] is Err ==> !has_key(
                gathered(projects, outcomes).reports,
                #[trigger] projects[i],
            ),
        (forall|i: int| 0 <= i < outcomes.len() ==> #[trigger] outcomes[i] is Ok) ==> gathered(
            projects,
            outcomes,
        ).reports.len() == projects.len(),
{
    gathered_reports_are_own(projects, outcomes);
    let g = gathered(projects, outcomes).reports;
    assert forall|i: int| 0 <= i < projects.len() && outcomes[i] is Ok implies lookup(
        g,
        #[trigger] projects[i],
    ) == Some(outcomes[i]->Ok_0) by {
        assert(has_key(g, projects[i]));
        let k = choose|k: int| 0 <= k < g.len() && g[k].0 == projects[i];
        assert(reported_by(projects, outcomes, g[k].0, g[k].1));
        let j = choose|j: int|
            0 <= j < projects.len() && projects[j] == g[k].0 && outcomes[j] == Ok::<
                ReportView,
                FetchError,
            >(g[k].1);
        assert(j == i);
    }
    assert forall|i: int| 0 <= i < projects.len() && outcomes[i] is Err implies !has_key(
        g,
        #[trigger] projects[i],
    ) by {
        if has_key(g, projects[i]) {
            let k = choose|k: int| 0 <= k < g.len() && g[k].0 == projects[i];
            assert(reported_by(projects, outcomes, g[k].0, g[k].1));
            let j = choose|j: int|
                0 <= j < projects.len() && projects[j] == g[k].0 && outcomes[j] == Ok::<
                    ReportView,
                    FetchError,
                >(g[k].1);
            assert(j == i);
        }
    }
}

} // verus!
