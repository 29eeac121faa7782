use harbor_tags::aggregate::{error_text, gather, AggregateResult};
use harbor_tags::fetch::{interpret_reply, project_report, FetchError};
use harbor_tags::label::{rank, RankedLabel};
use harbor_tags::tag::TagDescriptor;

fn tag(name: &str, secs: i64) -> TagDescriptor {
    TagDescriptor { name: name.to_string(), push_secs: secs, push_nanos: 0 }
}

fn texts(labels: &[RankedLabel]) -> Vec<String> {
    labels.iter().map(|l| l.text.clone()).collect()
}

#[test]
fn partial_failure_keeps_other_projects() {
    let projects = vec!["A".to_string(), "B".to_string()];
    let b_tags = vec![tag("v1", 1), tag("v2", 2)];
    let outcomes = vec![
        project_report(interpret_reply(500, None), 1, "demo", "A", false),
        project_report(interpret_reply(200, Some(b_tags.clone())), 1, "demo", "B", false),
    ];
    let agg = gather(&projects, outcomes);
    assert_eq!(agg.len(), 1);
    let b = agg.report(&"B".to_string()).unwrap();
    assert_eq!(texts(b), texts(&rank(&b_tags, 1, "demo", "B", false)));
    assert!(agg.report(&"A".to_string()).is_none());
    assert!(!agg.all_succeeded());
    assert_eq!(agg.failure_count(), 1);
    assert_eq!(agg.failure(0).project, "A");
    assert_eq!(agg.failure(0).error, FetchError::UnexpectedStatus(500));
}

#[test]
fn unauthorized_project_has_empty_report_and_no_error() {
    let projects = vec!["restricted".to_string()];
    let outcomes = vec![project_report(interpret_reply(401, None), 3, "demo", "restricted", false)];
    let agg = gather(&projects, outcomes);
    assert!(agg.all_succeeded());
    assert!(agg.report(&"restricted".to_string()).unwrap().is_empty());
}

fn run_once() -> AggregateResult {
    let projects = vec!["svc".to_string(), "web".to_string(), "down".to_string()];
    let replies = vec![
        (200u16, Some(vec![tag("v1", 10), tag("v2", 30), tag("v3", 20)])),
        (200u16, Some(vec![tag("a", 5), tag("b", 5)])),
        (503u16, None),
    ];
    let outcomes = projects
        .iter()
        .zip(replies)
        .map(|(p, (status, body))| project_report(interpret_reply(status, body), 2, "demo", p, false))
        .collect();
    gather(&projects, outcomes)
}

#[test]
fn two_runs_on_same_replies_agree() {
    let first = run_once();
    let second = run_once();
    assert_eq!(first.render(), second.render());
    assert_eq!(first.len(), second.len());
}

#[test]
fn fifty_distinct_projects_keep_their_own_reports() {
    let projects: Vec<String> = (0..50).map(|i| format!("project-{}", i)).collect();
    let outcomes = projects
        .iter()
        .enumerate()
        .map(|(i, p)| {
            let tags = vec![tag(&format!("t{}", i), i as i64)];
            project_report(interpret_reply(200, Some(tags)), 1, "demo", p, false)
        })
        .collect();
    let agg = gather(&projects, outcomes);
    assert_eq!(agg.len(), 50);
    for (i, p) in projects.iter().enumerate() {
        let report = agg.report(p).unwrap();
        assert_eq!(texts(report), vec![format!("newest: demo/{} t{}", p, i)]);
    }
}

#[test]
fn duplicate_project_keeps_last_report() {
    let projects = vec!["p".to_string(), "q".to_string(), "p".to_string()];
    let outcomes = vec![
        Ok(rank(&vec![tag("old", 1)], 1, "r", "p", false)),
        Ok(rank(&vec![tag("q1", 1)], 1, "r", "q", false)),
        Ok(rank(&vec![tag("new", 1)], 1, "r", "p", false)),
    ];
    let agg = gather(&projects, outcomes);
    assert_eq!(agg.len(), 2);
    assert_eq!(agg.entry(0).project, "p");
    assert_eq!(texts(agg.report(&"p".to_string()).unwrap()), vec!["newest: r/p new".to_string()]);
}

#[test]
fn render_lists_reports_then_failures() {
    let agg = run_once();
    assert_eq!(
        agg.render(),
        "\nsvc:\n  newest: demo/svc v2\n  No.2 : demo/svc v3\n\nweb:\n  newest: demo/web b\n  No.2 : demo/web a\n\ndown: failed, unexpected status 503\n"
    );
}

#[test]
fn error_texts() {
    assert_eq!(error_text(FetchError::Transport), "registry not reached");
    assert_eq!(error_text(FetchError::Decode), "tag list not readable");
    assert_eq!(error_text(FetchError::UnexpectedStatus(418)), "unexpected status 418");
}

#[test]
fn record_and_insert_one_by_one() {
    let mut agg = AggregateResult::new();
    assert_eq!(agg.len(), 0);
    agg.record("x".to_string(), Err(FetchError::Decode));
    agg.insert("y".to_string(), Vec::new());
    agg.record_failure("z".to_string(), FetchError::Transport);
    assert_eq!(agg.len(), 1);
    assert_eq!(agg.failure_count(), 2);
    assert_eq!(agg.render(), "\ny:\n\nx: failed, tag list not readable\n\nz: failed, registry not reached\n");
}
