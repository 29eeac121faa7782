use harbor_tags::fetch::{interpret_reply, project_report, FetchError, STATUS_OK, STATUS_UNAUTHORIZED};
use harbor_tags::label::{decimal_text, label_text, rank, RankedLabel, PUSH_TIME_MARK};
use harbor_tags::tag::{newest_first, sort_by_push_time, TagDescriptor};
use harbor_tags::url::get_full_url;

fn tag(name: &str, secs: i64, nanos: u32) -> TagDescriptor {
    TagDescriptor { name: name.to_string(), push_secs: secs, push_nanos: nanos }
}

fn texts(labels: &[RankedLabel]) -> Vec<String> {
    labels.iter().map(|l| l.text.clone()).collect()
}

#[test]
fn full_url_names_repo_and_project() {
    assert_eq!(
        get_full_url("smartwater", "smart-water-web"),
        "http://10.12.135.233/api/repositories/smartwater/smart-water-web/tags?detail=true"
    );
}

#[test]
fn end_to_end_two_newest_of_three() {
    let t1 = 1_700_000_000;
    let t2 = 1_700_000_100;
    let t3 = 1_700_000_200;
    let tags = vec![tag("v1", t1, 0), tag("v2", t3, 0), tag("v3", t2, 0)];
    let labels = rank(&tags, 2, "demo", "svc", false);
    assert_eq!(texts(&labels), vec!["newest: demo/svc v2".to_string(), "No.2 : demo/svc v3".to_string()]);
    assert_eq!(labels[0].rank, 1);
    assert_eq!(labels[1].rank, 2);
}

#[test]
fn report_length_is_min_of_count_and_tags() {
    let tags = vec![tag("a", 1, 0), tag("b", 2, 0), tag("c", 3, 0)];
    for (count, expected) in [(0usize, 0usize), (1, 1), (2, 2), (3, 3), (5, 3)] {
        assert_eq!(rank(&tags, count, "r", "p", false).len(), expected);
    }
    assert_eq!(rank(&Vec::new(), 4, "r", "p", false).len(), 0);
}

#[test]
fn count_zero_gives_empty_report() {
    let tags = vec![tag("a", 1, 0)];
    assert!(rank(&tags, 0, "r", "p", false).is_empty());
}

#[test]
fn newest_first_never_increases() {
    let tags = vec![
        tag("a", 5, 0),
        tag("b", 1, 0),
        tag("c", 9, 3),
        tag("d", 9, 1),
        tag("e", -4, 0),
        tag("f", 5, 0),
    ];
    let order = newest_first(&tags);
    assert_eq!(order.len(), tags.len());
    for w in order.windows(2) {
        let (x, y) = (&tags[w[0]], &tags[w[1]]);
        assert!((x.push_secs, x.push_nanos) >= (y.push_secs, y.push_nanos));
    }
    assert_eq!(order, vec![2, 3, 5, 0, 1, 4]);
}

#[test]
fn equal_push_times_come_out_in_reverse_input_order() {
    let tags = vec![tag("first", 100, 0), tag("second", 100, 0)];
    let labels = rank(&tags, 2, "demo", "svc", false);
    assert_eq!(
        texts(&labels),
        vec!["newest: demo/svc second".to_string(), "No.2 : demo/svc first".to_string()]
    );
}

#[test]
fn stable_ascending_sort_keeps_input_order_of_ties() {
    let tags = vec![tag("x", 3, 0), tag("y", 1, 0), tag("z", 3, 0), tag("w", 1, 0)];
    assert_eq!(sort_by_push_time(&tags), vec![1, 3, 0, 2]);
}

#[test]
fn nanoseconds_break_equal_seconds() {
    let tags = vec![tag("early", 10, 5), tag("late", 10, 6)];
    let labels = rank(&tags, 1, "r", "p", false);
    assert_eq!(texts(&labels), vec!["newest: r/p late".to_string()]);
}

#[test]
fn ordinals_past_nine() {
    assert_eq!(label_text(9, "r", "p", "t", None), "No.10 : r/p t");
    assert_eq!(label_text(0, "r", "p", "t", Some("2024-01-02 03:04:05")), "newest: r/p t  pushed at 2024-01-02 03:04:05");
    assert_eq!(decimal_text(0), "0");
    assert_eq!(decimal_text(407), "407");
}

#[test]
fn push_time_is_appended_when_asked_for() {
    let tags = vec![tag("v1", 1_700_000_000, 0)];
    let labels = rank(&tags, 1, "demo", "svc", true);
    let prefix = format!("newest: demo/svc v1{}", PUSH_TIME_MARK);
    assert!(labels[0].text.starts_with(&prefix));
    assert_eq!(labels[0].text.len(), prefix.len() + "2023-11-14 22:13:20".len());
}

#[test]
fn reply_ok_gives_tags() {
    let r = interpret_reply(STATUS_OK, Some(vec![tag("a", 1, 0)])).ok().unwrap();
    assert_eq!(r.tags.len(), 1);
    assert_eq!(r.tags[0].name, "a");
    assert!(!r.unauthorized);
}

#[test]
fn reply_ok_with_bad_body_is_decode_error() {
    assert_eq!(interpret_reply(200, None).err(), Some(FetchError::Decode));
}

#[test]
fn reply_unauthorized_is_empty_with_warning() {
    let r = interpret_reply(STATUS_UNAUTHORIZED, None).ok().unwrap();
    assert!(r.tags.is_empty());
    assert!(r.unauthorized);
}

#[test]
fn reply_other_status_is_unexpected() {
    assert_eq!(interpret_reply(500, Some(vec![])).err(), Some(FetchError::UnexpectedStatus(500)));
    assert_eq!(interpret_reply(404, None).err(), Some(FetchError::UnexpectedStatus(404)));
}

#[test]
fn pipeline_passes_errors_through() {
    let r = project_report(Err(FetchError::Transport), 3, "r", "p", false);
    assert_eq!(r.err(), Some(FetchError::Transport));
}
