//! Ranked labels: the text line that reports one tag of a project.
use vstd::prelude::*;

use crate::tag::{TagDescriptor, is_newest_first, newest_first};

verus! {

/// Text placed between a label and the push time it reports.
pub const PUSH_TIME_MARK: &'static str = "  pushed at ";

/// One line of a project report: `rank` 1 is the most recently pushed tag.
#[derive(Clone, Debug)]
pub struct RankedLabel {
    pub rank: usize,
    pub text: String,
}

impl View for RankedLabel {
    type V = (nat, Seq<char>);

    open spec fn view(&self) -> (nat, Seq<char>) {
        (self.rank as nat, self.text@)
    }
}

/// The views of a sequence of labels.
pub open spec fn labels_view(labels: Seq<RankedLabel>) -> Seq<(nat, Seq<char>)> {
    labels.map_values(|l: RankedLabel| l@)
}

/// The character of a decimal digit.
pub open spec fn digit_char(d: nat) -> char {
    if d == 0 {
        '0'
    } else if d == 1 {
        '1'
    } else if d == 2 {
        '2'
    } else if d == 3 {
        '3'
    } else if d == 4 {
        '4'
    } else if d == 5 {
        '5'
    } else if d == 6 {
        '6'
    } else if d == 7 {
        '7'
    } else if d == 8 {
        '8'
    } else {
        '9'
    }
}

/// The decimal numeral of `n`, without leading zeros.
pub open spec fn decimal(n: nat) -> Seq<char>
    decreases n,
{
    if n < 10 {
        seq![digit_char(n)]
    } else {
        decimal(n / 10) + seq![digit_char(n % 10)]
    }
}

/// The marker of the entry at `index` in a report: `newest` for the first,
/// `No.<index + 1> ` for the others.
pub open spec fn ordinal(index: nat) -> Seq<char> {
    if index == 0 {
        "newest"@
    } else {
        "No."@ + decimal(index + 1) + " "@
    }
}

/// The label text of the entry at `index` for tag `tag` of `project` in
/// `repo`, followed by the rendered push time where one is given.
pub open spec fn label_spec(
    index: nat,
    repo: Seq<char>,
    project: Seq<char>,
    tag: Seq<char>,
    time: Option<Seq<char>>,
) -> Seq<char> {
    let head = ordinal(index) + ": "@ + repo + "/"@ + project + " "@ + tag;
    match time {
        Some(t) => head + PUSH_TIME_MARK@ + t,
        None => head,
    }
}

fn digit_text(d: usize) -> (r: &'static str)
    requires
        d < 10,
    ensures
        r@ == seq![digit_char(d as nat)],
{
    proof {
        reveal_strlit("0");
        reveal_strlit("1");
        reveal_strlit("2");
        reveal_strlit("3");
        reveal_strlit("4");
        reveal_strlit("5");
        reveal_strlit("6");
        reveal_strlit("7");
        reveal_strlit("8");
        reveal_strlit("9");
    }
    if d == 0 {
        "0"
    } else if d == 1 {
        "1"
    } else if d == 2 {
        "2"
    } else if d == 3 {
        "3"
    } else if d == 4 {
        "4"
    } else if d == 5 {
        "5"
    } else if d == 6 {
        "6"
    } else if d == 7 {
        "7"
    } else if d == 8 {
        "8"
    } else {
        "9"
    }
}

/// The decimal numeral of `n`.
pub fn decimal_text(n: usize) -> (r: String)
    ensures
        r@ == decimal(n as nat),
    decreases n,
{
    if n < 10 {
        String::from_str(digit_text(n))
    } else {
        let mut s = decimal_text(n / 10);
        s.append(digit_text(n % 10));
        s
    }
}

/// The label text of the entry at `index` (see `label_spec`).
pub fn label_text(index: usize, repo: &str, project: &str, tag: &str, time: Option<&str>) -> (r:
    String)
    requires
        index < usize::MAX,
    ensures
        r@ == label_spec(
            index as nat,
            repo@,
            project@,
            tag@,
            match time {
                Some(t) => Some(t@),
                None => None,
            },
        ),
{
    let mut s = if index == 0 {
        String::from_str("newest")
    } else {
        let mut o = String::from_str("No.");
        let number = decimal_text(index + 1);
        o.append(number.as_str());
        o.append(" ");
        o
    };
    s.append(": ");
    s.append(repo);
    s.append("/");
    s.append(project);
    s.append(" ");
    s.append(tag);
    match time {
        Some(t) => {
            s.append(PUSH_TIME_MARK);
            s.append(t);
        },
        None => {},
    }
    s
}

/// Relies on chrono's `DateTime::from_timestamp`, `DateTime::with_timezone`
/// with `Local` and `DateTime::format`: the instant `secs` seconds and `nanos`
/// nanoseconds after the Unix epoch, written as `%Y-%m-%d %H:%M:%S` in the
/// machine's local time zone, or `None` where chrono has no date for it. The
/// text depends on the machine's time zone, so nothing is stated of it.
#[verifier::external_body]
fn local_push_time(secs: i64, nanos: u32) -> (r: Option<String>) {
    match chrono::DateTime::from_timestamp(secs, nanos) {
        Some(t) => Some(t.with_timezone(&chrono::Local).format("%Y-%m-%d %H:%M:%S").to_string()),
        None => None,
    }
}

/// The smaller of `a` and `b`.
pub open spec fn min(a: int, b: int) -> int {
    if a < b {
        a
    } else {
        b
    }
}

/// `label` is the entry at `index` of a report of `project` in `repo`, for
/// the tag named `tag`; where push times are asked for, a rendered time may
/// follow.
pub open spec fn is_label_of(
    label: RankedLabel,
    index: nat,
    repo: Seq<char>,
    project: Seq<char>,
    tag: Seq<char>,
    include_timestamp: bool,
) -> bool {
    &&& label.rank == index + 1
    &&& if include_timestamp {
        exists|t: Option<Seq<char>>| label.text@ == label_spec(index, repo, project, tag, t)
    } else {
        label.text@ == label_spec(index, repo, project, tag, None)
    }
}

/// `labels` is the report of `project` in `repo`: one label for each of the
/// first `labels.len()` positions of the newest-first `order` of `tags`.
pub open spec fn reports_in_order(
    labels: Seq<RankedLabel>,
    tags: Seq<TagDescriptor>,
    order: Seq<usize>,
    repo: Seq<char>,
    project: Seq<char>,
    include_timestamp: bool,
) -> bool {
    &&& labels.len() <= order.len()
    &&& forall|i: int|
        0 <= i < labels.len() ==> #[trigger] is_label_of(
            labels[i],
            i as nat,
            repo,
            project,
            tags[order[i] as int].name@,
            include_timestamp,
        )
}

/// `labels` is the report of `project` in `repo` on `tags`: as many labels as
/// `count` asks for and `tags` has, for the newest tags first.
pub open spec fn is_report(
    labels: Seq<RankedLabel>,
    tags: Seq<TagDescriptor>,
    count: usize,
    repo: Seq<char>,
    project: Seq<char>,
    include_timestamp: bool,
) -> bool {
    &&& labels.len() == min(count as int, tags.len() as int)
    &&& exists|order: Seq<usize>|
        is_newest_first(tags, order) && reports_in_order(
            labels,
            tags,
            order,
            repo,
            project,
            include_timestamp,
        )
}

/// The report of `project` in `repo`: the `count` most recently pushed of
/// `tags` (all of them where there are fewer), newest first, each labelled
/// with its rank and, where `include_timestamp` is set, its push time in the
/// local time zone.
pub fn rank(
    tags: &Vec<TagDescriptor>,
    count: usize,
    repo: &str,
    project: &str,
    include_timestamp: bool,
) -> (labels: Vec<RankedLabel>)
    ensures
        is_report(labels@, tags@, count, repo@, project@, include_timestamp),
{
    let order = newest_first(tags);
    let end: usize = if count < tags.len() {
        count
    } else {
        tags.len()
    };
    let mut labels: Vec<RankedLabel> = Vec::new();
    let mut i: usize = 0;
    while i < end
        invariant
            end <= tags@.len(),
            is_newest_first(tags@, order@),
            i <= end,
            labels@.len() == i,
            reports_in_order(labels@, tags@, order@, repo@, project@, include_timestamp),
        decreases end - i,
    {
        let tag = &tags[order[i]];
        let time = if include_timestamp {
            local_push_time(tag.push_secs, tag.push_nanos)
        } else {
            None
        };
        let text = match &time {
            Some(t) => label_text(i, repo, project, tag.name.as_str(), Some(t.as_str())),
            None => label_text(i, repo, project, tag.name.as_str(), None),
        };
        let label = RankedLabel { rank: i + 1, text };
        proof {
            if include_timestamp {
                let t = match time {
                    Some(t) => Some(t@),
                    None => None,
                };
                assert(label.text@ == label_spec(i as nat, repo@, project@, tag.name@, t));
            }
            assert(is_label_of(label, i as nat, repo@, project@, tag.name@, include_timestamp));
        }
        let ghost before = labels@;
        labels.push(label);
        proof {
            assert forall|k: int| 0 <= k < labels@.len() implies #[trigger] is_label_of(
                labels@[k],
                k as nat,
                repo@,
                project@,
                tags@[order@[k] as int].name@,
                include_timestamp,
            ) by {
                if k < i {
                    assert(labels@[k] == before[k]);
                }
            }
        }
        i = i + 1;
    }
    assert(is_newest_first(tags@, order@) && reports_in_order(
        labels@,
        tags@,
        order@,
        repo@,
        project@,
        include_timestamp,
    ));
    labels
}

} // verus!
