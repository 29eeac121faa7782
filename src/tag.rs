//! Tag descriptors and their order by push time.
use vstd::prelude::*;

verus! {

/// One published image tag: its name and the instant it was pushed, as whole
/// seconds since the Unix epoch and the nanoseconds past that second.
#[derive(Clone, Debug)]
pub struct TagDescriptor {
    pub name: String,
    pub push_secs: i64,
    pub push_nanos: u32,
}

impl TagDescriptor {
    /// This tag was pushed strictly before `other`.
    pub open spec fn pushed_before(&self, other: &TagDescriptor) -> bool {
        self.push_secs < other.push_secs || (self.push_secs == other.push_secs
            && self.push_nanos < other.push_nanos)
    }

    /// This tag and `other` were pushed at the same instant.
    pub open spec fn pushed_with(&self, other: &TagDescriptor) -> bool {
        self.push_secs == other.push_secs && self.push_nanos == other.push_nanos
    }

    /// Executable form of `pushed_before`.
    pub fn is_pushed_before(&self, other: &TagDescriptor) -> (r: bool)
        ensures
            r == self.pushed_before(other),
    {
        self.push_secs < other.push_secs || (self.push_secs == other.push_secs
            && self.push_nanos < other.push_nanos)
    }
}

/// Position `a` of `tags` comes before position `b` in a stable ascending sort
/// by push time: it was pushed earlier, or at the same instant and stands
/// earlier in the input.
pub open spec fn ascends(tags: Seq<TagDescriptor>, a: int, b: int) -> bool {
    tags[a].pushed_before(&tags[b]) || (tags[a].pushed_with(&tags[b]) && a < b)
}

/// `order` lists each position `0..n` exactly once.
pub open spec fn is_arrangement(order: Seq<usize>, n: int) -> bool {
    &&& order.len() == n
    &&& forall|k: int| 0 <= k < n ==> order[k] < n
    &&& forall|k: int, l: int| 0 <= k < l < n ==> order[k] != order[l]
    &&& forall|j: int| 0 <= j < n ==> #[trigger] lists_position(order, j)
}

/// Position `j` occurs in `order`.
pub open spec fn lists_position(order: Seq<usize>, j: int) -> bool {
    exists|k: int| 0 <= k < order.len() && order[k] == j
}

/// `order` lists the positions of `tags` most recently pushed first, in the
/// reverse of a stable ascending sort by push time.
pub open spec fn is_newest_first(tags: Seq<TagDescriptor>, order: Seq<usize>) -> bool {
    &&& is_arrangement(order, tags.len() as int)
    &&& forall|k: int, l: int|
        0 <= k < l < order.len() ==> ascends(tags, order[l] as int, order[k] as int)
}

/// The positions of `tags` in the order of a stable sort ascending by push
/// time.
pub fn sort_by_push_time(tags: &Vec<TagDescriptor>) -> (order: Vec<usize>)
    ensures
        is_arrangement(order@, tags@.len() as int),
        forall|k: int, l: int|
            0 <= k < l < order@.len() ==> ascends(tags@, order@[k] as int, order@[l] as int),
{
    let n = tags.len();
    let mut order: Vec<usize> = Vec::new();
    let mut i: usize = 0;
    while i < n
        invariant
            n == tags@.len(),
            i <= n,
            is_arrangement(order@, i as int),
            forall|k: int, l: int|
                0 <= k < l < order@.len() ==> ascends(tags@, order@[k] as int, order@[l] as int),
        decreases n - i,
    {
        let mut p: usize = order.len();
        while p > 0 && tags[i].is_pushed_before(&tags[order[p - 1]])
            invariant
                n == tags@.len(),
                i < n,
                p <= order@.len(),
                order@.len() == i,
                forall|k: int| 0 <= k < i ==> order@[k] < i,
                forall|k: int| p <= k < order@.len() ==> tags@[i as int].pushed_before(
                    &tags@[order@[k] as int],
                ),
            decreases p,
        {
            p = p - 1;
        }
        proof {
            assert forall|k: int| 0 <= k < p implies ascends(tags@, order@[k] as int, i as int) by {
                if k < p - 1 {
                    assert(ascends(tags@, order@[k] as int, order@[p - 1] as int));
                }
            }
        }
        let ghost before = order@;
        order.insert(p, i);
        proof {
            assert forall|k: int, l: int| 0 <= k < l < order@.len() implies ascends(
                tags@,
                order@[k] as int,
                order@[l] as int,
            ) by {
                if l < p {
                    assert(order@[k] == before[k] && order@[l] == before[l]);
                } else if l == p {
                    assert(order@[k] == before[k]);
                } else if k < p {
                    assert(order@[k] == before[k] && order@[l] == before[l - 1]);
                    assert(ascends(tags@, before[k] as int, before[l - 1] as int));
                } else if k == p {
                    assert(order@[l] == before[l - 1]);
                } else {
                    assert(order@[k] == before[k - 1] && order@[l] == before[l - 1]);
                    assert(ascends(tags@, before[k - 1] as int, before[l - 1] as int));
                }
            }
            assert forall|k: int, l: int| 0 <= k < l < i + 1 implies order@[k] != order@[l] by {
                if l < p {
                } else if l == p {
                    assert(order@[k] == before[k]);
                } else if k < p {
                    assert(order@[k] == before[k] && order@[l] == before[l - 1]);
                } else if k == p {
                    assert(order@[l] == before[l - 1]);
                } else {
                    assert(order@[k] == before[k - 1] && order@[l] == before[l - 1]);
                }
            }
            assert forall|k: int| 0 <= k < i + 1 implies order@[k] < i + 1 by {
                if k < p {
                } else if k > p {
                    assert(order@[k] == before[k - 1]);
                }
            }
            assert forall|j: int| 0 <= j < i + 1 implies #[trigger] lists_position(order@, j) by {
                if j == i {
                    assert(order@[p as int] == j);
                } else {
                    assert(lists_position(before, j));
                    let k = choose|k: int| 0 <= k < before.len() && before[k] == j;
                    if k < p {
                        assert(order@[k] == j);
                    } else {
                        assert(order@[k + 1] == j);
                    }
                }
            }
        }
        i = i + 1;
    }
    order
}


/// The positions of `tags`, most recently pushed first: the stable ascending
/// sort by push time, reversed. Tags pushed at the same instant therefore come
/// out in the reverse of their input order.
pub fn newest_first(tags: &Vec<TagDescriptor>) -> (order: Vec<usize>)
    ensures
        is_newest_first(tags@, order@),
{
    let ascending = sort_by_push_time(tags);
    let n = ascending.len();
    let mut order: Vec<usize> = Vec::new();
    let mut j: usize = n;
    while j > 0
        invariant
            n == ascending@.len(),
            j <= n,
            order@.len() == n - j,
            forall|k: int| 0 <= k < n - j ==> order@[k] == ascending@[n - 1 - k],
        decreases j,
    {
        j = j - 1;
        order.push(ascending[j]);
    }
    proof {
        assert forall|j: int| 0 <= j < n implies #[trigger] lists_position(order@, j) by {
            assert(lists_position(ascending@, j));
            let m = choose|m: int| 0 <= m < ascending@.len() && ascending@[m] == j;
            assert(order@[n - 1 - m] == j);
        }
        assert forall|k: int, l: int| 0 <= k < l < n implies order@[k] != order@[l] by {
            assert(order@[k] == ascending@[n - 1 - k] && order@[l] == ascending@[n - 1 - l]);
        }
        assert forall|k: int, l: int| 0 <= k < l < n implies ascends(
            tags@,
            order@[l] as int,
            order@[k] as int,
        ) by {
            assert(order@[k] == ascending@[n - 1 - k] && order@[l] == ascending@[n - 1 - l]);
        }
    }
    order
}

/// In an order that lists the newest tags first, push times never increase
/// from one entry to the next.
pub proof fn newest_first_is_non_increasing(tags: Seq<TagDescriptor>, order: Seq<usize>)
    requires
        is_newest_first(tags, order),
    ensures
        forall|k: int|
            0 <= k < order.len() - 1 ==> !#[trigger] tags[order[k] as int].pushed_before(
                &tags[order[k + 1] as int],
            ),
{
    assert forall|k: int| 0 <= k < order.len() - 1 implies !#[trigger] tags[order[k] as int].pushed_before(
        &tags[order[k + 1] as int],
    ) by {
        assert(ascends(tags, order[k + 1] as int, order[k] as int));
    }
}

/// Two tags pushed at the same instant come out, newest first, in the
/// reverse of the order in which they stood in the input.
pub proof fn equal_push_times_come_out_reversed(
    tags: Seq<TagDescriptor>,
    order: Seq<usize>,
    k: int,
    l: int,
)
    requires
        is_newest_first(tags, order),
        0 <= k < l < order.len(),
        tags[order[k] as int].pushed_with(&tags[order[l] as int]),
    ensures
        order[k] > order[l],
{
    assert(ascends(tags, order[l] as int, order[k] as int));
}


proof fn newest_first_prefix_agrees(
    tags: Seq<TagDescriptor>,
    a: Seq<usize>,
    b: Seq<usize>,
    k: int,
)
    requires
        is_newest_first(tags, a),
        is_newest_first(tags, b),
        0 <= k <= tags.len(),
    ensures
        forall|j: int| 0 <= j < k ==> a[j] == b[j],
    decreases k,
{
    if k > 0 {
        let n = tags.len() as int;
        let i = k - 1;
        newest_first_prefix_agrees(tags, a, b, i);
        let x = a[i];
        let y = b[i];
        if x != y {
            assert(lists_position(a, y as int));
            assert(lists_position(b, x as int));
            let m = choose|m: int| 0 <= m < a.len() && a[m] == y;
            let j = choose|j: int| 0 <= j < b.len() && b[j] == x;
            if m < i {
                assert(b[m] == y);
            }
            if j < i {
                assert(a[j] == x);
            }
            assert(m != i && j != i);
            if m > i {
                assert(ascends(tags, a[m] as int, a[i] as int));
            } else {
                assert(a[m] == b[m]);
                assert(b[m] != b[i]);
            }
            if j > i {
                assert(ascends(tags, b[j] as int, b[i] as int));
            } else {
                assert(a[j] == b[j]);
                assert(a[j] != a[i]);
            }
        }
    }
}

/// There is exactly one newest-first order of a tag sequence: ranking the
/// same tags twice gives the same result.
pub proof fn newest_first_is_unique(tags: Seq<TagDescriptor>, a: Seq<usize>, b: Seq<usize>)
    requires
        is_newest_first(tags, a),
        is_newest_first(tags, b),
    ensures
        a == b,
{
    newest_first_prefix_agrees(tags, a, b, tags.len() as int);
    assert(a =~= b);
}

} // verus!
