//! The order in which the paths of a connection are served.

use crate::addr::SocketAddr;
use crate::external::sort_by_first;
use vstd::prelude::*;

verus! {

/// What the order of the paths depends on.
#[derive(Clone, Copy, Debug, PartialEq, Eq, Structural)]
pub struct PathInfo {
    pub local: SocketAddr,
    pub peer: SocketAddr,
    /// Round-trip time in nanoseconds.
    pub rtt: u128,
    pub closed: bool,
}

/// The paths that are not closed, in order.
pub open spec fn open_paths(paths: Seq<PathInfo>) -> Seq<PathInfo> {
    paths.filter(|p: PathInfo| !p.closed)
}

/// The paths of one round-trip time, in order.
pub open spec fn paths_of_rtt(paths: Seq<PathInfo>, rtt: u128) -> Seq<PathInfo> {
    paths.filter(|p: PathInfo| p.rtt == rtt)
}

/// `order` holds the open paths of `paths`, the one of the lowest round-trip
/// time first. Paths of the same round-trip time stay in their order.
pub open spec fn is_schedule(paths: Seq<PathInfo>, order: Seq<PathInfo>) -> bool {
    &&& forall|i: int, j: int| 0 <= i < j < order.len() ==> order[i].rtt <= order[j].rtt
    &&& forall|rtt: u128| #[trigger]
        paths_of_rtt(order, rtt) == paths_of_rtt(open_paths(paths), rtt)
}

/// The two ends of each path.
pub open spec fn ends(order: Seq<PathInfo>) -> Seq<(SocketAddr, SocketAddr)> {
    order.map_values(|p: PathInfo| (p.local, p.peer))
}

proof fn lemma_filter_contains<A>(s: Seq<A>, pred: spec_fn(A) -> bool, x: A)
    ensures
        s.filter(pred).contains(x) <==> s.contains(x) && pred(x),
{
    if s.filter(pred).contains(x) {
        let i = choose|i: int| 0 <= i < s.filter(pred).len() && s.filter(pred)[i] == x;
        s.lemma_filter_pred(pred, i);
        s.lemma_filter_contains_rev(pred, x);
    }
    if s.contains(x) && pred(x) {
        let i = choose|i: int| 0 <= i < s.len() && s[i] == x;
        s.lemma_filter_contains(pred, i);
    }
}

/// Filtering what a function gives is giving what the function makes of the
/// filtered.
proof fn lemma_filter_map<A, B>(
    s: Seq<A>,
    f: spec_fn(A) -> B,
    on_b: spec_fn(B) -> bool,
    on_a: spec_fn(A) -> bool,
)
    requires
        forall|i: int| 0 <= i < s.len() ==> on_b(f(#[trigger] s[i])) == on_a(s[i]),
    ensures
        s.map_values(f).filter(on_b) == s.filter(on_a).map_values(f),
    decreases s.len(),
{
    reveal(Seq::filter);
    if s.len() == 0 {
        assert(s.map_values(f).filter(on_b) =~= s.filter(on_a).map_values(f));
    } else {
        let init = s.drop_last();
        assert forall|i: int| 0 <= i < init.len() implies on_b(f(#[trigger] init[i])) == on_a(
            init[i],
        ) by {
            assert(init[i] == s[i]);
        }
        lemma_filter_map(init, f, on_b, on_a);
        assert(s.map_values(f).drop_last() =~= init.map_values(f));
        assert(s.map_values(f).last() == f(s.last()));
        assert(s[s.len() - 1] == s.last());
        assert(s.map_values(f).filter(on_b) =~= s.filter(on_a).map_values(f));
    }
}

/// Orders the paths that are not closed by their round-trip times.
pub fn largest_cwnd_scheduler(paths: &Vec<PathInfo>) -> (r: Vec<(SocketAddr, SocketAddr)>)
    ensures
        exists|order: Seq<PathInfo>| is_schedule(paths@, order) && r@ == #[trigger] ends(order),
{
    let ghost not_closed = |p: PathInfo| !p.closed;
    let mut open: Vec<PathInfo> = Vec::new();
    assert(paths@.take(0).filter(not_closed) =~= Seq::<PathInfo>::empty()) by {
        reveal(Seq::filter);
    }
    let mut items: Vec<(u128, usize)> = Vec::new();
    for i in 0..paths.len()
        invariant
            not_closed == (|p: PathInfo| !p.closed),
            open@ == paths@.take(i as int).filter(not_closed),
            open@.len() <= i,
            items@.len() == open@.len(),
            forall|j: int| 0 <= j < items@.len() ==> #[trigger] items@[j] == (open@[j].rtt, j as usize),
    {
        assert(paths@.take(i + 1).drop_last() =~= paths@.take(i as int));
        assert(paths@.take(i + 1).last() == paths@[i as int]);
        reveal(Seq::filter);
        if !paths[i].closed {
            items.push((paths[i].rtt, open.len()));
            open.push(paths[i]);
        }
    }
    assert(paths@.take(paths@.len() as int) =~= paths@);
    let sorted = sort_by_first(items);
    let ghost path_of = |item: (u128, usize)| open@[item.1 as int];
    let ghost order = sorted@.map_values(path_of);
    proof {
        lemma_sorted_items(open@, items@, sorted@);
        assert(is_schedule(paths@, order));
    }
    let mut tuples: Vec<(SocketAddr, SocketAddr)> = Vec::new();
    for i in 0..sorted.len()
        invariant
            forall|j: int| 0 <= j < sorted@.len() ==> (#[trigger] sorted@[j]).1 < open@.len(),
            path_of == (|item: (u128, usize)| open@[item.1 as int]),
            order == sorted@.map_values(path_of),
            tuples@ =~= ends(order).take(i as int),
    {
        let path = open[sorted[i].1];
        tuples.push((path.local, path.peer));
    }
    assert(tuples@ =~= ends(order));
    tuples
}

/// Sorting the paths by sorting their positions gives a schedule.
proof fn lemma_sorted_items(
    open: Seq<PathInfo>,
    items: Seq<(u128, usize)>,
    sorted: Seq<(u128, usize)>,
)
    requires
        open.len() <= usize::MAX,
        items.len() == open.len(),
        forall|j: int| 0 <= j < items.len() ==> #[trigger] items[j] == (open[j].rtt, j as usize),
        crate::external::ascending(sorted),
        forall|key: u128| #[trigger]
            crate::external::of_key(sorted, key) == crate::external::of_key(items, key),
    ensures
        forall|j: int| 0 <= j < sorted.len() ==> (#[trigger] sorted[j]).1 < open.len(),
        ({
            let order = sorted.map_values(|item: (u128, usize)| open[item.1 as int]);
            &&& forall|i: int, j: int| 0 <= i < j < order.len() ==> order[i].rtt <= order[j].rtt
            &&& forall|rtt: u128| #[trigger] paths_of_rtt(order, rtt) == paths_of_rtt(open, rtt)
        }),
{
    let path_of = |item: (u128, usize)| open[item.1 as int];
    let order = sorted.map_values(path_of);
    assert forall|j: int| 0 <= j < sorted.len() implies (#[trigger] sorted[j]).1 < open.len()
        && open[sorted[j].1 as int].rtt == sorted[j].0 by {
        let item = sorted[j];
        let same_key = |other: (u128, usize)| other.0 == item.0;
        assert(sorted.contains(item));
        lemma_filter_contains(sorted, same_key, item);
        lemma_filter_contains(items, same_key, item);
        assert(crate::external::of_key(sorted, item.0) == sorted.filter(same_key));
        assert(crate::external::of_key(items, item.0) == items.filter(same_key));
        assert(items.contains(item));
        let k = choose|k: int| 0 <= k < items.len() && items[k] == item;
        assert(items[k] == (open[k].rtt, k as usize));
    }
    assert forall|rtt: u128| #[trigger] paths_of_rtt(order, rtt) == paths_of_rtt(open, rtt) by {
        let on_item = |item: (u128, usize)| item.0 == rtt;
        let on_path = |p: PathInfo| p.rtt == rtt;
        lemma_filter_map(sorted, path_of, on_path, on_item);
        assert forall|i: int| 0 <= i < items.len() implies on_path(path_of(#[trigger] items[i]))
            == on_item(items[i]) by {
            assert(items[i] == (open[i].rtt, i as usize));
        }
        lemma_filter_map(items, path_of, on_path, on_item);
        assert(items.map_values(path_of) =~= open) by {
            assert forall|i: int| 0 <= i < items.len() implies items.map_values(path_of)[i]
                == open[i] by {
                assert(items[i] == (open[i].rtt, i as usize));
            }
        }
        assert(crate::external::of_key(sorted, rtt) == crate::external::of_key(items, rtt));
        assert(paths_of_rtt(order, rtt) == sorted.filter(on_item).map_values(path_of));
        assert(paths_of_rtt(open, rtt) == items.filter(on_item).map_values(path_of));
    }
}

/// There is but one schedule of given paths.
pub proof fn schedule_is_unique(paths: Seq<PathInfo>, one: Seq<PathInfo>, other: Seq<PathInfo>)
    requires
        is_schedule(paths, one),
        is_schedule(paths, other),
    ensures
        one == other,
{
    assert forall|rtt: u128| #[trigger] paths_of_rtt(one, rtt) == paths_of_rtt(other, rtt) by {
        assert(paths_of_rtt(one, rtt) == paths_of_rtt(open_paths(paths), rtt));
        assert(paths_of_rtt(other, rtt) == paths_of_rtt(open_paths(paths), rtt));
    }
    lemma_sorted_unique(one, other);
}

proof fn lemma_last_of_rtt(order: Seq<PathInfo>)
    requires
        order.len() > 0,
    ensures
        paths_of_rtt(order, order.last().rtt).len() > 0,
        paths_of_rtt(order, order.last().rtt).last() == order.last(),
        forall|rtt: u128| #[trigger]
            paths_of_rtt(order.drop_last(), rtt) == if rtt == order.last().rtt {
                paths_of_rtt(order, rtt).drop_last()
            } else {
                paths_of_rtt(order, rtt)
            },
{
    reveal(Seq::filter);
    assert forall|rtt: u128| #[trigger]
        paths_of_rtt(order.drop_last(), rtt) == if rtt == order.last().rtt {
            paths_of_rtt(order, rtt).drop_last()
        } else {
            paths_of_rtt(order, rtt)
        } by {
        if rtt == order.last().rtt {
            assert(paths_of_rtt(order, rtt).drop_last() =~= paths_of_rtt(order.drop_last(), rtt));
        }
    }
}

/// Sequences in ascending order that agree on each round-trip time are equal.
proof fn lemma_sorted_unique(one: Seq<PathInfo>, other: Seq<PathInfo>)
    requires
        forall|i: int, j: int| 0 <= i < j < one.len() ==> one[i].rtt <= one[j].rtt,
        forall|i: int, j: int| 0 <= i < j < other.len() ==> other[i].rtt <= other[j].rtt,
        forall|rtt: u128| #[trigger] paths_of_rtt(one, rtt) == paths_of_rtt(other, rtt),
    ensures
        one == other,
    decreases one.len(),
{
    if one.len() == 0 {
        reveal(Seq::filter);
        if other.len() > 0 {
            lemma_last_of_rtt(other);
            assert(paths_of_rtt(one, other.last().rtt).len() == 0);
        }
        assert(one =~= other);
    } else {
        let top = one.last().rtt;
        lemma_last_of_rtt(one);
        assert(paths_of_rtt(other, top) == paths_of_rtt(one, top));
        if other.len() == 0 {
            reveal(Seq::filter);
            assert(paths_of_rtt(other, top).len() == 0);
        }
        lemma_last_of_rtt(other);
        lemma_has_rtt(other, top);
        assert(paths_of_rtt(one, other.last().rtt) == paths_of_rtt(other, other.last().rtt));
        lemma_has_rtt(one, other.last().rtt);
        assert(top == other.last().rtt);
        assert forall|rtt: u128| #[trigger]
            paths_of_rtt(one.drop_last(), rtt) == paths_of_rtt(other.drop_last(), rtt) by {
            assert(paths_of_rtt(one, rtt) == paths_of_rtt(other, rtt));
        }
        lemma_sorted_unique(one.drop_last(), other.drop_last());
        assert(one =~= one.drop_last().push(one.last()));
        assert(other =~= other.drop_last().push(other.last()));
    }
}

/// A sequence with a path of a round-trip time ends at least that high.
proof fn lemma_has_rtt(order: Seq<PathInfo>, rtt: u128)
    requires
        forall|i: int, j: int| 0 <= i < j < order.len() ==> order[i].rtt <= order[j].rtt,
        paths_of_rtt(order, rtt).len() > 0,
    ensures
        order.len() > 0,
        rtt <= order.last().rtt,
{
    let of_rtt = |p: PathInfo| p.rtt == rtt;
    let path = paths_of_rtt(order, rtt)[0];
    assert(paths_of_rtt(order, rtt).contains(path));
    lemma_filter_contains(order, of_rtt, path);
    assert(order.filter(of_rtt) == paths_of_rtt(order, rtt));
    let i = choose|i: int| 0 <= i < order.len() && order[i] == path;
    assert(order[i].rtt == rtt);
}

/// A schedule holds the paths that are not closed and no others, as often as they are there.
/// The one of the lowest round-trip time comes first. Each is given by its local and its peer
/// address.
pub proof fn schedules_hold_the_open_paths(paths: Seq<PathInfo>, order: Seq<PathInfo>)
    requires
        is_schedule(paths, order),
    ensures
        forall|p: PathInfo| #[trigger] order.contains(p) <==> paths.contains(p) && !p.closed,
        forall|i: int, j: int| 0 <= i < j < order.len() ==> order[i].rtt <= order[j].rtt,
        ends(order).len() == order.len(),
        forall|i: int|
            0 <= i < order.len() ==> #[trigger] ends(order)[i] == (order[i].local, order[i].peer),
{
    assert forall|p: PathInfo| #[trigger] order.contains(p) <==> paths.contains(p) && !p.closed by {
        let of_rtt = |q: PathInfo| q.rtt == p.rtt;
        lemma_filter_contains(order, of_rtt, p);
        lemma_filter_contains(open_paths(paths), of_rtt, p);
        lemma_filter_contains(paths, |q: PathInfo| !q.closed, p);
        assert(paths_of_rtt(order, p.rtt) == paths_of_rtt(open_paths(paths), p.rtt));
    }
}

/// Closed paths make no difference to a schedule. An open one that is added behind the others
/// takes its place behind those of a round-trip time that is as low.
pub proof fn schedules_leave_closed_paths_out(paths: Seq<PathInfo>, p: PathInfo)
    ensures
        open_paths(Seq::empty()) == Seq::<PathInfo>::empty(),
        open_paths(paths.push(p)) == if p.closed {
            open_paths(paths)
        } else {
            open_paths(paths).push(p)
        },
        paths_of_rtt(paths.push(p), p.rtt) == paths_of_rtt(paths, p.rtt).push(p),
{
    reveal(Seq::filter);
    assert(paths.push(p).drop_last() =~= paths);
    assert(open_paths(Seq::empty()) =~= Seq::<PathInfo>::empty());
}

} // verus!
