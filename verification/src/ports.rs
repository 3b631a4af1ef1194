//! Port usage: how many distinct ports connections used, how many
//! connections there were in all, and the busiest ports.

use std::collections::HashMap;
use vstd::prelude::*;

verus! {

broadcast use vstd::std_specs::hash::group_hash_axioms;

/// How many ports the report lists at most.
pub const TOP_PORTS: usize = 10;

/// The connections counted on port `p`, 0 for a port never seen.
pub open spec fn count_on(m: Map<u16, u64>, p: int) -> int {
    if 0 <= p < 0x1_0000 && m.contains_key(p as u16) {
        m[p as u16] as int
    } else {
        0
    }
}

/// The connections counted on the ports below `k`.
pub open spec fn total_below(m: Map<u16, u64>, k: int) -> int
    decreases k,
{
    if k <= 0 {
        0
    } else {
        total_below(m, k - 1) + count_on(m, k - 1)
    }
}

/// The connections counted over all ports.
pub open spec fn port_total(m: Map<u16, u64>) -> int {
    total_below(m, 0x1_0000)
}

/// How many of the ports below `k` have been seen.
pub open spec fn seen_below(m: Map<u16, u64>, k: int) -> nat
    decreases k,
{
    if k <= 0 {
        0
    } else {
        seen_below(m, k - 1) + if m.contains_key((k - 1) as u16) {
            1nat
        } else {
            0nat
        }
    }
}

/// Port `a` was busier than port `b`, or as busy and has the lower number:
/// the order in which the report lists ports.
pub open spec fn ranks_before(a: (u16, u64), b: (u16, u64)) -> bool {
    a.1 > b.1 || (a.1 == b.1 && a.0 < b.0)
}

/// `top` lists the busiest ports of `m` with their counts, busiest first:
/// `limit` of them, or all if there are fewer, and no port left out ranks
/// before one listed.
pub open spec fn is_top_ports(m: Map<u16, u64>, top: Seq<(u16, u64)>, limit: nat) -> bool {
    &&& top.len() == if limit < m.len() { limit } else { m.len() }
    &&& forall|i: int| 0 <= i < top.len() ==> m.contains_key(#[trigger] top[i].0) && m[top[i].0] == top[i].1
    &&& forall|i: int, j: int| 0 <= i < j < top.len() ==> ranks_before(#[trigger] top[i], #[trigger] top[j])
    &&& forall|p: u16|
        #[trigger] m.contains_key(p) && !top.contains((p, m[p])) ==> forall|i: int|
            0 <= i < top.len() ==> ranks_before(#[trigger] top[i], (p, m[p]))
}

/// What the report shows of one port table.
pub struct PortUsage {
    /// distinct ports seen
    pub unique_ports: usize,
    /// connections over all ports
    pub total_connections: u64,
    /// the busiest ports with their counts, busiest first
    pub top: Vec<(u16, u64)>,
}

/// The ports below `k` that were seen are as many as `seen_below` says, and
/// they are all of the map's ports once `k` passes the last port.
proof fn lemma_seen_is_size(m: Map<u16, u64>, k: int)
    requires
        0 <= k <= 0x1_0000,
    ensures
        Set::new(|p: u16| m.contains_key(p) && (p as int) < k).finite(),
        Set::new(|p: u16| m.contains_key(p) && (p as int) < k).len() == seen_below(m, k),
    decreases k,
{
    let s = Set::new(|p: u16| m.contains_key(p) && (p as int) < k);
    if k == 0 {
        assert(s =~= Set::empty());
    } else {
        lemma_seen_is_size(m, k - 1);
        let prev = Set::new(|p: u16| m.contains_key(p) && (p as int) < k - 1);
        let q = (k - 1) as u16;
        if m.contains_key(q) {
            assert(s =~= prev.insert(q));
        } else {
            assert(s =~= prev);
        }
    }
}

/// The map's distinct ports number `seen_below(m, 0x1_0000)`.
proof fn lemma_map_size(m: Map<u16, u64>)
    ensures
        m.dom().finite(),
        m.len() == seen_below(m, 0x1_0000),
{
    lemma_seen_is_size(m, 0x1_0000);
    assert(Set::new(|p: u16| m.contains_key(p) && (p as int) < 0x1_0000) =~= m.dom());
}

/// Partial totals only grow.
proof fn lemma_total_grows(m: Map<u16, u64>, j: int, k: int)
    requires
        j <= k,
    ensures
        total_below(m, j) <= total_below(m, k),
    decreases k - j,
{
    if j < k {
        lemma_total_grows(m, j, k - 1);
    }
}

/// The ranking order is a strict total order on entries of distinct ports.
proof fn lemma_ranking(a: (u16, u64), b: (u16, u64), c: (u16, u64))
    ensures
        !ranks_before(a, a),
        a.0 != b.0 ==> ranks_before(a, b) || ranks_before(b, a),
        ranks_before(a, b) && ranks_before(b, c) ==> ranks_before(a, c),
        ranks_before(a, b) ==> !ranks_before(b, a),
{
}

/// The position at which `e` goes into the ranked list `top`: after every
/// entry that ranks before it.
fn ranked_position(top: &Vec<(u16, u64)>, e: (u16, u64)) -> (pos: usize)
    requires
        forall|i: int, j: int| 0 <= i < j < top@.len() ==> ranks_before(#[trigger] top@[i], #[trigger] top@[j]),
        forall|i: int| 0 <= i < top@.len() ==> top@[i].0 != e.0,
    ensures
        pos <= top@.len(),
        forall|i: int| 0 <= i < pos ==> ranks_before(#[trigger] top@[i], e),
        forall|i: int| pos <= i < top@.len() ==> ranks_before(e, #[trigger] top@[i]),
{
    let mut pos: usize = 0;
    while pos < top.len() && ranks_first(top[pos], e)
        invariant
            pos <= top@.len(),
            forall|i: int| 0 <= i < pos ==> ranks_before(#[trigger] top@[i], e),
        decreases top@.len() - pos,
    {
        pos = pos + 1;
    }
    proof {
        if pos < top@.len() {
            assert forall|i: int| pos <= i < top@.len() implies ranks_before(e, #[trigger] top@[i]) by {
                lemma_ranking(e, top@[pos as int], top@[i]);
                if i > pos {
                    assert(ranks_before(top@[pos as int], top@[i]));
                }
            }
        }
    }
    pos
}

/// Executable form of `ranks_before`.
fn ranks_first(a: (u16, u64), b: (u16, u64)) -> (r: bool)
    ensures
        r == ranks_before(a, b),
{
    a.1 > b.1 || (a.1 == b.1 && a.0 < b.0)
}

/// The top-ports invariant over the ports below `k`.
spec fn top_so_far(m: Map<u16, u64>, top: Seq<(u16, u64)>, limit: nat, k: int) -> bool {
    &&& top.len() == if limit < seen_below(m, k) { limit } else { seen_below(m, k) }
    &&& forall|i: int|
        0 <= i < top.len() ==> (#[trigger] top[i].0 as int) < k && m.contains_key(top[i].0) && m[top[i].0] == top[i].1
    &&& forall|i: int, j: int| 0 <= i < j < top.len() ==> ranks_before(#[trigger] top[i], #[trigger] top[j])
    &&& forall|p: u16|
        #[trigger] m.contains_key(p) && (p as int) < k && !top.contains((p, m[p])) ==> top.len() == limit
            && forall|i: int| 0 <= i < top.len() ==> ranks_before(#[trigger] top[i], (p, m[p]))
}

/// Takes port `e.0`, the next port in increasing order, into the ranked list.
fn take_port(top: &mut Vec<(u16, u64)>, e: (u16, u64), limit: usize, Ghost(m): Ghost<Map<u16, u64>>)
    requires
        limit > 0,
        0 <= e.0,
        m.contains_key(e.0),
        m[e.0] == e.1,
        top_so_far(m, old(top)@, limit as nat, e.0 as int),
    ensures
        top_so_far(m, final(top)@, limit as nat, e.0 + 1),
{
    let ghost k = e.0 as int;
    let ghost t0 = top@;
    assert(seen_below(m, k + 1) == seen_below(m, k) + 1);
    let pos = ranked_position(top, e);
    if pos < limit {
        top.insert(pos, e);
        let ghost t1 = top@;
        if top.len() > limit {
            top.pop();
        }
        let ghost t2 = top@;
        assert forall|i: int, j: int| 0 <= i < j < t1.len() implies ranks_before(#[trigger] t1[i], #[trigger] t1[j]) by {
            if i < pos && j > pos {
                lemma_ranking(t1[i], e, t1[j]);
            }
        }
        assert forall|i: int, j: int| 0 <= i < j < t2.len() implies ranks_before(#[trigger] t2[i], #[trigger] t2[j]) by {
            assert(t2[i] == t1[i] && t2[j] == t1[j]);
        }
        assert forall|p: u16|
            #[trigger] m.contains_key(p) && (p as int) < k + 1 && !t2.contains((p, m[p])) implies t2.len() == limit
                && forall|i: int| 0 <= i < t2.len() ==> ranks_before(#[trigger] t2[i], (p, m[p])) by {
            if p as int == k {
                assert(t2[pos as int] == e);
                assert(false);
            } else if t0.contains((p, m[p])) {
                let w = choose|w: int| 0 <= w < t0.len() && t0[w] == (p, m[p]);
                let idx = if w < pos { w } else { w + 1 };
                assert(t1[idx] == t0[w]);
                if idx < t2.len() {
                    assert(t2[idx] == t1[idx]);
                    assert(false);
                }
                assert forall|i: int| 0 <= i < t2.len() implies ranks_before(#[trigger] t2[i], (p, m[p])) by {
                    assert(t2[i] == t1[i]);
                }
            } else {
                assert(t0.len() == limit);
                assert forall|i: int| 0 <= i < t2.len() implies ranks_before(#[trigger] t2[i], (p, m[p])) by {
                    if i == pos {
                        lemma_ranking(e, t0[t0.len() - 1], (p, m[p]));
                    } else if i < pos {
                        assert(t2[i] == t0[i]);
                    } else {
                        assert(t2[i] == t0[i - 1]);
                    }
                }
            }
        }
    } else {
        assert(t0.len() == limit);
        assert forall|p: u16|
            #[trigger] m.contains_key(p) && (p as int) < k + 1 && !t0.contains((p, m[p])) implies t0.len() == limit
                && forall|i: int| 0 <= i < t0.len() ==> ranks_before(#[trigger] t0[i], (p, m[p])) by {
            if p as int == k {
                assert(m[p] == e.1);
            }
        }
    }
}

/// Counts the distinct ports and the connections of a port table and ranks
/// its busiest `limit` ports. `None` when the connections add up to more
/// than a `u64` holds.
pub fn port_usage(ports: &HashMap<u16, u64>, limit: usize) -> (r: Option<PortUsage>)
    requires
        limit > 0,
    ensures
        r is None <==> port_total(ports@) > u64::MAX,
        r matches Some(u) ==> {
            &&& u.unique_ports == ports@.len()
            &&& u.total_connections == port_total(ports@)
            &&& is_top_ports(ports@, u.top@, limit as nat)
        },
{
    let ghost m = ports@;
    let mut k: u32 = 0;
    let mut total: u64 = 0;
    let mut top: Vec<(u16, u64)> = Vec::new();
    while k < 0x1_0000
        invariant
            m == ports@,
            limit > 0,
            k <= 0x1_0000,
            total == total_below(m, k as int),
            top_so_far(m, top@, limit as nat, k as int),
        decreases 0x1_0000 - k,
    {
        let p = k as u16;
        match ports.get(&p) {
            Some(c) => {
                let c: u64 = *c;
                match total.checked_add(c) {
                    Some(t) => {
                        total = t;
                    },
                    None => {
                        proof {
                            lemma_total_grows(m, k + 1, 0x1_0000);
                        }
                        return None;
                    },
                }
                take_port(&mut top, (p, c), limit, Ghost(m));
            },
            None => {
                assert(seen_below(m, k + 1) == seen_below(m, k as int));
            },
        }
        k = k + 1;
    }
    proof {
        lemma_map_size(m);
    }
    let unique = ports.len();
    Some(PortUsage { unique_ports: unique, total_connections: total, top })
}

} // verus!
