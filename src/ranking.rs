use vstd::prelude::*;
use crate::snapshot::ProcessInfo;

verus! {

/// Most processes that a snapshot lists.
pub const TOP_PROCESS_LIMIT: usize = 25;

/// In the ranking of `s`, the process at position `a` comes before the one at
/// position `b`: it uses more CPU, or as much and was listed earlier.
pub open spec fn ranks_before(s: Seq<ProcessInfo>, a: int, b: int) -> bool {
    ||| s[a].cpu_milli_pct > s[b].cpu_milli_pct
    ||| (s[a].cpu_milli_pct == s[b].cpu_milli_pct && a < b)
}

/// `order` lists the positions of `s`, each once, in ranking order.
pub open spec fn is_ranking(s: Seq<ProcessInfo>, order: Seq<int>) -> bool {
    &&& order.len() == s.len()
    &&& forall|k: int| 0 <= k < order.len() ==> 0 <= #[trigger] order[k] < s.len()
    &&& forall|k: int, l: int|
        0 <= k < l < order.len() ==> ranks_before(s, #[trigger] order[k], #[trigger] order[l])
}

/// `r` holds the first `limit` processes of `s` in ranking order (all of them
/// when there are fewer): descending CPU usage, ties in their order in `s`.
pub open spec fn is_top_ranked(s: Seq<ProcessInfo>, r: Seq<ProcessInfo>, limit: int) -> bool {
    exists|order: Seq<int>|
        is_ranking(s, order) && r == order.take(
            if s.len() < limit { s.len() as int } else { limit },
        ).map_values(|k: int| s[k])
}

/// CPU usage never increases from one element of `r` to the next.
pub open spec fn cpu_non_increasing(r: Seq<ProcessInfo>) -> bool {
    forall|k: int| 0 <= k < r.len() - 1 ==> #[trigger] r[k].cpu_milli_pct >= r[k + 1].cpu_milli_pct
}

/// How many leading entries of `order` use at least `c` of CPU.
pub open spec fn lead_count(s: Seq<ProcessInfo>, order: Seq<int>, c: u64) -> nat
    decreases order.len(),
{
    if order.len() == 0 {
        0
    } else if s[order[0]].cpu_milli_pct >= c {
        1 + lead_count(s, order.drop_first(), c)
    } else {
        0
    }
}

proof fn lemma_lead_count(s: Seq<ProcessInfo>, order: Seq<int>, c: u64)
    requires
        forall|k: int| 0 <= k < order.len() ==> 0 <= #[trigger] order[k] < s.len(),
        forall|k: int, l: int|
            0 <= k < l < order.len() ==> ranks_before(s, #[trigger] order[k], #[trigger] order[l]),
    ensures
        lead_count(s, order, c) <= order.len(),
        forall|k: int|
            0 <= k < lead_count(s, order, c) ==> #[trigger] s[order[k]].cpu_milli_pct >= c,
        forall|k: int|
            lead_count(s, order, c) <= k < order.len() ==> #[trigger] s[order[k]].cpu_milli_pct < c,
    decreases order.len(),
{
    if order.len() > 0 {
        let rest = order.drop_first();
        assert forall|k: int, l: int| 0 <= k < l < rest.len() implies ranks_before(
            s,
            #[trigger] rest[k],
            #[trigger] rest[l],
        ) by {
            assert(rest[k] == order[k + 1] && rest[l] == order[l + 1]);
        }
        lemma_lead_count(s, rest, c);
        if s[order[0]].cpu_milli_pct >= c {
            assert forall|k: int| 0 <= k < lead_count(s, order, c) implies #[trigger] s[order[k]].cpu_milli_pct >= c by {
                if k > 0 {
                    assert(order[k] == rest[k - 1]);
                }
            }
            assert forall|k: int| lead_count(s, order, c) <= k < order.len() implies #[trigger] s[order[k]].cpu_milli_pct < c by {
                assert(order[k] == rest[k - 1]);
            }
        } else {
            assert forall|k: int| 0 <= k < order.len() implies #[trigger] s[order[k]].cpu_milli_pct < c by {
                if k > 0 {
                    assert(ranks_before(s, order[0], order[k]));
                }
            }
        }
    }
}

/// The `TOP_PROCESS_LIMIT` processes of `procs` that use the most CPU, in
/// descending order of CPU usage; processes with equal usage keep their order.
pub fn rank_top_processes(procs: &Vec<ProcessInfo>) -> (r: Vec<ProcessInfo>)
    ensures
        is_top_ranked(procs@, r@, TOP_PROCESS_LIMIT as int),
        r@.len() <= TOP_PROCESS_LIMIT,
        cpu_non_increasing(r@),
{
    let mut top: Vec<ProcessInfo> = Vec::new();
    let ghost mut order: Seq<int> = Seq::empty();
    let mut i: usize = 0;
    while i < procs.len()
        invariant
            i <= procs.len(),
            order.len() == i,
            forall|k: int| 0 <= k < order.len() ==> 0 <= #[trigger] order[k] < i,
            forall|k: int, l: int|
                0 <= k < l < order.len() ==> ranks_before(procs@, #[trigger] order[k], #[trigger] order[l]),
            top@.len() == if i < TOP_PROCESS_LIMIT { i } else { TOP_PROCESS_LIMIT },
            forall|k: int| 0 <= k < top@.len() ==> top@[k] == procs@[#[trigger] order[k]],
        decreases procs.len() - i,
    {
        let c = procs[i].cpu_milli_pct;
        let mut pos: usize = 0;
        while pos < top.len() && top[pos].cpu_milli_pct >= c
            invariant
                pos <= top@.len(),
                top@.len() <= order.len(),
                i < procs@.len(),
                forall|k: int| 0 <= k < order.len() ==> 0 <= #[trigger] order[k] < i,
                forall|k: int| 0 <= k < top@.len() ==> top@[k] == procs@[#[trigger] order[k]],
                forall|k: int| 0 <= k < pos ==> #[trigger] procs@[order[k]].cpu_milli_pct >= c,
            decreases top@.len() - pos,
        {
            pos = pos + 1;
        }
        proof {
            lemma_lead_count(procs@, order, c);
        }
        let ghost p = lead_count(procs@, order, c) as int;
        assert(pos < top@.len() ==> p == pos) by {
            if pos < top@.len() {
                assert(procs@[order[pos as int]].cpu_milli_pct < c);
                if p < pos {
                    assert(procs@[order[p]].cpu_milli_pct >= c);
                }
                if p > pos {
                    assert(procs@[order[pos as int]].cpu_milli_pct >= c);
                }
            }
        }
        assert(pos == top@.len() ==> p >= pos) by {
            if pos == top@.len() && p < pos {
                assert(procs@[order[p]].cpu_milli_pct >= c);
            }
        }
        let ghost old_order = order;
        proof {
            order = order.insert(p, i as int);
            assert forall|k: int, l: int| 0 <= k < l < order.len() implies ranks_before(
                procs@,
                #[trigger] order[k],
                #[trigger] order[l],
            ) by {
                if l < p {
                    assert(order[k] == old_order[k] && order[l] == old_order[l]);
                } else if l == p {
                    assert(order[k] == old_order[k]);
                    assert(procs@[old_order[k]].cpu_milli_pct >= c);
                } else if k > p {
                    assert(order[k] == old_order[k - 1] && order[l] == old_order[l - 1]);
                } else if k == p {
                    assert(order[l] == old_order[l - 1]);
                    assert(procs@[old_order[l - 1]].cpu_milli_pct < c);
                } else {
                    assert(order[k] == old_order[k] && order[l] == old_order[l - 1]);
                }
            }
            assert forall|k: int| 0 <= k < order.len() implies 0 <= #[trigger] order[k] < i + 1 by {
                if k < p {
                    assert(order[k] == old_order[k]);
                } else if k > p {
                    assert(order[k] == old_order[k - 1]);
                }
            }
        }
        if pos < TOP_PROCESS_LIMIT {
            let item = procs[i].duplicate();
            top.insert(pos, item);
            if top.len() > TOP_PROCESS_LIMIT {
                top.pop();
            }
            assert forall|k: int| 0 <= k < top@.len() implies top@[k] == procs@[#[trigger] order[k]] by {
                if k < pos {
                    assert(order[k] == old_order[k]);
                } else if k > pos {
                    assert(order[k] == old_order[k - 1]);
                }
            }
        } else {
            assert forall|k: int| 0 <= k < top@.len() implies top@[k] == procs@[#[trigger] order[k]] by {
                assert(order[k] == old_order[k]);
            }
        }
        i = i + 1;
    }
    let ghost n = if procs@.len() < TOP_PROCESS_LIMIT { procs@.len() as int } else { TOP_PROCESS_LIMIT as int };
    assert(is_ranking(procs@, order));
    assert(top@ =~= order.take(n).map_values(|k: int| procs@[k]));
    proof {
        lemma_top_ranked_bounded_and_sorted(procs@, top@);
    }
    top
}

/// The ranked list never holds more than `TOP_PROCESS_LIMIT` processes, and
/// CPU usage never increases from one element to the next.
pub proof fn lemma_top_ranked_bounded_and_sorted(s: Seq<ProcessInfo>, r: Seq<ProcessInfo>)
    requires
        is_top_ranked(s, r, TOP_PROCESS_LIMIT as int),
    ensures
        r.len() <= TOP_PROCESS_LIMIT,
        cpu_non_increasing(r),
{
    let order = choose|order: Seq<int>|
        is_ranking(s, order) && r == order.take(
            if s.len() < TOP_PROCESS_LIMIT as int { s.len() as int } else { TOP_PROCESS_LIMIT as int },
        ).map_values(|k: int| s[k]);
    assert forall|k: int| 0 <= k < r.len() - 1 implies #[trigger] r[k].cpu_milli_pct >= r[k + 1].cpu_milli_pct by {
        assert(ranks_before(s, order[k], order[k + 1]));
    }
}

} // verus!
