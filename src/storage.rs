use vstd::prelude::*;
use vstd::string::StrSliceExecFns;
use vstd::utf8::encode_utf8;
use crate::decimal::{i64_value, parse_i64, push_signed_decimal, signed_decimal};
use crate::snapshot::SystemSnapshot;

verus! {

/// Name of the consolidated history file in the snapshot directory.
pub const HISTORY_FILE_NAME: &'static str = "system_snapshot.json";

/// Name of the directory, under the snapshot directory, of per-sample files.
pub const TIME_SERIES_DIR_NAME: &'static str = "time_series";

/// The consolidated history as stored on disk, oldest first.
pub struct SnapshotHistory {
    pub snapshots: Vec<SystemSnapshot>,
}

impl Default for SnapshotHistory {
    fn default() -> (r: SnapshotHistory)
        ensures
            r.snapshots@.len() == 0,
    {
        SnapshotHistory::new()
    }
}

/// `history` with `snapshot` appended, cut to its newest `limit` entries.
pub open spec fn retained(history: Seq<SystemSnapshot>, snapshot: SystemSnapshot, limit: int) -> Seq<
    SystemSnapshot,
> {
    let all = history.push(snapshot);
    if all.len() > limit {
        all.skip(all.len() - limit)
    } else {
        all
    }
}

impl SnapshotHistory {
    /// An empty history.
    pub fn new() -> (r: SnapshotHistory)
        ensures
            r.snapshots@.len() == 0,
    {
        SnapshotHistory { snapshots: Vec::new() }
    }

    /// Appends `snapshot` and drops the oldest entries beyond `limit`, so that
    /// what stays is a contiguous run of the newest ones.
    pub fn append_retained(&mut self, snapshot: SystemSnapshot, limit: usize)
        ensures
            final(self).snapshots@ == retained(old(self).snapshots@, snapshot, limit as int),
    {
        self.snapshots.push(snapshot);
        let len = self.snapshots.len();
        if len > limit {
            let kept = self.snapshots.split_off(len - limit);
            self.snapshots = kept;
        }
    }
}

/// Appending a snapshot and reading the history back gives that snapshot as
/// the newest entry, whatever the history held, for any limit above zero;
/// and the history never holds more than `limit` entries.
pub proof fn lemma_appended_is_newest(history: Seq<SystemSnapshot>, snapshot: SystemSnapshot, limit: int)
    requires
        limit > 0,
    ensures
        retained(history, snapshot, limit).len() > 0,
        retained(history, snapshot, limit).last() == snapshot,
        retained(history, snapshot, limit).len() <= limit || retained(history, snapshot, limit).len()
            == history.len() + 1,
        retained(history, snapshot, limit).len() <= history.len() + 1,
{
}

/// The name of the per-sample file of a snapshot taken at `timestamp`.
pub open spec fn time_series_name(timestamp: int) -> Seq<char> {
    "system_snapshot_"@ + signed_decimal(timestamp) + ".json"@
}

/// The timestamp that a per-sample file stem names: the stem is
/// `system_snapshot_` followed by an `i64` in decimal.
pub open spec fn stem_timestamp_spec(stem: Seq<char>) -> Option<int> {
    if stem.len() >= 16 && stem.take(16) == "system_snapshot_"@ {
        i64_value(encode_utf8(stem.skip(16)))
    } else {
        None
    }
}

/// The file name under which the snapshot taken at `timestamp` is stored in
/// the time-series directory.
pub fn time_series_file_name(timestamp: i64) -> (r: String)
    ensures
        r@ == time_series_name(timestamp as int),
{
    let mut s = "system_snapshot_".to_owned();
    push_signed_decimal(&mut s, timestamp);
    s.append(".json");
    s
}

/// The timestamp that a per-sample file stem (its name without the
/// extension) names, if it is one.
pub fn stem_timestamp(stem: &str) -> (r: Option<i64>)
    ensures
        r == (match stem_timestamp_spec(stem@) {
            Some(v) => Some(v as i64),
            None => None,
        }),
        r matches Some(t) ==> stem_timestamp_spec(stem@) == Some(t as int),
{
    let n = stem.unicode_len();
    if n < 16 {
        return None;
    }
    let head = stem.substring_char(0, 16).to_owned();
    let prefix = "system_snapshot_".to_owned();
    if head != prefix {
        return None;
    }
    let rest = stem.substring_char(16, n);
    assert(rest@ =~= stem@.skip(16));
    parse_i64(rest.as_bytes())
}

/// The timestamp that the stem at position `k` of `stems` names.
pub open spec fn stem_ts(stems: Seq<String>, k: int) -> Option<int> {
    stem_timestamp_spec(stems[k]@)
}

/// Of two per-sample files, the one at position `a` is older than the one at
/// position `b`: an earlier timestamp, or the same one and listed earlier.
pub open spec fn older(stems: Seq<String>, a: int, b: int) -> bool {
    ||| stem_ts(stems, a)->Some_0 < stem_ts(stems, b)->Some_0
    ||| (stem_ts(stems, a)->Some_0 == stem_ts(stems, b)->Some_0 && a < b)
}

/// How many of `stems` name a per-sample file.
pub open spec fn per_sample_count(stems: Seq<String>) -> nat
    decreases stems.len(),
{
    if stems.len() == 0 {
        0
    } else {
        per_sample_count(stems.drop_last()) + if stem_timestamp_spec(stems.last()@) is Some {
            1nat
        } else {
            0nat
        }
    }
}

/// `order` lists, each once and oldest first, the positions of `stems` that
/// name a per-sample file.
pub open spec fn is_age_order(stems: Seq<String>, order: Seq<int>) -> bool {
    &&& order.len() == per_sample_count(stems)
    &&& forall|j: int| 0 <= j < order.len() ==> 0 <= #[trigger] order[j] < stems.len()
    &&& forall|j: int| 0 <= j < order.len() ==> (#[trigger] stem_ts(stems, order[j])) is Some
    &&& forall|k: int| 0 <= k < stems.len() && (#[trigger] stem_ts(stems, k)) is Some ==> exists|j: int|
        0 <= j < order.len() && order[j] == k
    &&& forall|i: int, j: int| 0 <= i < j < order.len() ==> older(stems, #[trigger] order[i], #[trigger] order[j])
}

/// The files to delete out of `order` so that `limit` stay: the oldest ones;
/// none where `limit` is zero or no more than `limit` are there.
pub open spec fn prune_set(order: Seq<int>, limit: int) -> Seq<int> {
    if limit == 0 || order.len() <= limit {
        Seq::empty()
    } else {
        order.take(order.len() - limit)
    }
}

/// Which of the listed files of the time-series directory to delete so that
/// at most `limit` per-sample files stay: given the stems of the files in
/// listing order, the positions of the oldest per-sample files beyond
/// `limit`, oldest first. Stems that name no per-sample file are left alone;
/// a `limit` of zero deletes nothing.
pub fn files_to_prune(stems: &Vec<String>, limit: usize) -> (r: Vec<usize>)
    ensures
        exists|order: Seq<int>|
            is_age_order(stems@, order) && r@.map_values(|x: usize| x as int) == prune_set(order, limit as int),
{
    let mut sorted: Vec<(i64, usize)> = Vec::new();
    let mut i: usize = 0;
    while i < stems.len()
        invariant
            i <= stems@.len(),
            sorted@.len() == per_sample_count(stems@.take(i as int)),
            forall|j: int| 0 <= j < sorted@.len() ==> 0 <= (#[trigger] sorted@[j]).1 < i,
            forall|j: int|
                0 <= j < sorted@.len() ==> stem_ts(stems@, (#[trigger] sorted@[j]).1 as int) == Some(
                    sorted@[j].0 as int,
                ),
            forall|k: int| 0 <= k < i && (#[trigger] stem_ts(stems@, k)) is Some ==> exists|j: int|
                0 <= j < sorted@.len() && sorted@[j].1 == k,
            forall|a: int, b: int|
                0 <= a < b < sorted@.len() ==> older(stems@, (#[trigger] sorted@[a]).1 as int, (#[trigger] sorted@[b]).1 as int),
        decreases stems@.len() - i,
    {
        let parsed = stem_timestamp(stems[i].as_str());
        assert(stems@.take(i + 1).drop_last() =~= stems@.take(i as int));
        assert(stems@.take(i + 1).last() == stems@[i as int]);
        if let Some(t) = parsed {
            let mut pos: usize = 0;
            while pos < sorted.len() && sorted[pos].0 <= t
                invariant
                    pos <= sorted@.len(),
                    forall|j: int| 0 <= j < pos ==> (#[trigger] sorted@[j]).0 <= t,
                decreases sorted@.len() - pos,
            {
                pos = pos + 1;
            }
            let ghost old_sorted = sorted@;
            assert(stem_ts(stems@, i as int) == Some(t as int));
            assert(forall|j: int| pos <= j < old_sorted.len() ==> (#[trigger] old_sorted[j]).0 > t) by {
                assert forall|j: int| pos <= j < old_sorted.len() implies (#[trigger] old_sorted[j]).0 > t by {
                    if j > pos {
                        assert(older(stems@, old_sorted[pos as int].1 as int, old_sorted[j].1 as int));
                    }
                }
            }
            sorted.insert(pos, (t, i));
            assert forall|a: int, b: int|
                0 <= a < b < sorted@.len() implies older(stems@, (#[trigger] sorted@[a]).1 as int, (#[trigger] sorted@[b]).1 as int) by {
                if b < pos {
                    assert(sorted@[a] == old_sorted[a] && sorted@[b] == old_sorted[b]);
                } else if b == pos {
                    assert(sorted@[a] == old_sorted[a]);
                } else if a > pos {
                    assert(sorted@[a] == old_sorted[a - 1] && sorted@[b] == old_sorted[b - 1]);
                } else if a == pos {
                    assert(sorted@[b] == old_sorted[b - 1]);
                } else {
                    assert(sorted@[a] == old_sorted[a] && sorted@[b] == old_sorted[b - 1]);
                }
            }
            assert forall|k: int| 0 <= k < i + 1 && (#[trigger] stem_ts(stems@, k)) is Some implies exists|j: int|
                0 <= j < sorted@.len() && sorted@[j].1 == k by {
                if k == i {
                    assert(sorted@[pos as int].1 == k);
                } else {
                    let j0 = choose|j: int| 0 <= j < old_sorted.len() && old_sorted[j].1 == k;
                    if j0 < pos {
                        assert(sorted@[j0].1 == k);
                    } else {
                        assert(sorted@[j0 + 1].1 == k);
                    }
                }
            }
        } else {
            assert(stem_ts(stems@, i as int) is None);
        }
        i = i + 1;
    }
    assert(stems@.take(stems@.len() as int) =~= stems@);
    let ghost order = sorted@.map_values(|e: (i64, usize)| e.1 as int);
    assert(is_age_order(stems@, order)) by {
        assert forall|k: int| 0 <= k < stems@.len() && (#[trigger] stem_ts(stems@, k)) is Some implies exists|j: int|
            0 <= j < order.len() && order[j] == k by {
            let j0 = choose|j: int| 0 <= j < sorted@.len() && sorted@[j].1 == k;
            assert(order[j0] == k);
        }
    }
    let mut r: Vec<usize> = Vec::new();
    if limit > 0 && sorted.len() > limit {
        let n = sorted.len() - limit;
        let mut j: usize = 0;
        while j < n
            invariant
                j <= n <= sorted@.len(),
                order == sorted@.map_values(|e: (i64, usize)| e.1 as int),
                r@.len() == j,
                forall|k: int| 0 <= k < j ==> #[trigger] r@[k] as int == order[k],
            decreases n - j,
        {
            r.push(sorted[j].1);
            assert(order[j as int] == sorted@[j as int].1 as int);
            j = j + 1;
        }
    }
    assert(r@.map_values(|x: usize| x as int) =~= prune_set(order, limit as int));
    r
}

/// With a limit above zero and more per-sample files than it, pruning
/// deletes all but exactly `limit` of the per-sample files: of the
/// `per_sample_count(stems)` listed, `per_sample_count(stems) - limit` are
/// deleted and the `limit` others stay, each of them once. Every one that
/// stays is newer (a later timestamp, or the same one listed later) than
/// every one deleted, so no deleted timestamp exceeds a kept one.
pub proof fn lemma_prune_keeps_newest(stems: Seq<String>, order: Seq<int>, limit: int)
    requires
        is_age_order(stems, order),
        limit > 0,
        per_sample_count(stems) > limit,
    ensures
        prune_set(order, limit).len() == per_sample_count(stems) - limit,
        order.skip(order.len() - limit).len() == limit,
        order =~= prune_set(order, limit) + order.skip(order.len() - limit),
        forall|a: int, b: int|
            0 <= a < b < order.len() ==> #[trigger] order[a] != #[trigger] order[b],
        forall|k: int|
            order.len() - limit <= k < order.len() ==> (#[trigger] stem_ts(stems, order[k])) is Some,
        forall|d: int, k: int|
            0 <= d < prune_set(order, limit).len() && order.len() - limit <= k < order.len() ==> older(
                stems,
                #[trigger] prune_set(order, limit)[d],
                #[trigger] order[k],
            ),
        forall|d: int, k: int|
            0 <= d < prune_set(order, limit).len() && order.len() - limit <= k < order.len()
                ==> stem_ts(stems, #[trigger] prune_set(order, limit)[d])->Some_0 <= stem_ts(
                stems,
                #[trigger] order[k],
            )->Some_0,
{
    assert forall|a: int, b: int| 0 <= a < b < order.len() implies #[trigger] order[a] != #[trigger] order[b] by {
        assert(older(stems, order[a], order[b]));
    }
    assert forall|d: int, k: int|
        0 <= d < prune_set(order, limit).len() && order.len() - limit <= k < order.len()
            implies stem_ts(stems, #[trigger] prune_set(order, limit)[d])->Some_0 <= stem_ts(
            stems,
            #[trigger] order[k],
        )->Some_0 by {
        assert(prune_set(order, limit)[d] == order[d]);
        assert(older(stems, order[d], order[k]));
    }
}

} // verus!
