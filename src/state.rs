use vstd::prelude::*;
use vstd::slice::slice_subrange;
use crate::config::Config;
use crate::snapshot::SystemSnapshot;

verus! {

/// The live state: the configuration, the latest snapshot and a bounded
/// history of snapshots, newest first. A caller that shares it between
/// readers and one writer wraps it in a reader/writer lock.
pub struct AppState {
    config: Config,
    /// Newest first. The first entry is the latest snapshot; the history is
    /// the first `history_limit` entries. Holds at least one entry and at most
    /// `max(history_limit, 1)`.
    entries: Vec<SystemSnapshot>,
}

/// The smaller of `a` and `b`.
pub open spec fn min_int(a: int, b: int) -> int {
    if a < b {
        a
    } else {
        b
    }
}

/// The history after recording `snapshot`: it goes to the front, and the
/// oldest entry goes where the history would exceed `limit`.
pub open spec fn record_step(history: Seq<SystemSnapshot>, snapshot: SystemSnapshot, limit: int) -> Seq<
    SystemSnapshot,
> {
    (seq![snapshot] + history).take(min_int(history.len() as int + 1, limit))
}

/// The history after recording each snapshot of `fed`, in order.
pub open spec fn replay(history: Seq<SystemSnapshot>, fed: Seq<SystemSnapshot>, limit: int) -> Seq<
    SystemSnapshot,
>
    decreases fed.len(),
{
    if fed.len() == 0 {
        history
    } else {
        record_step(replay(history, fed.drop_last(), limit), fed.last(), limit)
    }
}

/// Recording the snapshots of `fed` one after another leaves the newest of
/// them first, followed by what the history held, all cut to `limit`; so
/// the history never exceeds `limit`, and once at least `limit` snapshots
/// have been recorded it holds exactly the `limit` most recent, newest first.
pub proof fn lemma_history_keeps_newest(history: Seq<SystemSnapshot>, fed: Seq<SystemSnapshot>, limit: int)
    requires
        0 <= limit,
        history.len() <= limit,
    ensures
        replay(history, fed, limit) == (fed.reverse() + history).take(
            min_int(fed.len() + history.len() as int, limit),
        ),
        replay(history, fed, limit).len() <= limit,
        fed.len() >= limit ==> replay(history, fed, limit) == fed.reverse().take(limit),
    decreases fed.len(),
{
    if fed.len() > 0 {
        lemma_history_keeps_newest(history, fed.drop_last(), limit);
        let prev = replay(history, fed.drop_last(), limit);
        let all = fed.reverse() + history;
        let all0 = fed.drop_last().reverse() + history;
        assert(all =~= seq![fed.last()] + all0);
        assert(replay(history, fed, limit) =~= all.take(min_int(fed.len() + history.len() as int, limit)));
    }
    if fed.len() >= limit {
        assert(replay(history, fed, limit) =~= fed.reverse().take(limit));
    }
}

impl AppState {
    /// Well-formedness: at least one entry (the latest), and no more than the
    /// history limit, or one.
    pub closed spec fn wf(&self) -> bool {
        &&& self.entries@.len() >= 1
        &&& self.entries@.len() <= self.config.spec_history_limit() || self.entries@.len() == 1
    }

    pub closed spec fn spec_config(&self) -> Config {
        self.config
    }

    /// The most recently recorded snapshot.
    pub closed spec fn spec_latest(&self) -> SystemSnapshot {
        self.entries@[0]
    }

    /// The retained history, newest first.
    pub closed spec fn spec_history(&self) -> Seq<SystemSnapshot> {
        self.entries@.take(min_int(self.entries@.len() as int, self.config.spec_history_limit() as int))
    }

    /// The state of a process that has taken one snapshot: it is the latest,
    /// and the history holds it alone (none, with a history limit of zero).
    pub fn new(config: Config, initial_snapshot: SystemSnapshot) -> (r: AppState)
        ensures
            r.wf(),
            r.spec_config() == config,
            r.spec_latest() == initial_snapshot,
            r.spec_history() == if config.spec_history_limit() == 0 {
                Seq::<SystemSnapshot>::empty()
            } else {
                seq![initial_snapshot]
            },
    {
        let mut entries: Vec<SystemSnapshot> = Vec::new();
        entries.push(initial_snapshot);
        let r = AppState { config, entries };
        assert(r.spec_history() =~= if config.spec_history_limit() == 0 {
            Seq::<SystemSnapshot>::empty()
        } else {
            seq![initial_snapshot]
        });
        r
    }

    pub fn config(&self) -> (r: &Config)
        ensures
            *r == self.spec_config(),
    {
        &self.config
    }

    /// The history of a well-formed state is within its limit.
    pub proof fn lemma_history_within_limit(&self)
        requires
            self.wf(),
        ensures
            self.spec_history().len() <= self.spec_config().spec_history_limit(),
    {
    }

    /// The most recently recorded snapshot.
    pub fn latest_snapshot(&self) -> (r: &SystemSnapshot)
        requires
            self.wf(),
        ensures
            *r == self.spec_latest(),
    {
        &self.entries[0]
    }

    /// Makes `snapshot` the latest and puts it at the front of the history,
    /// dropping the oldest entry where the history would exceed its limit.
    pub fn record_snapshot(&mut self, snapshot: SystemSnapshot)
        requires
            old(self).wf(),
        ensures
            final(self).wf(),
            final(self).spec_config() == old(self).spec_config(),
            final(self).spec_latest() == snapshot,
            final(self).spec_history() == record_step(
                old(self).spec_history(),
                snapshot,
                old(self).spec_config().spec_history_limit() as int,
            ),
            final(self).spec_history().len() <= final(self).spec_config().spec_history_limit(),
    {
        let ghost old_entries = self.entries@;
        let ghost limit = self.config.spec_history_limit() as int;
        let keep = if self.config.history_limit() == 0 { 1 } else { self.config.history_limit() };
        self.entries.insert(0, snapshot);
        self.entries.truncate(keep);
        assert(self.entries@ =~= (seq![snapshot] + old_entries).take(
            min_int(old_entries.len() as int + 1, keep as int),
        ));
        assert(self.spec_history() =~= (seq![snapshot] + old_entries.take(
            min_int(old_entries.len() as int, limit),
        )).take(min_int(min_int(old_entries.len() as int, limit) + 1, limit)));
    }

    /// Up to `limit` snapshots of the history, newest first.
    pub fn history(&self, limit: usize) -> (r: &[SystemSnapshot])
        requires
            self.wf(),
        ensures
            r@ == self.spec_history().take(min_int(limit as int, self.spec_history().len() as int)),
    {
        let max = self.config.history_limit();
        let len = self.entries.len();
        let mut n = if len < max { len } else { max };
        if limit < n {
            n = limit;
        }
        let r = slice_subrange(self.entries.as_slice(), 0, n);
        assert(r@ =~= self.spec_history().take(min_int(limit as int, self.spec_history().len() as int)));
        r
    }
}

} // verus!
