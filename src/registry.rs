use vstd::prelude::*;

use crate::breaker::{BreakerState, Decision};
use crate::config::BreakerConfig;
use crate::counter::{elapsed, elapsed_ms, Outcome};

verus! {

/// One destination and its breaker.
#[derive(Debug)]
pub struct Entry {
    pub key: String,
    pub state: BreakerState,
}

/// The breakers of all destinations seen so far, one per key.
#[derive(Debug)]
pub struct BreakerRegistry {
    config: BreakerConfig,
    entries: Vec<Entry>,
}

pub open spec fn has_key(entries: Seq<Entry>, k: Seq<char>) -> bool {
    exists|i: int| 0 <= i < entries.len() && #[trigger] entries[i].key@ == k
}

pub open spec fn keys_unique(entries: Seq<Entry>) -> bool {
    forall|i: int, j: int|
        0 <= i < entries.len() && 0 <= j < entries.len() && #[trigger] entries[i].key@
            == #[trigger] entries[j].key@ ==> i == j
}

pub open spec fn map_of(entries: Seq<Entry>) -> Map<Seq<char>, BreakerState> {
    Map::new(
        |k: Seq<char>| has_key(entries, k),
        |k: Seq<char>|
            entries[choose|i: int| 0 <= i < entries.len() && #[trigger] entries[i].key@ == k].state,
    )
}

/// The breaker that a check on `key` works on: the stored one, or a fresh one.
pub open spec fn current(m: Map<Seq<char>, BreakerState>, key: Seq<char>, now: u64) -> BreakerState {
    if m.contains_key(key) {
        m[key]
    } else {
        BreakerState::fresh(now)
    }
}

/// The registry after an admission check on `key` at `now`.
pub open spec fn after_decide(
    m: Map<Seq<char>, BreakerState>,
    cfg: BreakerConfig,
    key: Seq<char>,
    now: u64,
) -> Map<Seq<char>, BreakerState> {
    m.insert(key, current(m, key, now).decide_spec(cfg, now).0)
}

/// The verdict of an admission check on `key` at `now`.
pub open spec fn decision_of(
    m: Map<Seq<char>, BreakerState>,
    cfg: BreakerConfig,
    key: Seq<char>,
    now: u64,
) -> Decision {
    current(m, key, now).decide_spec(cfg, now).1
}

/// The registry after the outcome of a call on `key` is recorded at `now`.
pub open spec fn after_record(
    m: Map<Seq<char>, BreakerState>,
    cfg: BreakerConfig,
    key: Seq<char>,
    decision: Decision,
    outcome: Outcome,
    now: u64,
) -> Map<Seq<char>, BreakerState> {
    m.insert(key, current(m, key, now).record_spec(cfg, decision, outcome, now))
}

/// Whether a breaker has seen no call for `idle_ms` at `now`.
pub open spec fn is_idle(s: BreakerState, now: u64, idle_ms: u64) -> bool {
    elapsed(s.last_access, now) >= idle_ms
}

/// Whether a sweep for idle breakers is due at `now`, the last one having run at
/// `last_sweep`: a full idle period has passed since.
pub fn sweep_due(last_sweep: u64, now: u64, idle_ms: u64) -> (r: bool)
    ensures
        r == (elapsed(last_sweep, now) >= idle_ms),
{
    elapsed_ms(last_sweep, now) >= idle_ms
}

proof fn lemma_map_of_at(entries: Seq<Entry>, i: int)
    requires
        keys_unique(entries),
        0 <= i < entries.len(),
    ensures
        map_of(entries).contains_key(entries[i].key@),
        map_of(entries)[entries[i].key@] == entries[i].state,
{
    let k = entries[i].key@;
    assert(has_key(entries, k));
    let j = choose|j: int| 0 <= j < entries.len() && #[trigger] entries[j].key@ == k;
    assert(entries[j].key@ == entries[i].key@);
}

proof fn lemma_map_of_update(entries: Seq<Entry>, i: int, e: Entry)
    requires
        keys_unique(entries),
        0 <= i < entries.len(),
        e.key@ == entries[i].key@,
    ensures
        keys_unique(entries.update(i, e)),
        map_of(entries.update(i, e)) =~= map_of(entries).insert(e.key@, e.state),
{
    let n = entries.update(i, e);
    assert forall|a: int, b: int|
        0 <= a < n.len() && 0 <= b < n.len() && #[trigger] n[a].key@ == #[trigger] n[b].key@ implies a
        == b by {
        assert(entries[a].key@ == n[a].key@);
        assert(entries[b].key@ == n[b].key@);
    }
    assert forall|k: Seq<char>| #[trigger]
        map_of(n).contains_key(k) == map_of(entries).insert(e.key@, e.state).contains_key(k) by {
        if has_key(n, k) {
            let j = choose|j: int| 0 <= j < n.len() && #[trigger] n[j].key@ == k;
            assert(entries[j].key@ == k);
        }
        if has_key(entries, k) {
            let j = choose|j: int| 0 <= j < entries.len() && #[trigger] entries[j].key@ == k;
            assert(n[j].key@ == k);
        }
        if k == e.key@ {
            assert(n[i].key@ == k);
        }
    }
    assert forall|k: Seq<char>| #[trigger] map_of(n).contains_key(k) implies map_of(n)[k]
        == map_of(entries).insert(e.key@, e.state)[k] by {
        let j = choose|j: int| 0 <= j < n.len() && #[trigger] n[j].key@ == k;
        lemma_map_of_at(n, j);
        if j != i {
            assert(entries[j] == n[j]);
            lemma_map_of_at(entries, j);
        }
    }
}

proof fn lemma_map_of_push(entries: Seq<Entry>, e: Entry)
    requires
        keys_unique(entries),
        !has_key(entries, e.key@),
    ensures
        keys_unique(entries.push(e)),
        map_of(entries.push(e)) =~= map_of(entries).insert(e.key@, e.state),
{
    let n = entries.push(e);
    let last = entries.len() as int;
    assert forall|a: int, b: int|
        0 <= a < n.len() && 0 <= b < n.len() && #[trigger] n[a].key@ == #[trigger] n[b].key@ implies a
        == b by {
        if a < last && b == last {
            assert(entries[a].key@ == e.key@);
        }
        if b < last && a == last {
            assert(entries[b].key@ == e.key@);
        }
    }
    assert forall|k: Seq<char>| #[trigger]
        map_of(n).contains_key(k) == map_of(entries).insert(e.key@, e.state).contains_key(k) by {
        if has_key(n, k) {
            let j = choose|j: int| 0 <= j < n.len() && #[trigger] n[j].key@ == k;
            if j < last {
                assert(entries[j].key@ == k);
            }
        }
        if has_key(entries, k) {
            let j = choose|j: int| 0 <= j < entries.len() && #[trigger] entries[j].key@ == k;
            assert(n[j].key@ == k);
        }
        if k == e.key@ {
            assert(n[last].key@ == k);
        }
    }
    assert forall|k: Seq<char>| #[trigger] map_of(n).contains_key(k) implies map_of(n)[k]
        == map_of(entries).insert(e.key@, e.state)[k] by {
        let j = choose|j: int| 0 <= j < n.len() && #[trigger] n[j].key@ == k;
        lemma_map_of_at(n, j);
        if j != last {
            assert(entries[j] == n[j]);
            lemma_map_of_at(entries, j);
        }
    }
}

proof fn lemma_map_of_kept(old_entries: Seq<Entry>, kept: Seq<Entry>, idxs: Seq<int>, now: u64, idle_ms: u64)
    requires
        keys_unique(old_entries),
        idxs.len() == kept.len(),
        forall|j: int|
            0 <= j < kept.len() ==> 0 <= #[trigger] idxs[j] < old_entries.len() && kept[j]
                == old_entries[idxs[j]],
        forall|a: int, b: int| 0 <= a < b < idxs.len() ==> #[trigger] idxs[a] < #[trigger] idxs[b],
        forall|i: int|
            0 <= i < old_entries.len() && !is_idle(#[trigger] old_entries[i].state, now, idle_ms)
                ==> exists|j: int| 0 <= j < idxs.len() && idxs[j] == i,
        forall|j: int| 0 <= j < kept.len() ==> !is_idle(#[trigger] kept[j].state, now, idle_ms),
    ensures
        keys_unique(kept),
        forall|k: Seq<char>| #[trigger]
            map_of(kept).contains_key(k) <==> map_of(old_entries).contains_key(k) && !is_idle(
                map_of(old_entries)[k],
                now,
                idle_ms,
            ),
        forall|k: Seq<char>| #[trigger]
            map_of(kept).contains_key(k) ==> map_of(kept)[k] == map_of(old_entries)[k],
{
    assert forall|a: int, b: int|
        0 <= a < kept.len() && 0 <= b < kept.len() && #[trigger] kept[a].key@ == #[trigger] kept[b].key@
            implies a == b by {
        assert(old_entries[idxs[a]].key@ == old_entries[idxs[b]].key@);
        if a < b {
            assert(idxs[a] < idxs[b]);
        } else if b < a {
            assert(idxs[b] < idxs[a]);
        }
    }
    assert forall|k: Seq<char>| #[trigger] map_of(kept).contains_key(k) implies map_of(
        old_entries,
    ).contains_key(k) && !is_idle(map_of(old_entries)[k], now, idle_ms) && map_of(kept)[k]
        == map_of(old_entries)[k] by {
        let j = choose|j: int| 0 <= j < kept.len() && #[trigger] kept[j].key@ == k;
        lemma_map_of_at(kept, j);
        lemma_map_of_at(old_entries, idxs[j]);
    }
    assert forall|k: Seq<char>|
        map_of(old_entries).contains_key(k) && !is_idle(
            map_of(old_entries)[k],
            now,
            idle_ms,
        ) implies #[trigger] map_of(kept).contains_key(k) by {
        let i = choose|i: int| 0 <= i < old_entries.len() && #[trigger] old_entries[i].key@ == k;
        lemma_map_of_at(old_entries, i);
        let j = choose|j: int| 0 <= j < idxs.len() && idxs[j] == i;
        assert(kept[j].key@ == k);
    }
}

impl View for BreakerRegistry {
    type V = Map<Seq<char>, BreakerState>;

    closed spec fn view(&self) -> Map<Seq<char>, BreakerState> {
        map_of(self.entries@)
    }
}

impl BreakerRegistry {
    /// The configuration that every breaker of this registry follows.
    pub closed spec fn cfg(&self) -> BreakerConfig {
        self.config
    }

    pub closed spec fn wf(&self) -> bool {
        &&& self.config.valid()
        &&& keys_unique(self.entries@)
        &&& forall|i: int|
            0 <= i < self.entries@.len() ==> (#[trigger] self.entries@[i]).state.wf(self.config)
    }

    /// A well-formed registry has a valid configuration, and every breaker that it
    /// holds is well-formed under that configuration.
    pub proof fn lemma_wf(&self)
        requires
            self.wf(),
        ensures
            self.cfg().valid(),
            forall|k: Seq<char>| #[trigger] self@.contains_key(k) ==> self@[k].wf(self.cfg()),
    {
        assert forall|k: Seq<char>| #[trigger] self@.contains_key(k) implies self@[k].wf(
            self.cfg(),
        ) by {
            let i = choose|i: int| 0 <= i < self.entries@.len() && #[trigger] self.entries@[i].key@ == k;
            lemma_map_of_at(self.entries@, i);
        }
    }

    /// An empty registry.
    pub fn new(config: BreakerConfig) -> (r: BreakerRegistry)
        requires
            config.valid(),
        ensures
            r.wf(),
            r.cfg() == config,
            r@ == Map::<Seq<char>, BreakerState>::empty(),
    {
        let r = BreakerRegistry { config, entries: Vec::new() };
        assert(r@ =~= Map::<Seq<char>, BreakerState>::empty());
        r
    }

    pub fn config(&self) -> (r: BreakerConfig)
        ensures
            r == self.cfg(),
    {
        self.config
    }

    fn find(&self, key: &String) -> (r: Option<usize>)
        ensures
            r matches Some(i) ==> i < self.entries@.len() && self.entries@[i as int].key@ == key@,
            r is None ==> !has_key(self.entries@, key@),
    {
        let mut i: usize = 0;
        while i < self.entries.len()
            invariant
                i <= self.entries@.len(),
                forall|j: int| 0 <= j < i ==> (#[trigger] self.entries@[j]).key@ != key@,
            decreases self.entries@.len() - i,
        {
            if self.entries[i].key == *key {
                return Some(i);
            }
            i = i + 1;
        }
        None
    }

    /// The breaker of `key`, if the registry holds one.
    pub fn state_of(&self, key: &String) -> (r: Option<BreakerState>)
        requires
            self.wf(),
        ensures
            r == (if self@.contains_key(key@) {
                Some(self@[key@])
            } else {
                None::<BreakerState>
            }),
    {
        match self.find(key) {
            Some(i) => {
                proof {
                    lemma_map_of_at(self.entries@, i as int);
                }
                Some(self.entries[i].state)
            },
            None => None,
        }
    }

    /// The index of `key`'s entry, created closed and empty at `now` if absent.
    fn slot(&mut self, key: &String, now: u64) -> (i: usize)
        requires
            old(self).wf(),
        ensures
            final(self).wf(),
            final(self).cfg() == old(self).cfg(),
            i < final(self).entries@.len(),
            final(self).entries@[i as int].key@ == key@,
            final(self).entries@[i as int].state == current(old(self)@, key@, now),
            final(self)@ == old(self)@.insert(key@, current(old(self)@, key@, now)),
    {
        match self.find(key) {
            Some(i) => {
                proof {
                    lemma_map_of_at(self.entries@, i as int);
                    assert(self@ =~= self@.insert(key@, self@[key@]));
                }
                i
            },
            None => {
                let e = Entry { key: key.clone(), state: BreakerState::new(now) };
                proof {
                    lemma_map_of_push(self.entries@, e);
                }
                self.entries.push(e);
                proof {
                    assert(self.entries@[self.entries@.len() - 1] == e);
                }
                self.entries.len() - 1
            },
        }
    }

    fn store(&mut self, i: usize, key: &String, state: BreakerState)
        requires
            old(self).wf(),
            i < old(self).entries@.len(),
            old(self).entries@[i as int].key@ == key@,
            state.wf(old(self).cfg()),
        ensures
            final(self).wf(),
            final(self).cfg() == old(self).cfg(),
            final(self)@ == old(self)@.insert(key@, state),
    {
        let e = Entry { key: key.clone(), state };
        proof {
            lemma_map_of_update(self.entries@, i as int, e);
        }
        self.entries.set(i, e);
    }

    /// The admission check for a call to `key` at `now`: the destination's breaker is
    /// created on first use, then moved as `BreakerState::decide_spec` says.
    pub fn decide(&mut self, key: &String, now: u64) -> (d: Decision)
        requires
            old(self).wf(),
        ensures
            final(self).wf(),
            final(self).cfg() == old(self).cfg(),
            final(self)@ == after_decide(old(self)@, old(self).cfg(), key@, now),
            d == decision_of(old(self)@, old(self).cfg(), key@, now),
    {
        let i = self.slot(key, now);
        let mut state = self.entries[i].state;
        let d = state.decide(&self.config, now);
        self.store(i, key, state);
        d
    }

    /// Records the outcome of a call to `key` that got `decision`.
    pub fn record(&mut self, key: &String, decision: Decision, outcome: Outcome, now: u64)
        requires
            old(self).wf(),
        ensures
            final(self).wf(),
            final(self).cfg() == old(self).cfg(),
            final(self)@ == after_record(old(self)@, old(self).cfg(), key@, decision, outcome, now),
    {
        let i = self.slot(key, now);
        let mut state = self.entries[i].state;
        state.record(&self.config, decision, outcome, now);
        self.store(i, key, state);
    }

    /// Drops every breaker that has seen no call for the configured idle period.
    /// A destination that comes back afterwards starts over, closed and empty.
    pub fn evict_idle(&mut self, now: u64)
        requires
            old(self).wf(),
        ensures
            final(self).wf(),
            final(self).cfg() == old(self).cfg(),
            forall|k: Seq<char>| #[trigger]
                final(self)@.contains_key(k) <==> old(self)@.contains_key(k) && !is_idle(
                    old(self)@[k],
                    now,
                    old(self).cfg().idle_eviction_ms,
                ),
            forall|k: Seq<char>| #[trigger]
                final(self)@.contains_key(k) ==> final(self)@[k] == old(self)@[k],
    {
        let idle_ms = self.config.idle_eviction_ms;
        let mut kept: Vec<Entry> = Vec::new();
        let ghost mut idxs: Seq<int> = Seq::empty();
        let mut i: usize = 0;
        while i < self.entries.len()
            invariant
                i <= self.entries@.len(),
                self.wf(),
                idxs.len() == kept@.len(),
                forall|j: int|
                    0 <= j < kept@.len() ==> 0 <= #[trigger] idxs[j] < i && kept@[j]
                        == self.entries@[idxs[j]],
                forall|a: int, b: int|
                    0 <= a < b < idxs.len() ==> #[trigger] idxs[a] < #[trigger] idxs[b],
                forall|x: int|
                    0 <= x < i && !is_idle(#[trigger] self.entries@[x].state, now, idle_ms)
                        ==> exists|j: int| 0 <= j < idxs.len() && idxs[j] == x,
                forall|j: int| 0 <= j < kept@.len() ==> !is_idle(#[trigger] kept@[j].state, now, idle_ms),
            decreases self.entries@.len() - i,
        {
            let state = self.entries[i].state;
            if elapsed_ms(state.last_access, now) < idle_ms {
                let e = Entry { key: self.entries[i].key.clone(), state };
                proof {
                    let prev = idxs;
                    idxs = idxs.push(i as int);
                    assert(idxs[prev.len() as int] == i as int);
                    assert forall|x: int|
                        0 <= x < i && !is_idle(#[trigger] self.entries@[x].state, now, idle_ms)
                            implies exists|j: int| 0 <= j < idxs.len() && idxs[j] == x by {
                        let j = choose|j: int| 0 <= j < prev.len() && prev[j] == x;
                        assert(idxs[j] == x);
                    }
                }
                kept.push(e);
            }
            i = i + 1;
        }
        proof {
            lemma_map_of_kept(self.entries@, kept@, idxs, now, idle_ms);
            assert forall|j: int| 0 <= j < kept@.len() implies (#[trigger] kept@[j]).state.wf(
                self.config,
            ) by {
                assert(kept@[j] == self.entries@[idxs[j]]);
            }
        }
        self.entries = kept;
    }
}

} // verus!
