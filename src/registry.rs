use vstd::prelude::*;
use std::collections::HashMap;
use vstd::std_specs::hash::{group_hash_axioms, spec_hash_map_iter};
use vstd::std_specs::iter::IteratorSpec;
use crate::ids::{parse_uuid, parsed_uuid};

verus! {

broadcast use group_hash_axioms;

/// Heartbeat timeout applied by [`heartbeat_monitor_system`], in milliseconds.
pub const HEARTBEAT_TIMEOUT_MS: u64 = 15000;

/// Time since `last`, in milliseconds, on a monotonic clock reading `now`.
pub open spec fn elapsed(now: u64, last: u64) -> int {
    if now >= last { now - last } else { 0 }
}

/// An entry is stale once more than `timeout` has passed since its last heartbeat.
pub open spec fn is_stale(last: u64, now: u64, timeout: u64) -> bool {
    elapsed(now, last) > timeout
}

/// The players of `m` whose entries are stale at `now`.
pub open spec fn stale_ids(m: Map<u128, u64>, now: u64, timeout: u64) -> Set<u128> {
    Set::new(|k: u128| m.contains_key(k) && is_stale(m[k], now, timeout))
}

/// The entries of `m` that a sweep at `now` keeps.
pub open spec fn swept(m: Map<u128, u64>, now: u64, timeout: u64) -> Map<u128, u64> {
    m.remove_keys(stale_ids(m, now, timeout))
}

pub open spec fn stale_pair<'a>(now: u64, timeout: u64) -> spec_fn((&'a u128, &'a u64)) -> bool {
    |p: (&'a u128, &'a u64)| is_stale(*p.1, now, timeout)
}

pub open spec fn keys_of<'a>(s: Seq<(&'a u128, &'a u64)>) -> Seq<u128> {
    s.map_values(|p: (&'a u128, &'a u64)| *p.0)
}

/// Players currently live: each player id maps to the time of its last
/// heartbeat, in milliseconds on a monotonic clock.
#[derive(Debug)]
pub struct ConnectedPlayers {
    pub players: HashMap<u128, u64>,
}

impl View for ConnectedPlayers {
    type V = Map<u128, u64>;

    open spec fn view(&self) -> Map<u128, u64> {
        self.players@
    }
}

/// One more element of `s` taken: the filtered prefix grows by it exactly when it passes.
pub proof fn lemma_filter_take_step<A>(s: Seq<A>, i: int, p: spec_fn(A) -> bool)
    requires
        0 <= i < s.len(),
    ensures
        s.take(i + 1).filter(p) == (if p(s[i]) {
            s.take(i).filter(p).push(s[i])
        } else {
            s.take(i).filter(p)
        }),
{
    reveal(Seq::filter);
    assert(s.take(i + 1).drop_last() =~= s.take(i));
    assert(s.take(i + 1).last() == s[i]);
}

/// Filtering keeps a sequence free of duplicates.
pub proof fn lemma_filter_no_duplicates<A>(s: Seq<A>, p: spec_fn(A) -> bool)
    requires
        s.no_duplicates(),
    ensures
        s.filter(p).no_duplicates(),
    decreases s.len(),
{
    reveal(Seq::filter);
    if s.len() > 0 {
        let init = s.drop_last();
        assert(init.no_duplicates());
        lemma_filter_no_duplicates(init, p);
        let f = init.filter(p);
        if p(s.last()) {
            if f.contains(s.last()) {
                init.lemma_filter_contains_rev(p, s.last());
                let j = choose|j: int| 0 <= j < init.len() && init[j] == s.last();
                assert(s[j] == s[s.len() - 1]);
            }
            assert(f.push(s.last()).no_duplicates());
        }
    }
}

/// The keys of the stale entries of a map, read off a sequence that lists
/// each of its entries once, are its stale ids, each once.
proof fn lemma_stale_keys<'a>(m: Map<u128, u64>, s: Seq<(&'a u128, &'a u64)>, now: u64, timeout: u64)
    requires
        s.no_duplicates(),
        forall|i: int| 0 <= i < s.len() ==> m.contains_key(*(#[trigger] s[i]).0) && m[*s[i].0] == *s[i].1,
        forall|k: u128| #[trigger] m.contains_key(k) ==> s.contains((&k, &m[k])),
    ensures
        keys_of(s.filter(stale_pair(now, timeout))).no_duplicates(),
        keys_of(s.filter(stale_pair(now, timeout))).to_set() == stale_ids(m, now, timeout),
{
    broadcast use Seq::lemma_filter_contains, Seq::lemma_filter_pred, Seq::lemma_filter_contains_rev;

    let f = s.filter(stale_pair(now, timeout));
    let ks = keys_of(f);
    assert forall|a: int, b: int| 0 <= a < b < ks.len() implies ks[a] != ks[b] by {
        assert(f.contains(f[a]));
        assert(f.contains(f[b]));
        assert(s.contains(f[a]));
        assert(s.contains(f[b]));
        if ks[a] == ks[b] {
            assert(f[a] == f[b]);
            lemma_filter_no_duplicates(s, stale_pair(now, timeout));
        }
    }
    assert forall|k: u128| ks.to_set().contains(k) <==> stale_ids(m, now, timeout).contains(k) by {
        if ks.to_set().contains(k) {
            let j = choose|j: int| 0 <= j < ks.len() && ks[j] == k;
            assert(f.contains(f[j]));
            assert(s.contains(f[j]));
            assert(stale_pair(now, timeout)(f[j]));
        }
        if stale_ids(m, now, timeout).contains(k) {
            assert(s.contains((&k, &m[k])));
            let i = choose|i: int| 0 <= i < s.len() && s[i] == (&k, &m[k]);
            assert(stale_pair(now, timeout)(s[i]));
            assert(f.contains(s[i]));
            let j = choose|j: int| 0 <= j < f.len() && f[j] == s[i];
            assert(ks[j] == k);
        }
    }
    assert(ks.to_set() =~= stale_ids(m, now, timeout));
}

impl ConnectedPlayers {
    pub fn new() -> (r: Self)
        ensures
            r@ == Map::<u128, u64>::empty(),
    {
        ConnectedPlayers { players: HashMap::new() }
    }

    /// Whether `player_id` has an entry.
    pub fn is_connected(&self, player_id: u128) -> (r: bool)
        ensures
            r == self@.contains_key(player_id),
    {
        self.players.contains_key(&player_id)
    }

    /// The time of the last heartbeat of `player_id`, where it has an entry.
    pub fn last_heartbeat(&self, player_id: u128) -> (r: Option<u64>)
        ensures
            r == (if self@.contains_key(player_id) {
                Some(self@[player_id])
            } else {
                None::<u64>
            }),
    {
        match self.players.get(&player_id) {
            Some(t) => Some(*t),
            None => None,
        }
    }

    /// Registers `player_id` with a heartbeat at `now`, refreshing its entry
    /// where it already has one.
    pub fn add_player(&mut self, player_id: u128, now: u64)
        ensures
            final(self)@ == old(self)@.insert(player_id, now),
    {
        self.players.insert(player_id, now);
    }

    /// Registers a player given the text of its id. Returns whether the text
    /// is a UUID; where it is not, nothing changes.
    pub fn add_player_string(&mut self, player_id: &str, now: u64) -> (r: bool)
        ensures
            r == parsed_uuid(player_id@) is Some,
            match parsed_uuid(player_id@) {
                Some(u) => final(self)@ == old(self)@.insert(u, now),
                None => final(self)@ == old(self)@,
            },
    {
        match parse_uuid(player_id) {
            Ok(id) => {
                self.add_player(id, now);
                true
            },
            Err(_) => false,
        }
    }

    /// Removes the entry of `player_id`, if any.
    pub fn remove_player(&mut self, player_id: u128)
        ensures
            final(self)@ == old(self)@.remove(player_id),
    {
        self.players.remove(&player_id);
    }

    /// Refreshes the heartbeat of `player_id` to `now`; does nothing where it
    /// has no entry.
    pub fn update_heartbeat(&mut self, player_id: u128, now: u64)
        ensures
            final(self)@ == (if old(self)@.contains_key(player_id) {
                old(self)@.insert(player_id, now)
            } else {
                old(self)@
            }),
    {
        if self.players.contains_key(&player_id) {
            self.players.insert(player_id, now);
        }
    }

    /// The ids whose last heartbeat is more than `timeout` before `now`, each
    /// once, in no particular order.
    pub fn check_timeouts(&self, timeout: u64, now: u64) -> (r: Vec<u128>)
        ensures
            r@.no_duplicates(),
            r@.to_set() == stale_ids(self@, now, timeout),
    {
        let mut out: Vec<u128> = Vec::new();
        for entry in it: self.players.iter()
            invariant
                it.seq() == IteratorSpec::remaining(&spec_hash_map_iter(&self.players)),
                out@ == keys_of(it.seq().take(it.index()).filter(stale_pair(now, timeout))),
        {
            proof {
                lemma_filter_take_step(it.seq(), it.index(), stale_pair(now, timeout));
            }
            let (k, v) = entry;
            let ghost prev = out@;
            if now >= *v && now - *v > timeout {
                out.push(*k);
                assert(out@ =~= keys_of(it.seq().take(it.index() + 1).filter(stale_pair(now, timeout))));
            } else {
                assert(out@ =~= keys_of(it.seq().take(it.index() + 1).filter(stale_pair(now, timeout))));
            }
        }
        proof {
            let s = IteratorSpec::remaining(&spec_hash_map_iter(&self.players));
            assert(s.take(s.len() as int) =~= s);
            lemma_stale_keys(self@, s, now, timeout);
        }
        out
    }

    /// Removes every entry whose last heartbeat is more than `timeout` before
    /// `now`, and returns the evicted ids, each once.
    pub fn sweep(&mut self, timeout: u64, now: u64) -> (r: Vec<u128>)
        ensures
            final(self)@ == swept(old(self)@, now, timeout),
            r@.no_duplicates(),
            r@.to_set() == stale_ids(old(self)@, now, timeout),
    {
        let stale = self.check_timeouts(timeout, now);
        let mut i: usize = 0;
        while i < stale.len()
            invariant
                i <= stale@.len(),
                self@ == old(self)@.remove_keys(stale@.take(i as int).to_set()),
            decreases stale@.len() - i,
        {
            self.players.remove(&stale[i]);
            assert(stale@.take(i + 1) =~= stale@.take(i as int).push(stale@[i as int]));
            proof { stale@.take(i as int).lemma_push_to_set_commute(stale@[i as int]); }
            assert(self@ =~= old(self)@.remove_keys(stale@.take(i + 1).to_set()));
            i += 1;
        }
        assert(stale@.take(stale@.len() as int) =~= stale@);
        stale
    }
}

/// One run of the periodic liveness check: evicts every player silent for
/// longer than [`HEARTBEAT_TIMEOUT_MS`] and returns the evicted ids.
pub fn heartbeat_monitor_system(connected_players: &mut ConnectedPlayers, now: u64) -> (r: Vec<u128>)
    ensures
        final(connected_players)@ == swept(old(connected_players)@, now, HEARTBEAT_TIMEOUT_MS),
        r@.no_duplicates(),
        r@.to_set() == stale_ids(old(connected_players)@, now, HEARTBEAT_TIMEOUT_MS),
{
    connected_players.sweep(HEARTBEAT_TIMEOUT_MS, now)
}

/// A player registered at `at` survives a sweep at `now` while less than
/// `timeout` has passed, and is evicted, and reported, once more than
/// `timeout` has.
pub proof fn lemma_sweep_after_register(m: Map<u128, u64>, x: u128, at: u64, now: u64, timeout: u64)
    ensures
        elapsed(now, at) < timeout ==> swept(m.insert(x, at), now, timeout).contains_key(x),
        elapsed(now, at) > timeout ==> !swept(m.insert(x, at), now, timeout).contains_key(x),
        elapsed(now, at) > timeout ==> stale_ids(m.insert(x, at), now, timeout).contains(x),
{
    let m2 = m.insert(x, at);
    assert(m2.contains_key(x) && m2[x] == at);
}

} // verus!
