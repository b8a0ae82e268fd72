//! A time-bounded record of the delivery ids that were seen recently.
//!
//! The cache has no clock of its own: every operation takes the current
//! instant, in milliseconds on a clock that never runs backwards.

use vstd::prelude::*;
use crate::bytes::bytes_eq;
use crate::held::{
    held, lemma_held_at, lemma_held_kept, lemma_held_position, lemma_held_push, take_kept,
};

verus! {

/// One remembered delivery: its id and the last instant at which it still
/// counts as seen.
struct DedupEntry {
    id: Vec<u8>,
    expires_at: u64,
}

/// The deliveries remembered by the cache.
pub struct DedupCache {
    entries: Vec<DedupEntry>,
}

/// The last instant at which a delivery recorded at `now` with time-to-live
/// `ttl` is still seen. The sum saturates at the end of the clock.
pub open spec fn deadline(now: u64, ttl: u64) -> u64 {
    if now + ttl > u64::MAX {
        u64::MAX
    } else {
        (now + ttl) as u64
    }
}

/// Whether `id` is remembered in `records` and has not expired at `now`.
pub open spec fn live(records: Set<(Seq<u8>, u64)>, id: Seq<u8>, now: u64) -> bool {
    exists|until: u64| #[trigger] records.contains((id, until)) && now <= until
}

/// What is left of `records` after everything that expired before `now` is dropped.
pub open spec fn unexpired(records: Set<(Seq<u8>, u64)>, now: u64) -> Set<(Seq<u8>, u64)> {
    records.filter(|e: (Seq<u8>, u64)| now <= e.1)
}

/// The record that an entry holds.
spec fn record_of(entry: DedupEntry) -> (Seq<u8>, u64) {
    (entry.id@, entry.expires_at)
}

/// The records held by a list of entries.
spec fn records_of(entries: Seq<DedupEntry>) -> Set<(Seq<u8>, u64)> {
    held(entries, |entry: DedupEntry| record_of(entry))
}

impl DedupCache {
    /// The remembered deliveries, each as its id and the last instant at
    /// which it still counts as seen.
    pub closed spec fn view(&self) -> Set<(Seq<u8>, u64)> {
        records_of(self.entries@)
    }

    /// A cache that remembers nothing.
    pub fn new() -> (cache: Self)
        ensures
            cache@ == Set::<(Seq<u8>, u64)>::empty(),
    {
        let cache = DedupCache { entries: Vec::new() };
        assert(cache@ =~= Set::empty());
        cache
    }

    /// Whether `id` was recorded and has not expired at `now`.
    pub fn seen(&self, id: &[u8], now: u64) -> (found: bool)
        ensures
            found == live(self@, id@, now),
    {
        let mut i: usize = 0;
        while i < self.entries.len()
            invariant
                i <= self.entries@.len(),
                forall|j: int|
                    0 <= j < i ==> !((#[trigger] self.entries@[j]).id@ == id@ && now
                        <= self.entries@[j].expires_at),
            decreases self.entries@.len() - i,
        {
            if now <= self.entries[i].expires_at && bytes_eq(self.entries[i].id.as_slice(), id) {
                proof {
                    lemma_held_at(self.entries@, |entry: DedupEntry| record_of(entry), i as int);
                }
                return true;
            }
            i += 1;
        }
        proof {
            if live(self@, id@, now) {
                let until = choose|until: u64| #[trigger]
                    self@.contains((id@, until)) && now <= until;
                let at = lemma_held_position(
                    self.entries@,
                    |entry: DedupEntry| record_of(entry),
                    (id@, until),
                );
                assert(false);
            }
        }
        false
    }

    /// Remembers `id` until `ttl` milliseconds after `now`.
    pub fn record(&mut self, id: Vec<u8>, now: u64, ttl: u64)
        ensures
            final(self)@ == old(self)@.insert((id@, deadline(now, ttl))),
            forall|later: u64| later <= deadline(now, ttl) ==> live(final(self)@, id@, later),
    {
        let ghost key = id@;
        let entry = DedupEntry { id, expires_at: now.saturating_add(ttl) };
        proof {
            lemma_held_push(self.entries@, entry, |entry: DedupEntry| record_of(entry));
        }
        self.entries.push(entry);
        proof {
            assert(self@.contains((key, deadline(now, ttl))));
        }
    }

    /// Remembers `id` unless it is already live, in one step. Says whether the
    /// id was new, that is whether the delivery is to be processed.
    pub fn record_if_absent(&mut self, id: &[u8], now: u64, ttl: u64) -> (fresh: bool)
        ensures
            fresh == !live(old(self)@, id@, now),
            fresh ==> final(self)@ == old(self)@.insert((id@, deadline(now, ttl))),
            !fresh ==> final(self)@ == old(self)@,
    {
        if self.seen(id, now) {
            false
        } else {
            self.record(crate::bytes::to_vec(id), now, ttl);
            true
        }
    }

    /// Drops every record that expired before `now`. What is seen at `now`
    /// or later stays as it is.
    pub fn sweep(&mut self, now: u64)
        ensures
            final(self)@ == unexpired(old(self)@, now),
            forall|id: Seq<u8>, later: u64|
                now <= later ==> live(final(self)@, id, later) == live(old(self)@, id, later),
    {
        proof {
            assert forall|id: Seq<u8>, later: u64| now <= later implies live(
                unexpired(self@, now),
                id,
                later,
            ) == live(self@, id, later) by {
                lemma_sweep_keeps_live(self@, id, now, later);
            }
        }
        let ghost before = self.entries@;
        let unexpired_yet = |entry: &DedupEntry| -> (yes: bool)
            ensures
                yes == (now <= entry.expires_at),
            { now <= entry.expires_at };
        let kept = take_kept(
            &mut self.entries,
            unexpired_yet,
            Ghost(|entry: DedupEntry| now <= entry.expires_at),
        );
        proof {
            lemma_held_kept(
                before,
                kept@,
                |entry: DedupEntry| record_of(entry),
                |entry: DedupEntry| now <= entry.expires_at,
                |e: (Seq<u8>, u64)| now <= e.1,
            );
        }
        self.entries = kept;
    }
}

/// A delivery that was recorded at `now` is seen at every instant from then to
/// its deadline, so a redelivery within the time-to-live is a duplicate.
pub proof fn lemma_redelivery_is_seen(
    records: Set<(Seq<u8>, u64)>,
    id: Seq<u8>,
    now: u64,
    ttl: u64,
    later: u64,
)
    requires
        later <= deadline(now, ttl),
    ensures
        live(records.insert((id, deadline(now, ttl))), id, later),
{
    assert(records.insert((id, deadline(now, ttl))).contains((id, deadline(now, ttl))));
}

/// A delivery that was new when it was recorded at `now` is new again at every
/// instant after its deadline.
pub proof fn lemma_expired_is_new(
    records: Set<(Seq<u8>, u64)>,
    id: Seq<u8>,
    now: u64,
    ttl: u64,
    later: u64,
)
    requires
        !live(records, id, now),
        deadline(now, ttl) < later,
    ensures
        !live(records.insert((id, deadline(now, ttl))), id, later),
{
    let after = records.insert((id, deadline(now, ttl)));
    if live(after, id, later) {
        let until = choose|until: u64| #[trigger] after.contains((id, until)) && later <= until;
        assert(records.contains((id, until)));
        assert(false);
    }
}

/// A sweep at `swept_at` changes nothing of what is seen at `swept_at` or later:
/// whenever the sweep runs, the same deliveries are duplicates.
pub proof fn lemma_sweep_keeps_live(
    records: Set<(Seq<u8>, u64)>,
    id: Seq<u8>,
    swept_at: u64,
    now: u64,
)
    requires
        swept_at <= now,
    ensures
        live(unexpired(records, swept_at), id, now) == live(records, id, now),
{
    let swept = unexpired(records, swept_at);
    if live(records, id, now) {
        let until = choose|until: u64| #[trigger] records.contains((id, until)) && now <= until;
        assert(swept.contains((id, until)));
    }
    if live(swept, id, now) {
        let until = choose|until: u64| #[trigger] swept.contains((id, until)) && now <= until;
        assert(records.contains((id, until)));
    }
}

} // verus!
