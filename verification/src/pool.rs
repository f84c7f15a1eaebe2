use vstd::prelude::*;

use crate::models::Cell;

verus! {

/// Someone waiting in the matchmaking pool: their setup, the identifier they
/// poll with, and when they entered (milliseconds on a monotonic clock).
pub struct PoolEntry {
    pub setup: Vec<Vec<Cell>>,
    pub poll_id: String,
    pub created_at: u64,
}

/// Two players paired by the pool, each waiting to confirm by polling once
/// more: the first one in the pool plays red, the one who joined plays blue.
pub struct PendingMatch {
    pub red_setup: Vec<Vec<Cell>>,
    pub blue_setup: Vec<Vec<Cell>>,
    pub red_poll_id: String,
    pub blue_poll_id: String,
    pub red_confirmed: bool,
    pub blue_confirmed: bool,
    pub created_at: u64,
}

/// The matchmaking pool: players waiting for an opponent, oldest first, and
/// pairs waiting for both players to confirm.
pub struct PoolState {
    pub entries: Vec<PoolEntry>,
    pub pending: Vec<PendingMatch>,
}

/// An entry is dropped when it has not been polled for this long (ms).
pub const STALE_AFTER_MS: u64 = 10000;

/// A pairing is dropped when both players have not confirmed within this
/// long (ms).
pub const CONFIRM_TIMEOUT_MS: u64 = 5000;

/// Time passed from `since` to `now`; zero if `now` is earlier.
pub open spec fn elapsed(now: u64, since: u64) -> int {
    if now >= since {
        now - since
    } else {
        0
    }
}

fn elapsed_ms(now: u64, since: u64) -> (res: u64)
    ensures
        res == elapsed(now, since),
{
    if now >= since {
        now - since
    } else {
        0
    }
}

/// An entry is still alive: its last poll (or, if it never polled, its
/// arrival) is less than `STALE_AFTER_MS` ago.
pub open spec fn entry_fresh(e: PoolEntry, last_polled: Option<u64>, now: u64) -> bool {
    let since = match last_polled {
        Some(t) => t,
        None => e.created_at,
    };
    elapsed(now, since) < STALE_AFTER_MS
}

/// The entries that are still alive, in their order; `last_polled[i]` is
/// when entry `i` last polled, if ever.
pub open spec fn fresh_entries(entries: Seq<PoolEntry>, last_polled: Seq<Option<u64>>, now: u64) -> Seq<
    PoolEntry,
>
    decreases entries.len(),
{
    if entries.len() == 0 {
        Seq::empty()
    } else {
        let rest = fresh_entries(entries.drop_last(), last_polled.drop_last(), now);
        if entry_fresh(entries.last(), last_polled.last(), now) {
            rest.push(entries.last())
        } else {
            rest
        }
    }
}

/// A pairing that has waited too long for its confirmations.
pub open spec fn match_expired(pm: PendingMatch, now: u64) -> bool {
    elapsed(now, pm.created_at) >= CONFIRM_TIMEOUT_MS
}

/// The pairings that have not expired, in their order.
pub open spec fn live_matches(pending: Seq<PendingMatch>, now: u64) -> Seq<PendingMatch>
    decreases pending.len(),
{
    if pending.len() == 0 {
        Seq::empty()
    } else {
        let rest = live_matches(pending.drop_last(), now);
        if !match_expired(pending.last(), now) {
            rest.push(pending.last())
        } else {
            rest
        }
    }
}

/// An expired pairing where exactly one player confirmed puts that player
/// back into the pool (arriving `now`); `None` otherwise.
pub open spec fn requeued_entry(pm: PendingMatch, now: u64) -> Option<PoolEntry> {
    if pm.red_confirmed && !pm.blue_confirmed {
        Some(PoolEntry { setup: pm.red_setup, poll_id: pm.red_poll_id, created_at: now })
    } else if pm.blue_confirmed && !pm.red_confirmed {
        Some(PoolEntry { setup: pm.blue_setup, poll_id: pm.blue_poll_id, created_at: now })
    } else {
        None
    }
}

/// The players put back into the pool by expired pairings, in order.
pub open spec fn requeued(pending: Seq<PendingMatch>, now: u64) -> Seq<PoolEntry>
    decreases pending.len(),
{
    if pending.len() == 0 {
        Seq::empty()
    } else {
        let rest = requeued(pending.drop_last(), now);
        if match_expired(pending.last(), now) {
            match requeued_entry(pending.last(), now) {
                Some(e) => rest.push(e),
                None => rest,
            }
        } else {
            rest
        }
    }
}

/// The pairing waits for `poll_id` and the other player has confirmed.
pub open spec fn ready_for(pm: PendingMatch, poll_id: Seq<char>) -> bool {
    (pm.red_poll_id@ == poll_id && pm.blue_confirmed) || (pm.blue_poll_id@ == poll_id
        && pm.red_confirmed)
}

/// The pairing involves `poll_id`.
pub open spec fn involves(pm: PendingMatch, poll_id: Seq<char>) -> bool {
    pm.red_poll_id@ == poll_id || pm.blue_poll_id@ == poll_id
}

/// The pairing with the confirmation of `poll_id` noted (red's if it is the
/// red player's identifier, else blue's).
pub open spec fn confirmed_by(pm: PendingMatch, poll_id: Seq<char>) -> PendingMatch {
    if pm.red_poll_id@ == poll_id {
        PendingMatch { red_confirmed: true, ..pm }
    } else {
        PendingMatch { blue_confirmed: true, ..pm }
    }
}

/// The entries without those of `poll_id`.
pub open spec fn entries_without(entries: Seq<PoolEntry>, poll_id: Seq<char>) -> Seq<PoolEntry>
    decreases entries.len(),
{
    if entries.len() == 0 {
        Seq::empty()
    } else {
        let rest = entries_without(entries.drop_last(), poll_id);
        if entries.last().poll_id@ != poll_id {
            rest.push(entries.last())
        } else {
            rest
        }
    }
}

/// The pairings without those that involve `poll_id`.
pub open spec fn matches_without(pending: Seq<PendingMatch>, poll_id: Seq<char>) -> Seq<
    PendingMatch,
>
    decreases pending.len(),
{
    if pending.len() == 0 {
        Seq::empty()
    } else {
        let rest = matches_without(pending.drop_last(), poll_id);
        if !involves(pending.last(), poll_id) {
            rest.push(pending.last())
        } else {
            rest
        }
    }
}

/// The waiting entries after a player with `setup` and `poll_id` enters:
/// the oldest live entry is taken out to be paired if there is one,
/// otherwise the newcomer waits alone.
pub open spec fn joined_entries(
    entries: Seq<PoolEntry>,
    last_polled: Seq<Option<u64>>,
    setup: Vec<Vec<Cell>>,
    poll_id: String,
    now: u64,
) -> Seq<PoolEntry> {
    let waiting = fresh_entries(entries, last_polled, now);
    if waiting.len() > 0 {
        waiting.drop_first()
    } else {
        seq![PoolEntry { setup: setup, poll_id: poll_id, created_at: now }]
    }
}

/// The pairings after a player with `setup` and `poll_id` enters: the
/// oldest live entry, if any, is paired with the newcomer (oldest plays red).
pub open spec fn joined_pending(
    entries: Seq<PoolEntry>,
    pending: Seq<PendingMatch>,
    last_polled: Seq<Option<u64>>,
    setup: Vec<Vec<Cell>>,
    poll_id: String,
    now: u64,
) -> Seq<PendingMatch> {
    let waiting = fresh_entries(entries, last_polled, now);
    if waiting.len() > 0 {
        pending.push(
            PendingMatch {
                red_setup: waiting[0].setup,
                blue_setup: setup,
                red_poll_id: waiting[0].poll_id,
                blue_poll_id: poll_id,
                red_confirmed: false,
                blue_confirmed: false,
                created_at: now,
            },
        )
    } else {
        pending
    }
}

/// An empty entry, to stand in a vector while its entry is taken out.
fn placeholder_entry() -> (res: PoolEntry)
    ensures
        res.setup@.len() == 0,
        res.poll_id@.len() == 0,
        res.created_at == 0,
{
    PoolEntry { setup: Vec::new(), poll_id: String::new(), created_at: 0 }
}

/// An empty pairing, to stand in a vector while its pairing is taken out.
fn placeholder_match() -> (res: PendingMatch)
    ensures
        res.red_setup@.len() == 0,
        res.blue_setup@.len() == 0,
        res.red_poll_id@.len() == 0,
        res.blue_poll_id@.len() == 0,
        !res.red_confirmed,
        !res.blue_confirmed,
        res.created_at == 0,
{
    PendingMatch {
        red_setup: Vec::new(),
        blue_setup: Vec::new(),
        red_poll_id: String::new(),
        blue_poll_id: String::new(),
        red_confirmed: false,
        blue_confirmed: false,
        created_at: 0,
    }
}

impl PoolState {
    /// An empty pool.
    pub fn new() -> (res: PoolState)
        ensures
            res.entries@.len() == 0,
            res.pending@.len() == 0,
    {
        PoolState { entries: Vec::new(), pending: Vec::new() }
    }

    /// Drop the entries that have not polled for `STALE_AFTER_MS`;
    /// `last_polled[i]` is when entry `i` last polled, if ever.
    pub fn remove_stale(&mut self, last_polled: &Vec<Option<u64>>, now: u64)
        requires
            last_polled@.len() == old(self).entries@.len(),
        ensures
            final(self).entries@ == fresh_entries(old(self).entries@, last_polled@, now),
            final(self).pending == old(self).pending,
    {
        let mut old_entries: Vec<PoolEntry> = Vec::new();
        std::mem::swap(&mut self.entries, &mut old_entries);
        let ghost orig = old_entries@;
        let n = old_entries.len();
        let mut i: usize = 0;
        while i < n
            invariant
                n == orig.len(),
                last_polled@.len() == n,
                i <= n,
                old_entries@.len() == n,
                forall|j: int| i <= j < n ==> #[trigger] old_entries@[j] == orig[j],
                self.entries@ == fresh_entries(
                    orig.subrange(0, i as int),
                    last_polled@.subrange(0, i as int),
                    now,
                ),
                self.pending == old(self).pending,
            decreases n - i,
        {
            assert(orig.subrange(0, i + 1).drop_last() =~= orig.subrange(0, i as int));
            assert(last_polled@.subrange(0, i + 1).drop_last() =~= last_polled@.subrange(
                0,
                i as int,
            ));
            let mut e = placeholder_entry();
            old_entries.set_and_swap(i, &mut e);
            let since = match last_polled[i] {
                Some(t) => t,
                None => e.created_at,
            };
            if elapsed_ms(now, since) < STALE_AFTER_MS {
                self.entries.push(e);
            }
            i = i + 1;
        }
        assert(orig.subrange(0, n as int) =~= orig);
        assert(last_polled@.subrange(0, n as int) =~= last_polled@);
    }

    /// A player enters the pool with `setup` and identifier `poll_id`:
    /// stale entries are dropped first; if someone is still waiting, the
    /// oldest of them is paired with the newcomer (oldest plays red),
    /// otherwise the newcomer waits.
    pub fn join(
        &mut self,
        setup: Vec<Vec<Cell>>,
        poll_id: String,
        last_polled: &Vec<Option<u64>>,
        now: u64,
    )
        requires
            last_polled@.len() == old(self).entries@.len(),
        ensures
            final(self).entries@ == joined_entries(old(self).entries@, last_polled@, setup, poll_id, now),
            final(self).pending@ == joined_pending(
                old(self).entries@,
                old(self).pending@,
                last_polled@,
                setup,
                poll_id,
                now,
            ),
    {
        self.remove_stale(last_polled, now);
        if self.entries.len() > 0 {
            // Tentative match: both players must confirm with one more poll
            let oldest = self.entries.remove(0);
            assert(self.entries@ =~= fresh_entries(old(self).entries@, last_polled@, now).drop_first());
            self.pending.push(
                PendingMatch {
                    red_setup: oldest.setup,
                    blue_setup: setup,
                    red_poll_id: oldest.poll_id,
                    blue_poll_id: poll_id,
                    red_confirmed: false,
                    blue_confirmed: false,
                    created_at: now,
                },
            );
        } else {
            // Empty pool: become the host
            self.entries.push(PoolEntry { setup, poll_id, created_at: now });
            assert(self.entries@ =~= seq![
                PoolEntry { setup: setup, poll_id: poll_id, created_at: now },
            ]);
        }
    }

    /// Drop the pairings that waited `CONFIRM_TIMEOUT_MS` for their
    /// confirmations, putting back into the pool a player who confirmed
    /// alone.
    pub fn expire_matches(&mut self, now: u64)
        ensures
            final(self).pending@ == live_matches(old(self).pending@, now),
            final(self).entries@ == old(self).entries@ + requeued(old(self).pending@, now),
    {
        let mut old_pending: Vec<PendingMatch> = Vec::new();
        std::mem::swap(&mut self.pending, &mut old_pending);
        let ghost orig = old_pending@;
        let n = old_pending.len();
        let mut i: usize = 0;
        while i < n
            invariant
                n == orig.len(),
                i <= n,
                old_pending@.len() == n,
                forall|j: int| i <= j < n ==> #[trigger] old_pending@[j] == orig[j],
                self.pending@ == live_matches(orig.subrange(0, i as int), now),
                self.entries@ == old(self).entries@ + requeued(orig.subrange(0, i as int), now),
            decreases n - i,
        {
            assert(orig.subrange(0, i + 1).drop_last() =~= orig.subrange(0, i as int));
            let mut pm = placeholder_match();
            old_pending.set_and_swap(i, &mut pm);
            if elapsed_ms(now, pm.created_at) < CONFIRM_TIMEOUT_MS {
                self.pending.push(pm);
            } else if pm.red_confirmed && !pm.blue_confirmed {
                self.entries.push(
                    PoolEntry { setup: pm.red_setup, poll_id: pm.red_poll_id, created_at: now },
                );
            } else if pm.blue_confirmed && !pm.red_confirmed {
                self.entries.push(
                    PoolEntry { setup: pm.blue_setup, poll_id: pm.blue_poll_id, created_at: now },
                );
            }
            i = i + 1;
        }
        assert(orig.subrange(0, n as int) =~= orig);
    }

    /// A poll from `poll_id` on live pairings: the first pairing that waits
    /// for `poll_id` and whose other player has confirmed is removed and
    /// returned (the game can now be created); otherwise the first pairing
    /// that involves `poll_id` notes its confirmation.
    pub fn confirm(&mut self, poll_id: &String) -> (res: Option<PendingMatch>)
        ensures
            final(self).entries == old(self).entries,
            ({
                let p = old(self).pending@;
                match res {
                    Some(pm) => exists|k: int|
                        0 <= k < p.len() && ready_for(p[k], poll_id@) && (forall|j: int|
                            0 <= j < k ==> !ready_for(#[trigger] p[j], poll_id@)) && pm == p[k]
                            && final(self).pending@ == p.remove(k),
                    None => (forall|k: int| 0 <= k < p.len() ==> !ready_for(#[trigger] p[k], poll_id@))
                        && ((exists|m: int|
                        0 <= m < p.len() && involves(p[m], poll_id@) && (forall|j: int|
                            0 <= j < m ==> !involves(#[trigger] p[j], poll_id@))
                            && final(self).pending@ == p.update(m, confirmed_by(p[m], poll_id@))) || (
                        (forall|m: int| 0 <= m < p.len() ==> !involves(#[trigger] p[m], poll_id@))
                            && final(self).pending == old(self).pending)),
                }
            }),
    {
        let n = self.pending.len();
        let mut k: usize = 0;
        while k < n
            invariant
                n == self.pending@.len(),
                self.pending == old(self).pending,
                self.entries == old(self).entries,
                k <= n,
                forall|j: int| 0 <= j < k ==> !ready_for(#[trigger] self.pending@[j], poll_id@),
            decreases n - k,
        {
            let pm = &self.pending[k];
            let is_red = pm.red_poll_id == *poll_id;
            let is_blue = pm.blue_poll_id == *poll_id;
            if (is_red && pm.blue_confirmed) || (is_blue && pm.red_confirmed) {
                // Both confirmed: hand the pairing over for game creation
                let found = self.pending.remove(k);
                return Some(found);
            }
            k = k + 1;
        }

        // Not yet both confirmed: mark our side
        let mut m: usize = 0;
        while m < n
            invariant
                n == self.pending@.len(),
                self.pending == old(self).pending,
                self.entries == old(self).entries,
                m <= n,
                forall|k: int| 0 <= k < n ==> !ready_for(#[trigger] self.pending@[k], poll_id@),
                forall|j: int| 0 <= j < m ==> !involves(#[trigger] self.pending@[j], poll_id@),
            decreases n - m,
        {
            let is_red = self.pending[m].red_poll_id == *poll_id;
            let is_blue = self.pending[m].blue_poll_id == *poll_id;
            if is_red || is_blue {
                let ghost p = self.pending@;
                let mut pm = placeholder_match();
                self.pending.set_and_swap(m, &mut pm);
                if is_red {
                    pm.red_confirmed = true;
                } else {
                    pm.blue_confirmed = true;
                }
                self.pending.set(m, pm);
                assert(self.pending@ =~= p.update(m as int, confirmed_by(p[m as int], poll_id@)));
                return None;
            }
            m = m + 1;
        }
        None
    }

    /// A poll from `poll_id`: expired pairings go first (a player who
    /// confirmed alone goes back into the pool), then the poll confirms as
    /// `confirm` says. Returns the pairing that is complete, if any.
    pub fn poll(&mut self, poll_id: &String, now: u64) -> (res: Option<PendingMatch>)
        ensures
            final(self).entries@ == old(self).entries@ + requeued(old(self).pending@, now),
            ({
                let p = live_matches(old(self).pending@, now);
                match res {
                    Some(pm) => exists|k: int|
                        0 <= k < p.len() && ready_for(p[k], poll_id@) && (forall|j: int|
                            0 <= j < k ==> !ready_for(#[trigger] p[j], poll_id@)) && pm == p[k]
                            && final(self).pending@ == p.remove(k),
                    None => (forall|k: int| 0 <= k < p.len() ==> !ready_for(#[trigger] p[k], poll_id@))
                        && ((exists|m: int|
                        0 <= m < p.len() && involves(p[m], poll_id@) && (forall|j: int|
                            0 <= j < m ==> !involves(#[trigger] p[j], poll_id@))
                            && final(self).pending@ == p.update(m, confirmed_by(p[m], poll_id@))) || (
                        (forall|m: int| 0 <= m < p.len() ==> !involves(#[trigger] p[m], poll_id@))
                            && final(self).pending@ == p)),
                }
            }),
    {
        self.expire_matches(now);
        self.confirm(poll_id)
    }

    /// A player leaves the pool: every entry and pairing with `poll_id`
    /// goes.
    pub fn leave(&mut self, poll_id: &String)
        ensures
            final(self).entries@ == entries_without(old(self).entries@, poll_id@),
            final(self).pending@ == matches_without(old(self).pending@, poll_id@),
    {
        let mut old_entries: Vec<PoolEntry> = Vec::new();
        std::mem::swap(&mut self.entries, &mut old_entries);
        let ghost orig = old_entries@;
        let n = old_entries.len();
        let mut i: usize = 0;
        while i < n
            invariant
                n == orig.len(),
                i <= n,
                old_entries@.len() == n,
                forall|j: int| i <= j < n ==> #[trigger] old_entries@[j] == orig[j],
                self.entries@ == entries_without(orig.subrange(0, i as int), poll_id@),
                self.pending == old(self).pending,
            decreases n - i,
        {
            assert(orig.subrange(0, i + 1).drop_last() =~= orig.subrange(0, i as int));
            let mut e = placeholder_entry();
            old_entries.set_and_swap(i, &mut e);
            if e.poll_id != *poll_id {
                self.entries.push(e);
            }
            i = i + 1;
        }
        assert(orig.subrange(0, n as int) =~= orig);

        let mut old_pending: Vec<PendingMatch> = Vec::new();
        std::mem::swap(&mut self.pending, &mut old_pending);
        let ghost origp = old_pending@;
        let np = old_pending.len();
        let mut k: usize = 0;
        while k < np
            invariant
                np == origp.len(),
                k <= np,
                old_pending@.len() == np,
                forall|j: int| k <= j < np ==> #[trigger] old_pending@[j] == origp[j],
                self.pending@ == matches_without(origp.subrange(0, k as int), poll_id@),
                self.entries@ == entries_without(orig, poll_id@),
            decreases np - k,
        {
            assert(origp.subrange(0, k + 1).drop_last() =~= origp.subrange(0, k as int));
            let mut pm = placeholder_match();
            old_pending.set_and_swap(k, &mut pm);
            if pm.red_poll_id != *poll_id && pm.blue_poll_id != *poll_id {
                self.pending.push(pm);
            }
            k = k + 1;
        }
        assert(origp.subrange(0, np as int) =~= origp);
    }
}

} // verus!
