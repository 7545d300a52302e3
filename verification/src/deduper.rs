use vstd::prelude::*;

verus! {

use crate::{Milliseconds, TimestampMillis};

/// The dedup window used when none is chosen: one hour.
pub const DEFAULT_WINDOW_DURATION: Milliseconds = 3_600_000;

/// `a - b`, stopping at zero.
pub open spec fn sat_sub(a: u64, b: u64) -> u64 {
    if a >= b { (a - b) as u64 } else { 0 }
}

/// Bounded time-windowed record of recently accepted idempotency tokens.
///
/// A token is remembered together with the time it was first accepted, and is
/// forgotten once pruning runs and its age exceeds the window. Pruning is
/// opportunistic: it runs at most once per half-window. Reuse of a token after
/// the window has rolled past is therefore not detected; that is the intended
/// bounded-memory-over-exactness tradeoff.
pub struct EventDeduper {
    window_duration: Milliseconds,
    recently_added: Vec<(u128, TimestampMillis)>,
    recently_added_last_pruned: TimestampMillis,
}

/// Whether a token equal to `key` stands somewhere in `entries`.
pub open spec fn has_token(entries: Seq<(u128, TimestampMillis)>, key: u128) -> bool {
    exists|i: int| 0 <= i < entries.len() && entries[i].0 == key
}

/// The entries young enough to survive a prune at time `now`: those whose
/// first-seen time lies strictly inside the window, in their original order.
pub open spec fn surviving(
    entries: Seq<(u128, TimestampMillis)>,
    now: TimestampMillis,
    window: Milliseconds,
) -> Seq<(u128, TimestampMillis)>
    decreases entries.len(),
{
    if entries.len() == 0 {
        Seq::empty()
    } else {
        let rest = surviving(entries.drop_last(), now, window);
        if entries.last().1 > sat_sub(now, window) {
            rest.push(entries.last())
        } else {
            rest
        }
    }
}

impl EventDeduper {
    /// The recorded (token, first-seen time) pairs, oldest first.
    pub closed spec fn entries(&self) -> Seq<(u128, TimestampMillis)> {
        self.recently_added@
    }

    /// The configured window length.
    pub closed spec fn window(&self) -> Milliseconds {
        self.window_duration
    }

    /// When pruning last ran.
    pub closed spec fn last_pruned(&self) -> TimestampMillis {
        self.recently_added_last_pruned
    }

    /// No token is recorded twice.
    pub open spec fn wf(&self) -> bool {
        forall|i: int, j: int|
            0 <= i < j < self.entries().len() ==> self.entries()[i].0 != self.entries()[j].0
    }

    /// Whether a call at time `now` runs the opportunistic prune first.
    pub open spec fn due_for_prune(&self, now: TimestampMillis) -> bool {
        sat_sub(now, self.last_pruned()) > self.window() / 2
    }

    pub fn new(window_duration: Milliseconds) -> (r: EventDeduper)
        ensures
            r.entries() == Seq::<(u128, TimestampMillis)>::empty(),
            r.window() == window_duration,
            r.last_pruned() == 0,
            r.wf(),
    {
        let r = EventDeduper {
            window_duration,
            recently_added: Vec::new(),
            recently_added_last_pruned: 0,
        };
        assert(r.entries() =~= Seq::<(u128, TimestampMillis)>::empty());
        r
    }

    /// Records `key` as accepted at `now` unless it is already recorded, and
    /// returns whether it was newly recorded. A prune runs first when one is
    /// due, so a token whose record has aged out of the window is accepted
    /// again.
    pub fn try_push(&mut self, key: u128, now: TimestampMillis) -> (r: bool)
        requires
            old(self).wf(),
        ensures
            final(self).wf(),
            final(self).window() == old(self).window(),
            ({
                let kept = if old(self).due_for_prune(now) {
                    surviving(old(self).entries(), now, old(self).window())
                } else {
                    old(self).entries()
                };
                &&& r == !has_token(kept, key)
                &&& final(self).entries() == if r { kept.push((key, now)) } else { kept }
                &&& final(self).last_pruned() == if old(self).due_for_prune(now) {
                    now
                } else {
                    old(self).last_pruned()
                }
            }),
    {
        self.prune_if_due(now);
        let ghost kept = self.entries();

        let n = self.recently_added.len();
        let mut i: usize = 0;
        while i < n
            invariant
                self.wf(),
                self.window() == old(self).window(),
                self.entries() == kept,
                kept == if old(self).due_for_prune(now) {
                    surviving(old(self).entries(), now, old(self).window())
                } else {
                    old(self).entries()
                },
                self.last_pruned() == if old(self).due_for_prune(now) {
                    now
                } else {
                    old(self).last_pruned()
                },
                n == self.recently_added.len(),
                0 <= i <= n,
                forall|j: int| 0 <= j < i ==> self.entries()[j].0 != key,
            decreases n - i,
        {
            if self.recently_added[i].0 == key {
                return false;
            }
            i += 1;
        }
        assert(!has_token(self.entries(), key));
        self.recently_added.push((key, now));
        assert(self.entries() =~= kept.push((key, now)));
        true
    }

    pub fn is_empty(&self) -> (r: bool)
        ensures
            r == (self.entries().len() == 0),
    {
        self.recently_added.len() == 0
    }

    pub fn len(&self) -> (r: usize)
        ensures
            r == self.entries().len(),
    {
        self.recently_added.len()
    }

    /// Runs the prune when more than half a window has passed since the last
    /// one: drops every entry older than `now` minus the window.
    pub fn prune_if_due(&mut self, now: TimestampMillis)
        requires
            old(self).wf(),
        ensures
            final(self).wf(),
            final(self).window() == old(self).window(),
            old(self).due_for_prune(now) ==> {
                &&& final(self).entries() == surviving(old(self).entries(), now, old(self).window())
                &&& final(self).last_pruned() == now
            },
            !old(self).due_for_prune(now) ==> *final(self) == *old(self),
    {
        let due = now.saturating_sub(self.recently_added_last_pruned) > self.window_duration / 2;
        if due {
            let cutoff = now.saturating_sub(self.window_duration);
            let ghost all = self.recently_added@;
            let ghost window = self.window_duration;
            let n = self.recently_added.len();
            let mut kept: Vec<(u128, TimestampMillis)> = Vec::new();
            let mut i: usize = 0;
            while i < n
                invariant
                    old(self).wf(),
                    n == self.recently_added.len(),
                    all == self.recently_added@,
                    all == old(self).entries(),
                    0 <= i <= n,
                    cutoff == sat_sub(now, window),
                    kept@ == surviving(all.take(i as int), now, window),
                    forall|a: int| #![trigger kept@[a]]
                        0 <= a < kept@.len() ==> exists|j: int| 0 <= j < i && kept@[a] == all[j],
                decreases n - i,
            {
                let entry = self.recently_added[i];
                proof {
                    assert(all.take(i + 1).drop_last() =~= all.take(i as int));
                    assert(all.take(i + 1).last() == all[i as int]);
                }
                let ghost kept_before = kept@;
                if entry.1 > cutoff {
                    kept.push(entry);
                    proof {
                        assert forall|a: int| #![trigger kept@[a]]
                            0 <= a < kept@.len() implies exists|j: int|
                            0 <= j < i + 1 && kept@[a] == all[j] by {
                            if a < kept_before.len() {
                                let j = choose|j: int| 0 <= j < i && kept_before[a] == all[j];
                                assert(kept@[a] == all[j]);
                            } else {
                                assert(kept@[a] == all[i as int]);
                            }
                        }
                    }
                }
                i += 1;
            }
            proof {
                assert(all.take(n as int) =~= all);
            }
            self.recently_added = kept;
            self.recently_added_last_pruned = now;
            proof {
                assert forall|a: int, b: int|
                    0 <= a < b < self.entries().len() implies self.entries()[a].0
                    != self.entries()[b].0 by {
                    let ja = choose|j: int| 0 <= j < n && self.entries()[a] == all[j];
                    let jb = choose|j: int| 0 <= j < n && self.entries()[b] == all[j];
                    if ja == jb {
                        lemma_surviving_distinct_positions(all, now, window, a, b);
                    }
                }
            }
        }
    }
}

/// Two distinct positions of the surviving subsequence never hold the same
/// pair: surviving keeps at most one copy of each original entry position.
proof fn lemma_surviving_distinct_positions(
    all: Seq<(u128, TimestampMillis)>,
    now: TimestampMillis,
    window: Milliseconds,
    a: int,
    b: int,
)
    requires
        0 <= a < b < surviving(all, now, window).len(),
    ensures
        surviving(all, now, window)[a] != surviving(all, now, window)[b]
            || exists|i: int, j: int|
            0 <= i < j < all.len() && all[i] == all[j],
    decreases all.len(),
{
    if all.len() > 0 {
        let prefix = all.drop_last();
        let s = surviving(all, now, window);
        let sp = surviving(prefix, now, window);
        if all.last().1 > sat_sub(now, window) {
            if b < s.len() - 1 {
                lemma_surviving_distinct_positions(prefix, now, window, a, b);
                if exists|i: int, j: int| 0 <= i < j < prefix.len() && prefix[i] == prefix[j] {
                    let (i, j) = choose|i: int, j: int|
                        0 <= i < j < prefix.len() && prefix[i] == prefix[j];
                    assert(all[i] == all[j]);
                }
            } else {
                // b is the appended last entry; a comes from the prefix.
                lemma_surviving_from_original(prefix, now, window, a);
                let i = choose|i: int| 0 <= i < prefix.len() && prefix[i] == sp[a];
                if s[a] == s[b] {
                    assert(all[i] == all[all.len() - 1]);
                }
            }
        } else {
            lemma_surviving_distinct_positions(prefix, now, window, a, b);
            if exists|i: int, j: int| 0 <= i < j < prefix.len() && prefix[i] == prefix[j] {
                let (i, j) = choose|i: int, j: int|
                    0 <= i < j < prefix.len() && prefix[i] == prefix[j];
                assert(all[i] == all[j]);
            }
        }
    }
}

/// Every surviving entry stands somewhere in the original sequence.
proof fn lemma_surviving_from_original(
    all: Seq<(u128, TimestampMillis)>,
    now: TimestampMillis,
    window: Milliseconds,
    a: int,
)
    requires
        0 <= a < surviving(all, now, window).len(),
    ensures
        exists|i: int| 0 <= i < all.len() && all[i] == surviving(all, now, window)[a],
    decreases all.len(),
{
    if all.len() > 0 {
        let prefix = all.drop_last();
        let s = surviving(all, now, window);
        if all.last().1 > sat_sub(now, window) && a == s.len() - 1 {
            assert(all[all.len() - 1] == s[a]);
        } else {
            lemma_surviving_from_original(prefix, now, window, a);
            let i = choose|i: int| 0 <= i < prefix.len() && prefix[i] == surviving(prefix, now, window)[a];
            assert(all[i] == s[a]);
        }
    }
}

impl Default for EventDeduper {
    fn default() -> (r: Self)
        ensures
            r.entries() == Seq::<(u128, TimestampMillis)>::empty(),
            r.window() == DEFAULT_WINDOW_DURATION,
            r.last_pruned() == 0,
            r.wf(),
    {
        EventDeduper::new(DEFAULT_WINDOW_DURATION)
    }
}

} // verus!
