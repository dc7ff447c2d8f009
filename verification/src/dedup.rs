//! Drops a trigger that repeats within a short window, whichever source
//! reported it.

use vstd::prelude::*;
use std::collections::VecDeque;
use std::time::Duration;
use crate::event::GameEvent;
use crate::poller::{duration_millis, now_ms};
use crate::trigger::{TriggerKind, trigger_of_event};

verus! {

/// At most this many recent triggers are remembered.
pub const MAX_TRACKED_TRIGGERS: usize = 64;

/// `now - then`, or 0 when `then` is later.
pub open spec fn elapsed(now: u64, then: u64) -> int {
    if now >= then {
        now - then
    } else {
        0
    }
}

/// The remembered entries still inside the window at `now`, in order.
pub open spec fn fresh_entries(recent: Seq<(TriggerKind, u64)>, now: u64, window_ms: u64) -> Seq<
    (TriggerKind, u64),
>
    decreases recent.len(),
{
    if recent.len() == 0 {
        Seq::empty()
    } else {
        let prev = fresh_entries(recent.drop_last(), now, window_ms);
        if elapsed(now, recent.last().1) <= window_ms {
            prev.push(recent.last())
        } else {
            prev
        }
    }
}

pub open spec fn has_trigger(entries: Seq<(TriggerKind, u64)>, trigger: TriggerKind) -> bool {
    exists|k: int| 0 <= k < entries.len() && (#[trigger] entries[k]).0 == trigger
}

/// Whether a trigger at `now` passes, and the remembered entries afterwards.
pub open spec fn dedup_step(
    recent: Seq<(TriggerKind, u64)>,
    window_ms: u64,
    trigger: TriggerKind,
    now: u64,
) -> (bool, Seq<(TriggerKind, u64)>) {
    let kept = fresh_entries(recent, now, window_ms);
    if has_trigger(kept, trigger) {
        (false, kept)
    } else {
        let added = kept.push((trigger, now));
        (
            true,
            if added.len() > MAX_TRACKED_TRIGGERS {
                added.drop_first()
            } else {
                added
            },
        )
    }
}

pub struct EventDeduplicator {
    window_ms: u64,
    recent: VecDeque<(TriggerKind, u64)>,
}

pub struct DedupState {
    pub window_ms: u64,
    pub recent: Seq<(TriggerKind, u64)>,
}

impl View for EventDeduplicator {
    type V = DedupState;

    closed spec fn view(&self) -> DedupState {
        DedupState { window_ms: self.window_ms, recent: self.recent@ }
    }
}

impl EventDeduplicator {
    /// A deduplicator with the given window (its whole milliseconds).
    pub fn new(window: Duration) -> (d: EventDeduplicator)
        ensures
            d@ == (DedupState {
                window_ms: (crate::poller::duration_ms_of(window) as u128) as u64,
                recent: Seq::empty(),
            }),
    {
        let ms = duration_millis(window);
        EventDeduplicator::with_window_ms(ms as u64)
    }

    /// A deduplicator with a window in milliseconds.
    pub fn with_window_ms(window_ms: u64) -> (d: EventDeduplicator)
        ensures
            d@ == (DedupState { window_ms, recent: Seq::empty() }),
    {
        EventDeduplicator { window_ms, recent: VecDeque::new() }
    }

    /// Whether an event passes, judged at the current wall clock.
    pub fn should_emit(&mut self, event: GameEvent) -> (pass: bool)
        ensures
            exists|now: u64|
                #[trigger] dedup_step(old(self)@.recent, old(self)@.window_ms, trigger_of_event(event.kind), now)
                    == (pass, final(self)@.recent),
            final(self)@.window_ms == old(self)@.window_ms,
    {
        let now = now_ms();
        self.should_emit_at(TriggerKind::from_event(event.kind), now)
    }

    /// Whether a trigger at `now` passes: entries older than the window are
    /// forgotten, a remembered trigger is dropped, a new one is remembered.
    pub fn should_emit_at(&mut self, trigger: TriggerKind, now: u64) -> (pass: bool)
        ensures
            dedup_step(old(self)@.recent, old(self)@.window_ms, trigger, now) == (
                pass,
                final(self)@.recent,
            ),
            final(self)@.window_ms == old(self)@.window_ms,
    {
        let window_ms = self.window_ms;
        let mut kept: VecDeque<(TriggerKind, u64)> = VecDeque::new();
        let mut found = false;
        let mut k: usize = 0;
        while k < self.recent.len()
            invariant
                k <= self.recent@.len(),
                self.window_ms == window_ms,
                self.recent@ == old(self)@.recent,
                kept@ == fresh_entries(self.recent@.subrange(0, k as int), now, window_ms),
                found == has_trigger(kept@, trigger),
            decreases self.recent@.len() - k,
        {
            let entry = self.recent[k];
            let ghost sub = self.recent@.subrange(0, k + 1);
            assert(sub.drop_last() =~= self.recent@.subrange(0, k as int));
            assert(sub.last() == entry);
            let age: u64 = if now >= entry.1 {
                now - entry.1
            } else {
                0
            };
            if age <= window_ms {
                let ghost before = kept@;
                kept.push_back(entry);
                proof {
                    if entry.0 == trigger {
                        assert(kept@[before.len() as int] == entry);
                    }
                    if has_trigger(kept@, trigger) && !has_trigger(before, trigger) {
                        let j = choose|j: int| 0 <= j < kept@.len() && (#[trigger] kept@[j]).0 == trigger;
                        if j < before.len() {
                            assert(before[j] == kept@[j]);
                        }
                    }
                    if has_trigger(before, trigger) {
                        let j = choose|j: int| 0 <= j < before.len() && (#[trigger] before[j]).0 == trigger;
                        assert(kept@[j] == before[j]);
                    }
                }
                if entry.0 == trigger {
                    found = true;
                }
            }
            k += 1;
        }
        assert(self.recent@.subrange(0, k as int) =~= self.recent@);
        if found {
            self.recent = kept;
            return false;
        }
        kept.push_back((trigger, now));
        if kept.len() > MAX_TRACKED_TRIGGERS {
            let _ = kept.pop_front();
        }
        self.recent = kept;
        true
    }
}

/// A trigger that just passed is dropped when it comes again within the
/// window (or with an earlier timestamp).
pub proof fn lemma_repeat_within_window_is_dropped(
    recent: Seq<(TriggerKind, u64)>,
    window_ms: u64,
    trigger: TriggerKind,
    first: u64,
    second: u64,
)
    requires
        dedup_step(recent, window_ms, trigger, first).0,
        elapsed(second, first) <= window_ms,
    ensures
        !dedup_step(dedup_step(recent, window_ms, trigger, first).1, window_ms, trigger, second).0,
{
    let kept = fresh_entries(recent, first, window_ms);
    let added = kept.push((trigger, first));
    let after = dedup_step(recent, window_ms, trigger, first).1;
    assert(after.len() > 0 && after.last() == (trigger, first));
    assert(after.drop_last().push(after.last()) =~= after);
    let again = fresh_entries(after, second, window_ms);
    assert(again == fresh_entries(after.drop_last(), second, window_ms).push((trigger, first)));
    assert(again[again.len() - 1].0 == trigger);
}

/// A remembered occurrence of `trigger` within the window of `now`.
pub open spec fn seen_within(recent: Seq<(TriggerKind, u64)>, window_ms: u64, trigger: TriggerKind, now: u64) -> bool {
    exists|k: int|
        0 <= k < recent.len() && (#[trigger] recent[k]).0 == trigger && elapsed(now, recent[k].1)
            <= window_ms
}

proof fn lemma_fresh_has_trigger(recent: Seq<(TriggerKind, u64)>, now: u64, window_ms: u64, trigger: TriggerKind)
    ensures
        has_trigger(fresh_entries(recent, now, window_ms), trigger) <==> seen_within(
            recent,
            window_ms,
            trigger,
            now,
        ),
    decreases recent.len(),
{
    if recent.len() > 0 {
        let init = recent.drop_last();
        let last = recent.last();
        lemma_fresh_has_trigger(init, now, window_ms, trigger);
        let prev = fresh_entries(init, now, window_ms);
        let fresh = fresh_entries(recent, now, window_ms);
        if seen_within(recent, window_ms, trigger, now) {
            let k = choose|k: int|
                0 <= k < recent.len() && (#[trigger] recent[k]).0 == trigger && elapsed(now, recent[k].1)
                    <= window_ms;
            if k < init.len() {
                assert(init[k] == recent[k]);
                assert(seen_within(init, window_ms, trigger, now));
                let j = choose|j: int| 0 <= j < prev.len() && (#[trigger] prev[j]).0 == trigger;
                if elapsed(now, last.1) <= window_ms {
                    assert(fresh[j] == prev[j]);
                }
            } else {
                assert(fresh[fresh.len() - 1] == last);
            }
        }
        if has_trigger(fresh, trigger) {
            let j = choose|j: int| 0 <= j < fresh.len() && (#[trigger] fresh[j]).0 == trigger;
            if elapsed(now, last.1) <= window_ms && j == fresh.len() - 1 {
                assert(recent[recent.len() - 1] == last);
            } else {
                assert(prev[j] == fresh[j]);
                assert(has_trigger(prev, trigger));
                let k = choose|k: int|
                    0 <= k < init.len() && (#[trigger] init[k]).0 == trigger && elapsed(now, init[k].1)
                        <= window_ms;
                assert(recent[k] == init[k]);
            }
        }
    }
}

/// A trigger passes exactly when no remembered occurrence of it lies within
/// the window of `now`: other triggers never hold it back, and an occurrence
/// older than the window no longer counts.
pub proof fn lemma_passes_iff_not_seen_within_window(
    recent: Seq<(TriggerKind, u64)>,
    window_ms: u64,
    trigger: TriggerKind,
    now: u64,
)
    ensures
        dedup_step(recent, window_ms, trigger, now).0 <==> !seen_within(recent, window_ms, trigger, now),
{
    lemma_fresh_has_trigger(recent, now, window_ms, trigger);
}

/// The remembered entries and the outcomes after the first `n` calls
/// `should_emit_at(calls[i].0, calls[i].1)` on a fresh deduplicator.
pub open spec fn history(calls: Seq<(TriggerKind, u64)>, window_ms: u64, n: nat) -> (
    Seq<(TriggerKind, u64)>,
    Seq<bool>,
)
    decreases n,
{
    if n == 0 {
        (Seq::empty(), Seq::empty())
    } else {
        let prev = history(calls, window_ms, (n - 1) as nat);
        let step = dedup_step(prev.0, window_ms, calls[n - 1].0, calls[n - 1].1);
        (step.1, prev.1.push(step.0))
    }
}

/// The calls among the first `m` that passed (by `outcomes`) and lie within
/// the window of `now`, in order.
pub open spec fn passes_within(
    calls: Seq<(TriggerKind, u64)>,
    outcomes: Seq<bool>,
    m: int,
    now: u64,
    window_ms: u64,
) -> Seq<(TriggerKind, u64)>
    decreases m,
{
    if m <= 0 {
        Seq::empty()
    } else {
        let prev = passes_within(calls, outcomes, m - 1, now, window_ms);
        if outcomes[m - 1] && elapsed(now, calls[m - 1].1) <= window_ms {
            prev.push(calls[m - 1])
        } else {
            prev
        }
    }
}

/// Times never go back over the first `n + 1` calls.
pub open spec fn times_ordered(calls: Seq<(TriggerKind, u64)>, n: int) -> bool {
    forall|i: int, j: int| 0 <= i <= j <= n ==> #[trigger] calls[i].1 <= #[trigger] calls[j].1
}

/// No call before call `n` leaves more than `MAX_TRACKED_TRIGGERS` passed
/// calls within the window of its own time (itself included).
pub open spec fn within_capacity(calls: Seq<(TriggerKind, u64)>, window_ms: u64, n: int) -> bool {
    forall|i: int|
        0 <= i < n ==> #[trigger] passes_within(
            calls,
            history(calls, window_ms, n as nat).1,
            i + 1,
            calls[i].1,
            window_ms,
        ).len() <= MAX_TRACKED_TRIGGERS
}

proof fn lemma_history_outcomes(calls: Seq<(TriggerKind, u64)>, window_ms: u64, n: nat, m: nat)
    requires
        m <= n,
    ensures
        history(calls, window_ms, n).1.len() == n,
        forall|j: int| 0 <= j < m ==> #[trigger] history(calls, window_ms, n).1[j] == history(calls, window_ms, m).1[j],
    decreases n,
{
    if n > 0 {
        lemma_history_outcomes(calls, window_ms, (n - 1) as nat, if m == n { (n - 1) as nat } else { m });
        if m == n {
            lemma_history_outcomes(calls, window_ms, (n - 1) as nat, (n - 1) as nat);
        }
    }
}

proof fn lemma_passes_prefix(
    calls: Seq<(TriggerKind, u64)>,
    a: Seq<bool>,
    b: Seq<bool>,
    m: int,
    now: u64,
    window_ms: u64,
)
    requires
        forall|j: int| 0 <= j < m ==> #[trigger] a[j] == b[j],
    ensures
        passes_within(calls, a, m, now, window_ms) == passes_within(calls, b, m, now, window_ms),
    decreases m,
{
    if m > 0 {
        lemma_passes_prefix(calls, a, b, m - 1, now, window_ms);
        assert(a[m - 1] == b[m - 1]);
    }
}

proof fn lemma_passes_refilter(
    calls: Seq<(TriggerKind, u64)>,
    outcomes: Seq<bool>,
    m: int,
    earlier: u64,
    later: u64,
    window_ms: u64,
)
    requires
        earlier <= later,
        forall|j: int| 0 <= j < m ==> #[trigger] calls[j].1 <= earlier,
    ensures
        fresh_entries(passes_within(calls, outcomes, m, earlier, window_ms), later, window_ms)
            == passes_within(calls, outcomes, m, later, window_ms),
    decreases m,
{
    if m > 0 {
        lemma_passes_refilter(calls, outcomes, m - 1, earlier, later, window_ms);
        let prev = passes_within(calls, outcomes, m - 1, earlier, window_ms);
        let c = calls[m - 1];
        assert(c.1 <= earlier);
        if outcomes[m - 1] && elapsed(earlier, c.1) <= window_ms {
            assert(prev.push(c).drop_last() =~= prev);
            assert(prev.push(c).last() == c);
        }
    }
}

proof fn lemma_passes_has(
    calls: Seq<(TriggerKind, u64)>,
    outcomes: Seq<bool>,
    m: int,
    now: u64,
    window_ms: u64,
    k: TriggerKind,
)
    requires
        m >= 0,
    ensures
        has_trigger(passes_within(calls, outcomes, m, now, window_ms), k) <==> exists|j: int|
            0 <= j < m && #[trigger] outcomes[j] && calls[j].0 == k && elapsed(now, calls[j].1)
                <= window_ms,
    decreases m,
{
    if m > 0 {
        lemma_passes_has(calls, outcomes, m - 1, now, window_ms, k);
        let prev = passes_within(calls, outcomes, m - 1, now, window_ms);
        let cur = passes_within(calls, outcomes, m, now, window_ms);
        if exists|j: int|
            0 <= j < m && #[trigger] outcomes[j] && calls[j].0 == k && elapsed(now, calls[j].1)
                <= window_ms {
            let j = choose|j: int|
                0 <= j < m && #[trigger] outcomes[j] && calls[j].0 == k && elapsed(now, calls[j].1)
                    <= window_ms;
            if j == m - 1 {
                assert(cur[cur.len() - 1] == calls[m - 1]);
            } else {
                let i = choose|i: int| 0 <= i < prev.len() && (#[trigger] prev[i]).0 == k;
                assert(cur[i] == prev[i]);
            }
        }
        if has_trigger(cur, k) {
            let i = choose|i: int| 0 <= i < cur.len() && (#[trigger] cur[i]).0 == k;
            if i < prev.len() {
                assert(cur[i] == prev[i]);
                assert(has_trigger(prev, k));
            } else {
                assert(outcomes[m - 1]);
            }
        }
    }
}

proof fn lemma_history_state(calls: Seq<(TriggerKind, u64)>, window_ms: u64, n: nat)
    requires
        n >= 1,
        n <= calls.len(),
        times_ordered(calls, n - 1),
        within_capacity(calls, window_ms, n as int),
    ensures
        history(calls, window_ms, n).0 == passes_within(
            calls,
            history(calls, window_ms, n).1,
            n as int,
            calls[n - 1].1,
            window_ms,
        ),
    decreases n,
{
    let outs = history(calls, window_ms, n).1;
    let prev = history(calls, window_ms, (n - 1) as nat);
    let c = calls[n - 1];
    lemma_history_outcomes(calls, window_ms, n, (n - 1) as nat);
    lemma_history_outcomes(calls, window_ms, (n - 1) as nat, (n - 1) as nat);
    assert(outs == prev.1.push(dedup_step(prev.0, window_ms, c.0, c.1).0));
    lemma_passes_prefix(calls, outs, prev.1, n - 1, c.1, window_ms);
    if n == 1 {
        assert(prev.0 == Seq::<(TriggerKind, u64)>::empty());
        assert(fresh_entries(prev.0, c.1, window_ms) =~= Seq::<(TriggerKind, u64)>::empty());
        assert(passes_within(calls, outs, 0, c.1, window_ms) =~= Seq::<(TriggerKind, u64)>::empty());
    } else {
        let before = calls[n - 2];
        assert forall|i: int| 0 <= i < (n - 1) as int implies #[trigger] passes_within(
            calls,
            history(calls, window_ms, (n - 1) as nat).1,
            i + 1,
            calls[i].1,
            window_ms,
        ).len() <= MAX_TRACKED_TRIGGERS by {
            lemma_passes_prefix(calls, history(calls, window_ms, (n - 1) as nat).1, outs, i + 1, calls[i].1, window_ms);
            assert(passes_within(calls, outs, i + 1, calls[i].1, window_ms).len() <= MAX_TRACKED_TRIGGERS);
        }
        lemma_history_state(calls, window_ms, (n - 1) as nat);
        assert forall|j: int| 0 <= j < n - 1 implies #[trigger] calls[j].1 <= before.1 by {
            assert(calls[j].1 <= calls[n - 2].1);
        }
        assert(before.1 <= c.1);
        lemma_passes_refilter(calls, prev.1, n - 1, before.1, c.1, window_ms);
    }
    lemma_passes_has(calls, outs, n - 1, c.1, window_ms, c.0);
    assert(elapsed(c.1, c.1) == 0);
    assert(passes_within(calls, outs, n as int, c.1, window_ms).len() <= MAX_TRACKED_TRIGGERS);
}

/// The deduplication law over a run of calls on a fresh deduplicator, with
/// times that never go back and at most `MAX_TRACKED_TRIGGERS` passed calls
/// within any window: call `n` passes exactly when no earlier call of the
/// same trigger passed within the window before it. Other triggers never
/// hold it back, and suppressed calls do not extend the window.
pub proof fn lemma_passes_iff_no_earlier_pass_in_window(
    calls: Seq<(TriggerKind, u64)>,
    window_ms: u64,
    n: nat,
)
    requires
        n < calls.len(),
        times_ordered(calls, n as int),
        within_capacity(calls, window_ms, n as int),
    ensures
        history(calls, window_ms, n + 1).1[n as int] <==> !exists|j: int|
            0 <= j < n && #[trigger] history(calls, window_ms, n).1[j] && calls[j].0 == calls[n as int].0
                && calls[n as int].1 - calls[j].1 <= window_ms,
{
    let c = calls[n as int];
    let prev = history(calls, window_ms, n);
    lemma_history_outcomes(calls, window_ms, n, n);
    let kept = fresh_entries(prev.0, c.1, window_ms);
    if n == 0 {
        assert(kept =~= Seq::<(TriggerKind, u64)>::empty());
    } else {
        lemma_history_state(calls, window_ms, n);
        assert forall|j: int| 0 <= j < n implies #[trigger] calls[j].1 <= calls[n - 1].1 by {
            assert(calls[j].1 <= calls[n - 1].1);
        }
        lemma_passes_refilter(calls, prev.1, n as int, calls[n - 1].1, c.1, window_ms);
    }
    lemma_passes_has(calls, prev.1, n as int, c.1, window_ms, c.0);
    assert forall|j: int| 0 <= j < n implies #[trigger] calls[j].1 <= c.1 && elapsed(c.1, calls[j].1) == c.1 - calls[j].1 by {
        assert(calls[j].1 <= c.1);
    }
}

} // verus!
