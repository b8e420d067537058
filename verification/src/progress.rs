//! Throttled progress reporting.
//!
//! A clone reports progress in two phases that share one event channel:
//! the network transfer (percent 0..=100, emitted every 5 points), and the
//! timestamp-fix work after it, whose two sub-stages split the range by
//! convention: commit analysis covers 0..=50 and timestamp application
//! covers 50..=100, each emitted every 10 points. A `ProgressThrottle`
//! keeps the last emitted percent and a ghost history of every percent it
//! let through, so monotonicity is a proved invariant, not a convention.

use vstd::arithmetic::div_mod::{
    lemma_div_is_ordered, lemma_div_multiples_vanish, lemma_div_pos_is_pos,
};
use vstd::prelude::*;

verus! {

/// One progress event, delivered to the consumer as a plain value.
#[derive(Debug, Clone)]
pub struct CloneProgress {
    pub stage: String,
    pub received: usize,
    pub total: usize,
    pub percent: u32,
}

/// Percent of `done` out of `total`, scaled into `span` points above `base`;
/// `base` alone when `total` is zero.
pub open spec fn scaled_percent(done: int, total: int, span: int, base: int) -> int {
    if total > 0 {
        base + done * span / total
    } else {
        base
    }
}

/// `scaled_percent` stays between `base` and `base + span`, and reaches
/// `base + span` exactly when all the work is done.
proof fn lemma_scaled_percent_bounds(done: int, total: int, span: int, base: int)
    requires
        0 <= done <= total,
        0 <= span,
        0 <= base,
    ensures
        base <= scaled_percent(done, total, span, base) <= base + span,
        done == total && total > 0 ==> scaled_percent(done, total, span, base) == base + span,
{
    if total > 0 {
        assert(done * span <= total * span) by (nonlinear_arith)
            requires
                0 <= done <= total,
                0 <= span,
        ;
        assert(done * span >= 0) by (nonlinear_arith)
            requires
                0 <= done,
                0 <= span,
        ;
        lemma_div_is_ordered(done * span, total * span, total);
        lemma_div_multiples_vanish(span, total);
        assert(total * span / total == span);
        if done * span > 0 {
            lemma_div_pos_is_pos(done * span, total);
        }
    }
}

/// Gate in front of the event channel: lets a percent through only when it
/// advanced by at least `min_step` since the last emission, or when it
/// reached `complete_at`, the percent that closes the phase.
pub struct ProgressThrottle {
    pub last_percent: u32,
    pub min_step: u32,
    pub floor: u32,
    pub complete_at: u32,
    pub emitted: Ghost<Seq<u32>>,
}

impl ProgressThrottle {
    pub open spec fn wf(self) -> bool {
        &&& self.floor <= self.last_percent <= self.complete_at <= 100
        &&& 1 <= self.min_step <= 100
        &&& (forall|i: int|
            0 <= i && i + 1 < self.emitted@.len() ==> #[trigger] self.emitted@[i]
                <= self.emitted@[i + 1])
        &&& (self.emitted@.len() > 0 ==> self.emitted@.last() <= self.last_percent)
        &&& (forall|i: int|
            0 <= i < self.emitted@.len() ==> self.floor <= #[trigger] self.emitted@[i]
                <= self.complete_at)
    }

    /// Decide whether `percent` is emitted, and record it if so.
    pub fn offer(&mut self, percent: u32) -> (emit: bool)
        requires
            old(self).wf(),
            percent <= old(self).complete_at,
        ensures
            final(self).wf(),
            emit == (percent >= old(self).last_percent + old(self).min_step || percent == old(
                self,
            ).complete_at),
            emit ==> final(self).last_percent == percent && final(self).emitted@ == old(
                self,
            ).emitted@.push(percent) && percent >= old(self).last_percent,
            !emit ==> *final(self) == *old(self),
            final(self).min_step == old(self).min_step,
            final(self).floor == old(self).floor,
            final(self).complete_at == old(self).complete_at,
    {
        let emit = percent >= self.last_percent + self.min_step || percent == self.complete_at;
        if emit {
            self.last_percent = percent;
            proof {
                let s = self.emitted@;
                self.emitted = Ghost(s.push(percent));
                let s2 = self.emitted@;
                assert forall|i: int| 0 <= i && i + 1 < s2.len() implies #[trigger] s2[i] <= s2[i
                    + 1] by {
                    if i + 1 < s.len() {
                        assert(s2[i] == s[i] && s2[i + 1] == s[i + 1]);
                    } else {
                        assert(s2[i] == s[s.len() - 1] && s2[i + 1] == percent);
                    }
                }
            }
        }
        emit
    }
}

/// Compute `scaled_percent` without overflow.
fn compute_percent(done: usize, total: usize, span: u32, base: u32) -> (p: u32)
    requires
        done <= total,
        base + span <= 100,
    ensures
        p == scaled_percent(done as int, total as int, span as int, base as int),
        base <= p <= base + span,
        done == total && total > 0 ==> p == base + span,
{
    proof {
        lemma_scaled_percent_bounds(done as int, total as int, span as int, base as int);
    }
    if total == 0 {
        base
    } else {
        proof {
            assert((done as int) * (span as int) <= (usize::MAX as int) * 100) by (nonlinear_arith)
                requires
                    0 <= done as int <= usize::MAX as int,
                    0 <= span as int <= 100,
            ;
        }
        let q = ((done as u128) * (span as u128)) / (total as u128);
        base + (q as u32)
    }
}

/// Throttle for the network-transfer phase: every 5 points, and always at
/// its completion percent, 100.
pub fn transfer_throttle() -> (t: ProgressThrottle)
    ensures
        t.wf(),
        t.last_percent == 0,
        t.min_step == 5,
        t.floor == 0,
        t.complete_at == 100,
        t.emitted@ == Seq::<u32>::empty(),
{
    ProgressThrottle { last_percent: 0, min_step: 5, floor: 0, complete_at: 100, emitted: Ghost(Seq::empty()) }
}

/// Throttle for the commit-analysis sub-stage (percent 0..=50): every 10
/// points, and always at its completion percent, 50.
pub fn analysis_throttle() -> (t: ProgressThrottle)
    ensures
        t.wf(),
        t.last_percent == 0,
        t.min_step == 10,
        t.floor == 0,
        t.complete_at == 50,
        t.emitted@ == Seq::<u32>::empty(),
{
    ProgressThrottle { last_percent: 0, min_step: 10, floor: 0, complete_at: 50, emitted: Ghost(Seq::empty()) }
}

/// Throttle for the timestamp-application sub-stage (percent 50..=100):
/// every 10 points, and always at its completion percent, 100.
pub fn apply_throttle() -> (t: ProgressThrottle)
    ensures
        t.wf(),
        t.last_percent == 50,
        t.min_step == 10,
        t.floor == 50,
        t.complete_at == 100,
        t.emitted@ == Seq::<u32>::empty(),
{
    ProgressThrottle { last_percent: 50, min_step: 10, floor: 50, complete_at: 100, emitted: Ghost(Seq::empty()) }
}

/// Percent of the network transfer: `received * 100 / total`, or 0 while
/// nothing is known about the total.
pub open spec fn transfer_percent(received: int, total: int) -> int {
    scaled_percent(received, total, 100, 0)
}

/// Percent of the commit-analysis sub-stage: the first half of the range.
pub open spec fn analysis_percent(processed: int, total: int) -> int {
    scaled_percent(processed, total, 50, 0)
}

/// Percent of the timestamp-application sub-stage: the second half.
pub open spec fn apply_percent(applied: int, total: int) -> int {
    scaled_percent(applied, total, 50, 50)
}

/// One step of transfer progress. An event comes out exactly when the
/// percent advanced by at least 5 points since the last emission, or reached
/// 100; reaching the full total therefore always emits a final 100.
pub fn transfer_update(t: &mut ProgressThrottle, received: usize, total: usize) -> (r: Option<
    CloneProgress,
>)
    requires
        old(t).wf(),
        old(t).min_step == 5,
        old(t).complete_at == 100,
        received <= total,
    ensures
        final(t).wf(),
        final(t).min_step == 5 && final(t).complete_at == 100,
        ({
            let p = transfer_percent(received as int, total as int);
            &&& r is Some <==> (p >= old(t).last_percent + 5 || p == 100)
            &&& (r matches Some(ev) ==> ev.percent == p && ev.received == received && ev.total
                == total && ev.stage@ == "Receiving objects"@ && final(t).last_percent == p
                && final(t).emitted@ == old(t).emitted@.push(ev.percent) && p >= old(t).last_percent)
            &&& (r is None ==> *final(t) == *old(t))
            &&& (received == total && total > 0 ==> r is Some)
        }),
{
    let percent = compute_percent(received, total, 100, 0);
    let emit = t.offer(percent);
    if emit {
        Some(
            CloneProgress {
                stage: "Receiving objects".to_owned(),
                received,
                total,
                percent,
            },
        )
    } else {
        None
    }
}

/// One step of commit-analysis progress (percent 0..=50). An event comes out
/// exactly when the percent advanced by at least 10 points since the last
/// emission, or reached 50, this sub-stage's completion; processing the
/// last commit therefore always emits a final 50.
pub fn analysis_update(t: &mut ProgressThrottle, processed: usize, total: usize) -> (r: Option<
    CloneProgress,
>)
    requires
        old(t).wf(),
        old(t).min_step == 10,
        old(t).complete_at == 50,
        processed <= total,
    ensures
        final(t).wf(),
        final(t).min_step == 10 && final(t).complete_at == 50,
        ({
            let p = analysis_percent(processed as int, total as int);
            &&& r is Some <==> (p >= old(t).last_percent + 10 || p == 50)
            &&& (r matches Some(ev) ==> ev.percent == p && ev.percent <= 50 && ev.received
                == processed && ev.total == total && ev.stage@ == "Analyzing commits"@ && final(t).last_percent == p
                && final(t).emitted@ == old(t).emitted@.push(ev.percent))
            &&& (r is None ==> *final(t) == *old(t))
            &&& (processed == total && total > 0 ==> (r matches Some(ev) && ev.percent == 50))
        }),
{
    let percent = compute_percent(processed, total, 50, 0);
    let emit = t.offer(percent);
    if emit {
        Some(
            CloneProgress {
                stage: "Analyzing commits".to_owned(),
                received: processed,
                total,
                percent,
            },
        )
    } else {
        None
    }
}

/// One step of timestamp-application progress (percent 50..=100). An event
/// comes out exactly when the percent advanced by at least 10 points since
/// the last emission, or reached 100; applying the last file therefore
/// always emits a final 100.
pub fn apply_update(t: &mut ProgressThrottle, applied: usize, total: usize) -> (r: Option<
    CloneProgress,
>)
    requires
        old(t).wf(),
        old(t).min_step == 10,
        old(t).complete_at == 100,
        1 <= applied <= total,
    ensures
        final(t).wf(),
        final(t).min_step == 10 && final(t).complete_at == 100,
        ({
            let p = apply_percent(applied as int, total as int);
            &&& r is Some <==> (p >= old(t).last_percent + 10 || p == 100)
            &&& (r matches Some(ev) ==> ev.percent == p && 50 <= ev.percent && ev.received
                == applied && ev.total == total && ev.stage@ == "Setting timestamps"@ && final(t).last_percent == p
                && final(t).emitted@ == old(t).emitted@.push(ev.percent))
            &&& (r is None ==> *final(t) == *old(t))
            &&& (applied == total ==> (r matches Some(ev) && ev.percent == 100))
        }),
{
    let percent = compute_percent(applied, total, 50, 50);
    let emit = t.offer(percent);
    if emit {
        Some(
            CloneProgress {
                stage: "Setting timestamps".to_owned(),
                received: applied,
                total,
                percent,
            },
        )
    } else {
        None
    }
}

/// The event a clone emits before any transfer starts.
pub fn starting_event() -> (ev: CloneProgress)
    ensures
        ev.stage@ == "Starting clone"@,
        ev.received == 0 && ev.total == 0 && ev.percent == 0,
{
    CloneProgress { stage: "Starting clone".to_owned(), received: 0, total: 0, percent: 0 }
}

/// The event that closes the transfer phase and announces the timestamp fix.
pub fn fixing_event() -> (ev: CloneProgress)
    ensures
        ev.stage@ == "Fixing timestamps"@,
        ev.received == 0 && ev.total == 0 && ev.percent == 100,
{
    CloneProgress { stage: "Fixing timestamps".to_owned(), received: 0, total: 0, percent: 100 }
}

/// The event that opens the timestamp-fix phase.
pub fn building_event() -> (ev: CloneProgress)
    ensures
        ev.stage@ == "Building file history"@,
        ev.received == 0 && ev.total == 0 && ev.percent == 0,
{
    CloneProgress { stage: "Building file history".to_owned(), received: 0, total: 0, percent: 0 }
}

/// The last event of every successful clone: stage "Complete", percent 100.
pub fn complete_event() -> (ev: CloneProgress)
    ensures
        ev.stage@ == "Complete"@,
        ev.received == 0 && ev.total == 0 && ev.percent == 100,
{
    CloneProgress { stage: "Complete".to_owned(), received: 0, total: 0, percent: 100 }
}

/// Law: the percents a throttle has emitted never decrease, however its
/// updates were interleaved. The ghost `emitted` history records every event
/// that came out, so this covers a whole phase of one operation.
pub proof fn lemma_emitted_monotone(t: ProgressThrottle)
    requires
        t.wf(),
    ensures
        forall|i: int, j: int|
            0 <= i <= j < t.emitted@.len() ==> #[trigger] t.emitted@[i] <= #[trigger] t.emitted@[j],
{
    assert forall|i: int, j: int|
        0 <= i <= j < t.emitted@.len() implies #[trigger] t.emitted@[i] <= #[trigger] t.emitted@[j] by {
        lemma_monotone_between(t.emitted@, i, j);
    }
}

proof fn lemma_monotone_between(s: Seq<u32>, i: int, j: int)
    requires
        0 <= i <= j < s.len(),
        forall|k: int| 0 <= k && k + 1 < s.len() ==> #[trigger] s[k] <= s[k + 1],
    ensures
        s[i] <= s[j],
    decreases j - i,
{
    if i < j {
        lemma_monotone_between(s, i, j - 1);
        assert(s[j - 1] <= s[j]);
    }
}

/// Law: the whole timestamp-fix phase is monotone. Commit analysis never
/// emits above 50 and timestamp application never emits below 50, so the
/// analysis tracker's emissions followed by the application tracker's are
/// non-decreasing as one event stream.
pub proof fn lemma_fix_phase_monotone(analysis: ProgressThrottle, apply: ProgressThrottle)
    requires
        analysis.wf(),
        apply.wf(),
        analysis.complete_at == 50,
        apply.floor == 50,
    ensures
        forall|i: int|
            0 <= i && i + 1 < (analysis.emitted@ + apply.emitted@).len() ==> #[trigger] (analysis.emitted@
                + apply.emitted@)[i] <= (analysis.emitted@ + apply.emitted@)[i + 1],
{
    lemma_phase_concat_monotone(analysis.emitted@, apply.emitted@, 50);
}

/// Two monotone event streams, one bounded above and one below by the same
/// percent, stay monotone when concatenated.
pub proof fn lemma_phase_concat_monotone(a: Seq<u32>, b: Seq<u32>, bound: u32)
    requires
        forall|i: int| 0 <= i && i + 1 < a.len() ==> #[trigger] a[i] <= a[i + 1],
        forall|i: int| 0 <= i && i + 1 < b.len() ==> #[trigger] b[i] <= b[i + 1],
        forall|i: int| 0 <= i < a.len() ==> #[trigger] a[i] <= bound,
        forall|i: int| 0 <= i < b.len() ==> #[trigger] b[i] >= bound,
    ensures
        forall|i: int| 0 <= i && i + 1 < (a + b).len() ==> #[trigger] (a + b)[i] <= (a + b)[i + 1],
{
    assert forall|i: int| 0 <= i && i + 1 < (a + b).len() implies #[trigger] (a + b)[i] <= (a + b)[i
        + 1] by {
        if i + 1 < a.len() {
            assert((a + b)[i] == a[i] && (a + b)[i + 1] == a[i + 1]);
        } else if i + 1 == a.len() {
            assert((a + b)[i] == a[i] && (a + b)[i + 1] == b[0]);
        } else {
            assert((a + b)[i] == b[i - a.len()] && (a + b)[i + 1] == b[i + 1 - a.len()]);
        }
    }
}

} // verus!
