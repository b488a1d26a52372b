//! Rate-independent input smoothing.
//!
//! An [`InputQueue`] keeps a bounded history of raw input samples, newest
//! first. Each call to [`InputQueue::process_input`] inserts a sample and
//! computes, once and for all, a smoothed value for it by drawing an equal
//! share from every entry inside the requested time window. Each entry tracks
//! in `remaining` the part of its raw sample that has not yet been paid out,
//! so the sum of all smoothed outputs equals the sum of all raw inputs
//! exactly, no matter how the window changes between calls: any shortfall
//! (a shrunken window, a frame hitch) is recovered by draining older entries
//! completely, and an entry about to be evicted at capacity is drained before
//! it leaves, so nothing conserved is ever lost.

use vstd::prelude::*;

verus! {

use crate::fx::{div_tz, tz_div};
use crate::linear::FxVec2;

/// Capacity of the queue: one more entry truncates the oldest.
pub open const MAX_EVENTS: usize = 256;

/// Largest magnitude a raw sample component may have (ten thousand screen
/// units, in billionths).
pub open const SAMPLE_MAX: i64 = 10_000_000_000_000;

/// Largest magnitude a smoothed component can reach: the fresh share plus a
/// full drain of every older entry.
pub open const SMOOTH_MAX: i64 = 2_570_000_000_000_000;

/// Largest magnitude of a timestamp or of a window, in microseconds.
pub open const TIME_MAX: i64 = 0x4_0000_0000_0000;

/// One record of the input stream.
#[derive(Clone, Copy, Debug, PartialEq, Eq, Structural)]
pub struct InputStreamEntry {
    /// When the sample arrived, in microseconds on the controller's clock.
    pub time_us: i64,
    /// The raw input sample recorded at that time.
    pub sample: FxVec2,
    /// The part of `sample` that smoothing has not yet paid out. It reaches
    /// zero no later than the moment the entry leaves every window.
    pub remaining: FxVec2,
    /// The smoothed value computed when this entry was inserted.
    pub smoothed_value: FxVec2,
}

/// A smoothed queue of inputs over time, newest first.
#[derive(Clone, Debug)]
pub struct InputQueue {
    /// The recorded entries, most recent at index 0.
    pub entries: Vec<InputStreamEntry>,
}

/// `r` lies between `0` and `s` inclusive, on whichever side of zero `s` is.
pub open spec fn between_zero(r: int, s: int) -> bool {
    if s >= 0 {
        0 <= r <= s
    } else {
        s <= r <= 0
    }
}

/// Well-formedness of one entry: bounded fields, and `remaining` still a part
/// of `sample`.
pub open spec fn entry_wf(e: InputStreamEntry) -> bool {
    &&& -SAMPLE_MAX <= e.sample.x <= SAMPLE_MAX
    &&& -SAMPLE_MAX <= e.sample.y <= SAMPLE_MAX
    &&& between_zero(e.remaining.x as int, e.sample.x as int)
    &&& between_zero(e.remaining.y as int, e.sample.y as int)
    &&& -SMOOTH_MAX <= e.smoothed_value.x <= SMOOTH_MAX
    &&& -SMOOTH_MAX <= e.smoothed_value.y <= SMOOTH_MAX
    &&& -TIME_MAX <= e.time_us <= TIME_MAX
}

/// Well-formedness of the whole queue.
pub open spec fn queue_wf(s: Seq<InputStreamEntry>) -> bool {
    &&& s.len() <= MAX_EVENTS
    &&& forall|i: int| 0 <= i < s.len() ==> entry_wf(#[trigger] s[i])
}

/// A sample fit to be fed to the queue.
pub open spec fn sample_ok(v: FxVec2) -> bool {
    &&& -SAMPLE_MAX <= v.x <= SAMPLE_MAX
    &&& -SAMPLE_MAX <= v.y <= SAMPLE_MAX
}

/// How many entries, scanning from the newest, lie within `window` of `now`.
/// The scan stops at the first entry strictly older than the window.
pub open spec fn scan_len(s: Seq<InputStreamEntry>, now: int, window: int) -> int
    decreases s.len(),
{
    if s.len() == 0 {
        0
    } else if now - s[0].time_us > window {
        0
    } else {
        1 + scan_len(s.drop_first(), now, window)
    }
}

/// The scan never runs past the end.
pub proof fn lemma_scan_len_bounds(s: Seq<InputStreamEntry>, now: int, window: int)
    ensures
        0 <= scan_len(s, now, window) <= s.len(),
    decreases s.len(),
{
    if s.len() > 0 && !(now - s[0].time_us > window) {
        lemma_scan_len_bounds(s.drop_first(), now, window);
    }
}

/// The scan is determined by which prefix lies within the window.
pub proof fn lemma_scan_len_char(s: Seq<InputStreamEntry>, now: int, window: int, k: int)
    requires
        0 <= k <= s.len(),
        forall|j: int| 0 <= j < k ==> now - #[trigger] s[j].time_us <= window,
        k < s.len() ==> now - s[k].time_us > window,
    ensures
        scan_len(s, now, window) == k,
    decreases s.len(),
{
    if s.len() > 0 {
        if k == 0 {
        } else {
            assert(now - s[0].time_us <= window);
            lemma_scan_len_char(s.drop_first(), now, window, k - 1);
        }
    }
}

/// Clamp an intended share so that it never draws more than what an entry
/// still has, and never pushes past zero.
pub open spec fn clamp_toward(share: int, rem: int) -> int {
    if rem >= 0 {
        if share < 0 {
            0
        } else if share > rem {
            rem
        } else {
            share
        }
    } else {
        if share > 0 {
            0
        } else if share < rem {
            rem
        } else {
            share
        }
    }
}

/// What one historical entry contributes to the new smoothed value: its equal
/// share of the window while it is inside it, everything it still owes once
/// it is not.
pub open spec fn take_x(e: InputStreamEntry, w: int, in_window: bool) -> int {
    if in_window {
        clamp_toward(tz_div(e.sample.x as int, w), e.remaining.x as int)
    } else {
        e.remaining.x as int
    }
}

/// Companion of [`take_x`] for the `y` component.
pub open spec fn take_y(e: InputStreamEntry, w: int, in_window: bool) -> int {
    if in_window {
        clamp_toward(tz_div(e.sample.y as int, w), e.remaining.y as int)
    } else {
        e.remaining.y as int
    }
}

/// One historical entry after the pass: its contribution has moved out of
/// `remaining`.
pub open spec fn drained_entry(e: InputStreamEntry, w: int, in_window: bool) -> InputStreamEntry {
    InputStreamEntry {
        remaining: FxVec2 {
            x: (e.remaining.x - take_x(e, w, in_window)) as i64,
            y: (e.remaining.y - take_y(e, w, in_window)) as i64,
        },
        ..e
    }
}

/// Sum over the queue of [`take_x`], where the first `re` entries count as
/// inside the window.
pub open spec fn sum_take_x(s: Seq<InputStreamEntry>, w: int, re: int) -> int
    decreases s.len(),
{
    if s.len() == 0 {
        0
    } else {
        take_x(s[0], w, re > 0) + sum_take_x(s.drop_first(), w, re - 1)
    }
}

/// Companion of [`sum_take_x`].
pub open spec fn sum_take_y(s: Seq<InputStreamEntry>, w: int, re: int) -> int
    decreases s.len(),
{
    if s.len() == 0 {
        0
    } else {
        take_y(s[0], w, re > 0) + sum_take_y(s.drop_first(), w, re - 1)
    }
}

/// Sum of the unpaid parts over the queue, `x` component.
pub open spec fn sum_rem_x(s: Seq<InputStreamEntry>) -> int
    decreases s.len(),
{
    if s.len() == 0 {
        0
    } else {
        s[0].remaining.x + sum_rem_x(s.drop_first())
    }
}

/// Sum of the unpaid parts over the queue, `y` component.
pub open spec fn sum_rem_y(s: Seq<InputStreamEntry>) -> int
    decreases s.len(),
{
    if s.len() == 0 {
        0
    } else {
        s[0].remaining.y + sum_rem_y(s.drop_first())
    }
}

/// The index from which history entries are drained completely during a
/// processing step: an entry pays out everything it still owes once it is
/// older than the window, and also once it sits at the capacity boundary and
/// is about to be evicted — so nothing conserved ever leaves the queue.
pub open spec fn drain_cut(s: Seq<InputStreamEntry>, now: int, window: int) -> int {
    if scan_len(s, now, window) > MAX_EVENTS - 1 {
        MAX_EVENTS - 1
    } else {
        scan_len(s, now, window)
    }
}

/// The smoothed `x` value computed for a new sample: its own share of the
/// window plus every older entry's contribution.
pub open spec fn smoothed_x(s: Seq<InputStreamEntry>, input: FxVec2, window: int, now: int) -> int {
    let re = scan_len(s, now, window);
    tz_div(input.x as int, re + 1) + sum_take_x(s, re + 1, drain_cut(s, now, window))
}

/// Companion of [`smoothed_x`].
pub open spec fn smoothed_y(s: Seq<InputStreamEntry>, input: FxVec2, window: int, now: int) -> int {
    let re = scan_len(s, now, window);
    tz_div(input.y as int, re + 1) + sum_take_y(s, re + 1, drain_cut(s, now, window))
}

/// The entry created for a new sample.
pub open spec fn fresh_entry(s: Seq<InputStreamEntry>, input: FxVec2, window: int, now: int)
    -> InputStreamEntry {
    let re = scan_len(s, now, window);
    InputStreamEntry {
        time_us: now as i64,
        sample: input,
        remaining: FxVec2 {
            x: (input.x - tz_div(input.x as int, re + 1)) as i64,
            y: (input.y - tz_div(input.y as int, re + 1)) as i64,
        },
        smoothed_value: FxVec2 {
            x: smoothed_x(s, input, window, now) as i64,
            y: smoothed_y(s, input, window, now) as i64,
        },
    }
}

/// The whole queue after processing one sample: the fresh entry in front of
/// the drained history, truncated to capacity.
pub open spec fn processed_seq(s: Seq<InputStreamEntry>, input: FxVec2, window: int, now: int)
    -> Seq<InputStreamEntry> {
    let re = scan_len(s, now, window);
    let cut = drain_cut(s, now, window);
    let drained = Seq::new(s.len(), |i: int| drained_entry(s[i], re + 1, i < cut));
    let kept = if drained.len() > MAX_EVENTS - 1 {
        drained.subrange(0, MAX_EVENTS - 1)
    } else {
        drained
    };
    seq![fresh_entry(s, input, window, now)] + kept
}

/// Clamp an intended share against what an entry still has.
fn clamp_toward_exec(share: i64, rem: i64) -> (r: i64)
    ensures
        r == clamp_toward(share as int, rem as int),
{
    if rem >= 0 {
        if share < 0 {
            0
        } else if share > rem {
            rem
        } else {
            share
        }
    } else {
        if share > 0 {
            0
        } else if share < rem {
            rem
        } else {
            share
        }
    }
}

/// Appending an entry adds its take to the sum.
proof fn lemma_sum_take_x_push(s: Seq<InputStreamEntry>, e: InputStreamEntry, w: int, re: int)
    ensures
        sum_take_x(s.push(e), w, re) == sum_take_x(s, w, re) + take_x(e, w, s.len() < re),
    decreases s.len(),
{
    if s.len() == 0 {
        assert(s.push(e).drop_first() =~= Seq::<InputStreamEntry>::empty());
        assert(s.push(e)[0] == e);
        assert(sum_take_x(s.push(e), w, re) == take_x(e, w, re > 0) + sum_take_x(
            s.push(e).drop_first(),
            w,
            re - 1,
        ));
    } else {
        assert(s.push(e).drop_first() =~= s.drop_first().push(e));
        assert(s.push(e)[0] == s[0]);
        lemma_sum_take_x_push(s.drop_first(), e, w, re - 1);
    }
}

/// Companion of [`lemma_sum_take_x_push`].
proof fn lemma_sum_take_y_push(s: Seq<InputStreamEntry>, e: InputStreamEntry, w: int, re: int)
    ensures
        sum_take_y(s.push(e), w, re) == sum_take_y(s, w, re) + take_y(e, w, s.len() < re),
    decreases s.len(),
{
    if s.len() == 0 {
        assert(s.push(e).drop_first() =~= Seq::<InputStreamEntry>::empty());
        assert(s.push(e)[0] == e);
        assert(sum_take_y(s.push(e), w, re) == take_y(e, w, re > 0) + sum_take_y(
            s.push(e).drop_first(),
            w,
            re - 1,
        ));
    } else {
        assert(s.push(e).drop_first() =~= s.drop_first().push(e));
        assert(s.push(e)[0] == s[0]);
        lemma_sum_take_y_push(s.drop_first(), e, w, re - 1);
    }
}

/// The take sums stay within one sample bound per entry.
proof fn lemma_sum_take_x_bound(s: Seq<InputStreamEntry>, w: int, re: int)
    requires
        forall|i: int| 0 <= i < s.len() ==> entry_wf(#[trigger] s[i]),
    ensures
        -SAMPLE_MAX * s.len() <= sum_take_x(s, w, re) <= SAMPLE_MAX * s.len(),
        -SAMPLE_MAX * s.len() <= sum_take_y(s, w, re) <= SAMPLE_MAX * s.len(),
    decreases s.len(),
{
    if s.len() > 0 {
        assert(entry_wf(s[0]));
        lemma_sum_take_x_bound(s.drop_first(), w, re - 1);
        assert(SAMPLE_MAX * s.len() == SAMPLE_MAX + SAMPLE_MAX * (s.len() - 1)) by {
            vstd::arithmetic::mul::lemma_mul_is_distributive_add(
                SAMPLE_MAX as int,
                1,
                s.len() - 1 as int,
            );
        }
    }
}

/// Dropping the last entry removes exactly its unpaid part from the sums.
proof fn lemma_sum_rem_drop_last(s: Seq<InputStreamEntry>)
    requires
        s.len() > 0,
    ensures
        sum_rem_x(s.drop_last()) == sum_rem_x(s) - s.last().remaining.x,
        sum_rem_y(s.drop_last()) == sum_rem_y(s) - s.last().remaining.y,
    decreases s.len(),
{
    if s.len() == 1 {
        assert(s.drop_last() =~= Seq::<InputStreamEntry>::empty());
        assert(s.drop_first() =~= Seq::<InputStreamEntry>::empty());
        assert(sum_rem_x(s) == s[0].remaining.x + sum_rem_x(s.drop_first()));
        assert(s.last() == s[0]);
    } else {
        assert(s.drop_last().drop_first() =~= s.drop_first().drop_last());
        lemma_sum_rem_drop_last(s.drop_first());
        assert(s.drop_last()[0] == s[0]);
        assert(sum_rem_x(s.drop_last()) == s.drop_last()[0].remaining.x + sum_rem_x(
            s.drop_last().drop_first(),
        ));
        assert(s.last() == s.drop_first().last());
    }
}

/// Draining moves exactly the takes out of the queue's unpaid sums.
proof fn lemma_sum_rem_drained(s: Seq<InputStreamEntry>, w: int, re: int)
    requires
        w >= 1,
    ensures
        sum_rem_x(Seq::new(s.len(), |i: int| drained_entry(s[i], w, i < re))) == sum_rem_x(s)
            - sum_take_x(s, w, re),
        sum_rem_y(Seq::new(s.len(), |i: int| drained_entry(s[i], w, i < re))) == sum_rem_y(s)
            - sum_take_y(s, w, re),
    decreases s.len(),
{
    let d = Seq::new(s.len(), |i: int| drained_entry(s[i], w, i < re));
    if s.len() > 0 {
        let d2 = Seq::new(
            s.drop_first().len(),
            |i: int| drained_entry(s.drop_first()[i], w, i < re - 1),
        );
        assert(d.drop_first() =~= d2);
        lemma_sum_rem_drained(s.drop_first(), w, re - 1);
        assert(d[0] == drained_entry(s[0], w, 0 < re));
    }
}

/// One processing step conserves displacement exactly: the smoothed output
/// plus what the new queue still owes equals the input plus what the old
/// queue still owed — for every window, including one that covers the whole
/// full queue, because an entry about to be evicted at capacity is always
/// drained completely first.
pub proof fn lemma_conservation_step(
    s: Seq<InputStreamEntry>,
    input: FxVec2,
    window: int,
    now: int,
)
    requires
        s.len() <= MAX_EVENTS,
    ensures
        smoothed_x(s, input, window, now) + sum_rem_x(processed_seq(s, input, window, now))
            == input.x + sum_rem_x(s),
        smoothed_y(s, input, window, now) + sum_rem_y(processed_seq(s, input, window, now))
            == input.y + sum_rem_y(s),
{
    let re = scan_len(s, now, window);
    let cut = drain_cut(s, now, window);
    let w = re + 1;
    lemma_scan_len_bounds(s, now, window);
    let drained = Seq::new(s.len(), |i: int| drained_entry(s[i], w, i < cut));
    let kept = if drained.len() > MAX_EVENTS - 1 {
        drained.subrange(0, MAX_EVENTS - 1)
    } else {
        drained
    };
    let p = processed_seq(s, input, window, now);
    lemma_sum_rem_drained(s, w, cut);
    if drained.len() > MAX_EVENTS - 1 {
        assert(kept =~= drained.drop_last());
        lemma_sum_rem_drop_last(drained);
        assert(drained[drained.len() - 1] == drained_entry(s[s.len() - 1], w, s.len() - 1 < cut));
        assert(!(s.len() - 1 < cut));
        assert(drained.last().remaining.x == 0);
        assert(drained.last().remaining.y == 0);
    }
    assert(p.drop_first() =~= kept);
    assert(p[0] == fresh_entry(s, input, window, now));
    assert(sum_rem_x(p) == p[0].remaining.x + sum_rem_x(kept));
    crate::fx::lemma_tz_div_bounds(input.x as int, w);
    crate::fx::lemma_tz_div_bounds(input.y as int, w);
}

/// After a processing step, every entry strictly older than the window has
/// been drained completely: once an entry leaves the window, its whole raw
/// sample has been paid out.
pub proof fn lemma_processed_outside_window_drained(
    s: Seq<InputStreamEntry>,
    input: FxVec2,
    window: int,
    now: int,
)
    requires
        s.len() <= MAX_EVENTS,
    ensures
        forall|i: int|
            #![trigger processed_seq(s, input, window, now)[i]]
            scan_len(s, now, window) + 1 <= i < processed_seq(s, input, window, now).len()
                ==> processed_seq(s, input, window, now)[i].remaining.x == 0 && processed_seq(
                s,
                input,
                window,
                now,
            )[i].remaining.y == 0,
{
    let re = scan_len(s, now, window);
    let cut = drain_cut(s, now, window);
    lemma_scan_len_bounds(s, now, window);
    let p = processed_seq(s, input, window, now);
    let drained = Seq::new(s.len(), |i: int| drained_entry(s[i], re + 1, i < cut));
    assert forall|i: int| #![trigger p[i]] re + 1 <= i < p.len() implies p[i].remaining.x == 0
        && p[i].remaining.y == 0 by {
        assert(p[i] == drained[i - 1]);
        assert(drained[i - 1] == drained_entry(s[i - 1], re + 1, i - 1 < cut));
    }
}

/// The takes of an all-zero window over a fully drained history vanish.
proof fn lemma_sum_take_zero(s: Seq<InputStreamEntry>, w: int, re: int)
    requires
        w >= 1,
        forall|i: int| #![trigger s[i]]
            0 <= i < re && i < s.len() ==> s[i].sample.x == 0 && s[i].sample.y == 0,
        forall|i: int| #![trigger s[i]]
            0 <= i < s.len() && re <= i ==> s[i].remaining.x == 0 && s[i].remaining.y == 0,
    ensures
        sum_take_x(s, w, re) == 0,
        sum_take_y(s, w, re) == 0,
    decreases s.len(),
{
    if s.len() > 0 {
        if re > 0 {
            assert(s[0].sample.x == 0 && s[0].sample.y == 0);
            assert(tz_div(0, w) == 0) by {
                vstd::arithmetic::div_mod::lemma_div_of0(w);
            }
        } else {
            assert(s[0].remaining.x == 0 && s[0].remaining.y == 0);
        }
        assert forall|i: int| #![trigger s.drop_first()[i]]
            0 <= i < re - 1 && i < s.drop_first().len() implies s.drop_first()[i].sample.x == 0
            && s.drop_first()[i].sample.y == 0 by {
            assert(s.drop_first()[i] == s[i + 1]);
        }
        assert forall|i: int| #![trigger s.drop_first()[i]]
            0 <= i < s.drop_first().len() && re - 1 <= i implies s.drop_first()[i].remaining.x == 0
            && s.drop_first()[i].remaining.y == 0 by {
            assert(s.drop_first()[i] == s[i + 1]);
        }
        lemma_sum_take_zero(s.drop_first(), w, re - 1);
    }
}

/// Feeding a zero sample while every entry still inside the window is zero
/// (and everything older is already drained) produces a smoothed output of
/// exactly zero: smoothing is idempotent on zero input.
pub proof fn lemma_zero_input_zero_output(
    s: Seq<InputStreamEntry>,
    input: FxVec2,
    window: int,
    now: int,
)
    requires
        input.x == 0,
        input.y == 0,
        forall|i: int| #![trigger s[i]]
            0 <= i < s.len() ==> between_zero(s[i].remaining.x as int, s[i].sample.x as int)
                && between_zero(s[i].remaining.y as int, s[i].sample.y as int),
        forall|i: int| #![trigger s[i]]
            0 <= i < scan_len(s, now, window) && i < s.len() ==> s[i].sample.x == 0
                && s[i].sample.y == 0,
        forall|i: int| #![trigger s[i]]
            0 <= i < s.len() && scan_len(s, now, window) <= i ==> s[i].remaining.x == 0
                && s[i].remaining.y == 0,
    ensures
        smoothed_x(s, input, window, now) == 0,
        smoothed_y(s, input, window, now) == 0,
        fully_drained(processed_seq(s, input, window, now)),
{
    let re = scan_len(s, now, window);
    let cut = drain_cut(s, now, window);
    lemma_scan_len_bounds(s, now, window);
    assert(tz_div(0, re + 1) == 0) by {
        vstd::arithmetic::div_mod::lemma_div_of0(re + 1);
    }
    assert forall|i: int| #![trigger s[i]] 0 <= i < s.len() && cut <= i implies s[i].remaining.x
        == 0 && s[i].remaining.y == 0 by {
        if i < re {
            assert(s[i].sample.x == 0 && s[i].sample.y == 0);
        }
    }
    lemma_sum_take_zero(s, re + 1, cut);
    let p = processed_seq(s, input, window, now);
    assert forall|i: int| #![trigger p[i]] 0 <= i < p.len() implies p[i].remaining.x == 0
        && p[i].remaining.y == 0 by {
        if i > 0 {
            assert(p[i] == drained_entry(s[i - 1], re + 1, i - 1 < cut));
            if i - 1 < cut {
                assert(s[i - 1].sample.x == 0 && s[i - 1].sample.y == 0);
            }
        }
    }
}

/// A queue that owes nothing: every entry's unpaid part is zero.
pub open spec fn fully_drained(s: Seq<InputStreamEntry>) -> bool {
    forall|i: int| #![trigger s[i]]
        0 <= i < s.len() ==> s[i].remaining.x == 0 && s[i].remaining.y == 0
}

/// Feeding a zero sample to a queue that owes nothing produces a smoothed
/// output of exactly zero, and the queue still owes nothing — whatever the
/// window, the clock, or the raw samples still recorded in the history.
pub proof fn lemma_zero_feed_step(s: Seq<InputStreamEntry>, input: FxVec2, window: int, now: int)
    requires
        input.x == 0,
        input.y == 0,
        fully_drained(s),
    ensures
        smoothed_x(s, input, window, now) == 0,
        smoothed_y(s, input, window, now) == 0,
        fully_drained(processed_seq(s, input, window, now)),
{
    let re = scan_len(s, now, window);
    let cut = drain_cut(s, now, window);
    lemma_scan_len_bounds(s, now, window);
    assert(tz_div(0, re + 1) == 0) by {
        vstd::arithmetic::div_mod::lemma_div_of0(re + 1);
    }
    lemma_sum_take_drained(s, re + 1, cut);
    let p = processed_seq(s, input, window, now);
    assert forall|i: int| #![trigger p[i]] 0 <= i < p.len() implies p[i].remaining.x == 0
        && p[i].remaining.y == 0 by {
        if i > 0 {
            assert(p[i] == drained_entry(s[i - 1], re + 1, i - 1 < cut));
            assert(s[i - 1].remaining.x == 0 && s[i - 1].remaining.y == 0);
        }
    }
}

/// The takes of a queue that owes nothing all vanish, whatever the samples.
proof fn lemma_sum_take_drained(s: Seq<InputStreamEntry>, w: int, re: int)
    requires
        w >= 1,
        fully_drained(s),
    ensures
        sum_take_x(s, w, re) == 0,
        sum_take_y(s, w, re) == 0,
    decreases s.len(),
{
    if s.len() > 0 {
        assert(s[0].remaining.x == 0 && s[0].remaining.y == 0);
        assert forall|i: int| #![trigger s.drop_first()[i]]
            0 <= i < s.drop_first().len() implies s.drop_first()[i].remaining.x == 0
            && s.drop_first()[i].remaining.y == 0 by {
            assert(s.drop_first()[i] == s[i + 1]);
        }
        lemma_sum_take_drained(s.drop_first(), w, re - 1);
    }
}

/// Is every sample of a feed zero?
pub open spec fn all_zero_feeds(feeds: Seq<(FxVec2, int, int)>) -> bool {
    forall|k: int| #![trigger feeds[k]]
        0 <= k < feeds.len() ==> feeds[k].0.x == 0 && feeds[k].0.y == 0
}

/// Smoothing is idempotent on zero input over any whole history: once the
/// queue owes nothing — which [`lemma_zero_input_zero_output`] shows holds
/// after one zero sample arrives with every entry still inside the window
/// zero — an all-zero feed of any length, at any clock readings and windows,
/// produces exactly zero smoothed output at every step.
pub proof fn lemma_zero_input_run(s: Seq<InputStreamEntry>, feeds: Seq<(FxVec2, int, int)>)
    requires
        fully_drained(s),
        all_zero_feeds(feeds),
    ensures
        run_output_x(s, feeds) == 0,
        run_output_y(s, feeds) == 0,
        fully_drained(run_queue(s, feeds)),
    decreases feeds.len(),
{
    if feeds.len() > 0 {
        assert(feeds[0].0.x == 0 && feeds[0].0.y == 0);
        lemma_zero_feed_step(s, feeds[0].0, feeds[0].1, feeds[0].2);
        let p = processed_seq(s, feeds[0].0, feeds[0].1, feeds[0].2);
        assert forall|k: int| #![trigger feeds.drop_first()[k]]
            0 <= k < feeds.drop_first().len() implies feeds.drop_first()[k].0.x == 0
            && feeds.drop_first()[k].0.y == 0 by {
            assert(feeds.drop_first()[k] == feeds[k + 1]);
        }
        lemma_zero_input_run(p, feeds.drop_first());
    }
}

/// A queue step preserves well-formedness, at the specification level.
pub proof fn lemma_processed_wf(s: Seq<InputStreamEntry>, input: FxVec2, window: int, now: int)
    requires
        queue_wf(s),
        sample_ok(input),
        -TIME_MAX <= now <= TIME_MAX,
    ensures
        queue_wf(processed_seq(s, input, window, now)),
{
    let re = scan_len(s, now, window);
    let cut = drain_cut(s, now, window);
    let w = re + 1;
    lemma_scan_len_bounds(s, now, window);
    let p = processed_seq(s, input, window, now);
    crate::fx::lemma_tz_div_bounds(input.x as int, w);
    crate::fx::lemma_tz_div_bounds(input.y as int, w);
    lemma_sum_take_x_bound(s, w, cut);
    assert(SAMPLE_MAX * s.len() <= SAMPLE_MAX * 256) by {
        vstd::arithmetic::mul::lemma_mul_inequality(s.len() as int, 256, SAMPLE_MAX as int);
        vstd::arithmetic::mul::lemma_mul_is_commutative(s.len() as int, SAMPLE_MAX as int);
        vstd::arithmetic::mul::lemma_mul_is_commutative(256, SAMPLE_MAX as int);
    }
    assert(entry_wf(p[0]));
    assert forall|j: int| 0 <= j < p.len() implies entry_wf(#[trigger] p[j]) by {
        if j > 0 {
            assert(entry_wf(s[j - 1]));
            assert(p[j] == drained_entry(s[j - 1], w, j - 1 < cut));
        }
    }
}

/// One step of a feed: the sample, the window and the clock reading, each in
/// bounds.
pub open spec fn feed_ok(f: (FxVec2, int, int)) -> bool {
    &&& sample_ok(f.0)
    &&& 0 <= f.1 <= TIME_MAX
    &&& -TIME_MAX <= f.2 <= TIME_MAX
}

/// Every step of the feed is in bounds.
pub open spec fn run_ok(feeds: Seq<(FxVec2, int, int)>) -> bool
    decreases feeds.len(),
{
    if feeds.len() == 0 {
        true
    } else {
        feed_ok(feeds[0]) && run_ok(feeds.drop_first())
    }
}

/// The queue after a whole feed has been processed.
pub open spec fn run_queue(s: Seq<InputStreamEntry>, feeds: Seq<(FxVec2, int, int)>)
    -> Seq<InputStreamEntry>
    decreases feeds.len(),
{
    if feeds.len() == 0 {
        s
    } else {
        run_queue(processed_seq(s, feeds[0].0, feeds[0].1, feeds[0].2), feeds.drop_first())
    }
}

/// Sum of all smoothed outputs over a feed, `x` component.
pub open spec fn run_output_x(s: Seq<InputStreamEntry>, feeds: Seq<(FxVec2, int, int)>) -> int
    decreases feeds.len(),
{
    if feeds.len() == 0 {
        0
    } else {
        smoothed_x(s, feeds[0].0, feeds[0].1, feeds[0].2) + run_output_x(
            processed_seq(s, feeds[0].0, feeds[0].1, feeds[0].2),
            feeds.drop_first(),
        )
    }
}

/// Sum of all smoothed outputs over a feed, `y` component.
pub open spec fn run_output_y(s: Seq<InputStreamEntry>, feeds: Seq<(FxVec2, int, int)>) -> int
    decreases feeds.len(),
{
    if feeds.len() == 0 {
        0
    } else {
        smoothed_y(s, feeds[0].0, feeds[0].1, feeds[0].2) + run_output_y(
            processed_seq(s, feeds[0].0, feeds[0].1, feeds[0].2),
            feeds.drop_first(),
        )
    }
}

/// Sum of the raw inputs of a feed, `x` component.
pub open spec fn feeds_sum_x(feeds: Seq<(FxVec2, int, int)>) -> int
    decreases feeds.len(),
{
    if feeds.len() == 0 {
        0
    } else {
        feeds[0].0.x + feeds_sum_x(feeds.drop_first())
    }
}

/// Sum of the raw inputs of a feed, `y` component.
pub open spec fn feeds_sum_y(feeds: Seq<(FxVec2, int, int)>) -> int
    decreases feeds.len(),
{
    if feeds.len() == 0 {
        0
    } else {
        feeds[0].0.y + feeds_sum_y(feeds.drop_first())
    }
}

/// Conservation of displacement. For any sequence of raw samples fed to the
/// queue, at arbitrary clock readings and with arbitrary (changing) windows,
/// the sum of all smoothed outputs equals the sum of all raw inputs, minus
/// only what the final queue still owes — and by
/// [`lemma_processed_outside_window_drained`] that residue lives entirely in
/// entries still inside the last window. There is no drift.
pub proof fn lemma_conservation(s: Seq<InputStreamEntry>, feeds: Seq<(FxVec2, int, int)>)
    requires
        queue_wf(s),
        run_ok(feeds),
    ensures
        run_output_x(s, feeds) + sum_rem_x(run_queue(s, feeds)) == feeds_sum_x(feeds)
            + sum_rem_x(s),
        run_output_y(s, feeds) + sum_rem_y(run_queue(s, feeds)) == feeds_sum_y(feeds)
            + sum_rem_y(s),
    decreases feeds.len(),
{
    if feeds.len() > 0 {
        let p = processed_seq(s, feeds[0].0, feeds[0].1, feeds[0].2);
        lemma_conservation_step(s, feeds[0].0, feeds[0].1, feeds[0].2);
        lemma_processed_wf(s, feeds[0].0, feeds[0].1, feeds[0].2);
        lemma_conservation(p, feeds.drop_first());
    }
}

/// A queue that owes nothing has unpaid sums of zero; a freshly seeded queue
/// is such a queue, so conservation runs from it with no initial residue.
pub proof fn lemma_sum_rem_zero(s: Seq<InputStreamEntry>)
    requires
        fully_drained(s),
    ensures
        sum_rem_x(s) == 0,
        sum_rem_y(s) == 0,
    decreases s.len(),
{
    if s.len() > 0 {
        assert forall|i: int| #![trigger s.drop_first()[i]]
            0 <= i < s.drop_first().len() implies s.drop_first()[i].remaining.x == 0
            && s.drop_first()[i].remaining.y == 0 by {
            assert(s.drop_first()[i] == s[i + 1]);
        }
        lemma_sum_rem_zero(s.drop_first());
    }
}

/// Is an entry newer than `window`, seen from `now`?
pub open spec fn recent(e: InputStreamEntry, now: int, window: int) -> bool {
    now - e.time_us < window
}

/// How many entries are newer than `window`.
pub open spec fn count_recent(s: Seq<InputStreamEntry>, now: int, window: int) -> int
    decreases s.len(),
{
    if s.len() == 0 {
        0
    } else {
        (if recent(s[0], now, window) {
            1int
        } else {
            0int
        }) + count_recent(s.drop_first(), now, window)
    }
}

/// Sum of the smoothed values of the entries newer than `window`, `x`.
pub open spec fn sum_recent_smoothed_x(s: Seq<InputStreamEntry>, now: int, window: int) -> int
    decreases s.len(),
{
    if s.len() == 0 {
        0
    } else {
        (if recent(s[0], now, window) {
            s[0].smoothed_value.x as int
        } else {
            0int
        }) + sum_recent_smoothed_x(s.drop_first(), now, window)
    }
}

/// Sum of the smoothed values of the entries newer than `window`, `y`.
pub open spec fn sum_recent_smoothed_y(s: Seq<InputStreamEntry>, now: int, window: int) -> int
    decreases s.len(),
{
    if s.len() == 0 {
        0
    } else {
        (if recent(s[0], now, window) {
            s[0].smoothed_value.y as int
        } else {
            0int
        }) + sum_recent_smoothed_y(s.drop_first(), now, window)
    }
}

/// Sum of the raw samples of the entries newer than `window`, `x`.
pub open spec fn sum_recent_sample_x(s: Seq<InputStreamEntry>, now: int, window: int) -> int
    decreases s.len(),
{
    if s.len() == 0 {
        0
    } else {
        (if recent(s[0], now, window) {
            s[0].sample.x as int
        } else {
            0int
        }) + sum_recent_sample_x(s.drop_first(), now, window)
    }
}

/// Sum of the raw samples of the entries newer than `window`, `y`.
pub open spec fn sum_recent_sample_y(s: Seq<InputStreamEntry>, now: int, window: int) -> int
    decreases s.len(),
{
    if s.len() == 0 {
        0
    } else {
        (if recent(s[0], now, window) {
            s[0].sample.y as int
        } else {
            0int
        }) + sum_recent_sample_y(s.drop_first(), now, window)
    }
}

/// Sum of the magnitudes of the raw `x` samples of the entries newer than
/// `window`.
pub open spec fn sum_recent_sample_abs_x(s: Seq<InputStreamEntry>, now: int, window: int) -> int
    decreases s.len(),
{
    if s.len() == 0 {
        0
    } else {
        (if recent(s[0], now, window) {
            crate::linear::abs_spec(s[0].sample.x as int)
        } else {
            0int
        }) + sum_recent_sample_abs_x(s.drop_first(), now, window)
    }
}

/// Divisor of an average over `count` entries: one when there is nothing to
/// average, so that the average of nothing is zero.
pub open spec fn avg_div(count: int) -> int {
    if count == 0 {
        1
    } else {
        count
    }
}

/// Interval between the pre-seeded entries of a fresh queue: one frame at
/// sixty frames per second, in microseconds.
pub open const FRAME_INTERVAL_US: i64 = 16_667;

/// Entries of a slice of a well-formed queue are well formed.
proof fn lemma_subrange_entries_wf(s: Seq<InputStreamEntry>, a: int, b: int)
    requires
        0 <= a <= b <= s.len(),
        forall|i: int| 0 <= i < s.len() ==> entry_wf(#[trigger] s[i]),
    ensures
        forall|i: int|
            0 <= i < s.subrange(a, b).len() ==> entry_wf(#[trigger] s.subrange(a, b)[i]),
{
    assert forall|i: int| 0 <= i < s.subrange(a, b).len() implies entry_wf(
        #[trigger] s.subrange(a, b)[i],
    ) by {
        assert(s.subrange(a, b)[i] == s[a + i]);
    }
}

/// The recent smoothed sums are bounded by one smoothed value per entry.
proof fn lemma_sum_recent_smoothed_bound(
    s: Seq<InputStreamEntry>,
    now: int,
    window: int,
    b: int,
)
    requires
        forall|i: int| 0 <= i < s.len() ==> entry_wf(#[trigger] s[i]),
        s.len() <= b,
    ensures
        -SMOOTH_MAX * b <= sum_recent_smoothed_x(s, now, window) <= SMOOTH_MAX * b,
        -SMOOTH_MAX * b <= sum_recent_smoothed_y(s, now, window) <= SMOOTH_MAX * b,
    decreases s.len(),
{
    if s.len() == 0 {
        vstd::arithmetic::mul::lemma_mul_nonnegative(SMOOTH_MAX as int, b);
    } else {
        assert(entry_wf(s[0]));
        assert forall|i: int| 0 <= i < s.drop_first().len() implies entry_wf(
            #[trigger] s.drop_first()[i],
        ) by {
            assert(s.drop_first()[i] == s[i + 1]);
        }
        lemma_sum_recent_smoothed_bound(s.drop_first(), now, window, b - 1);
        assert(SMOOTH_MAX * b == SMOOTH_MAX + SMOOTH_MAX * (b - 1)) by {
            vstd::arithmetic::mul::lemma_mul_is_distributive_add(SMOOTH_MAX as int, 1, b - 1);
        }
    }
}

/// The recent raw-sample sums are bounded by one sample per entry.
proof fn lemma_sum_recent_sample_bound(s: Seq<InputStreamEntry>, now: int, window: int, b: int)
    requires
        forall|i: int| 0 <= i < s.len() ==> entry_wf(#[trigger] s[i]),
        s.len() <= b,
    ensures
        -SAMPLE_MAX * b <= sum_recent_sample_x(s, now, window) <= SAMPLE_MAX * b,
        -SAMPLE_MAX * b <= sum_recent_sample_y(s, now, window) <= SAMPLE_MAX * b,
        0 <= sum_recent_sample_abs_x(s, now, window) <= SAMPLE_MAX * b,
    decreases s.len(),
{
    if s.len() == 0 {
        vstd::arithmetic::mul::lemma_mul_nonnegative(SAMPLE_MAX as int, b);
    } else {
        assert(entry_wf(s[0]));
        assert forall|i: int| 0 <= i < s.drop_first().len() implies entry_wf(
            #[trigger] s.drop_first()[i],
        ) by {
            assert(s.drop_first()[i] == s[i + 1]);
        }
        lemma_sum_recent_sample_bound(s.drop_first(), now, window, b - 1);
        assert(SAMPLE_MAX * b == SAMPLE_MAX + SAMPLE_MAX * (b - 1)) by {
            vstd::arithmetic::mul::lemma_mul_is_distributive_add(SAMPLE_MAX as int, 1, b - 1);
        }
    }
}

/// The recent smoothed sums are bounded by one smoothed value per counted
/// entry.
proof fn lemma_sum_recent_vs_count(s: Seq<InputStreamEntry>, now: int, window: int)
    requires
        forall|i: int| 0 <= i < s.len() ==> entry_wf(#[trigger] s[i]),
    ensures
        -SMOOTH_MAX * count_recent(s, now, window) <= sum_recent_smoothed_x(s, now, window)
            <= SMOOTH_MAX * count_recent(s, now, window),
        -SMOOTH_MAX * count_recent(s, now, window) <= sum_recent_smoothed_y(s, now, window)
            <= SMOOTH_MAX * count_recent(s, now, window),
        count_recent(s, now, window) >= 0,
    decreases s.len(),
{
    if s.len() == 0 {
    } else {
        assert(entry_wf(s[0]));
        assert forall|i: int| 0 <= i < s.drop_first().len() implies entry_wf(
            #[trigger] s.drop_first()[i],
        ) by {
            assert(s.drop_first()[i] == s[i + 1]);
        }
        lemma_sum_recent_vs_count(s.drop_first(), now, window);
        let c = count_recent(s.drop_first(), now, window);
        if recent(s[0], now, window) {
            assert(SMOOTH_MAX * (c + 1) == SMOOTH_MAX + SMOOTH_MAX * c) by {
                vstd::arithmetic::mul::lemma_mul_is_distributive_add(SMOOTH_MAX as int, 1, c);
            }
        }
    }
}

/// The average of the recent smoothed values stays within one smoothed value.
pub proof fn lemma_average_smoothed_bounded(s: Seq<InputStreamEntry>, now: int, window: int)
    requires
        forall|i: int| 0 <= i < s.len() ==> entry_wf(#[trigger] s[i]),
    ensures
        -SMOOTH_MAX <= tz_div(
            sum_recent_smoothed_x(s, now, window),
            avg_div(count_recent(s, now, window)),
        ) <= SMOOTH_MAX,
        -SMOOTH_MAX <= tz_div(
            sum_recent_smoothed_y(s, now, window),
            avg_div(count_recent(s, now, window)),
        ) <= SMOOTH_MAX,
{
    lemma_sum_recent_vs_count(s, now, window);
    let c = count_recent(s, now, window);
    let sx = sum_recent_smoothed_x(s, now, window);
    let sy = sum_recent_smoothed_y(s, now, window);
    if c == 0 {
        assert(SMOOTH_MAX * 0 == 0) by {
            vstd::arithmetic::mul::lemma_mul_by_zero_is_zero(SMOOTH_MAX as int);
        }
        crate::fx::lemma_tz_div_bounds(sx, 1);
        crate::fx::lemma_tz_div_bounds(sy, 1);
    } else {
        lemma_avg_within(sx, c);
        lemma_avg_within(sy, c);
    }
}

/// A sum bounded by `SMOOTH_MAX` per entry averages to within `SMOOTH_MAX`.
proof fn lemma_avg_within(sum: int, c: int)
    requires
        c >= 1,
        -SMOOTH_MAX * c <= sum <= SMOOTH_MAX * c,
    ensures
        -SMOOTH_MAX <= tz_div(sum, c) <= SMOOTH_MAX,
{
    crate::fx::lemma_tz_div_bounds(sum, c);
    if sum >= 0 {
        assert(sum / c <= SMOOTH_MAX) by {
            vstd::arithmetic::div_mod::lemma_div_is_ordered(sum, SMOOTH_MAX * c, c);
            vstd::arithmetic::div_mod::lemma_div_multiples_vanish(SMOOTH_MAX as int, c);
            vstd::arithmetic::mul::lemma_mul_is_commutative(SMOOTH_MAX as int, c);
        }
    } else {
        assert(-sum <= SMOOTH_MAX * c) by {
            vstd::arithmetic::mul::lemma_mul_unary_negation(SMOOTH_MAX as int, c);
        }
        assert((-sum) / c <= SMOOTH_MAX) by {
            vstd::arithmetic::div_mod::lemma_div_is_ordered(-sum, SMOOTH_MAX * c, c);
            vstd::arithmetic::div_mod::lemma_div_multiples_vanish(SMOOTH_MAX as int, c);
            vstd::arithmetic::mul::lemma_mul_is_commutative(SMOOTH_MAX as int, c);
        }
    }
}

/// The shape of a freshly seeded queue: `MAX_EVENTS - 1` zero samples,
/// evenly spaced one frame interval apart going back from time zero, every
/// one fully paid out.
pub open spec fn is_fresh_queue(q: InputQueue) -> bool {
    &&& q.entries@.len() == MAX_EVENTS - 1
    &&& queue_wf(q.entries@)
    &&& forall|j: int| #![trigger q.entries@[j]]
        0 <= j < q.entries@.len() ==> q.entries@[j].sample.x == 0 && q.entries@[j].sample.y == 0
            && q.entries@[j].remaining.x == 0 && q.entries@[j].remaining.y == 0
            && q.entries@[j].smoothed_value.x == 0 && q.entries@[j].smoothed_value.y == 0
            && q.entries@[j].time_us == -(j + 1) * FRAME_INTERVAL_US
}

impl Default for InputQueue {
    /// A queue pre-seeded as [`is_fresh_queue`] describes, so smoothing
    /// behaves correctly from the very first real sample.
    fn default() -> (r: InputQueue)
        ensures
            is_fresh_queue(r),
    {
        let mut entries: Vec<InputStreamEntry> = Vec::new();
        let mut i: usize = 1;
        while i < MAX_EVENTS
            invariant
                1 <= i <= MAX_EVENTS,
                entries@.len() == i - 1,
                forall|j: int| #![trigger entries@[j]]
                    0 <= j < entries@.len() ==> entries@[j].sample.x == 0
                        && entries@[j].sample.y == 0 && entries@[j].remaining.x == 0
                        && entries@[j].remaining.y == 0 && entries@[j].smoothed_value.x == 0
                        && entries@[j].smoothed_value.y == 0 && entries@[j].time_us == -(j + 1)
                        * FRAME_INTERVAL_US && entry_wf(entries@[j]),
            decreases MAX_EVENTS - i,
        {
            let zero = FxVec2 { x: 0, y: 0 };
            entries.push(
                InputStreamEntry {
                    time_us: -((i as i64) * FRAME_INTERVAL_US),
                    sample: zero,
                    remaining: zero,
                    smoothed_value: zero,
                },
            );
            i = i + 1;
        }
        InputQueue { entries }
    }
}

impl InputQueue {
    /// The most recent smoothed value, if any samples have been recorded.
    pub fn latest_smoothed(&self) -> (r: Option<FxVec2>)
        ensures
            self.entries@.len() == 0 ==> r is None,
            self.entries@.len() > 0 ==> r == Some(self.entries@[0].smoothed_value),
    {
        if self.entries.len() > 0 {
            Some(self.entries[0].smoothed_value)
        } else {
            None
        }
    }

    /// Timestamps and smoothed values, newest first.
    pub fn iter_smoothed(&self) -> (r: Vec<(i64, FxVec2)>)
        ensures
            r@.len() == self.entries@.len(),
            forall|i: int| #![trigger r@[i]]
                0 <= i < r@.len() ==> r@[i].0 == self.entries@[i].time_us && r@[i].1
                    == self.entries@[i].smoothed_value,
    {
        let mut out: Vec<(i64, FxVec2)> = Vec::new();
        let mut i: usize = 0;
        let len: usize = self.entries.len();
        while i < len
            invariant
                len == self.entries@.len(),
                0 <= i <= len,
                out@.len() == i,
                forall|j: int| #![trigger out@[j]]
                    0 <= j < i ==> out@[j].0 == self.entries@[j].time_us && out@[j].1
                        == self.entries@[j].smoothed_value,
            decreases len - i,
        {
            out.push((self.entries[i].time_us, self.entries[i].smoothed_value));
            i = i + 1;
        }
        out
    }

    /// Timestamps and raw samples, newest first.
    pub fn iter_unsmoothed(&self) -> (r: Vec<(i64, FxVec2)>)
        ensures
            r@.len() == self.entries@.len(),
            forall|i: int| #![trigger r@[i]]
                0 <= i < r@.len() ==> r@[i].0 == self.entries@[i].time_us && r@[i].1
                    == self.entries@[i].sample,
    {
        let mut out: Vec<(i64, FxVec2)> = Vec::new();
        let mut i: usize = 0;
        let len: usize = self.entries.len();
        while i < len
            invariant
                len == self.entries@.len(),
                0 <= i <= len,
                out@.len() == i,
                forall|j: int| #![trigger out@[j]]
                    0 <= j < i ==> out@[j].0 == self.entries@[j].time_us && out@[j].1
                        == self.entries@[j].sample,
            decreases len - i,
        {
            out.push((self.entries[i].time_us, self.entries[i].sample));
            i = i + 1;
        }
        out
    }

    /// Average of the smoothed values of all entries newer than `window_us`,
    /// zero when there are none.
    pub fn average_smoothed_value(&self, window_us: u64, now_us: i64) -> (r: FxVec2)
        requires
            queue_wf(self.entries@),
            -TIME_MAX <= now_us <= TIME_MAX,
            window_us <= TIME_MAX,
        ensures
            r.x == tz_div(
                sum_recent_smoothed_x(self.entries@, now_us as int, window_us as int),
                avg_div(count_recent(self.entries@, now_us as int, window_us as int)),
            ),
            r.y == tz_div(
                sum_recent_smoothed_y(self.entries@, now_us as int, window_us as int),
                avg_div(count_recent(self.entries@, now_us as int, window_us as int)),
            ),
    {
        let ghost s = self.entries@;
        let ghost now = now_us as int;
        let ghost window = window_us as int;
        let len: usize = self.entries.len();
        let mut acc_x: i64 = 0;
        let mut acc_y: i64 = 0;
        let mut count: usize = 0;
        let mut i: usize = len;
        proof {
            assert(s.subrange(len as int, len as int) =~= Seq::<InputStreamEntry>::empty());
        }
        while i > 0
            invariant
                self.entries@ == s,
                queue_wf(s),
                len == s.len(),
                0 <= i <= len,
                now == now_us as int,
                window == window_us as int,
                -TIME_MAX <= now_us <= TIME_MAX,
                window_us <= TIME_MAX,
                acc_x == sum_recent_smoothed_x(s.subrange(i as int, len as int), now, window),
                acc_y == sum_recent_smoothed_y(s.subrange(i as int, len as int), now, window),
                count == count_recent(s.subrange(i as int, len as int), now, window),
                count <= len - i,
            decreases i,
        {
            i = i - 1;
            let e = self.entries[i];
            proof {
                assert(entry_wf(s[i as int]));
                assert(s.subrange(i as int, len as int).drop_first() =~= s.subrange(
                    i + 1 as int,
                    len as int,
                ));
                assert(s.subrange(i as int, len as int)[0] == s[i as int]);
                lemma_subrange_entries_wf(s, i as int, len as int);
                lemma_sum_recent_smoothed_bound(
                    s.subrange(i as int, len as int),
                    now,
                    window,
                    256,
                );
                assert(SMOOTH_MAX * 256 < i64::MAX);
            }
            if now_us - e.time_us < window_us as i64 {
                proof {
                    assert(recent(s[i as int], now, window));
                    assert(acc_x + e.smoothed_value.x == sum_recent_smoothed_x(
                        s.subrange(i as int, len as int),
                        now,
                        window,
                    ));
                    assert(acc_y + e.smoothed_value.y == sum_recent_smoothed_y(
                        s.subrange(i as int, len as int),
                        now,
                        window,
                    ));
                }
                acc_x = acc_x + e.smoothed_value.x;
                acc_y = acc_y + e.smoothed_value.y;
                count = count + 1;
            }
        }
        proof {
            assert(s.subrange(0, len as int) =~= s);
        }
        let d: u64 = if count == 0 {
            1
        } else {
            count as u64
        };
        proof {
            lemma_sum_recent_smoothed_bound(s, now, window, 256);
            assert(SMOOTH_MAX * 256 < i64::MAX);
        }
        FxVec2 { x: div_tz(acc_x, d), y: div_tz(acc_y, d) }
    }

    /// Average of the raw samples of all entries newer than `window_us`,
    /// zero when there are none: a cheap approximation of smoothing used for
    /// read-only queries.
    pub fn approx_smoothed(&self, window_us: u64, now_us: i64) -> (r: FxVec2)
        requires
            queue_wf(self.entries@),
            -TIME_MAX <= now_us <= TIME_MAX,
            window_us <= TIME_MAX,
        ensures
            r.x == tz_div(
                sum_recent_sample_x(self.entries@, now_us as int, window_us as int),
                avg_div(count_recent(self.entries@, now_us as int, window_us as int)),
            ),
            r.y == tz_div(
                sum_recent_sample_y(self.entries@, now_us as int, window_us as int),
                avg_div(count_recent(self.entries@, now_us as int, window_us as int)),
            ),
    {
        let ghost s = self.entries@;
        let ghost now = now_us as int;
        let ghost window = window_us as int;
        let len: usize = self.entries.len();
        let mut acc_x: i64 = 0;
        let mut acc_y: i64 = 0;
        let mut count: usize = 0;
        let mut i: usize = len;
        proof {
            assert(s.subrange(len as int, len as int) =~= Seq::<InputStreamEntry>::empty());
        }
        while i > 0
            invariant
                self.entries@ == s,
                queue_wf(s),
                len == s.len(),
                0 <= i <= len,
                now == now_us as int,
                window == window_us as int,
                -TIME_MAX <= now_us <= TIME_MAX,
                window_us <= TIME_MAX,
                acc_x == sum_recent_sample_x(s.subrange(i as int, len as int), now, window),
                acc_y == sum_recent_sample_y(s.subrange(i as int, len as int), now, window),
                count == count_recent(s.subrange(i as int, len as int), now, window),
                count <= len - i,
            decreases i,
        {
            i = i - 1;
            let e = self.entries[i];
            proof {
                assert(entry_wf(s[i as int]));
                assert(s.subrange(i as int, len as int).drop_first() =~= s.subrange(
                    i + 1 as int,
                    len as int,
                ));
                assert(s.subrange(i as int, len as int)[0] == s[i as int]);
                lemma_subrange_entries_wf(s, i as int, len as int);
                lemma_sum_recent_sample_bound(
                    s.subrange(i as int, len as int),
                    now,
                    window,
                    256,
                );
                assert(SAMPLE_MAX * 256 < i64::MAX);
            }
            if now_us - e.time_us < window_us as i64 {
                proof {
                    assert(recent(s[i as int], now, window));
                    assert(acc_x + e.sample.x == sum_recent_sample_x(
                        s.subrange(i as int, len as int),
                        now,
                        window,
                    ));
                    assert(acc_y + e.sample.y == sum_recent_sample_y(
                        s.subrange(i as int, len as int),
                        now,
                        window,
                    ));
                }
                acc_x = acc_x + e.sample.x;
                acc_y = acc_y + e.sample.y;
                count = count + 1;
            }
        }
        proof {
            assert(s.subrange(0, len as int) =~= s);
        }
        let d: u64 = if count == 0 {
            1
        } else {
            count as u64
        };
        proof {
            lemma_sum_recent_sample_bound(s, now, window, 256);
            assert(SAMPLE_MAX * 256 < i64::MAX);
        }
        FxVec2 { x: div_tz(acc_x, d), y: div_tz(acc_y, d) }
    }

    /// Average magnitude of the raw `x` samples of all entries newer than
    /// `window_us`, zero when there are none.
    pub fn approx_smoothed_abs_x(&self, window_us: u64, now_us: i64) -> (r: i64)
        requires
            queue_wf(self.entries@),
            -TIME_MAX <= now_us <= TIME_MAX,
            window_us <= TIME_MAX,
        ensures
            r == tz_div(
                sum_recent_sample_abs_x(self.entries@, now_us as int, window_us as int),
                avg_div(count_recent(self.entries@, now_us as int, window_us as int)),
            ),
            r >= 0,
    {
        let ghost s = self.entries@;
        let ghost now = now_us as int;
        let ghost window = window_us as int;
        let len: usize = self.entries.len();
        let mut acc_x: i64 = 0;
        let mut count: usize = 0;
        let mut i: usize = len;
        proof {
            assert(s.subrange(len as int, len as int) =~= Seq::<InputStreamEntry>::empty());
        }
        while i > 0
            invariant
                self.entries@ == s,
                queue_wf(s),
                len == s.len(),
                0 <= i <= len,
                now == now_us as int,
                window == window_us as int,
                -TIME_MAX <= now_us <= TIME_MAX,
                window_us <= TIME_MAX,
                acc_x == sum_recent_sample_abs_x(s.subrange(i as int, len as int), now, window),
                count == count_recent(s.subrange(i as int, len as int), now, window),
                count <= len - i,
                acc_x >= 0,
            decreases i,
        {
            i = i - 1;
            let e = self.entries[i];
            proof {
                assert(entry_wf(s[i as int]));
                assert(s.subrange(i as int, len as int).drop_first() =~= s.subrange(
                    i + 1 as int,
                    len as int,
                ));
                assert(s.subrange(i as int, len as int)[0] == s[i as int]);
                lemma_subrange_entries_wf(s, i as int, len as int);
                lemma_sum_recent_sample_bound(
                    s.subrange(i as int, len as int),
                    now,
                    window,
                    256,
                );
                assert(SAMPLE_MAX * 256 < i64::MAX);
            }
            let a: i64 = crate::fx::abs_i64(e.sample.x);
            if now_us - e.time_us < window_us as i64 {
                proof {
                    assert(recent(s[i as int], now, window));
                    assert(acc_x + a == sum_recent_sample_abs_x(
                        s.subrange(i as int, len as int),
                        now,
                        window,
                    ));
                }
                acc_x = acc_x + a;
                count = count + 1;
            }
        }
        proof {
            assert(s.subrange(0, len as int) =~= s);
        }
        let d: u64 = if count == 0 {
            1
        } else {
            count as u64
        };
        proof {
            crate::fx::lemma_tz_div_bounds(
                sum_recent_sample_abs_x(s, now, window),
                avg_div(count_recent(s, now, window)),
            );
        }
        div_tz(acc_x, d)
    }


    /// Add an input sample to the queue and compute its smoothed value.
    ///
    /// `window_us` is the smoothing window; `now_us` is the controller clock.
    /// The new smoothed value draws an equal share `1 / (scan + 1)` from the
    /// new sample and from each entry within the window (never more than an
    /// entry still has), and drains completely every entry older than the
    /// window — and the entry about to be evicted at capacity, should the
    /// window reach that far — so that nothing is ever paid out twice or
    /// lost.
    pub fn process_input(&mut self, new_input: FxVec2, window_us: u64, now_us: i64)
        requires
            queue_wf(old(self).entries@),
            sample_ok(new_input),
            -TIME_MAX <= now_us <= TIME_MAX,
            window_us <= TIME_MAX,
        ensures
            final(self).entries@ == processed_seq(
                old(self).entries@,
                new_input,
                window_us as int,
                now_us as int,
            ),
            queue_wf(final(self).entries@),
            final(self).entries@.len() == if old(self).entries@.len() < MAX_EVENTS {
                old(self).entries@.len() + 1
            } else {
                MAX_EVENTS as nat
            },
    {
        let ghost s = self.entries@;
        let ghost window = window_us as int;
        let ghost now = now_us as int;
        let len: usize = self.entries.len();

        // Scan for the first entry strictly older than the window.
        let wl: i64 = window_us as i64;
        proof {
            assert(wl == window);
        }
        let mut re: usize = 0;
        let mut past_window: bool = false;
        while !past_window && re < len
            invariant
                self.entries@ == s,
                queue_wf(s),
                len == s.len(),
                0 <= re <= len,
                -TIME_MAX <= now_us <= TIME_MAX,
                window_us <= TIME_MAX,
                forall|j: int| 0 <= j < re ==> now - #[trigger] s[j].time_us <= window,
                now == now_us as int,
                window == window_us as int,
                wl == window,
                past_window ==> re < len && now - s[re as int].time_us > window,
            decreases len - re + if past_window {
                0int
            } else {
                1int
            },
        {
            proof {
                assert(entry_wf(s[re as int]));
                assert(-TIME_MAX <= s[re as int].time_us <= TIME_MAX);
            }
            let t: i64 = self.entries[re].time_us;
            proof {
                assert(t == s[re as int].time_us);
            }
            if now_us - t <= wl {
                proof {
                    assert(now - s[re as int].time_us <= window);
                }
                re = re + 1;
            } else {
                past_window = true;
            }
        }
        proof {
            lemma_scan_len_char(s, now, window, re as int);
        }
        let w: u64 = (re as u64) + 1;
        // Entries from this index on are drained completely: they are either
        // older than the window or about to be evicted at capacity.
        let cut: usize = if re > MAX_EVENTS - 1 {
            MAX_EVENTS - 1
        } else {
            re
        };
        proof {
            assert(cut as int == drain_cut(s, now, window));
        }

        // The new sample's own share of the window.
        let share_x: i64 = div_tz(new_input.x, w);
        let share_y: i64 = div_tz(new_input.y, w);

        // Drain the history: equal shares inside the window, everything that
        // is still owed outside of it.
        let mut rest: Vec<InputStreamEntry> = Vec::new();
        let mut acc_x: i64 = share_x;
        let mut acc_y: i64 = share_y;
        let mut i: usize = 0;
        while i < len
            invariant
                self.entries@ == s,
                queue_wf(s),
                len == s.len(),
                0 <= i <= len,
                re <= len,
                w == re + 1,
                now == now_us as int,
                window == window_us as int,
                share_x == tz_div(new_input.x as int, w as int),
                share_y == tz_div(new_input.y as int, w as int),
                sample_ok(new_input),
                cut as int == drain_cut(s, now, window),
                acc_x == share_x + sum_take_x(s.subrange(0, i as int), w as int, cut as int),
                acc_y == share_y + sum_take_y(s.subrange(0, i as int), w as int, cut as int),
                -SAMPLE_MAX - SAMPLE_MAX * i <= acc_x <= SAMPLE_MAX + SAMPLE_MAX * i,
                -SAMPLE_MAX - SAMPLE_MAX * i <= acc_y <= SAMPLE_MAX + SAMPLE_MAX * i,
                rest@.len() == if i < MAX_EVENTS - 1 {
                    i as int
                } else {
                    MAX_EVENTS - 1
                },
                forall|j: int|
                    0 <= j < rest@.len() ==> rest@[j] == drained_entry(
                        s[j],
                        w as int,
                        j < cut,
                    ),
            decreases len - i,
        {
            let e = self.entries[i];
            let tx: i64;
            let ty: i64;
            if i < cut {
                tx = clamp_toward_exec(div_tz(e.sample.x, w), e.remaining.x);
                ty = clamp_toward_exec(div_tz(e.sample.y, w), e.remaining.y);
            } else {
                tx = e.remaining.x;
                ty = e.remaining.y;
            }
            proof {
                assert(entry_wf(s[i as int]));
                assert(tx as int == take_x(s[i as int], w as int, i < cut));
                assert(ty as int == take_y(s[i as int], w as int, i < cut));
                assert(-SAMPLE_MAX <= tx <= SAMPLE_MAX);
                assert(-SAMPLE_MAX <= ty <= SAMPLE_MAX);
                assert(SAMPLE_MAX + SAMPLE_MAX * (i + 1) == SAMPLE_MAX + SAMPLE_MAX * i
                    + SAMPLE_MAX) by {
                    vstd::arithmetic::mul::lemma_mul_is_distributive_add(
                        SAMPLE_MAX as int,
                        i as int,
                        1,
                    );
                }
            }
            acc_x = acc_x + tx;
            acc_y = acc_y + ty;
            let upd = InputStreamEntry {
                time_us: e.time_us,
                sample: e.sample,
                remaining: FxVec2 { x: e.remaining.x - tx, y: e.remaining.y - ty },
                smoothed_value: e.smoothed_value,
            };
            if i < MAX_EVENTS - 1 {
                rest.push(upd);
            }
            proof {
                assert(upd == drained_entry(s[i as int], w as int, i < cut));
                assert(s.subrange(0, i + 1 as int) =~= s.subrange(0, i as int).push(
                    s[i as int],
                ));
                lemma_sum_take_x_push(
                    s.subrange(0, i as int),
                    s[i as int],
                    w as int,
                    cut as int,
                );
                lemma_sum_take_y_push(
                    s.subrange(0, i as int),
                    s[i as int],
                    w as int,
                    cut as int,
                );
            }
            i = i + 1;
        }
        proof {
            assert(s.subrange(0, len as int) =~= s);
        }

        // Record the fresh entry in front.
        let fresh = InputStreamEntry {
            time_us: now_us,
            sample: new_input,
            remaining: FxVec2 { x: new_input.x - share_x, y: new_input.y - share_y },
            smoothed_value: FxVec2 { x: acc_x, y: acc_y },
        };
        rest.insert(0, fresh);
        self.entries = rest;

        proof {
            let p = processed_seq(s, new_input, window, now);
            assert(fresh == fresh_entry(s, new_input, window, now));
            assert(self.entries@ =~= p);
            assert forall|j: int| 0 <= j < self.entries@.len() implies entry_wf(
                #[trigger] self.entries@[j],
            ) by {
                if j == 0 {
                    assert(-SAMPLE_MAX * (len as int) <= sum_take_x(s, w as int, cut as int)
                        <= SAMPLE_MAX * (len as int)) by {
                        lemma_sum_take_x_bound(s, w as int, cut as int);
                    }
                    assert(SAMPLE_MAX * (len as int) <= SAMPLE_MAX * 256) by {
                        vstd::arithmetic::mul::lemma_mul_inequality(
                            len as int,
                            256,
                            SAMPLE_MAX as int,
                        );
                        vstd::arithmetic::mul::lemma_mul_is_commutative(
                            len as int,
                            SAMPLE_MAX as int,
                        );
                        vstd::arithmetic::mul::lemma_mul_is_commutative(
                            256,
                            SAMPLE_MAX as int,
                        );
                    }
                } else {
                    assert(entry_wf(s[j - 1]));
                    assert(self.entries@[j] == drained_entry(s[j - 1], w as int, j - 1 < re));
                }
            }
        }
    }
}

/// Time windows used to smooth each kind of camera motion, in microseconds.
#[derive(Clone, Copy, Debug, PartialEq, Eq, Structural)]
pub struct Smoothness {
    /// Smoothing window for panning inputs.
    pub pan: u64,
    /// Smoothing window for orbiting inputs.
    pub orbit: u64,
    /// Smoothing window for zooming inputs.
    pub zoom: u64,
}

/// The windows are bounded like every other duration in the crate.
pub open spec fn smoothness_wf(s: Smoothness) -> bool {
    &&& s.pan <= TIME_MAX
    &&& s.orbit <= TIME_MAX
    &&& s.zoom <= TIME_MAX
}

impl Default for Smoothness {
    /// Snappy panning, gentler orbiting, heavily smoothed zooming.
    fn default() -> (r: Smoothness)
        ensures
            r.pan == 16_000,
            r.orbit == 40_000,
            r.zoom == 80_000,
            smoothness_wf(r),
    {
        Smoothness { pan: 16_000, orbit: 40_000, zoom: 80_000 }
    }
}

} // verus!

