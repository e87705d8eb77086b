//! Damage-driven frame pacing.
//!
//! Damage events are the one place where the event loop consults wall-clock
//! time: a frame is emitted for a damage event only when more than the
//! refresh interval has elapsed since the last frame, which caps the rate
//! at which a burst of damage can force redraws.
use vstd::prelude::*;

use vstd::arithmetic::div_mod::{
    lemma_div_is_ordered, lemma_div_multiples_vanish, lemma_div_pos_is_pos,
};

verus! {

/// Whether a damage event arriving at `now` may emit a frame, given the
/// time of the last emitted frame: strictly more than one refresh interval
/// must have elapsed.
pub open spec fn spec_should_render(now: u64, last: u64, interval: u64) -> bool {
    last <= now && now - last > interval
}

/// One damage arrival: whether it renders, and the time of the last
/// emitted frame afterwards.
pub open spec fn spec_rate_step(last: u64, now: u64, interval: u64) -> (bool, u64) {
    if spec_should_render(now, last, interval) {
        (true, now)
    } else {
        (false, last)
    }
}

/// How many frames a sequence of damage arrival times emits, starting from
/// a given last-frame time.
pub open spec fn render_count(times: Seq<u64>, last: u64, interval: u64) -> nat
    decreases times.len(),
{
    if times.len() == 0 {
        0
    } else {
        let (rendered, last2) = spec_rate_step(last, times[0], interval);
        (if rendered {
            1nat
        } else {
            0nat
        }) + render_count(times.drop_first(), last2, interval)
    }
}

/// The decision the damage handler takes before emitting a frame.
pub fn should_render(now: u64, last: u64, interval: u64) -> (r: bool)
    ensures
        r == spec_should_render(now, last, interval),
{
    last <= now && now - last > interval
}

/// Consecutive emitted frames are spaced more than `interval` apart: if
/// every arrival time is at most `hi` and the last frame was at `last`,
/// the emitted frames fit `interval + 1` apart into the span up to `hi`.
proof fn lemma_renders_spaced(times: Seq<u64>, last: u64, interval: u64, hi: u64)
    requires
        last <= hi,
        forall|i: int| 0 <= i < times.len() ==> times[i] <= hi,
    ensures
        (render_count(times, last, interval) as int) * (interval as int + 1) <= hi - last,
    decreases times.len(),
{
    let iv = interval as int;
    let c = render_count(times, last, interval) as int;
    if times.len() == 0 {
        assert(c == 0);
        assert(0 * (iv + 1) == 0) by (nonlinear_arith);
    } else {
        let t0 = times[0];
        assert(t0 <= hi);
        let (rendered, last2) = spec_rate_step(last, t0, interval);
        assert(forall|i: int|
            0 <= i < times.drop_first().len() ==> times.drop_first()[i] == times[i + 1]);
        lemma_renders_spaced(times.drop_first(), last2, interval, hi);
        let c2 = render_count(times.drop_first(), last2, interval) as int;
        assert(c2 * (iv + 1) <= hi - last2);
        if rendered {
            assert(c == 1 + c2);
            assert(t0 - last > interval);
            assert((1 + c2) * (iv + 1) == (iv + 1) + c2 * (iv + 1)) by (nonlinear_arith);
            assert(c * (iv + 1) <= hi - last);
        } else {
            assert(c == c2);
            assert(last2 == last);
        }
    }
}

/// The rate limit on damage-driven frames: a burst of damage events whose
/// arrival times all lie within a window `[lo, hi]` emits at most
/// `1 + (hi - lo) / interval` frames, whatever the last-frame time was
/// when the burst began.
pub proof fn lemma_damage_rate_limit(times: Seq<u64>, last: u64, lo: u64, hi: u64, interval: u64)
    requires
        interval >= 1,
        lo <= hi,
        forall|i: int| 0 <= i < times.len() ==> lo <= #[trigger] times[i] <= hi,
    ensures
        render_count(times, last, interval) <= 1 + (hi - lo) / (interval as int),
    decreases times.len(),
{
    let span = hi - lo;
    lemma_div_pos_is_pos(span, interval as int);
    if times.len() > 0 {
        let t0 = times[0];
        let (rendered, last2) = spec_rate_step(last, t0, interval);
        assert(forall|i: int|
            0 <= i < times.drop_first().len() ==> times.drop_first()[i] == times[i + 1]);
        if rendered {
            lemma_renders_spaced(times.drop_first(), t0, interval, hi);
            let c2 = render_count(times.drop_first(), t0, interval) as int;
            assert(c2 * (interval + 1) <= hi - t0);
            assert(c2 * (interval as int) <= c2 * (interval + 1)) by (nonlinear_arith)
                requires
                    c2 >= 0,
                    interval >= 0,
            ;
            assert(c2 * (interval as int) <= span);
            lemma_div_multiples_vanish(c2, interval as int);
            lemma_div_is_ordered(
                (interval as int) * c2,
                span,
                interval as int,
            );
            assert((interval as int) * c2 == c2 * (interval as int)) by (nonlinear_arith);
            assert(c2 <= span / (interval as int));
        } else {
            lemma_damage_rate_limit(times.drop_first(), last2, lo, hi, interval);
        }
    }
}

} // verus!
