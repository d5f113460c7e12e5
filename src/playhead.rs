use vstd::prelude::*;
use vstd::arithmetic::div_mod::{
    lemma_fundamental_div_mod,
    lemma_div_is_ordered_by_denominator, lemma_div_non_zero, lemma_div_pos_is_pos, lemma_fundamental_div_mod_converse,
    lemma_mod_pos_bound,
};
use crate::playback::{
    direction_sign, flipped, step_of, PlaybackDirection, PlaybackLoopBehavior, PlaybackOptions,
    PlaybackPlayMode,
};

verus! {

/// Largest distance, in sub-frames, that one advance can travel.
pub open spec fn step_bound() -> int {
    0x1_0000_0000_0000_0000_0000_0000
}

/// The boundary events that one advance emits.
#[derive(Clone, Copy, Debug, PartialEq, Eq, Structural)]
pub struct PlaybackEvents {
    pub reached_end: bool,
    pub reached_start: bool,
    /// Wraps (Loop) or reflections (PingPong) made during the advance.
    pub loops_completed: u128,
}

/// No boundary was met.
pub open spec fn no_events() -> PlaybackEvents {
    PlaybackEvents { reached_end: false, reached_start: false, loops_completed: 0 }
}

/// A time cursor over one animation's range `[start, end]`.
#[derive(Clone, Copy, Debug, PartialEq, Eq, Structural)]
pub struct Playhead {
    pub position: i64,
    pub start: i64,
    pub end: i64,
    /// Current direction of travel; differs from the configured direction
    /// only while ping-ponging.
    pub travel: PlaybackDirection,
}

/// Where a Once advance of `d` from `p` comes to rest.
pub open spec fn once_position(s: int, e: int, p: int, d: int) -> int {
    if p + d >= e {
        e
    } else if p + d <= s {
        s
    } else {
        p + d
    }
}

/// Offset of `p` on the loop, measured from the seam in the direction of
/// motion: `start` and `end` are the same seam point, at offset zero.
pub open spec fn loop_offset(s: int, e: int, p: int, d: int) -> int {
    if d > 0 {
        (p - s) % (e - s)
    } else {
        ((e - s) - (p - s) % (e - s)) % (e - s)
    }
}

/// Unwrapped distance from the seam to where a looping advance ends; each
/// whole span in it is one arrival at the seam.
pub open spec fn loop_travelled(s: int, e: int, p: int, d: int) -> int {
    if d > 0 {
        loop_offset(s, e, p, d) + d
    } else {
        loop_offset(s, e, p, d) - d
    }
}

pub open spec fn loop_position(s: int, e: int, p: int, d: int) -> int {
    let r = loop_travelled(s, e, p, d) % (e - s);
    if d > 0 {
        s + r
    } else {
        s + ((e - s) - r) % (e - s)
    }
}

/// Phase on a cycle of length `2 * span` reached by a ping-pong advance: the
/// forward leg is `[0, span)`, the backward leg `[span, 2 * span)`.
pub open spec fn pingpong_unfolded(s: int, e: int, p: int, d: int) -> int {
    if d > 0 {
        (p - s) + d
    } else {
        (e - s) + (e - p) - d
    }
}

/// Reflections made by a ping-pong advance: boundaries met on the way.
pub open spec fn pingpong_count(s: int, e: int, p: int, d: int) -> int {
    pingpong_unfolded(s, e, p, d) / (e - s) - if d > 0 { 0int } else { 1int }
}

/// Position of the phase `u` on the cycle.
pub open spec fn leg_position(s: int, e: int, u: int) -> int {
    let r = u % (2 * (e - s));
    if r < e - s {
        s + r
    } else {
        s + 2 * (e - s) - r
    }
}

/// The playhead and events after moving `d` sub-frames under `behavior`.
pub open spec fn advanced(ph: Playhead, behavior: PlaybackLoopBehavior, d: int) -> (Playhead, PlaybackEvents) {
    let (s, e, p) = (ph.start as int, ph.end as int, ph.position as int);
    if d == 0 || s == e {
        (ph, no_events())
    } else {
        match behavior {
            PlaybackLoopBehavior::Once => (
                Playhead { position: once_position(s, e, p, d) as i64, ..ph },
                PlaybackEvents {
                    reached_end: d > 0 && p < e && p + d >= e,
                    reached_start: d < 0 && p > s && p + d <= s,
                    loops_completed: 0,
                },
            ),
            PlaybackLoopBehavior::Loop => (
                Playhead { position: loop_position(s, e, p, d) as i64, ..ph },
                PlaybackEvents {
                    reached_end: false,
                    reached_start: false,
                    loops_completed: (loop_travelled(s, e, p, d) / (e - s)) as u128,
                },
            ),
            PlaybackLoopBehavior::PingPong => (
                Playhead {
                    position: leg_position(s, e, pingpong_unfolded(s, e, p, d)) as i64,
                    travel: if pingpong_count(s, e, p, d) % 2 == 1 {
                        flipped(ph.travel)
                    } else {
                        ph.travel
                    },
                    ..ph
                },
                PlaybackEvents {
                    reached_end: false,
                    reached_start: false,
                    loops_completed: pingpong_count(s, e, p, d) as u128,
                },
            ),
        }
    }
}

/// The distance of one advance fits well within `i128`, whatever its inputs.
proof fn lemma_step_bounded(speed: i32, sign: int, elapsed_ms: u32, frame_rate: u32)
    requires
        sign == 1 || sign == -1,
    ensures
        -0x8000_0000 <= speed * sign <= 0x8000_0000,
        0 <= elapsed_ms * frame_rate < 0x1_0000_0000_0000_0000,
        -step_bound() < (speed * sign) * (elapsed_ms * frame_rate) < step_bound(),
        speed * sign * elapsed_ms * frame_rate == (speed * sign) * (elapsed_ms * frame_rate),
{
    let a = speed * sign;
    assert(-0x8000_0000 <= a <= 0x8000_0000) by {
        assert(a == speed || a == -speed) by (nonlinear_arith)
            requires
                a == speed * sign,
                sign == 1 || sign == -1,
        ;
    }
    let b = elapsed_ms * frame_rate;
    assert(0 <= b < 0x1_0000_0000_0000_0000) by (nonlinear_arith)
        requires
            b == elapsed_ms * frame_rate,
            0 <= elapsed_ms < 0x1_0000_0000,
            0 <= frame_rate < 0x1_0000_0000,
    ;
    assert(-step_bound() < a * b < step_bound()) by (nonlinear_arith)
        requires
            -0x8000_0000 <= a <= 0x8000_0000,
            0 <= b < 0x1_0000_0000_0000_0000,
    ;
    assert(a * elapsed_ms * frame_rate == a * b) by (nonlinear_arith)
        requires
            b == elapsed_ms * frame_rate,
    ;
}

impl Playhead {
    /// The position lies in the range.
    pub open spec fn wf(&self) -> bool {
        self.start <= self.position <= self.end
    }

    /// A playhead over `[start, end]` at the end that `direction` starts from.
    pub fn new(start: i64, end: i64, direction: PlaybackDirection) -> (r: Playhead)
        requires
            start <= end,
        ensures
            r.wf(),
            r.start == start,
            r.end == end,
            r.travel == direction,
            r.position == (if direction == PlaybackDirection::Normal { start } else { end }),
    {
        let position = match direction {
            PlaybackDirection::Normal => start,
            PlaybackDirection::Reverse => end,
        };
        Playhead { position, start, end, travel: direction }
    }

    /// Moves the playhead by `d` sub-frames under `behavior`.
    pub fn advance_by(&mut self, behavior: PlaybackLoopBehavior, d: i128) -> (r: PlaybackEvents)
        requires
            old(self).wf(),
            -step_bound() < d < step_bound(),
        ensures
            final(self).wf(),
            (*final(self), r) == advanced(*old(self), behavior, d as int),
    {
        let s = self.start as i128;
        let e = self.end as i128;
        let p = self.position as i128;
        if d == 0 || s == e {
            return PlaybackEvents { reached_end: false, reached_start: false, loops_completed: 0 };
        }
        let span = (e - s) as u128;
        match behavior {
            PlaybackLoopBehavior::Once => {
                let raw = p + d;
                let pos = if raw >= e {
                    e
                } else if raw <= s {
                    s
                } else {
                    raw
                };
                self.position = pos as i64;
                PlaybackEvents {
                    reached_end: d > 0 && p < e && raw >= e,
                    reached_start: d < 0 && p > s && raw <= s,
                    loops_completed: 0,
                }
            },
            PlaybackLoopBehavior::Loop => {
                let from_start = ((p - s) as u128) % span;
                let t = if d > 0 {
                    from_start + d as u128
                } else {
                    (span - from_start) % span + (-d) as u128
                };
                let rem = t % span;
                let pos = if d > 0 { s + rem as i128 } else { s + ((span - rem) % span) as i128 };
                self.position = pos as i64;
                PlaybackEvents { reached_end: false, reached_start: false, loops_completed: t / span }
            },
            PlaybackLoopBehavior::PingPong => {
                let u = (if d > 0 { (p - s) + d } else { (e - s) + (e - p) - d }) as u128;
                let cycle = 2 * span;
                let r = u % cycle;
                let pos = if r < span { s + r as i128 } else { s + (cycle - r) as i128 };
                let q = u / span;
                proof {
                    if d < 0 {
                        assert(q >= 1) by (nonlinear_arith)
                            requires
                                u >= span,
                                span > 0,
                                q == u / span,
                        ;
                    }
                }
                let count = if d > 0 { q } else { q - 1 };
                self.position = pos as i64;
                if count % 2 == 1 {
                    self.travel = self.travel.flip();
                }
                PlaybackEvents { reached_end: false, reached_start: false, loops_completed: count }
            },
        }
    }

    /// Advances by `elapsed_ms` of time under `options` at `frame_rate` frames a second.
    /// Only a Playing player moves; a Paused or Stopped one stays and emits nothing.
    pub fn advance(&mut self, options: &PlaybackOptions, elapsed_ms: u32, frame_rate: u32) -> (r: PlaybackEvents)
        requires
            old(self).wf(),
        ensures
            final(self).wf(),
            options.play_mode == PlaybackPlayMode::Playing ==> (*final(self), r) == advanced(
                *old(self),
                options.loop_behavior,
                step_of(options.speed as int, old(self).travel, elapsed_ms as int, frame_rate as int),
            ),
            options.play_mode != PlaybackPlayMode::Playing ==> *final(self) == *old(self) && r == no_events(),
    {
        if options.play_mode != PlaybackPlayMode::Playing {
            return PlaybackEvents { reached_end: false, reached_start: false, loops_completed: 0 };
        }
        let sign: i128 = match self.travel {
            PlaybackDirection::Normal => 1,
            PlaybackDirection::Reverse => -1,
        };
        proof {
            lemma_step_bounded(options.speed, sign as int, elapsed_ms, frame_rate);
        }
        let velocity = options.speed as i128 * sign;
        let frames_per_speed = elapsed_ms as i128 * frame_rate as i128;
        let d = velocity * frames_per_speed;
        self.advance_by(options.loop_behavior, d)
    }
}

/// Every advance keeps the playhead within its range.
pub proof fn lemma_advance_stays_in_range(ph: Playhead, behavior: PlaybackLoopBehavior, d: int)
    requires
        ph.wf(),
    ensures
        advanced(ph, behavior, d).0.wf(),
        advanced(ph, behavior, d).0.start == ph.start,
        advanced(ph, behavior, d).0.end == ph.end,
{
    let (s, e, p) = (ph.start as int, ph.end as int, ph.position as int);
    if d != 0 && s != e {
        let span = e - s;
        match behavior {
            PlaybackLoopBehavior::Once => {},
            PlaybackLoopBehavior::Loop => {
                lemma_mod_pos_bound(p - s, span);
                lemma_mod_pos_bound(span - (p - s) % span, span);
                lemma_mod_pos_bound(loop_travelled(s, e, p, d), span);
                lemma_mod_pos_bound(span - loop_travelled(s, e, p, d) % span, span);
            },
            PlaybackLoopBehavior::PingPong => {
                lemma_mod_pos_bound(pingpong_unfolded(s, e, p, d), 2 * span);
            },
        }
    }
}

/// Once: forward advances never leave `[start, end]`; `reached_end` fires on the
/// advance that arrives at the end, and a playhead held there emits nothing more.
pub proof fn lemma_once_reaches_end_once(ph: Playhead, d1: int, d2: int)
    requires
        ph.wf(),
        ph.start < ph.end,
        d1 > 0,
        d2 > 0,
    ensures
        ({
            let (ph1, ev1) = advanced(ph, PlaybackLoopBehavior::Once, d1);
            &&& ph1.wf()
            &&& ev1.reached_end <==> (ph.position < ph.end && ph.position + d1 >= ph.end)
            &&& !ev1.reached_start
            &&& ev1.reached_end ==> ph1.position == ph.end
            &&& ph1.position == ph.end ==> advanced(ph1, PlaybackLoopBehavior::Once, d2) == (ph1, no_events())
        }),
{
    lemma_advance_stays_in_range(ph, PlaybackLoopBehavior::Once, d1);
}

/// Loop: from any position in `[start, end)`, advancing by exactly one span
/// in either direction returns the playhead to where it was and completes
/// exactly one loop.
pub proof fn lemma_loop_full_span(ph: Playhead, d: int)
    requires
        ph.wf(),
        ph.position < ph.end,
        d == ph.end - ph.start || d == ph.start - ph.end,
    ensures
        advanced(ph, PlaybackLoopBehavior::Loop, d) == (
        ph,
        PlaybackEvents { reached_end: false, reached_start: false, loops_completed: 1 },
        ),
{
    let (s, e, p) = (ph.start as int, ph.end as int, ph.position as int);
    let span = e - s;
    lemma_fundamental_div_mod_converse(p - s, span, 0, p - s);
    if d > 0 {
        lemma_fundamental_div_mod_converse(loop_travelled(s, e, p, d), span, 1, p - s);
    } else {
        let ob = loop_offset(s, e, p, d);
        if p == s {
            lemma_fundamental_div_mod_converse(span, span, 1, 0);
            lemma_fundamental_div_mod_converse(span - 0, span, 1, 0);
        } else {
            lemma_fundamental_div_mod_converse(span - (p - s), span, 0, span - (p - s));
        }
        lemma_fundamental_div_mod_converse(loop_travelled(s, e, p, d), span, 1, ob);
        if p == s {
            lemma_fundamental_div_mod_converse(span - 0, span, 1, 0);
        } else {
            lemma_fundamental_div_mod_converse(span - ob, span, 0, p - s);
        }
    }
}

/// PingPong: advancing by twice the span in either direction brings the
/// position back; away from a boundary that the motion faces, this takes
/// exactly two reflections and the direction of travel is restored.
pub proof fn lemma_pingpong_double_span(ph: Playhead, d: int)
    requires
        ph.wf(),
        ph.start < ph.end,
        d == 2 * (ph.end - ph.start) || d == -2 * (ph.end - ph.start),
    ensures
        advanced(ph, PlaybackLoopBehavior::PingPong, d).0.position == ph.position,
        (d > 0 && ph.position < ph.end) || (d < 0 && ph.position > ph.start) ==> advanced(
            ph,
            PlaybackLoopBehavior::PingPong,
            d,
        ) == (ph, PlaybackEvents { reached_end: false, reached_start: false, loops_completed: 2 }),
{
    let (s, e, p) = (ph.start as int, ph.end as int, ph.position as int);
    let span = e - s;
    let u = pingpong_unfolded(s, e, p, d);
    if d > 0 {
        lemma_fundamental_div_mod_converse(u, 2 * span, 1, p - s);
        if p < e {
            lemma_fundamental_div_mod_converse(u, span, 2, p - s);
        }
    } else if p > s {
        lemma_fundamental_div_mod_converse(u, 2 * span, 1, span + (e - p));
        lemma_fundamental_div_mod_converse(u, span, 3, e - p);
    } else {
        lemma_fundamental_div_mod_converse(u, 2 * span, 2, 0);
    }
}

/// PingPong: the direction of travel inverts exactly when an odd number of
/// boundaries is met; an advance that meets no boundary moves straight on,
/// and one that meets exactly one reflects back into range.
pub proof fn lemma_pingpong_reflects_at_boundary(ph: Playhead, d: int)
    requires
        ph.wf(),
        ph.start < ph.end,
        d != 0,
        -step_bound() < d < step_bound(),
    ensures
        ({
            let (ph1, ev1) = advanced(ph, PlaybackLoopBehavior::PingPong, d);
            let (s, e, p) = (ph.start as int, ph.end as int, ph.position as int);
            &&& ph1.travel == (if ev1.loops_completed % 2 == 1 { flipped(ph.travel) } else { ph.travel })
            &&& s < p + d < e ==> ph1.position == p + d && ev1.loops_completed == 0
                && ph1.travel == ph.travel
            &&& e <= p + d < 2 * e - s ==> ph1.position == 2 * e - (p + d) && ev1.loops_completed
                == 1 && ph1.travel == flipped(ph.travel)
            &&& 2 * s - e < p + d <= s ==> ph1.position == 2 * s - (p + d) && ev1.loops_completed
                == 1 && ph1.travel == flipped(ph.travel)
        }),
{
    let (s, e, p) = (ph.start as int, ph.end as int, ph.position as int);
    let span = e - s;
    let u = pingpong_unfolded(s, e, p, d);
    lemma_div_pos_is_pos(u, span);
    lemma_div_is_ordered_by_denominator(u, 1, span);
    if d > 0 {
        if p + d < e {
            lemma_fundamental_div_mod_converse(u, 2 * span, 0, u);
            lemma_fundamental_div_mod_converse(u, span, 0, u);
        } else if p + d < 2 * e - s {
            lemma_fundamental_div_mod_converse(u, 2 * span, 0, u);
            lemma_fundamental_div_mod_converse(u, span, 1, u - span);
        }
    } else {
        lemma_div_non_zero(u, span);
        if p + d > s {
            lemma_fundamental_div_mod_converse(u, 2 * span, 0, u);
            lemma_fundamental_div_mod_converse(u, span, 1, u - span);
        } else if p + d > 2 * s - e {
            lemma_fundamental_div_mod_converse(u, 2 * span, 1, u - 2 * span);
            lemma_fundamental_div_mod_converse(u, span, 2, u - 2 * span);
        }
    }
}

/// Distance `m` along the direction of travel, played at speed sign `c`.
pub open spec fn along_travel(ph: Playhead, c: int, m: int) -> int {
    c * direction_sign(ph.travel) * m
}

/// Bounds on a ping-pong advance's unfolded phase and reflection count.
proof fn lemma_pingpong_count_bounds(s: int, e: int, p: int, d: int)
    requires
        s < e,
        s <= p <= e,
        d != 0,
    ensures
        0 <= pingpong_count(s, e, p, d) <= pingpong_unfolded(s, e, p, d),
        pingpong_unfolded(s, e, p, d) == (if d > 0 { p - s } else { (e - s) + (e - p) }) + (if d
            > 0 { d } else { -d }),
{
    let span = e - s;
    let u = pingpong_unfolded(s, e, p, d);
    lemma_div_pos_is_pos(u, span);
    lemma_div_is_ordered_by_denominator(u, 1, span);
    if d < 0 {
        lemma_div_non_zero(u, span);
    }
}

/// PingPong at a constant speed: advancing by `m1` and then by `m2` along the
/// direction of travel (which the first advance may have flipped) ends where
/// one advance by `m1 + m2` ends, with the same direction of travel and the
/// same number of reflections in total. With `lemma_pingpong_double_span`,
/// ticks that add up to twice the span bring the position back.
#[verifier::rlimit(60)]
pub proof fn lemma_pingpong_split(ph: Playhead, c: int, m1: int, m2: int)
    requires
        ph.wf(),
        ph.start < ph.end,
        c == 1 || c == -1,
        0 <= m1,
        0 <= m2,
        m1 + m2 < step_bound(),
    ensures
        ({
            let (ph1, ev1) = advanced(ph, PlaybackLoopBehavior::PingPong, along_travel(ph, c, m1));
            let (ph2, ev2) = advanced(ph1, PlaybackLoopBehavior::PingPong, along_travel(ph1, c, m2));
            let (phx, evx) = advanced(ph, PlaybackLoopBehavior::PingPong, along_travel(ph, c, m1 + m2));
            &&& ph2 == phx
            &&& ev1.loops_completed + ev2.loops_completed == evx.loops_completed
        }),
{
    let (s, e, p) = (ph.start as int, ph.end as int, ph.position as int);
    let span = e - s;
    let dir = c * direction_sign(ph.travel);
    assert(dir == 1 || dir == -1);
    assert(along_travel(ph, c, m1) == dir * m1);
    assert(along_travel(ph, c, m1 + m2) == dir * m1 + dir * m2) by (nonlinear_arith)
        requires
            along_travel(ph, c, m1 + m2) == dir * (m1 + m2),
    ;
    if m1 == 0 {
        assert(dir * m1 == 0);
        return;
    }
    let d1 = dir * m1;
    let dx = dir * (m1 + m2);
    assert((dir > 0 ==> d1 == m1 && dx == m1 + m2) && (dir < 0 ==> d1 == -m1 && dx == -(m1 + m2)))
        by (nonlinear_arith)
        requires
            dir == 1 || dir == -1,
            d1 == dir * m1,
            dx == dir * (m1 + m2),
    ;
    let u1 = pingpong_unfolded(s, e, p, d1);
    let ux = pingpong_unfolded(s, e, p, dx);
    assert(ux == u1 + m2);
    let base: int = if dir > 0 { 0 } else { 1 };
    lemma_pingpong_count_bounds(s, e, p, d1);
    lemma_pingpong_count_bounds(s, e, p, dx);
    // First advance: u1 = 2 * span * q + r1.
    lemma_fundamental_div_mod(u1, 2 * span);
    lemma_mod_pos_bound(u1, 2 * span);
    let q = u1 / (2 * span);
    let r1 = u1 % (2 * span);
    let b1: int = if r1 < span { 0 } else { 1 };
    assert(u1 == (2 * q + b1) * span + (r1 - b1 * span)) by (nonlinear_arith)
        requires
            u1 == 2 * span * q + r1,
    ;
    lemma_fundamental_div_mod_converse(u1, span, 2 * q + b1, r1 - b1 * span);
    let ph1 = advanced(ph, PlaybackLoopBehavior::PingPong, d1).0;
    let count1 = pingpong_count(s, e, p, d1);
    assert(count1 == 2 * q + b1 - base);
    assert(ph1.position == leg_position(s, e, u1));
    if m2 == 0 {
        assert(along_travel(ph1, c, m2) == 0) by (nonlinear_arith)
            requires
                along_travel(ph1, c, m2) == c * direction_sign(ph1.travel) * m2,
                m2 == 0,
        ;
        assert(dx == d1);
        return;
    }
    // The second advance starts on the phase where the first one stopped.
    let dir2 = c * direction_sign(ph1.travel);
    assert(count1 % 2 == 1 <==> b1 != base) by {
        assert(count1 == 2 * q + (b1 - base));
    }
    assert(dir2 == (if b1 == 0 { 1int } else { -1int })) by {
        if count1 % 2 == 1 {
            assert(ph1.travel == flipped(ph.travel));
        } else {
            assert(ph1.travel == ph.travel);
        }
    }
    let d2 = dir2 * m2;
    assert(along_travel(ph1, c, m2) == d2);
    assert((dir2 > 0 ==> d2 == m2) && (dir2 < 0 ==> d2 == -m2)) by (nonlinear_arith)
        requires
            dir2 == 1 || dir2 == -1,
            d2 == dir2 * m2,
    ;
    let p1 = ph1.position as int;
    assert(r1 < span ==> p1 == s + r1);
    assert(r1 >= span ==> p1 == s + 2 * span - r1);
    let u2 = pingpong_unfolded(s, e, p1, d2);
    assert(u2 == r1 + m2);
    assert(ux == 2 * span * q + u2);
    // The whole advance: the same phase, shifted by whole cycles.
    lemma_fundamental_div_mod(u2, 2 * span);
    lemma_mod_pos_bound(u2, 2 * span);
    assert(ux == 2 * span * (q + u2 / (2 * span)) + u2 % (2 * span)) by (nonlinear_arith)
        requires
            ux == 2 * span * q + u2,
            u2 == 2 * span * (u2 / (2 * span)) + u2 % (2 * span),
    ;
    lemma_fundamental_div_mod_converse(ux, 2 * span, q + u2 / (2 * span), u2 % (2 * span));
    lemma_fundamental_div_mod(u2, span);
    lemma_mod_pos_bound(u2, span);
    assert(ux == span * (2 * q + u2 / span) + u2 % span) by (nonlinear_arith)
        requires
            ux == 2 * span * q + u2,
            u2 == span * (u2 / span) + u2 % span,
    ;
    lemma_fundamental_div_mod_converse(ux, span, 2 * q + u2 / span, u2 % span);
    lemma_pingpong_count_bounds(s, e, p1, d2);
    let count2 = pingpong_count(s, e, p1, d2);
    let countx = pingpong_count(s, e, p, dx);
    assert(count2 == u2 / span - b1);
    assert(countx == count1 + count2);
    assert(countx % 2 == 1 <==> (count1 % 2 == 1) != (count2 % 2 == 1));
}

/// A range of zero span pins the playhead at its start: no advance moves it
/// or emits an event, whatever the speed, direction or loop behavior.
pub proof fn lemma_zero_span_pinned(ph: Playhead, behavior: PlaybackLoopBehavior, d: int)
    requires
        ph.wf(),
        ph.start == ph.end,
    ensures
        advanced(ph, behavior, d) == (ph, no_events()),
        advanced(ph, behavior, d).0.position == ph.start,
{
}

} // verus!
