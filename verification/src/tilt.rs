//! A debounced tilt-position tracker.
//!
//! An accelerometer is sampled by the board loop; each sample, classified
//! against a deadzone, either builds or drains a friction accumulator. Only
//! a direction sustained past the friction threshold moves the discrete
//! position, which keeps single-sample noise from flickering the display.

use vstd::prelude::*;

verus! {

/// One accelerometer sample classified against the configured deadzone:
/// `Positive` for a reading above the deadzone, `Negative` for one below its
/// negation, and `Level` for anything in between. The classification is done
/// at the sampling edge, where the raw floating-point reading lives.
#[derive(Clone, Copy, PartialEq, Eq, Structural, Debug)]
pub enum Tilt {
    Negative,
    Level,
    Positive,
}

/// Integrates classified tilt samples into a discrete position on a strip of
/// five pixels, with hysteresis: a direction must be detected on more than
/// `friction` accumulated samples before the position commits a move.
pub struct TiltState {
    /// How many accumulated same-direction detections must be strictly
    /// exceeded before the position moves.
    pub friction: u8,
    /// Current discrete position, always in `0 ..= 4`.
    pub pos: usize,
    /// Animation phase for the lit pixel's colour; incremented on every
    /// update, wrapping at 8 bits.
    pub hue: u8,
    /// Running tally of tilt detections: positive samples raise it, negative
    /// samples lower it. Saturates at +/-127 rather than wrapping, so a long
    /// lean against an end of the strip can never flip its sign.
    pub count: i8,
}

/// The accumulator after one classified sample: `Positive` raises it,
/// `Negative` lowers it, `Level` leaves it alone, saturating at +/-127.
pub open spec fn next_count(count: i8, t: Tilt) -> i8 {
    match t {
        Tilt::Positive => if count < 127 { (count + 1) as i8 } else { count },
        Tilt::Negative => if count > -127 { (count - 1) as i8 } else { count },
        Tilt::Level => count,
    }
}

/// The magnitude of the accumulator.
pub open spec fn count_magnitude(count: i8) -> int {
    if count < 0 {
        -(count as int)
    } else {
        count as int
    }
}

/// The whole state after one update: the accumulator takes the new sample
/// in; if its magnitude then exceeds the friction threshold the position
/// moves one step in its direction, clamped to `0 ..= 4`, and a committed
/// move resets the accumulator. A move blocked at an end of the strip resets
/// nothing. The hue advances on every update, whatever the sample.
pub open spec fn update_spec(s: TiltState, t: Tilt) -> TiltState {
    let c = next_count(s.count, t);
    let hue = ((s.hue + 1) % 256) as u8;
    if count_magnitude(c) > s.friction {
        if c < 0 {
            if s.pos > 0 {
                TiltState { friction: s.friction, pos: (s.pos - 1) as usize, hue, count: 0 }
            } else {
                TiltState { friction: s.friction, pos: s.pos, hue, count: c }
            }
        } else {
            if s.pos < 4 {
                TiltState { friction: s.friction, pos: (s.pos + 1) as usize, hue, count: 0 }
            } else {
                TiltState { friction: s.friction, pos: s.pos, hue, count: c }
            }
        }
    } else {
        TiltState { friction: s.friction, pos: s.pos, hue, count: c }
    }
}

/// The state after a whole sequence of updates, first sample first.
pub open spec fn run(s: TiltState, ts: Seq<Tilt>) -> TiltState
    decreases ts.len(),
{
    if ts.len() == 0 {
        s
    } else {
        update_spec(run(s, ts.drop_last()), ts.last())
    }
}

impl TiltState {
    /// The position is on the strip and the accumulator is within its
    /// saturation bounds.
    pub open spec fn wf(&self) -> bool {
        &&& self.pos <= 4
        &&& -127 <= self.count <= 127
    }

    /// A fresh tracker: middle position, zeroed accumulator and hue.
    pub fn new(friction: u8) -> (s: TiltState)
        ensures
            s == (TiltState { friction, pos: 2, hue: 0, count: 0 }),
            s.wf(),
    {
        TiltState { friction, pos: 2, hue: 0, count: 0 }
    }

    /// Takes one classified sample in and returns the position and hue to
    /// display, exactly as `update_spec` says.
    pub fn update(&mut self, t: Tilt) -> (r: (usize, u8))
        requires
            old(self).wf(),
        ensures
            *final(self) == update_spec(*old(self), t),
            final(self).wf(),
            r.0 == final(self).pos,
            r.1 == final(self).hue,
            r.0 <= 4,
    {
        match t {
            Tilt::Positive => {
                if self.count < 127 {
                    self.count = self.count + 1;
                }
            },
            Tilt::Negative => {
                if self.count > -127 {
                    self.count = self.count - 1;
                }
            },
            Tilt::Level => {},
        }

        let magnitude: i8 = if self.count < 0 {
            -self.count
        } else {
            self.count
        };
        if magnitude as u8 > self.friction {
            if self.count < 0 {
                if self.pos > 0 {
                    self.pos = self.pos - 1;
                    self.count = 0;
                }
            } else {
                if self.pos < 4 {
                    self.pos = self.pos + 1;
                    self.count = 0;
                }
            }
        }

        self.hue = if self.hue == 255 {
            0
        } else {
            self.hue + 1
        };
        (self.pos, self.hue)
    }
}

/// One update preserves well-formedness: the position is clamped to the
/// strip and the accumulator saturates within its bounds.
pub proof fn lemma_update_preserves_wf(s: TiltState, t: Tilt)
    requires
        s.wf(),
    ensures
        update_spec(s, t).wf(),
{
}

/// The position never leaves the strip, however long the tracker runs and
/// whatever samples it is fed: in particular, leaning one way forever never
/// pushes it past an end.
pub proof fn lemma_pos_stays_bounded(s: TiltState, ts: Seq<Tilt>)
    requires
        s.wf(),
    ensures
        run(s, ts).wf(),
        run(s, ts).pos <= 4,
    decreases ts.len(),
{
    if ts.len() > 0 {
        lemma_pos_stays_bounded(s, ts.drop_last());
        lemma_update_preserves_wf(run(s, ts.drop_last()), ts.last());
    }
}

/// The hue counts the updates, modulo 256: every update advances it by one,
/// whatever the sample and whether or not the position moved.
pub proof fn lemma_hue_counts_updates(s: TiltState, ts: Seq<Tilt>)
    ensures
        run(s, ts).hue == (s.hue + ts.len()) % 256,
    decreases ts.len(),
{
    if ts.len() == 0 {
        assert((s.hue + 0) % 256 == s.hue) by {
            vstd::arithmetic::div_mod::lemma_small_mod(s.hue as nat, 256);
        }
    } else {
        lemma_hue_counts_updates(s, ts.drop_last());
        let before = run(s, ts.drop_last());
        assert(run(s, ts).hue == (before.hue + 1) % 256);
        assert(((s.hue + (ts.len() - 1)) % 256 + 1) % 256 == (s.hue + ts.len()) % 256) by {
            vstd::arithmetic::div_mod::lemma_add_mod_noop(
                s.hue + (ts.len() - 1),
                1,
                256,
            );
            vstd::arithmetic::div_mod::lemma_small_mod(1nat, 256);
            vstd::arithmetic::div_mod::lemma_mod_twice(s.hue + ts.len(), 256);
        }
    }
}

/// After 256 updates the hue is back where it started: a full wrap of the
/// 8-bit phase, whatever the samples were.
pub proof fn lemma_hue_wraps(s: TiltState, ts: Seq<Tilt>)
    requires
        ts.len() == 256,
    ensures
        run(s, ts).hue == s.hue,
{
    lemma_hue_counts_updates(s, ts);
    assert((s.hue + 256) % 256 == s.hue) by {
        vstd::arithmetic::div_mod::lemma_mod_add_multiples_vanish(s.hue as int, 256);
        vstd::arithmetic::div_mod::lemma_small_mod(s.hue as nat, 256);
    }
}

} // verus!
