//! Turns the edges of a beam-break sensor into roll triggers.
//!
//! Breaking the beam for longer than a second starts the game: the time the
//! beam stayed broken, in microseconds, becomes the seed and is sent as the
//! first trigger. From then on every break of the beam sends the seed again,
//! which the game reads as "play the next round".
use vstd::prelude::*;

verus! {

/// How long the beam must stay broken to start a game, in microseconds.
pub const ONE_SECOND_IN_MUS: u64 = 1000000;

/// What the sensor task remembers between edges.
pub struct SeedSource {
    /// The seed of the game, once one has started.
    pub seed: Option<u64>,
    /// When the beam was last broken before a game started, in microseconds.
    pub beam_broken_at: Option<u64>,
}

/// Microseconds from `from` to `to`; zero when `to` comes first.
pub open spec fn elapsed(from: u64, to: u64) -> u64 {
    if to >= from {
        (to - from) as u64
    } else {
        0
    }
}

impl SeedSource {
    pub fn new() -> (r: SeedSource)
        ensures
            r.seed is None,
            r.beam_broken_at is None,
    {
        SeedSource { seed: None, beam_broken_at: None }
    }

    /// Handles an edge of the sensor at time `now` (in microseconds):
    /// `beam_intact` is the level after the edge, high when the beam is
    /// restored. Returns the trigger to send, if any.
    pub fn on_edge(&mut self, beam_intact: bool, now: u64) -> (r: Option<u64>)
        ensures
            beam_intact ==> match (old(self).beam_broken_at, old(self).seed) {
                (Some(t), None) => if elapsed(t, now) > ONE_SECOND_IN_MUS {
                    &&& r == Some(elapsed(t, now))
                    &&& final(self).seed == Some(elapsed(t, now))
                    &&& final(self).beam_broken_at == old(self).beam_broken_at
                } else {
                    &&& r is None
                    &&& *final(self) == *old(self)
                },
                _ => r is None && *final(self) == *old(self),
            },
            !beam_intact ==> match old(self).seed {
                Some(seed) => r == Some(seed) && *final(self) == *old(self),
                None => {
                    &&& r is None
                    &&& final(self).seed is None
                    &&& final(self).beam_broken_at == Some(now)
                },
            },
    {
        if beam_intact {
            if let (Some(beam_broken_at), None) = (self.beam_broken_at, self.seed) {
                let duration = if now >= beam_broken_at {
                    now - beam_broken_at
                } else {
                    0
                };
                if duration > ONE_SECOND_IN_MUS {
                    self.seed = Some(duration);
                    return Some(duration);
                }
            }
            None
        } else {
            match self.seed {
                Some(seed) => Some(seed),
                None => {
                    self.beam_broken_at = Some(now);
                    None
                },
            }
        }
    }
}

} // verus!
