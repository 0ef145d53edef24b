use vstd::prelude::*;
use crate::frame::{Frame, Drawable, put_cell};
use crate::timer::{Timer, timer_after};

verus! {

/// Milliseconds a shot takes to climb one row.
pub const SHOT_STEP_MS: u64 = 50;

/// Milliseconds an exploding shot stays on screen.
pub const EXPLOSION_MS: u64 = 250;

/// Glyph of a shot in flight.
pub const SHOT_GLYPH: char = '|';

/// Glyph of an exploding shot.
pub const EXPLOSION_GLYPH: char = '*';

/// A laser shot climbing towards the top row.
#[derive(Clone, Copy, Debug, PartialEq, Eq, Structural)]
pub struct Shot {
    pub x: usize,
    pub y: usize,
    pub exploding: bool,
    pub timer: Timer,
}

/// The shot after `delta` milliseconds: each time its timer runs out while it
/// is not exploding it climbs a row (stopping at the top) and the timer restarts.
pub open spec fn shot_after(s: Shot, delta: u64) -> Shot {
    let t = timer_after(s.timer, delta);
    if t.is_ready() && !s.exploding {
        Shot {
            x: s.x,
            y: if s.y > 0 { (s.y - 1) as usize } else { s.y },
            exploding: s.exploding,
            timer: Timer { duration: t.duration, elapsed: 0 },
        }
    } else {
        Shot { timer: t, ..s }
    }
}

/// A shot is gone once it reached the top row or finished exploding.
pub open spec fn shot_dead(s: Shot) -> bool {
    (s.exploding && s.timer.is_ready()) || s.y == 0
}

/// The glyph a shot shows.
pub open spec fn shot_glyph(s: Shot) -> char {
    if s.exploding { EXPLOSION_GLYPH } else { SHOT_GLYPH }
}

impl Shot {
    /// Its timer is consistent.
    pub open spec fn wf(&self) -> bool {
        self.timer.wf()
    }

    /// A shot in flight at column `x`, row `y`.
    pub fn new(x: usize, y: usize) -> (s: Shot)
        ensures
            s == (Shot { x, y, exploding: false, timer: Timer { duration: SHOT_STEP_MS, elapsed: 0 } }),
    {
        Shot { x, y, exploding: false, timer: Timer::from_millis(SHOT_STEP_MS) }
    }

    /// Lets `delta` milliseconds pass.
    pub fn update(&mut self, delta: u64)
        requires
            old(self).wf(),
        ensures
            *final(self) == shot_after(*old(self), delta),
            final(self).wf(),
    {
        self.timer.update(delta);
        if self.timer.ready() && !self.exploding {
            if self.y > 0 {
                self.y = self.y - 1;
            }
            self.timer.reset();
        }
    }

    /// Turns the shot into an explosion that lasts a while.
    pub fn explode(&mut self)
        ensures
            *final(self) == (Shot {
                exploding: true,
                timer: Timer { duration: EXPLOSION_MS, elapsed: 0 },
                ..*old(self)
            }),
    {
        self.exploding = true;
        self.timer = Timer::from_millis(EXPLOSION_MS);
    }

    /// Whether the shot should be removed.
    pub fn dead(&self) -> (r: bool)
        ensures
            r == shot_dead(*self),
    {
        (self.exploding && self.timer.ready()) || self.y == 0
    }
}

impl Drawable for Shot {
    open spec fn painted(&self, g: Seq<Seq<char>>) -> Seq<Seq<char>> {
        put_cell(g, self.x as int, self.y as int, shot_glyph(*self))
    }

    open spec fn fits(&self, w: nat, h: nat) -> bool {
        self.x < w && self.y < h
    }

    fn draw(&self, frame: &mut Frame) {
        let c = if self.exploding { EXPLOSION_GLYPH } else { SHOT_GLYPH };
        frame.set(self.x, self.y, c);
    }
}

} // verus!
