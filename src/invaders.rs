use vstd::prelude::*;
use crate::frame::{Frame, Drawable, put_cell, NUM_COLS, NUM_ROWS};
use crate::timer::{Timer, timer_after};

verus! {

/// Milliseconds between two steps of a fresh swarm.
pub const START_MOVE_MS: u64 = 2000;

/// The shortest time between two steps the swarm ever reaches.
pub const MIN_MOVE_MS: u64 = 250;

/// How much faster the swarm steps each time it turns.
pub const SPEEDUP_MS: u64 = 250;

/// One member of the swarm.
#[derive(Clone, Copy, Debug, PartialEq, Eq, Structural)]
pub struct Invader {
    pub x: usize,
    pub y: usize,
}

/// The swarm of invaders, stepping sideways on a timer and turning (one row
/// lower and a little faster) when it reaches a side of the grid. Once a
/// member stands on the bottom row the swarm turns without descending.
pub struct Invaders {
    pub army: Vec<Invader>,
    pub move_timer: Timer,
    pub moving_right: bool,
}

/// A swarm as plain values: members, step timer, direction.
pub type SwarmView = (Seq<Invader>, Timer, bool);

/// Whether a fresh swarm has a member at column `x`, row `y`.
pub open spec fn in_formation(x: int, y: int) -> bool {
    1 < x < NUM_COLS - 2 && 0 < y < 9 && x % 2 == 0 && y % 2 == 0
}

/// Some member stands at column `x`, row `y`.
pub open spec fn has_invader_at(army: Seq<Invader>, x: int, y: int) -> bool {
    exists|i: int| 0 <= i < army.len() && (#[trigger] army[i]).x == x && army[i].y == y
}

/// Some member stands in column `c`.
pub open spec fn any_in_column(army: Seq<Invader>, c: int) -> bool {
    exists|i: int| 0 <= i < army.len() && (#[trigger] army[i]).x == c
}

/// Some member stands on the bottom row.
pub open spec fn any_on_bottom(army: Seq<Invader>) -> bool {
    exists|i: int| 0 <= i < army.len() && (#[trigger] army[i]).y == NUM_ROWS - 1
}

/// Every member one column further in the direction of travel.
pub open spec fn shifted(army: Seq<Invader>, right: bool) -> Seq<Invader> {
    Seq::new(army.len(), |i: int| Invader {
        x: if right { (army[i].x + 1) as usize } else { (army[i].x - 1) as usize },
        y: army[i].y,
    })
}

/// Every member one row lower.
pub open spec fn lowered(army: Seq<Invader>) -> Seq<Invader> {
    Seq::new(army.len(), |i: int| Invader { x: army[i].x, y: (army[i].y + 1) as usize })
}

/// The step period after a turn.
pub open spec fn faster(d: u64) -> u64 {
    if d > MIN_MOVE_MS + SPEEDUP_MS { (d - SPEEDUP_MS) as u64 } else { MIN_MOVE_MS }
}

/// Whether the swarm turns at this step: it has reached the side it moves towards.
pub open spec fn must_turn(s: SwarmView) -> bool {
    if s.2 {
        any_in_column(s.0, NUM_COLS - 1)
    } else {
        s.0.len() == 0 || any_in_column(s.0, 0)
    }
}

/// The swarm after `delta` milliseconds, and whether it stepped.
pub open spec fn swarm_after(s: SwarmView, delta: u64) -> (SwarmView, bool) {
    let t = timer_after(s.1, delta);
    if !t.is_ready() {
        ((s.0, t, s.2), false)
    } else if must_turn(s) {
        let army = if any_on_bottom(s.0) { s.0 } else { lowered(s.0) };
        ((army, Timer { duration: faster(t.duration), elapsed: 0 }, !s.2), true)
    } else {
        ((shifted(s.0, s.2), Timer { duration: t.duration, elapsed: 0 }, s.2), true)
    }
}

/// The glyph of every member: it alternates with the step timer's progress.
pub open spec fn swarm_glyph(t: Timer) -> char {
    if t.elapsed <= t.duration && t.duration - t.elapsed > t.elapsed { 'x' } else { '+' }
}

/// `g` with each member painted in order.
pub open spec fn paint_army(g: Seq<Seq<char>>, army: Seq<Invader>, c: char) -> Seq<Seq<char>>
    decreases army.len(),
{
    if army.len() == 0 {
        g
    } else {
        put_cell(paint_army(g, army.drop_last(), c), army.last().x as int, army.last().y as int, c)
    }
}

/// Every member is on the game grid and the timer is consistent.
pub open spec fn swarm_wf(s: SwarmView) -> bool {
    &&& forall|i: int| 0 <= i < s.0.len() ==> (#[trigger] s.0[i]).x < NUM_COLS && s.0[i].y < NUM_ROWS
    &&& s.1.wf()
}

impl View for Invaders {
    type V = SwarmView;

    open spec fn view(&self) -> SwarmView {
        (self.army@, self.move_timer, self.moving_right)
    }
}

impl Invaders {
    /// A fresh swarm in formation, moving right at the starting pace.
    pub fn new() -> (s: Invaders)
        ensures
            swarm_wf(s@),
            s.move_timer == (Timer { duration: START_MOVE_MS, elapsed: 0 }),
            s.moving_right,
            forall|i: int| 0 <= i < s.army@.len() ==>
                in_formation((#[trigger] s.army@[i]).x as int, s.army@[i].y as int),
            forall|x: int, y: int| 0 <= x < NUM_COLS && 0 <= y < NUM_ROWS && in_formation(x, y) ==>
                #[trigger] has_invader_at(s.army@, x, y),
    {
        let mut army: Vec<Invader> = Vec::new();
        let mut x: usize = 0;
        while x < NUM_COLS
            invariant
                x <= NUM_COLS,
                forall|i: int| 0 <= i < army@.len() ==>
                    (#[trigger] army@[i]).x < x && army@[i].y < NUM_ROWS
                    && in_formation(army@[i].x as int, army@[i].y as int),
                forall|a: int, b: int| 0 <= a < x && 0 <= b < NUM_ROWS && in_formation(a, b) ==>
                    #[trigger] has_invader_at(army@, a, b),
            decreases NUM_COLS - x,
        {
            let mut y: usize = 0;
            while y < NUM_ROWS
                invariant
                    x < NUM_COLS,
                    y <= NUM_ROWS,
                    forall|i: int| 0 <= i < army@.len() ==>
                        (#[trigger] army@[i]).x <= x && army@[i].y < NUM_ROWS
                        && in_formation(army@[i].x as int, army@[i].y as int),
                    forall|a: int, b: int| 0 <= a < x && 0 <= b < NUM_ROWS && in_formation(a, b) ==>
                        #[trigger] has_invader_at(army@, a, b),
                    forall|b: int| 0 <= b < y && in_formation(x as int, b) ==>
                        #[trigger] has_invader_at(army@, x as int, b),
                decreases NUM_ROWS - y,
            {
                if x > 1 && x < NUM_COLS - 2 && y > 0 && y < 9 && x % 2 == 0 && y % 2 == 0 {
                    let ghost before = army@;
                    army.push(Invader { x, y });
                    proof {
                        assert forall|a: int, b: int| has_invader_at(before, a, b) implies
                            #[trigger] has_invader_at(army@, a, b) by {
                            let i = choose|i: int| 0 <= i < before.len() && (#[trigger] before[i]).x == a && before[i].y == b;
                            assert(army@[i] == before[i]);
                        }
                        assert(army@[army@.len() - 1] == Invader { x, y });
                        assert(has_invader_at(army@, x as int, y as int));
                    }
                }
                y = y + 1;
            }
            x = x + 1;
        }
        Invaders { army, move_timer: Timer::from_millis(START_MOVE_MS), moving_right: true }
    }

    /// Whether some member stands in column `c`.
    fn any_in_column(&self, c: usize) -> (r: bool)
        ensures
            r == any_in_column(self.army@, c as int),
    {
        let mut i: usize = 0;
        while i < self.army.len()
            invariant
                i <= self.army@.len(),
                forall|j: int| 0 <= j < i ==> (#[trigger] self.army@[j]).x != c,
            decreases self.army@.len() - i,
        {
            if self.army[i].x == c {
                return true;
            }
            i = i + 1;
        }
        false
    }

    /// Whether some member stands on the bottom row.
    fn any_on_bottom(&self) -> (r: bool)
        ensures
            r == any_on_bottom(self.army@),
    {
        let mut i: usize = 0;
        while i < self.army.len()
            invariant
                i <= self.army@.len(),
                forall|j: int| 0 <= j < i ==> (#[trigger] self.army@[j]).y != NUM_ROWS - 1,
            decreases self.army@.len() - i,
        {
            if self.army[i].y == NUM_ROWS - 1 {
                return true;
            }
            i = i + 1;
        }
        false
    }

    /// Lets `delta` milliseconds pass; returns whether the swarm stepped.
    pub fn update(&mut self, delta: u64) -> (stepped: bool)
        requires
            swarm_wf(old(self)@),
        ensures
            (final(self)@, stepped) == swarm_after(old(self)@, delta),
            swarm_wf(final(self)@),
    {
        let ghost s0 = self@;
        self.move_timer.update(delta);
        if !self.move_timer.ready() {
            assert(self@ == swarm_after(s0, delta).0);
            return false;
        }
        self.move_timer.reset();
        let turn = if self.moving_right {
            self.any_in_column(NUM_COLS - 1)
        } else {
            self.army.len() == 0 || self.any_in_column(0)
        };
        assert(turn == must_turn(s0));
        let n = self.army.len();
        let mut moved: Vec<Invader> = Vec::new();
        if turn {
            let d = self.move_timer.duration;
            let next = if d > MIN_MOVE_MS + SPEEDUP_MS { d - SPEEDUP_MS } else { MIN_MOVE_MS };
            self.move_timer = Timer::from_millis(next);
            self.moving_right = !self.moving_right;
            if self.any_on_bottom() {
                return true;
            }
            let mut i: usize = 0;
            while i < n
                invariant
                    n == self.army@.len(),
                    i <= n,
                    s0.0 == self.army@,
                    swarm_wf(s0),
                    !any_on_bottom(s0.0),
                    moved@.len() == i,
                    forall|j: int| 0 <= j < i ==> #[trigger] moved@[j] == lowered(s0.0)[j],
                decreases n - i,
            {
                let m = self.army[i];
                assert(m.y != NUM_ROWS - 1);
                moved.push(Invader { x: m.x, y: m.y + 1 });
                i = i + 1;
            }
            assert(moved@ =~= lowered(s0.0));
        } else {
            let right = self.moving_right;
            let mut i: usize = 0;
            while i < n
                invariant
                    n == self.army@.len(),
                    i <= n,
                    s0.0 == self.army@,
                    right == s0.2,
                    swarm_wf(s0),
                    !must_turn(s0),
                    moved@.len() == i,
                    forall|j: int| 0 <= j < i ==> #[trigger] moved@[j] == shifted(s0.0, right)[j],
                decreases n - i,
            {
                let m = self.army[i];
                let nx = if right {
                    assert(m.x != NUM_COLS - 1);
                    m.x + 1
                } else {
                    assert(m.x != 0);
                    m.x - 1
                };
                moved.push(Invader { x: nx, y: m.y });
                i = i + 1;
            }
            assert(moved@ =~= shifted(s0.0, right));
        }
        self.army = moved;
        true
    }
}

impl Drawable for Invaders {
    open spec fn painted(&self, g: Seq<Seq<char>>) -> Seq<Seq<char>> {
        paint_army(g, self.army@, swarm_glyph(self.move_timer))
    }

    open spec fn fits(&self, w: nat, h: nat) -> bool {
        forall|i: int| 0 <= i < self.army@.len() ==> (#[trigger] self.army@[i]).x < w && self.army@[i].y < h
    }

    fn draw(&self, frame: &mut Frame) {
        let t = self.move_timer;
        let c = if t.elapsed <= t.duration && t.duration - t.elapsed > t.elapsed { 'x' } else { '+' };
        let mut i: usize = 0;
        while i < self.army.len()
            invariant
                i <= self.army@.len(),
                frame.wf(),
                frame.same_dims(old(frame)),
                self.fits(frame.width as nat, frame.height as nat),
                c == swarm_glyph(self.move_timer),
                frame@ == paint_army(old(frame)@, self.army@.take(i as int), c),
            decreases self.army@.len() - i,
        {
            let m = self.army[i];
            frame.set(m.x, m.y, c);
            proof {
                let s = self.army@.take(i + 1);
                assert(s.drop_last() =~= self.army@.take(i as int));
                assert(s.last() == m);
            }
            i = i + 1;
        }
        proof {
            assert(self.army@.take(i as int) =~= self.army@);
        }
    }
}

} // verus!
