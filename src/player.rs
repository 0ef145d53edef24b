use vstd::prelude::*;
use crate::frame::{Frame, Drawable, put_cell, NUM_COLS, NUM_ROWS};
use crate::shot::{Shot, shot_after, shot_dead, SHOT_STEP_MS};
use crate::timer::Timer;

verus! {

/// How many shots the player may have in flight at once.
pub const MAX_SHOTS: usize = 2;

/// Glyph of the player's ship.
pub const PLAYER_GLYPH: char = 'A';

/// The player's ship on the bottom row, with its shots in flight.
pub struct Player {
    pub x: usize,
    pub y: usize,
    pub shots: Vec<Shot>,
}

/// A player as plain values: column, row, and shots in the order fired.
pub type PlayerView = (usize, usize, Seq<Shot>);

/// The player after a move one column left; column 0 is a wall.
pub open spec fn moved_left(p: PlayerView) -> PlayerView {
    if p.0 > 0 { ((p.0 - 1) as usize, p.1, p.2) } else { p }
}

/// The player after a move one column right; the last column is a wall.
pub open spec fn moved_right(p: PlayerView) -> PlayerView {
    if p.0 + 1 < NUM_COLS { ((p.0 + 1) as usize, p.1, p.2) } else { p }
}

/// Whether a shot fires now: fewer than the maximum are in flight.
pub open spec fn can_shoot(p: PlayerView) -> bool {
    p.2.len() < MAX_SHOTS
}

/// The player after firing: a new shot right above the ship.
pub open spec fn after_shot(p: PlayerView) -> PlayerView {
    (p.0, p.1, p.2.push(Shot {
        x: p.0,
        y: (p.1 - 1) as usize,
        exploding: false,
        timer: Timer { duration: SHOT_STEP_MS, elapsed: 0 },
    }))
}

/// Every shot advanced by `delta` milliseconds, the dead ones removed, order kept.
pub open spec fn updated_shots(shots: Seq<Shot>, delta: u64) -> Seq<Shot>
    decreases shots.len(),
{
    if shots.len() == 0 {
        shots
    } else {
        let rest = updated_shots(shots.drop_last(), delta);
        let s = shot_after(shots.last(), delta);
        if shot_dead(s) { rest } else { rest.push(s) }
    }
}

/// `g` with the shots painted in order.
pub open spec fn paint_shots(g: Seq<Seq<char>>, shots: Seq<Shot>) -> Seq<Seq<char>>
    decreases shots.len(),
{
    if shots.len() == 0 {
        g
    } else {
        shots.last().painted(paint_shots(g, shots.drop_last()))
    }
}

/// `g` with the ship painted, then its shots.
pub open spec fn paint_player(p: PlayerView, g: Seq<Seq<char>>) -> Seq<Seq<char>> {
    paint_shots(put_cell(g, p.0 as int, p.1 as int, PLAYER_GLYPH), p.2)
}

/// Every shot lies on the game grid with a consistent timer.
pub open spec fn shots_wf(shots: Seq<Shot>) -> bool {
    forall|i: int| 0 <= i < shots.len() ==> {
        &&& (#[trigger] shots[i]).wf()
        &&& shots[i].x < NUM_COLS
        &&& shots[i].y < NUM_ROWS
    }
}

/// The ship is on the game grid above row 0, and so are its shots.
pub open spec fn player_wf(p: PlayerView) -> bool {
    &&& p.0 < NUM_COLS
    &&& 0 < p.1 < NUM_ROWS
    &&& shots_wf(p.2)
}

impl View for Player {
    type V = PlayerView;

    open spec fn view(&self) -> PlayerView {
        (self.x, self.y, self.shots@)
    }
}

proof fn lemma_updated_shots_wf(shots: Seq<Shot>, delta: u64)
    requires
        shots_wf(shots),
    ensures
        shots_wf(updated_shots(shots, delta)),
        updated_shots(shots, delta).len() <= shots.len(),
    decreases shots.len(),
{
    if shots.len() > 0 {
        lemma_updated_shots_wf(shots.drop_last(), delta);
        let s = shots.last();
        assert(s == shots[shots.len() - 1]);
    }
}

impl Player {
    /// The ship starts mid-screen on the bottom row with nothing fired.
    pub fn new() -> (p: Player)
        ensures
            p@ == ((NUM_COLS / 2) as usize, (NUM_ROWS - 1) as usize, Seq::<Shot>::empty()),
            player_wf(p@),
    {
        Player { x: NUM_COLS / 2, y: NUM_ROWS - 1, shots: Vec::new() }
    }

    /// Moves one column left unless already at column 0.
    pub fn move_left(&mut self)
        ensures
            final(self)@ == moved_left(old(self)@),
    {
        if self.x > 0 {
            self.x = self.x - 1;
        }
    }

    /// Moves one column right unless already at the last column.
    pub fn move_right(&mut self)
        ensures
            final(self)@ == moved_right(old(self)@),
    {
        if self.x < NUM_COLS - 1 {
            self.x = self.x + 1;
        }
    }

    /// Fires a shot if fewer than the maximum are in flight; says whether it did.
    pub fn shoot(&mut self) -> (fired: bool)
        requires
            player_wf(old(self)@),
        ensures
            fired == can_shoot(old(self)@),
            final(self)@ == if fired { after_shot(old(self)@) } else { old(self)@ },
            player_wf(final(self)@),
    {
        if self.shots.len() < MAX_SHOTS {
            self.shots.push(Shot::new(self.x, self.y - 1));
            true
        } else {
            false
        }
    }

    /// Lets `delta` milliseconds pass for every shot and drops the dead ones.
    pub fn update(&mut self, delta: u64)
        requires
            player_wf(old(self)@),
        ensures
            final(self)@ == (old(self).x, old(self).y, updated_shots(old(self).shots@, delta)),
            player_wf(final(self)@),
    {
        let mut kept: Vec<Shot> = Vec::new();
        let mut i: usize = 0;
        while i < self.shots.len()
            invariant
                i <= self.shots@.len(),
                player_wf(self@),
                kept@ == updated_shots(self.shots@.take(i as int), delta),
            decreases self.shots@.len() - i,
        {
            let mut s = self.shots[i];
            s.update(delta);
            if !s.dead() {
                kept.push(s);
            }
            proof {
                let t = self.shots@.take(i + 1);
                assert(t.drop_last() =~= self.shots@.take(i as int));
                assert(t.last() == self.shots@[i as int]);
            }
            i = i + 1;
        }
        proof {
            assert(self.shots@.take(i as int) =~= self.shots@);
            lemma_updated_shots_wf(self.shots@, delta);
        }
        self.shots = kept;
    }
}

impl Drawable for Player {
    open spec fn painted(&self, g: Seq<Seq<char>>) -> Seq<Seq<char>> {
        paint_player(self@, g)
    }

    open spec fn fits(&self, w: nat, h: nat) -> bool {
        &&& self.x < w
        &&& self.y < h
        &&& forall|i: int| 0 <= i < self.shots@.len() ==> (#[trigger] self.shots@[i]).fits(w, h)
    }

    fn draw(&self, frame: &mut Frame) {
        frame.set(self.x, self.y, PLAYER_GLYPH);
        let ghost start = frame@;
        let mut i: usize = 0;
        while i < self.shots.len()
            invariant
                i <= self.shots@.len(),
                frame.wf(),
                frame.same_dims(old(frame)),
                self.fits(frame.width as nat, frame.height as nat),
                start == put_cell(old(frame)@, self.x as int, self.y as int, PLAYER_GLYPH),
                frame@ == paint_shots(start, self.shots@.take(i as int)),
            decreases self.shots@.len() - i,
        {
            let s = self.shots[i];
            assert(s.fits(frame.width as nat, frame.height as nat));
            s.draw(frame);
            proof {
                let t = self.shots@.take(i + 1);
                assert(t.drop_last() =~= self.shots@.take(i as int));
                assert(t.last() == s);
            }
            i = i + 1;
        }
        proof {
            assert(self.shots@.take(i as int) =~= self.shots@);
        }
    }
}

} // verus!
