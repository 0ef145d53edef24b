use vstd::prelude::*;
use crate::frame::{Frame, Drawable, new_frame, blank_grid, NUM_COLS, NUM_ROWS};
use crate::player::{
    Player, PlayerView, moved_left, moved_right, can_shoot, after_shot, updated_shots,
    paint_player, player_wf,
};
use crate::invaders::{Invaders, SwarmView, swarm_after, swarm_glyph, paint_army, swarm_wf};

verus! {

/// A key action, already decoded from the keyboard.
#[derive(Clone, Copy, Debug, PartialEq, Eq, Structural)]
pub enum Action {
    MoveLeft,
    MoveRight,
    Shoot,
    Quit,
    Other,
}

/// A named sound cue for the audio collaborator.
#[derive(Clone, Copy, Debug, PartialEq, Eq, Structural)]
pub enum Sound {
    Startup,
    Move,
    Pew,
    Lose,
}

/// The game state that the loop owns between ticks.
pub struct Game {
    pub player: Player,
    pub invaders: Invaders,
    pub running: bool,
}

/// What one tick hands to the outside: the cues to play, in order, and the
/// frame to send to the render task (none once the player has quit).
pub struct TickOutcome {
    pub sounds: Vec<Sound>,
    pub frame: Option<Frame>,
}

/// Input handling state: the player, the cues so far, and whether quit was seen.
pub type InputState = (PlayerView, Seq<Sound>, bool);

/// One key action applied to the input handling state; after quit every
/// remaining action is ignored.
pub open spec fn input_step(st: InputState, a: Action) -> InputState {
    if st.2 {
        st
    } else {
        match a {
            Action::MoveLeft => (moved_left(st.0), st.1, false),
            Action::MoveRight => (moved_right(st.0), st.1, false),
            Action::Shoot => if can_shoot(st.0) {
                (after_shot(st.0), st.1.push(Sound::Pew), false)
            } else {
                st
            },
            Action::Quit => (st.0, st.1.push(Sound::Lose), true),
            Action::Other => st,
        }
    }
}

/// All queued key actions applied in order to player `p`.
pub open spec fn handle_input(p: PlayerView, actions: Seq<Action>) -> InputState
    decreases actions.len(),
{
    if actions.len() == 0 {
        (p, Seq::empty(), false)
    } else {
        input_step(handle_input(p, actions.drop_last()), actions.last())
    }
}

/// The picture of one tick: a blank grid, the player painted, then the swarm.
pub open spec fn tick_picture(p: PlayerView, s: SwarmView) -> Seq<Seq<char>> {
    paint_army(paint_player(p, blank_grid(NUM_COLS as nat, NUM_ROWS as nat)), s.0, swarm_glyph(s.1))
}

impl Game {
    /// Every entity lies on the game grid.
    pub open spec fn wf(&self) -> bool {
        player_wf(self.player@) && swarm_wf(self.invaders@)
    }

    /// A running game with the player and the swarm at their starting places.
    pub fn new() -> (g: Game)
        ensures
            g.wf(),
            g.running,
            g.player@ == ((NUM_COLS / 2) as usize, (NUM_ROWS - 1) as usize, Seq::<crate::shot::Shot>::empty()),
    {
        Game { player: Player::new(), invaders: Invaders::new(), running: true }
    }

    /// Whether the loop should run another tick.
    pub fn is_running(&self) -> (r: bool)
        ensures
            r == self.running,
    {
        self.running
    }

    /// Applies the key actions in order; stops at a quit.
    fn handle_actions(&mut self, actions: &Vec<Action>) -> (r: (Vec<Sound>, bool))
        requires
            old(self).wf(),
        ensures
            final(self).wf(),
            final(self).invaders@ == old(self).invaders@,
            final(self).running == old(self).running,
            (final(self).player@, r.0@, r.1) == handle_input(old(self).player@, actions@),
    {
        let mut sounds: Vec<Sound> = Vec::new();
        let mut quit = false;
        let mut i: usize = 0;
        while i < actions.len()
            invariant
                i <= actions@.len(),
                self.wf(),
                self.invaders@ == old(self).invaders@,
                self.running == old(self).running,
                (self.player@, sounds@, quit) == handle_input(old(self).player@, actions@.take(i as int)),
            decreases actions@.len() - i,
        {
            let a = actions[i];
            if !quit {
                match a {
                    Action::MoveLeft => self.player.move_left(),
                    Action::MoveRight => self.player.move_right(),
                    Action::Shoot => {
                        if self.player.shoot() {
                            sounds.push(Sound::Pew);
                        }
                    },
                    Action::Quit => {
                        sounds.push(Sound::Lose);
                        quit = true;
                    },
                    Action::Other => {},
                }
            }
            proof {
                let t = actions@.take(i + 1);
                assert(t.drop_last() =~= actions@.take(i as int));
                assert(t.last() == a);
            }
            i = i + 1;
        }
        proof {
            assert(actions@.take(i as int) =~= actions@);
        }
        (sounds, quit)
    }

    /// One tick of the loop: drain the queued key actions, advance every
    /// entity by `delta` milliseconds, and paint the frame to send. A quit
    /// ends the game at once: nothing is advanced or painted, and later
    /// ticks do nothing.
    pub fn tick(&mut self, delta: u64, actions: &Vec<Action>) -> (out: TickOutcome)
        requires
            old(self).wf(),
        ensures
            final(self).wf(),
            !old(self).running ==> {
                &&& final(self).player@ == old(self).player@
                &&& final(self).invaders@ == old(self).invaders@
                &&& !final(self).running
                &&& out.sounds@.len() == 0
                &&& out.frame is None
            },
            old(self).running ==> ({
                let (p1, cues, quit) = handle_input(old(self).player@, actions@);
                if quit {
                    &&& final(self).player@ == p1
                    &&& final(self).invaders@ == old(self).invaders@
                    &&& !final(self).running
                    &&& out.sounds@ == cues
                    &&& out.frame is None
                } else {
                    let p2 = (p1.0, p1.1, updated_shots(p1.2, delta));
                    let (s2, stepped) = swarm_after(old(self).invaders@, delta);
                    &&& final(self).player@ == p2
                    &&& final(self).invaders@ == s2
                    &&& final(self).running
                    &&& out.sounds@ == if stepped { cues.push(Sound::Move) } else { cues }
                    &&& out.frame is Some
                    &&& out.frame->Some_0.wf()
                    &&& out.frame->Some_0.width == NUM_COLS
                    &&& out.frame->Some_0.height == NUM_ROWS
                    &&& out.frame->Some_0@ == tick_picture(p2, s2)
                }
            }),
    {
        if !self.running {
            return TickOutcome { sounds: Vec::new(), frame: None };
        }
        let (mut sounds, quit) = self.handle_actions(actions);
        if quit {
            self.running = false;
            return TickOutcome { sounds, frame: None };
        }
        self.player.update(delta);
        if self.invaders.update(delta) {
            sounds.push(Sound::Move);
        }
        let mut frame = new_frame();
        self.player.draw(&mut frame);
        self.invaders.draw(&mut frame);
        TickOutcome { sounds, frame: Some(frame) }
    }
}

} // verus!
