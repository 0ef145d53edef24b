use invaders::channel::{Channel, Received};
use invaders::frame::{blank_frame, new_frame, Drawable, BLANK, NUM_COLS, NUM_ROWS};
use invaders::game::{Action, Game, Sound};
use invaders::invaders::Invaders;
use invaders::player::Player;
use invaders::render::{render, CellWrite, RenderTask};
use invaders::shot::Shot;
use invaders::timer::Timer;

#[test]
fn blank_frame_has_every_cell_blank() {
    let f = blank_frame(7, 3);
    assert_eq!(f.width, 7);
    assert_eq!(f.height, 3);
    assert_eq!(f.cells.len(), 7);
    for x in 0..7 {
        assert_eq!(f.cells[x].len(), 3);
        for y in 0..3 {
            assert_eq!(f.get(x, y), BLANK);
        }
    }
    let g = new_frame();
    assert_eq!((g.width, g.height), (NUM_COLS, NUM_ROWS));
    assert!(g.cells.iter().all(|c| c.iter().all(|ch| *ch == ' ')));
}

#[test]
fn set_changes_one_cell() {
    let mut f = blank_frame(4, 4);
    f.set(2, 3, 'Q');
    assert_eq!(f.get(2, 3), 'Q');
    assert_eq!(f.get(3, 2), BLANK);
}

#[test]
fn forced_blank_80_by_24_then_single_change() {
    let prev = blank_frame(80, 24);
    let plan = render(&prev, &prev, true);
    assert!(plan.clear);
    assert_eq!(plan.writes.len(), 1920);
    let mut curr = blank_frame(80, 24);
    curr.set(5, 5, '#');
    let plan = render(&prev, &curr, false);
    assert!(!plan.clear);
    assert_eq!(plan.writes, vec![CellWrite { x: 5, y: 5, ch: '#' }]);
}

#[test]
fn diff_touches_only_changed_cells_in_column_order() {
    let prev = blank_frame(3, 3);
    let mut curr = blank_frame(3, 3);
    curr.set(2, 0, 'a');
    curr.set(0, 2, 'b');
    curr.set(0, 1, 'c');
    let plan = render(&prev, &curr, false);
    assert_eq!(
        plan.writes,
        vec![
            CellWrite { x: 0, y: 1, ch: 'c' },
            CellWrite { x: 0, y: 2, ch: 'b' },
            CellWrite { x: 2, y: 0, ch: 'a' },
        ]
    );
}

#[test]
fn forced_render_touches_every_cell_once() {
    let mut prev = blank_frame(3, 2);
    prev.set(1, 1, 'z');
    let mut curr = blank_frame(3, 2);
    curr.set(1, 1, 'z');
    curr.set(2, 0, 'k');
    let plan = render(&prev, &curr, true);
    let cells: Vec<(usize, usize, char)> = plan.writes.iter().map(|w| (w.x, w.y, w.ch)).collect();
    assert_eq!(
        cells,
        vec![(0, 0, ' '), (0, 1, ' '), (1, 0, ' '), (1, 1, 'z'), (2, 0, 'k'), (2, 1, ' ')]
    );
}

#[test]
fn rerendering_same_frame_writes_nothing() {
    let mut f = blank_frame(5, 4);
    f.set(1, 2, 'x');
    f.set(4, 3, '+');
    let plan = render(&f, &f, false);
    assert!(plan.writes.is_empty());
}

#[test]
fn render_task_remembers_last_frame() {
    let (mut task, plan) = RenderTask::start();
    assert!(plan.clear);
    assert_eq!(plan.writes.len(), NUM_COLS * NUM_ROWS);
    let mut f = new_frame();
    f.set(3, 4, 'A');
    let plan = task.show(f);
    assert_eq!(plan.writes, vec![CellWrite { x: 3, y: 4, ch: 'A' }]);
    let mut g = new_frame();
    g.set(3, 4, 'A');
    let plan = task.show(g);
    assert!(plan.writes.is_empty());
}

#[test]
fn channel_delivers_in_order_then_closed() {
    let mut ch: Channel<u32> = Channel::new();
    assert_eq!(ch.recv(), Received::Empty);
    for v in [10, 20, 30] {
        assert!(ch.send(v));
    }
    ch.close();
    assert!(!ch.send(40));
    assert_eq!(ch.recv(), Received::Item(10));
    assert_eq!(ch.recv(), Received::Item(20));
    assert_eq!(ch.recv(), Received::Item(30));
    assert_eq!(ch.recv(), Received::Closed);
    assert_eq!(ch.recv(), Received::Closed);
}

#[test]
fn channel_carries_frames() {
    let mut ch: Channel<invaders::frame::Frame> = Channel::new();
    let mut f = new_frame();
    f.set(0, 0, 'p');
    ch.send(f);
    ch.send(new_frame());
    match ch.recv() {
        Received::Item(got) => assert_eq!(got.get(0, 0), 'p'),
        _ => panic!("expected a frame"),
    }
    assert!(matches!(ch.recv(), Received::Item(_)));
    assert!(matches!(ch.recv(), Received::Empty));
}

#[test]
fn move_left_from_column_40_draws_player_at_39() {
    let mut game = Game::new();
    assert_eq!(game.player.x, 40);
    let out = game.tick(1, &vec![Action::MoveLeft]);
    let frame = out.frame.expect("a running game paints a frame");
    let row = NUM_ROWS - 1;
    assert_eq!(frame.get(39, row), 'A');
    assert_eq!(frame.get(40, row), BLANK);
}

#[test]
fn move_left_stops_at_column_zero() {
    let mut p = Player::new();
    for _ in 0..100 {
        p.move_left();
    }
    assert_eq!(p.x, 0);
    for _ in 0..200 {
        p.move_right();
    }
    assert_eq!(p.x, NUM_COLS - 1);
}

#[test]
fn quit_mid_tick_stops_the_game() {
    let mut game = Game::new();
    let out = game.tick(1, &vec![Action::MoveRight, Action::Quit, Action::MoveRight]);
    assert_eq!(out.sounds, vec![Sound::Lose]);
    assert!(out.frame.is_none());
    assert!(!game.is_running());
    assert_eq!(game.player.x, 41);
    let later = game.tick(5000, &vec![Action::Shoot]);
    assert!(later.sounds.is_empty());
    assert!(later.frame.is_none());
    assert!(game.player.shots.is_empty());

    let mut ch: Channel<u8> = Channel::new();
    ch.send(1);
    ch.send(2);
    ch.close();
    assert_eq!(ch.recv(), Received::Item(1));
    assert_eq!(ch.recv(), Received::Item(2));
    assert_eq!(ch.recv(), Received::Closed);
}

#[test]
fn shoot_respects_shot_limit() {
    let mut game = Game::new();
    let out = game.tick(1, &vec![Action::Shoot, Action::Shoot, Action::Shoot, Action::Other]);
    assert_eq!(out.sounds, vec![Sound::Pew, Sound::Pew]);
    assert_eq!(game.player.shots.len(), 2);
    let frame = out.frame.unwrap();
    assert_eq!(frame.get(40, NUM_ROWS - 2), '|');
}

#[test]
fn shot_climbs_and_dies_at_top() {
    let mut s = Shot::new(3, 2);
    s.update(49);
    assert_eq!(s.y, 2);
    s.update(1);
    assert_eq!(s.y, 1);
    assert!(!s.dead());
    s.update(50);
    assert_eq!(s.y, 0);
    assert!(s.dead());
    let mut e = Shot::new(1, 1);
    e.explode();
    assert!(!e.dead());
    e.update(250);
    assert!(e.dead());
}

#[test]
fn player_update_drops_dead_shots() {
    let mut p = Player::new();
    assert!(p.shoot());
    assert!(p.shoot());
    assert!(!p.shoot());
    p.update(50);
    assert_eq!(p.shots.len(), 2);
    assert_eq!(p.shots[0].y, NUM_ROWS - 3);
    for _ in 0..NUM_ROWS {
        p.update(50);
    }
    assert!(p.shots.is_empty());
}

#[test]
fn swarm_steps_on_timer_with_one_cue() {
    let mut game = Game::new();
    let first = game.invaders.army[0];
    let out = game.tick(1999, &vec![]);
    assert!(out.sounds.is_empty());
    let out = game.tick(1, &vec![]);
    assert_eq!(out.sounds, vec![Sound::Move]);
    assert_eq!(game.invaders.army[0].x, first.x + 1);
    assert_eq!(game.invaders.army[0].y, first.y);
}

#[test]
fn swarm_formation_and_turn() {
    let mut inv = Invaders::new();
    assert_eq!(inv.army.len(), 38 * 4);
    assert!(inv.army.iter().all(|i| i.x % 2 == 0 && i.y % 2 == 0 && i.y < 9 && i.x > 1));
    let mut steps = 0;
    while inv.moving_right {
        assert!(inv.update(inv.move_timer.duration));
        steps += 1;
    }
    assert_eq!(steps, 4);
    assert_eq!(inv.move_timer.duration, 1750);
    assert!(inv.army.iter().any(|i| i.x == NUM_COLS - 1));
    assert_eq!(inv.army.iter().map(|i| i.y).min(), Some(3));
}

#[test]
fn swarm_draws_with_alternating_glyph() {
    let inv = Invaders::new();
    let mut f = new_frame();
    inv.draw(&mut f);
    assert_eq!(f.get(2, 2), 'x');
    let mut late = Invaders::new();
    late.update(1500);
    let mut g = new_frame();
    late.draw(&mut g);
    assert_eq!(g.get(2, 2), '+');
}

#[test]
fn timer_counts_down_and_resets() {
    let mut t = Timer::from_millis(100);
    t.update(60);
    assert!(!t.ready());
    t.update(60);
    assert!(t.ready());
    assert_eq!(t.elapsed, 100);
    t.reset();
    assert_eq!(t.elapsed, 0);
}

#[test]
fn startup_cue_exists() {
    assert_ne!(Sound::Startup, Sound::Move);
}
