//! End-to-end scenarios for the simulation engine, in micro-pixels
//! (1 px = 1,000,000 units) and milliseconds.

use invaders::config::Config;
use invaders::game::Game;
use invaders::model::InputIntent;

const PX: i64 = 1_000_000;

fn test_config() -> Config {
    Config {
        screen_w: 800 * PX,
        screen_h: 600 * PX,
        player_w: 50 * PX,
        player_h: 30 * PX,
        bullet_w: 10 * PX,
        bullet_h: 10 * PX,
        alien_w: 40 * PX,
        alien_h: 30 * PX,
    }
}

fn idle() -> InputIntent {
    InputIntent { left: false, right: false, fire: false, restart: false }
}

fn fire_intent() -> InputIntent {
    InputIntent { left: false, right: false, fire: true, restart: false }
}

#[test]
fn config_is_well_formed() {
    assert!(test_config().is_well_formed());
    let bad = Config { player_w: 900 * PX, ..test_config() };
    assert!(!bad.is_well_formed());
}

#[test]
fn new_game_starts_at_round_one() {
    let g = Game::new(test_config());
    assert_eq!(g.round, 1);
    assert!(!g.game_over);
    assert!(g.bullet.is_none());
    assert_eq!(g.aliens.len(), 33);
    assert!(g.aliens.iter().all(|a| a.alive));
    // Player centered: 400 px - 25 px.
    assert_eq!(g.player_x, 375 * PX);
    assert_eq!(g.player_y, 500 * PX);
    // Round 1 swarm speed: 0.1 px/s rightward, which is 100 micro-pixels
    // per millisecond.
    assert_eq!(g.alien_dx, 100);
    assert_eq!(g.step_down, PX / 10);
}

#[test]
fn grid_is_centered_row_major() {
    let g = Game::new(test_config());
    // h spacing 52 px, grid width 572 px, start x (800 - 572) / 2 = 114 px.
    assert_eq!(g.aliens[0].x, 114 * PX);
    assert_eq!(g.aliens[0].y, 80 * PX);
    // Row 0, column 5.
    assert_eq!(g.aliens[5].x, (114 + 5 * 52) * PX);
    assert_eq!(g.aliens[5].y, 80 * PX);
    // Row 2, column 10.
    assert_eq!(g.aliens[2 * 11 + 10].x, (114 + 10 * 52) * PX);
    assert_eq!(g.aliens[2 * 11 + 10].y, (80 + 2 * 40) * PX);
}

#[test]
fn player_clamps_at_right_edge() {
    let mut g = Game::new(test_config());
    let right = InputIntent { right: true, ..idle() };
    // 300 px/s for 1 s each tick; 800 - 50 leaves 750 px of travel.
    for _ in 0..5 {
        g.handle_input(right, 1000);
        g.update(0);
    }
    assert_eq!(g.player_x, 750 * PX);
}

#[test]
fn player_clamps_at_left_edge() {
    let mut g = Game::new(test_config());
    let left = InputIntent { left: true, ..idle() };
    for _ in 0..5 {
        g.handle_input(left, 1000);
        g.update(0);
    }
    assert_eq!(g.player_x, 0);
}

#[test]
fn both_keys_cancel() {
    let mut g = Game::new(test_config());
    let both = InputIntent { left: true, right: true, ..idle() };
    g.handle_input(both, 1000);
    assert_eq!(g.player_x, 375 * PX);
}

#[test]
fn oversized_dt_is_capped() {
    let mut g = Game::new(test_config());
    let right = InputIntent { right: true, ..idle() };
    // Ten seconds of stall still advances at most one second of motion.
    g.handle_input(right, 10_000);
    assert_eq!(g.player_x, 375 * PX + 300 * PX);
}

#[test]
fn fire_spawns_centered_bullet() {
    let mut g = Game::new(test_config());
    g.handle_input(fire_intent(), 0);
    let b = g.bullet.expect("bullet should spawn");
    // Player center 400 px, bullet 10 px wide: left edge at 395 px.
    assert_eq!(b.x, 395 * PX);
    assert_eq!(b.y, 490 * PX);
    assert_eq!(b.speed, 600_000);
}

#[test]
fn fire_while_bullet_active_changes_nothing() {
    let mut g = Game::new(test_config());
    g.handle_input(fire_intent(), 0);
    let b = g.bullet.expect("bullet should spawn");
    g.update(10);
    let moved = g.bullet.expect("bullet still live");
    assert_eq!(moved.y, b.y - 600_000 * 10);
    g.handle_input(fire_intent(), 0);
    let again = g.bullet.expect("still the same bullet");
    assert_eq!(again.x, moved.x);
    assert_eq!(again.y, moved.y);
}

#[test]
fn bullet_leaves_top_of_screen() {
    let mut g = Game::new(test_config());
    // Clear the aliens out of the bullet's path first.
    for a in g.aliens.iter_mut() {
        a.x = 700 * PX;
    }
    g.handle_input(fire_intent(), 0);
    // From y = 490 px at 600 px/s the bullet exits within one second.
    g.update(1000);
    assert!(g.bullet.is_none());
    assert!(!g.game_over);
}

#[test]
fn bullet_kills_exactly_row0_col5() {
    let mut g = Game::new(test_config());
    g.handle_input(fire_intent(), 0);
    // Spawn at 490 px. One 300 px step stops exactly at 190 px, touching
    // row 2's box edge-to-edge, which counts as no overlap; a 100.2 px step
    // then lands at 89.8 px, inside row 0's strike band (70, 110) and past
    // row 1's (110, 150).
    g.update(500);
    assert!(g.bullet.is_some());
    g.update(167);
    assert!(g.bullet.is_none());
    for (i, a) in g.aliens.iter().enumerate() {
        if i == 5 {
            assert!(!a.alive, "row 0 column 5 must be the one hit");
        } else {
            assert!(a.alive, "alien {} must survive", i);
        }
    }
    assert!(!g.game_over);
    assert_eq!(g.round, 1);
}

#[test]
fn swarm_reverses_and_steps_down_as_one() {
    let mut g = Game::new(test_config());
    // Put one living alien on the left margin; the whole swarm reacts.
    g.aliens[22].x = 10 * PX;
    let old_rows: Vec<i64> = g.aliens.iter().map(|a| a.y).collect();
    g.update(0);
    assert_eq!(g.alien_dx, -100);
    for (i, a) in g.aliens.iter().enumerate() {
        assert_eq!(a.y, old_rows[i] + PX / 10);
        assert!(a.alive);
    }
    // A second tick away from the margin does not step down again...
    g.aliens[22].x = 400 * PX;
    let rows_after: Vec<i64> = g.aliens.iter().map(|a| a.y).collect();
    g.update(0);
    for (i, a) in g.aliens.iter().enumerate() {
        assert_eq!(a.y, rows_after[i]);
    }
    assert_eq!(g.alien_dx, -100);
}

#[test]
fn dead_aliens_do_not_trigger_edges() {
    let mut g = Game::new(test_config());
    g.aliens[0].alive = false;
    g.aliens[0].x = 0;
    g.update(0);
    assert_eq!(g.alien_dx, 100);
    assert!(!g.aliens[0].alive, "a dead alien stays dead");
}

#[test]
fn round_two_after_clearing_swarm() {
    let mut g = Game::new(test_config());
    for a in g.aliens.iter_mut() {
        a.alive = false;
    }
    g.update(16);
    assert_eq!(g.round, 2);
    assert_eq!(g.aliens.len(), 33);
    assert!(g.aliens.iter().all(|a| a.alive));
    assert!(g.bullet.is_none());
    assert!(!g.game_over);
    // base_speed * 1.2 for a 0.2 per-round scale.
    assert_eq!(g.alien_dx, 120);
}

#[test]
fn difficulty_grows_each_round() {
    let mut g = Game::new(test_config());
    assert_eq!(g.alien_dx, 100);
    for expected in [120i64, 140, 160] {
        for a in g.aliens.iter_mut() {
            a.alive = false;
        }
        g.update(0);
        assert_eq!(g.alien_dx, expected);
    }
    assert_eq!(g.round, 4);
}

#[test]
fn swarm_reaching_floor_ends_game() {
    let mut g = Game::new(test_config());
    g.aliens[30].y = 570 * PX;
    g.update(0);
    assert!(g.game_over);
}

#[test]
fn swarm_touching_player_ends_game() {
    let mut g = Game::new(test_config());
    // Drop an alien onto the player's box at (375..425, 500..530).
    g.aliens[12].x = 380 * PX;
    g.aliens[12].y = 480 * PX;
    g.update(0);
    assert!(g.game_over);
}

#[test]
fn game_over_freezes_everything() {
    let mut g = Game::new(test_config());
    g.game_over = true;
    let snapshot_x: Vec<i64> = g.aliens.iter().map(|a| a.x).collect();
    let px = g.player_x;
    for _ in 0..3 {
        g.handle_input(InputIntent { left: true, fire: true, ..idle() }, 1000);
        g.update(1000);
    }
    assert!(g.game_over);
    assert_eq!(g.player_x, px);
    assert!(g.bullet.is_none());
    for (i, a) in g.aliens.iter().enumerate() {
        assert_eq!(a.x, snapshot_x[i]);
    }
}

#[test]
fn restart_resets_session() {
    let mut g = Game::new(test_config());
    g.round = 7;
    g.player_x = 0;
    g.game_over = true;
    g.handle_input(InputIntent { restart: true, ..idle() }, 0);
    assert_eq!(g.round, 1);
    assert!(!g.game_over);
    assert_eq!(g.player_x, 375 * PX);
    assert_eq!(g.player_y, 500 * PX);
    assert_eq!(g.aliens.len(), 33);
    assert!(g.aliens.iter().all(|a| a.alive));
    assert!(g.bullet.is_none());
    assert_eq!(g.alien_dx, 100);
}

#[test]
fn restart_ignored_while_playing() {
    let mut g = Game::new(test_config());
    g.round = 3;
    g.alien_dx = 140;
    g.handle_input(InputIntent { restart: true, ..idle() }, 0);
    assert_eq!(g.round, 3);
    assert_eq!(g.alien_dx, 140);
}

#[test]
fn horizontal_travel_saturates_far_off_screen() {
    let mut g = Game::new(test_config());
    let limit: i64 = 1 << 50;
    g.aliens[0].x = limit;
    g.update(1000);
    // The runaway alien stops at the saturation bound; being far past the
    // right margin it also reverses the swarm.
    assert_eq!(g.aliens[0].x, limit);
    assert_eq!(g.alien_dx, -100);
}

#[test]
fn round_counter_saturates() {
    let mut g = Game::new(test_config());
    g.round = u32::MAX;
    for a in g.aliens.iter_mut() {
        a.alive = false;
    }
    g.update(0);
    assert_eq!(g.round, u32::MAX);
    assert!(g.aliens.iter().all(|a| a.alive));
}

#[test]
fn touching_rectangles_do_not_overlap() {
    // Touching edges count as non-overlapping; real overlap counts.
    assert!(!invaders::geometry::rects_overlap(0, 0, 10, 10, 10, 0, 10, 10));
    assert!(!invaders::geometry::rects_overlap(0, 0, 10, 10, 0, 10, 10, 10));
    assert!(invaders::geometry::rects_overlap(0, 0, 10, 10, 9, 9, 10, 10));
    assert!(!invaders::geometry::rects_overlap(0, 0, 10, 10, 11, 0, 10, 10));
}
