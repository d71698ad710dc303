//! The laws of the simulation, proved once and for all over the model:
//! well-formedness is preserved by every step, the player stays clamped,
//! the single bullet makes a second fire request a no-op, the swarm moves
//! as one unit, round completion respawns a faster swarm, game-over is
//! sticky, and difficulty grows strictly with the round number.

use vstd::prelude::*;

use vstd::arithmetic::div_mod::lemma_div_is_ordered;
use vstd::arithmetic::div_mod::lemma_fundamental_div_mod;
use vstd::arithmetic::div_mod::lemma_mod_bound;

use crate::config::ALIEN_BASE_SPEED;
use crate::config::ALIEN_SPEED_STEP;
use crate::config::ALIEN_STEP_DOWN;
use crate::config::Config;
use crate::config::DX_LIMIT;
use crate::config::FLOOR_MARGIN;
use crate::config::GRID_H_GAP;
use crate::config::GRID_TOP;
use crate::config::GRID_V_GAP;
use crate::config::NUM_ALIENS;
use crate::config::wf_config;
use crate::model::Alien;
use crate::model::Bullet;
use crate::model::GameModel;
use crate::model::InputIntent;
use crate::model::alien_above_floor;
use crate::model::alien_in_bounds;
use crate::model::aliens_after_motion;
use crate::model::aliens_after_step;
use crate::model::all_dead;
use crate::model::bullet_after_motion;
use crate::model::capped_dt;
use crate::model::completes_round;
use crate::model::dx_for_round;
use crate::model::edge_hit;
use crate::model::first_hit_from;
use crate::model::grid_model;
use crate::model::grid_start_x;
use crate::model::initial_model;
use crate::model::input_model;
use crate::model::kill_at;
use crate::model::swarm_on_floor;
use crate::model::swarm_touches_player;
use crate::model::update_model;
use crate::model::wf;
use crate::model::wf_bullet;

verus! {

/// A freshly spawned grid is full, alive, inside the screen horizontally,
/// and strictly above the floor.
pub proof fn lemma_grid_wf(cfg: Config)
    requires
        wf_config(cfg),
    ensures
        grid_model(cfg).len() == NUM_ALIENS,
        forall|i: int|
            0 <= i < NUM_ALIENS ==> (#[trigger] grid_model(cfg)[i]).alive && alien_in_bounds(
                grid_model(cfg)[i],
                cfg,
            ) && alien_above_floor(grid_model(cfg)[i], cfg),
{
    let hsp = cfg.alien_w + GRID_H_GAP;
    let vsp = cfg.alien_h + GRID_V_GAP;
    let gsx = grid_start_x(cfg);
    assert(0 <= gsx && gsx <= cfg.screen_w - 11 * hsp) by {
        let room = cfg.screen_w - 11 * hsp;
        lemma_div_is_ordered(0, room, 2);
        lemma_fundamental_div_mod(room, 2);
        lemma_mod_bound(room, 2);
    };
    assert forall|i: int| 0 <= i < NUM_ALIENS implies (#[trigger] grid_model(cfg)[i]).alive
        && alien_in_bounds(grid_model(cfg)[i], cfg) && alien_above_floor(
        grid_model(cfg)[i],
        cfg,
    ) by {
        let r = i / 11;
        let c = i % 11;
        lemma_mod_bound(i, 11);
        lemma_div_is_ordered(0, i, 11);
        lemma_div_is_ordered(i, 32, 11);
        assert(0 <= c * hsp <= 10 * hsp) by (nonlinear_arith)
            requires
                0 <= c <= 10,
                hsp > 0,
        ;
        assert(0 <= r * vsp <= 2 * vsp) by (nonlinear_arith)
            requires
                0 <= r <= 2,
                vsp > 0,
        ;
        assert(0 <= gsx + c * hsp <= cfg.screen_w);
        assert(GRID_TOP + r * vsp + cfg.alien_h < cfg.screen_h - FLOOR_MARGIN);
    };
}

/// The initial state is well formed.
pub proof fn lemma_initial_wf(cfg: Config)
    requires
        wf_config(cfg),
    ensures
        wf(initial_model(cfg)),
{
    lemma_grid_wf(cfg);
    assert(0 <= cfg.screen_w / 2 - cfg.player_w / 2 <= cfg.screen_w - cfg.player_w) by {
        lemma_div_is_ordered(cfg.player_w as int, cfg.screen_w as int, 2);
        lemma_fundamental_div_mod(cfg.screen_w as int, 2);
        lemma_fundamental_div_mod(cfg.player_w as int, 2);
        lemma_mod_bound(cfg.screen_w as int, 2);
        lemma_mod_bound(cfg.player_w as int, 2);
    };
}

/// Intent handling preserves well-formedness.
pub proof fn lemma_input_preserves_wf(g: GameModel, inp: InputIntent, dt: u32)
    requires
        wf(g),
    ensures
        wf(input_model(g, inp, dt)),
{
    if g.game_over {
        if inp.restart {
            lemma_initial_wf(g.cfg);
        }
    } else {
        let gi = input_model(g, inp, dt);
        if inp.fire && g.bullet is None {
            let pw = g.cfg.player_w as int;
            let bw = g.cfg.bullet_w as int;
            assert(0 <= pw / 2 <= pw && 0 <= bw / 2 <= bw) by {
                lemma_div_is_ordered(0, pw, 2);
                lemma_div_is_ordered(0, bw, 2);
                lemma_fundamental_div_mod(pw, 2);
                lemma_mod_bound(pw, 2);
                lemma_fundamental_div_mod(bw, 2);
                lemma_mod_bound(bw, 2);
            };
            assert(match gi.bullet {
                Option::None => true,
                Option::Some(b) => wf_bullet(b, g.cfg),
            });
        }
    }
}

/// The world update preserves well-formedness.
pub proof fn lemma_update_preserves_wf(g: GameModel, dt: u32)
    requires
        wf(g),
    ensures
        wf(update_model(g, dt)),
{
    if !g.game_over {
        let d = capped_dt(dt);
        let b1 = bullet_after_motion(g.bullet, g.cfg, d);
        let s1 = aliens_after_motion(g.aliens, g.alien_dx, d);
        let hit = edge_hit(s1, g.cfg);
        let s2 = if hit {
            aliens_after_step(s1, g.step_down)
        } else {
            s1
        };
        let shot = match b1 {
            Option::Some(b) => first_hit_from(s2, b, g.cfg, 0),
            Option::None => s2.len() as int,
        };
        let s3 = if shot < s2.len() {
            kill_at(s2, shot)
        } else {
            s2
        };
        let b2 = if shot < s2.len() {
            Option::<Bullet>::None
        } else {
            b1
        };
        let over = swarm_touches_player(s3, g.cfg, g.player_x, g.player_y) || swarm_on_floor(
            s3,
            g.cfg,
        );
        assert forall|j: int| 0 <= j < s2.len() implies alien_in_bounds(
            #[trigger] s2[j],
            g.cfg,
        ) by {
            assert(alien_in_bounds(g.aliens[j], g.cfg));
            assert(alien_above_floor(g.aliens[j], g.cfg));
        };
        match b1 {
            Option::Some(b) => {
                lemma_first_hit_range(s2, b, g.cfg, 0);
            },
            Option::None => {
            },
        }
        assert forall|j: int| 0 <= j < s3.len() implies alien_in_bounds(
            #[trigger] s3[j],
            g.cfg,
        ) by {
            assert(alien_in_bounds(s2[j], g.cfg));
            if shot < s2.len() {
                assert(alien_in_bounds(s2[shot], g.cfg));
                assert(s3 == s2.update(shot, Alien { x: s2[shot].x, y: s2[shot].y, alive: false }));
            }
        };
        match b2 {
            Option::None => {
            },
            Option::Some(b) => {
                assert(wf_bullet(b, g.cfg));
            },
        }
        if !over && all_dead(s3) {
            let r2: u32 = if g.round < 0xffff_ffff_u32 {
                (g.round + 1) as u32
            } else {
                g.round
            };
            lemma_grid_wf(g.cfg);
            assert(ALIEN_BASE_SPEED + ALIEN_SPEED_STEP * (r2 as int - 1) <= DX_LIMIT);
        } else {
            let gu = update_model(g, dt);
            assert(gu.aliens == s3);
            if !over {
                assert forall|j: int| 0 <= j < s3.len() implies alien_above_floor(
                    #[trigger] s3[j],
                    g.cfg,
                ) by {
                    if s3[j].alive && s3[j].y + g.cfg.alien_h >= g.cfg.screen_h - FLOOR_MARGIN {
                        assert(swarm_on_floor(s3, g.cfg));
                    }
                };
            }
        }
    }
}

/// Clamping: from any well-formed state, after any intent and any world
/// update, the player's x stays within `[0, screen_w - player_w]`; with
/// preservation of well-formedness this extends to every input sequence.
pub proof fn lemma_player_clamping(g: GameModel, inp: InputIntent, dt_input: u32, dt_update: u32)
    requires
        wf(g),
    ensures
        wf(update_model(input_model(g, inp, dt_input), dt_update)),
        0 <= update_model(input_model(g, inp, dt_input), dt_update).player_x <= g.cfg.screen_w
            - g.cfg.player_w,
{
    lemma_input_preserves_wf(g, inp, dt_input);
    lemma_update_preserves_wf(input_model(g, inp, dt_input), dt_update);
    assert(update_model(input_model(g, inp, dt_input), dt_update).cfg == g.cfg);
}

/// Single bullet: at most one bullet exists by construction (an `Option`
/// holds it), and while one is live a fire request changes nothing: the
/// step is the same as with the fire flag dropped.
pub proof fn lemma_single_bullet(g: GameModel, inp: InputIntent, dt: u32)
    requires
        wf(g),
        g.bullet is Some,
    ensures
        input_model(g, inp, dt).bullet == g.bullet || g.game_over,
        input_model(g, inp, dt) == input_model(
            g,
            (InputIntent { left: inp.left, right: inp.right, fire: false, restart: inp.restart }),
            dt,
        ),
{
}

/// Swarm cohesion: if after this tick's motion any living alien stands on
/// a boundary margin, then — unless the same tick completes the round and
/// respawns the swarm — every alien that was alive has its y increased by
/// exactly the step-down, and the shared direction has flipped sign.
pub proof fn lemma_swarm_cohesion(g: GameModel, dt: u32)
    requires
        wf(g),
        !g.game_over,
        edge_hit(aliens_after_motion(g.aliens, g.alien_dx, capped_dt(dt)), g.cfg),
    ensures
        !completes_round(g, dt) ==> update_model(g, dt).alien_dx as int == -(g.alien_dx as int),
        !completes_round(g, dt) ==> forall|i: int|
            0 <= i < g.aliens.len() && (#[trigger] g.aliens[i]).alive ==> update_model(
                g,
                dt,
            ).aliens[i].y == g.aliens[i].y + g.step_down,
{
    let d = capped_dt(dt);
    let b1 = bullet_after_motion(g.bullet, g.cfg, d);
    let s1 = aliens_after_motion(g.aliens, g.alien_dx, d);
    let s2 = aliens_after_step(s1, g.step_down);
    let shot = match b1 {
        Option::Some(b) => first_hit_from(s2, b, g.cfg, 0),
        Option::None => s2.len() as int,
    };
    match b1 {
        Option::Some(b) => {
            lemma_first_hit_range(s2, b, g.cfg, 0);
        },
        Option::None => {
        },
    }
    if !completes_round(g, dt) {
        let gu = update_model(g, dt);
        assert forall|i: int|
            0 <= i < g.aliens.len() && (#[trigger] g.aliens[i]).alive implies gu.aliens[i].y
            == g.aliens[i].y + g.step_down by {
            assert(alien_in_bounds(g.aliens[i], g.cfg));
            assert(alien_above_floor(g.aliens[i], g.cfg));
            assert(s1[i].y == g.aliens[i].y);
            assert(s2[i].y == g.aliens[i].y + g.step_down);
            if shot < s2.len() {
                assert(gu.aliens == kill_at(s2, shot));
                assert(gu.aliens[i].y == s2[i].y);
            } else {
                assert(gu.aliens == s2);
            }
        };
    }
}

/// Round completion: with every alien dead and play continuing, the next
/// tick increments the round, respawns a full living swarm with the scaled
/// speed, and clears the bullet.
pub proof fn lemma_round_completion(g: GameModel, dt: u32)
    requires
        wf(g),
        !g.game_over,
        all_dead(g.aliens),
        g.round < 0xffff_ffff_u32,
    ensures
        update_model(g, dt).round == g.round + 1,
        update_model(g, dt).game_over == false,
        update_model(g, dt).bullet is None,
        update_model(g, dt).aliens.len() == NUM_ALIENS,
        forall|i: int| 0 <= i < NUM_ALIENS ==> (#[trigger] update_model(g, dt).aliens[i]).alive,
        update_model(g, dt).alien_dx == dx_for_round((g.round + 1) as u32),
{
    let d = capped_dt(dt);
    let b1 = bullet_after_motion(g.bullet, g.cfg, d);
    let s1 = aliens_after_motion(g.aliens, g.alien_dx, d);
    assert(s1 =~= g.aliens);
    assert(!edge_hit(s1, g.cfg));
    match b1 {
        Option::Some(b) => {
            lemma_first_hit_all_dead(s1, b, g.cfg, 0);
        },
        Option::None => {
        },
    }
    assert(!swarm_touches_player(s1, g.cfg, g.player_x, g.player_y));
    assert(!swarm_on_floor(s1, g.cfg));
    lemma_grid_wf(g.cfg);
}

/// The bullet scan yields an index between its start and the swarm size.
pub proof fn lemma_first_hit_range(s: Seq<Alien>, b: Bullet, cfg: Config, i: int)
    requires
        0 <= i,
    ensures
        0 <= first_hit_from(s, b, cfg, i) <= s.len(),
    decreases s.len() - i,
{
    if i < s.len() {
        lemma_first_hit_range(s, b, cfg, i + 1);
    }
}

/// With every alien dead the bullet scan finds no target.
pub proof fn lemma_first_hit_all_dead(s: Seq<Alien>, b: Bullet, cfg: Config, i: int)
    requires
        all_dead(s),
        0 <= i,
    ensures
        first_hit_from(s, b, cfg, i) == s.len(),
    decreases s.len() - i,
{
    if i < s.len() {
        lemma_first_hit_all_dead(s, b, cfg, i + 1);
    }
}

/// Game-over stickiness: once the flag is set, a world update changes
/// nothing, and intent handling changes nothing except an explicit restart,
/// which yields the initial state; by induction, any number of further
/// ticks leaves the state fixed until a restart.
pub proof fn lemma_game_over_sticky(g: GameModel, inp: InputIntent, dt: u32)
    requires
        g.game_over,
    ensures
        update_model(g, dt) == g,
        !inp.restart ==> input_model(g, inp, dt) == g,
        inp.restart ==> input_model(g, inp, dt) == initial_model(g.cfg),
{
}

/// Difficulty monotonicity: the swarm speed magnitude at round N + 1
/// exceeds that at round N by exactly one speed step, with the closed form
/// base + step × N — that is, the base speed scaled by (1 + N / 5).
pub proof fn lemma_difficulty_monotonic(round: u32)
    requires
        1 <= round < 0xffff_ffff_u32,
    ensures
        dx_for_round(round) < dx_for_round((round + 1) as u32),
        dx_for_round((round + 1) as u32) - dx_for_round(round) == ALIEN_SPEED_STEP,
        dx_for_round((round + 1) as u32) == ALIEN_BASE_SPEED + ALIEN_SPEED_STEP * (round as int),
{
}

} // verus!
