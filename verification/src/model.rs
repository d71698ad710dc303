//! Entity records and the mathematical model of one simulation step.
//!
//! `input_model` and `update_model` are the specification of the two halves
//! of a tick: intent handling and world update. The executable methods in
//! `game` are proved to produce exactly these states.

use vstd::prelude::*;

use crate::config::ALIEN_BASE_SPEED;
use crate::config::ALIEN_COLS;
use crate::config::ALIEN_SPEED_STEP;
use crate::config::ALIEN_STEP_DOWN;
use crate::config::BULLET_SPEED;
use crate::config::Config;
use crate::config::DT_MAX_MS;
use crate::config::DX_LIMIT;
use crate::config::EDGE_MARGIN;
use crate::config::FLOOR_MARGIN;
use crate::config::GRID_H_GAP;
use crate::config::GRID_TOP;
use crate::config::GRID_V_GAP;
use crate::config::NUM_ALIENS;
use crate::config::PLAYER_SPEED;
use crate::config::PLAYER_START_Y;
use crate::config::POS_LIMIT;
use crate::config::wf_config;
use crate::geometry::overlaps;

verus! {

/// The single live bullet, present at most once per session.
#[derive(Clone, Copy, Debug)]
pub struct Bullet {
    pub x: i64,
    pub y: i64,
    pub speed: i64,
}

/// One alien of the swarm. A dead alien retains its last position and is
/// excluded from motion, boundary scans and collisions.
#[derive(Clone, Copy, Debug)]
pub struct Alien {
    pub x: i64,
    pub y: i64,
    pub alive: bool,
}

/// Control state for one tick: held direction keys, plus rising-edge fire
/// and restart requests.
#[derive(Clone, Copy, Debug)]
pub struct InputIntent {
    pub left: bool,
    pub right: bool,
    pub fire: bool,
    pub restart: bool,
}

/// Abstract session state: the view of `game::Game`.
#[verifier::ext_equal]
pub ghost struct GameModel {
    pub cfg: Config,
    pub player_x: i64,
    pub player_y: i64,
    pub bullet: Option<Bullet>,
    pub aliens: Seq<Alien>,
    pub alien_dx: i64,
    pub step_down: i64,
    pub round: u32,
    pub game_over: bool,
}

/// Milliseconds of simulated time for a tick: the wall-clock delta, capped
/// at one second.
pub open spec fn capped_dt(dt: u32) -> int {
    if dt > DT_MAX_MS {
        DT_MAX_MS as int
    } else {
        dt as int
    }
}

/// Horizontal travel saturates far outside the visible screen; see
/// `POS_LIMIT`.
pub open spec fn saturated_pos(v: int) -> i64 {
    if v < -POS_LIMIT {
        (-POS_LIMIT) as i64
    } else if v > POS_LIMIT {
        POS_LIMIT as i64
    } else {
        v as i64
    }
}

/// One alien after the shared horizontal motion of a tick.
pub open spec fn moved_alien(a: Alien, dx: i64, d: int) -> Alien {
    if a.alive {
        Alien { x: saturated_pos(a.x + dx * d), y: a.y, alive: true }
    } else {
        a
    }
}

/// The whole swarm after horizontal motion.
pub open spec fn aliens_after_motion(s: Seq<Alien>, dx: i64, d: int) -> Seq<Alien> {
    s.map_values(|a: Alien| moved_alien(a, dx, d))
}

/// A living alien whose box has crossed the left or right boundary margin.
pub open spec fn alien_on_edge(a: Alien, cfg: Config) -> bool {
    a.alive && (a.x <= EDGE_MARGIN || a.x + cfg.alien_w >= cfg.screen_w - EDGE_MARGIN)
}

/// Any-triggers-all: a single living alien on a margin reverses and lowers
/// the entire swarm.
pub open spec fn edge_hit(s: Seq<Alien>, cfg: Config) -> bool {
    exists|i: int| 0 <= i < s.len() && alien_on_edge(s[i], cfg)
}

/// The whole swarm after the uniform step-down.
pub open spec fn aliens_after_step(s: Seq<Alien>, step: i64) -> Seq<Alien> {
    s.map_values(
        |a: Alien|
            if a.alive {
                Alien { x: a.x, y: (a.y + step) as i64, alive: true }
            } else {
                a
            },
    )
}

/// Index of the first living alien, in iteration order from `i`, whose box
/// the bullet overlaps; `s.len()` if there is none. The bullet destroys at
/// most one alien per tick, first-match-by-order.
pub open spec fn first_hit_from(s: Seq<Alien>, b: Bullet, cfg: Config, i: int) -> int
    decreases s.len() - i,
{
    if i < 0 || i >= s.len() {
        s.len() as int
    } else if s[i].alive && overlaps(
        b.x as int,
        b.y as int,
        cfg.bullet_w as int,
        cfg.bullet_h as int,
        s[i].x as int,
        s[i].y as int,
        cfg.alien_w as int,
        cfg.alien_h as int,
    ) {
        i
    } else {
        first_hit_from(s, b, cfg, i + 1)
    }
}

/// The swarm with the alien at `idx` marked dead, its position retained.
pub open spec fn kill_at(s: Seq<Alien>, idx: int) -> Seq<Alien> {
    s.update(idx, Alien { x: s[idx].x, y: s[idx].y, alive: false })
}

/// The bullet after its upward motion: gone once its bottom edge rises
/// above the top of the screen.
pub open spec fn bullet_after_motion(b: Option<Bullet>, cfg: Config, d: int) -> Option<Bullet> {
    match b {
        Option::None => Option::None,
        Option::Some(bl) => {
            let ny = bl.y - bl.speed * d;
            if ny + cfg.bullet_h < 0 {
                Option::None
            } else {
                Option::Some(Bullet { x: bl.x, y: ny as i64, speed: bl.speed })
            }
        },
    }
}

/// A living alien's box overlaps the player's.
pub open spec fn swarm_touches_player(s: Seq<Alien>, cfg: Config, px: i64, py: i64) -> bool {
    exists|i: int|
        0 <= i < s.len() && s[i].alive && overlaps(
            px as int,
            py as int,
            cfg.player_w as int,
            cfg.player_h as int,
            s[i].x as int,
            s[i].y as int,
            cfg.alien_w as int,
            cfg.alien_h as int,
        )
}

/// A living alien's bottom edge has reached the floor.
pub open spec fn swarm_on_floor(s: Seq<Alien>, cfg: Config) -> bool {
    exists|i: int|
        0 <= i < s.len() && s[i].alive && s[i].y + cfg.alien_h >= cfg.screen_h - FLOOR_MARGIN
}

pub open spec fn all_dead(s: Seq<Alien>) -> bool {
    forall|i: int| 0 <= i < s.len() ==> !s[i].alive
}

/// Shared swarm speed at the start of a round: the base speed grown by one
/// speed step per completed round, rightward.
pub open spec fn dx_for_round(round: u32) -> i64 {
    (ALIEN_BASE_SPEED + ALIEN_SPEED_STEP * (round as int - 1)) as i64
}

/// Left edge of the spawn grid: the grid is centered on the screen.
pub open spec fn grid_start_x(cfg: Config) -> int {
    (cfg.screen_w - (ALIEN_COLS as int) * (cfg.alien_w + GRID_H_GAP)) / 2
}

/// The alien spawned at grid row `r`, column `c`.
pub open spec fn grid_alien(cfg: Config, r: int, c: int) -> Alien {
    Alien {
        x: (grid_start_x(cfg) + c * (cfg.alien_w + GRID_H_GAP)) as i64,
        y: (GRID_TOP + r * (cfg.alien_h + GRID_V_GAP)) as i64,
        alive: true,
    }
}

/// A fresh swarm grid, row-major.
pub open spec fn grid_model(cfg: Config) -> Seq<Alien> {
    Seq::new(NUM_ALIENS as nat, |i: int| grid_alien(cfg, i / 11, i % 11))
}

/// State at the start of round `round`: fresh swarm, scaled speed, base
/// step-down, no bullet.
pub open spec fn started_round_model(g: GameModel, round: u32) -> GameModel {
    GameModel {
        aliens: grid_model(g.cfg),
        alien_dx: dx_for_round(round),
        step_down: ALIEN_STEP_DOWN,
        bullet: Option::None,
        ..g
    }
}

/// Where the player starts: horizontally centered.
pub open spec fn player_start_x(cfg: Config) -> i64 {
    (cfg.screen_w / 2 - cfg.player_w / 2) as i64
}

/// The state a session starts in, and returns to on restart: round 1,
/// centered player, fresh swarm, no bullet.
pub open spec fn initial_model(cfg: Config) -> GameModel {
    GameModel {
        cfg,
        player_x: player_start_x(cfg),
        player_y: PLAYER_START_Y,
        bullet: Option::None,
        aliens: grid_model(cfg),
        alien_dx: dx_for_round(1),
        step_down: ALIEN_STEP_DOWN,
        round: 1,
        game_over: false,
    }
}

/// Net horizontal displacement of the player for one tick: the held keys
/// map to minus one, zero or plus one times speed and elapsed time; both
/// held cancel to zero.
pub open spec fn player_shift(inp: InputIntent, d: int) -> int {
    if inp.right && !inp.left {
        PLAYER_SPEED * d
    } else if inp.left && !inp.right {
        -(PLAYER_SPEED * d)
    } else {
        0
    }
}

/// Player x clamped into `[0, screen_w - player_w]`.
pub open spec fn clamped_player_x(cfg: Config, v: int) -> i64 {
    if v < 0 {
        0
    } else if v > cfg.screen_w - cfg.player_w {
        (cfg.screen_w - cfg.player_w) as i64
    } else {
        v as i64
    }
}

/// A bullet spawned centered on the player's footprint, just above the
/// ship.
pub open spec fn spawned_bullet(cfg: Config, px: i64, py: i64) -> Bullet {
    Bullet {
        x: (px + cfg.player_w / 2 - cfg.bullet_w / 2) as i64,
        y: (py - cfg.bullet_h) as i64,
        speed: BULLET_SPEED,
    }
}

/// Intent handling: in game-over only a restart intent is observed, and it
/// returns the initial state; otherwise the player moves and is clamped,
/// and a fire request spawns a bullet only if none is live.
pub open spec fn input_model(g: GameModel, inp: InputIntent, dt: u32) -> GameModel {
    if g.game_over {
        if inp.restart {
            initial_model(g.cfg)
        } else {
            g
        }
    } else {
        let d = capped_dt(dt);
        let px = clamped_player_x(g.cfg, g.player_x + player_shift(inp, d));
        let fired = inp.fire && g.bullet is None;
        GameModel {
            player_x: px,
            bullet: if fired {
                Option::Some(spawned_bullet(g.cfg, px, g.player_y))
            } else {
                g.bullet
            },
            ..g
        }
    }
}

/// World update for one tick: bullet motion, swarm motion with
/// any-triggers-all reversal and step-down, bullet-vs-swarm resolution,
/// then player and floor checks, and finally round progression. Game-over
/// freezes everything.
pub open spec fn update_model(g: GameModel, dt: u32) -> GameModel {
    if g.game_over {
        g
    } else {
        let d = capped_dt(dt);
        let b1 = bullet_after_motion(g.bullet, g.cfg, d);
        let s1 = aliens_after_motion(g.aliens, g.alien_dx, d);
        let hit = edge_hit(s1, g.cfg);
        let s2 = if hit {
            aliens_after_step(s1, g.step_down)
        } else {
            s1
        };
        let dx2: i64 = if hit {
            (-(g.alien_dx as int)) as i64
        } else {
            g.alien_dx
        };
        let shot = match b1 {
            Option::Some(b) => first_hit_from(s2, b, g.cfg, 0),
            Option::None => s2.len() as int,
        };
        let s3 = if shot < s2.len() {
            kill_at(s2, shot)
        } else {
            s2
        };
        let b2 = if shot < s2.len() {
            Option::None
        } else {
            b1
        };
        let over = swarm_touches_player(s3, g.cfg, g.player_x, g.player_y) || swarm_on_floor(
            s3,
            g.cfg,
        );
        if !over && all_dead(s3) {
            let r2: u32 = if g.round < 0xffff_ffff_u32 {
                (g.round + 1) as u32
            } else {
                g.round
            };
            started_round_model(
                GameModel { round: r2, aliens: s3, bullet: b2, alien_dx: dx2, ..g },
                r2,
            )
        } else {
            GameModel { bullet: b2, aliens: s3, alien_dx: dx2, game_over: over, ..g }
        }
    }
}

/// Whether this tick ends with play continuing and no alien left alive, so
/// that the next round starts within the same tick.
pub open spec fn completes_round(g: GameModel, dt: u32) -> bool {
    let d = capped_dt(dt);
    let b1 = bullet_after_motion(g.bullet, g.cfg, d);
    let s1 = aliens_after_motion(g.aliens, g.alien_dx, d);
    let s2 = if edge_hit(s1, g.cfg) {
        aliens_after_step(s1, g.step_down)
    } else {
        s1
    };
    let shot = match b1 {
        Option::Some(b) => first_hit_from(s2, b, g.cfg, 0),
        Option::None => s2.len() as int,
    };
    let s3 = if shot < s2.len() {
        kill_at(s2, shot)
    } else {
        s2
    };
    &&& !g.game_over
    &&& !swarm_touches_player(s3, g.cfg, g.player_x, g.player_y)
    &&& !swarm_on_floor(s3, g.cfg)
    &&& all_dead(s3)
}

/// For a row-major index, division and remainder by the column count
/// recover the row and column.
pub proof fn lemma_grid_index(r: int, c: int)
    requires
        0 <= r,
        0 <= c < 11,
    ensures
        (r * 11 + c) / 11 == r,
        (r * 11 + c) % 11 == c,
{
    vstd::arithmetic::div_mod::lemma_fundamental_div_mod_converse(r * 11 + c, 11, r, c);
}

/// Well-formed session state: every constructor establishes it and every
/// step preserves it. Besides bounds that keep all arithmetic exact, it
/// carries the player clamp and, while play continues, that no living
/// alien has reached the floor.
/// Position bounds that keep every motion computation inside `i64`.
pub open spec fn alien_in_bounds(a: Alien, cfg: Config) -> bool {
    -POS_LIMIT <= a.x <= POS_LIMIT && 0 <= a.y <= cfg.screen_h + ALIEN_STEP_DOWN
}

/// A living alien strictly above the floor.
pub open spec fn alien_above_floor(a: Alien, cfg: Config) -> bool {
    a.alive ==> a.y + cfg.alien_h < cfg.screen_h - FLOOR_MARGIN
}

pub open spec fn wf_bullet(b: Bullet, cfg: Config) -> bool {
    &&& b.speed == BULLET_SPEED
    &&& -cfg.bullet_h <= b.y <= PLAYER_START_Y
    &&& -cfg.bullet_w <= b.x <= cfg.screen_w
}

pub open spec fn wf(g: GameModel) -> bool {
    &&& wf_config(g.cfg)
    &&& g.player_y == PLAYER_START_Y
    &&& 0 <= g.player_x <= g.cfg.screen_w - g.cfg.player_w
    &&& g.aliens.len() == NUM_ALIENS
    &&& forall|i: int| 0 <= i < g.aliens.len() ==> alien_in_bounds(#[trigger] g.aliens[i], g.cfg)
    &&& !g.game_over ==> forall|i: int|
        0 <= i < g.aliens.len() ==> alien_above_floor(#[trigger] g.aliens[i], g.cfg)
    &&& -DX_LIMIT <= g.alien_dx <= DX_LIMIT
    &&& g.step_down == ALIEN_STEP_DOWN
    &&& g.round >= 1
    &&& match g.bullet {
        Option::None => true,
        Option::Some(b) => wf_bullet(b, g.cfg),
    }
}

} // verus!
