//! The executable session state and its tick functions.
//!
//! Each method's contract says that it produces exactly the state that the
//! corresponding model function in `model` describes, and that
//! well-formedness is preserved.

use vstd::prelude::*;

use crate::config::ALIEN_BASE_SPEED;
use crate::config::ALIEN_SPEED_STEP;
use crate::config::ALIEN_STEP_DOWN;
use crate::config::BULLET_SPEED;
use crate::config::Config;
use crate::config::DT_MAX_MS;
use crate::config::DX_LIMIT;
use crate::config::EDGE_MARGIN;
use crate::config::FLOOR_MARGIN;
use crate::config::GRID_H_GAP;
use crate::config::GRID_TOP;
use crate::config::GRID_V_GAP;
use crate::config::NUM_ALIENS;
use crate::config::PLAYER_SPEED;
use crate::config::PLAYER_START_Y;
use crate::config::POS_LIMIT;
use crate::config::wf_config;
use crate::geometry::overlaps;
use crate::geometry::rects_overlap;
use crate::model::Alien;
use crate::model::Bullet;
use crate::model::GameModel;
use crate::model::InputIntent;
use crate::model::alien_above_floor;
use crate::model::alien_in_bounds;
use crate::model::alien_on_edge;
use crate::model::aliens_after_motion;
use crate::model::aliens_after_step;
use crate::model::all_dead;
use crate::model::bullet_after_motion;
use crate::model::capped_dt;
use crate::model::clamped_player_x;
use crate::model::edge_hit;
use crate::model::first_hit_from;
use crate::model::grid_alien;
use crate::model::grid_model;
use crate::model::grid_start_x;
use crate::model::initial_model;
use crate::model::input_model;
use crate::model::kill_at;
use crate::model::lemma_grid_index;
use crate::model::moved_alien;
use crate::model::player_shift;
use crate::model::started_round_model;
use crate::model::swarm_on_floor;
use crate::model::swarm_touches_player;
use crate::model::update_model;
use crate::model::wf;
use crate::laws::lemma_initial_wf;
use crate::laws::lemma_input_preserves_wf;
use crate::laws::lemma_update_preserves_wf;

verus! {

/// Builds the spawn grid for a round: `ALIEN_ROWS` rows of `ALIEN_COLS`
/// aliens, centered horizontally, row-major.
pub fn make_alien_grid(cfg: &Config) -> (r: Vec<Alien>)
    requires
        wf_config(*cfg),
    ensures
        r@ == grid_model(*cfg),
{
    let h_spacing: i64 = cfg.alien_w + GRID_H_GAP;
    let v_spacing: i64 = cfg.alien_h + GRID_V_GAP;
    let grid_width: i64 = 11 * h_spacing;
    let start_x: i64 = (((cfg.screen_w - grid_width) as u64) / 2) as i64;
    proof {
        assert(start_x == grid_start_x(*cfg));
    }
    let mut aliens: Vec<Alien> = Vec::new();
    let mut r: usize = 0;
    while r < 3
        invariant
            r <= 3,
            wf_config(*cfg),
            h_spacing == cfg.alien_w + GRID_H_GAP,
            v_spacing == cfg.alien_h + GRID_V_GAP,
            start_x == grid_start_x(*cfg),
            0 <= start_x <= cfg.screen_w,
            aliens@.len() == r * 11,
            forall|j: int| 0 <= j < aliens@.len() ==> aliens@[j] == grid_model(*cfg)[j],
        decreases 3 - r,
    {
        let mut c: usize = 0;
        while c < 11
            invariant
                r < 3,
                c <= 11,
                wf_config(*cfg),
                h_spacing == cfg.alien_w + GRID_H_GAP,
                v_spacing == cfg.alien_h + GRID_V_GAP,
                start_x == grid_start_x(*cfg),
                0 <= start_x <= cfg.screen_w,
                aliens@.len() == r * 11 + c,
                forall|j: int| 0 <= j < aliens@.len() ==> aliens@[j] == grid_model(*cfg)[j],
            decreases 11 - c,
        {
            proof {
                assert(0 <= (c as int) * h_spacing <= 10 * h_spacing) by (nonlinear_arith)
                    requires
                        0 <= c < 11,
                        0 < h_spacing,
                ;
                assert(0 <= (r as int) * v_spacing <= 2 * v_spacing) by (nonlinear_arith)
                    requires
                        0 <= r < 3,
                        0 < v_spacing,
                ;
            }
            let ax: i64 = start_x + (c as i64) * h_spacing;
            let ay: i64 = GRID_TOP + (r as i64) * v_spacing;
            aliens.push(Alien { x: ax, y: ay, alive: true });
            proof {
                let j: int = r * 11 + c;
                lemma_grid_index(r as int, c as int);
                assert(aliens@[j] == grid_alien(*cfg, r as int, c as int));
                assert(grid_model(*cfg)[j] == grid_alien(*cfg, j / 11, j % 11));
            }
            c = c + 1;
        }
        r = r + 1;
    }
    proof {
        assert(aliens@ =~= grid_model(*cfg));
    }
    aliens
}

/// The session: player, the optional single bullet, the swarm with its
/// shared velocity, and round / game-over state. Fields are public so that
/// collaborators can take a read-only snapshot after each tick.
pub struct Game {
    pub cfg: Config,
    pub player_x: i64,
    pub player_y: i64,
    pub bullet: Option<Bullet>,
    pub aliens: Vec<Alien>,
    pub alien_dx: i64,
    pub step_down: i64,
    pub round: u32,
    pub game_over: bool,
}

impl View for Game {
    type V = GameModel;

    open spec fn view(&self) -> GameModel {
        GameModel {
            cfg: self.cfg,
            player_x: self.player_x,
            player_y: self.player_y,
            bullet: self.bullet,
            aliens: self.aliens@,
            alien_dx: self.alien_dx,
            step_down: self.step_down,
            round: self.round,
            game_over: self.game_over,
        }
    }
}

impl Game {
    /// A fresh session: round 1, centered player, a full swarm, no bullet.
    pub fn new(cfg: Config) -> (g: Game)
        requires
            wf_config(cfg),
        ensures
            g@ == initial_model(cfg),
            wf(g@),
    {
        let half_sw: i64 = ((cfg.screen_w as u64) / 2) as i64;
        let half_pw: i64 = ((cfg.player_w as u64) / 2) as i64;
        let mut g = Game {
            cfg,
            player_x: half_sw - half_pw,
            player_y: PLAYER_START_Y,
            bullet: Option::None,
            aliens: Vec::new(),
            alien_dx: ALIEN_BASE_SPEED,
            step_down: ALIEN_STEP_DOWN,
            round: 1,
            game_over: false,
        };
        g.start_round(1);
        proof {
            assert(g@ =~= initial_model(cfg));
            lemma_initial_wf(cfg);
        }
        g
    }

    /// Replaces the swarm with a fresh grid and applies the difficulty
    /// scaling for `round`; the bullet is cleared and the step-down reset.
    pub fn start_round(&mut self, round: u32)
        requires
            wf_config(old(self)@.cfg),
            round >= 1,
        ensures
            final(self)@ == started_round_model(old(self)@, round),
    {
        let ghost gin: GameModel = self@;
        let grid = make_alien_grid(&self.cfg);
        self.aliens = grid;
        let scale_steps: i64 = (round - 1) as i64;
        self.alien_dx = ALIEN_BASE_SPEED + ALIEN_SPEED_STEP * scale_steps;
        self.step_down = ALIEN_STEP_DOWN;
        self.bullet = Option::None;
        proof {
            assert(self@ =~= started_round_model(gin, round));
        }
    }

    /// Returns to the initial state: round 1, game-over cleared, player
    /// recentered, fresh swarm, no bullet.
    pub fn restart_rounds(&mut self)
        requires
            wf_config(old(self)@.cfg),
        ensures
            final(self)@ == initial_model(old(self)@.cfg),
    {
        let ghost gin: GameModel = self@;
        self.round = 1;
        self.game_over = false;
        let half_sw: i64 = ((self.cfg.screen_w as u64) / 2) as i64;
        let half_pw: i64 = ((self.cfg.player_w as u64) / 2) as i64;
        self.player_x = half_sw - half_pw;
        self.player_y = PLAYER_START_Y;
        self.start_round(1);
        proof {
            assert(self@ =~= initial_model(gin.cfg));
        }
    }

    /// Applies one tick of control intent: in game-over only restart is
    /// observed; otherwise the player moves by the held keys and is clamped
    /// to the screen, and a fire request spawns a bullet only when none is
    /// live.
    pub fn handle_input(&mut self, input: InputIntent, dt: u32)
        requires
            wf(old(self)@),
        ensures
            final(self)@ == input_model(old(self)@, input, dt),
            wf(final(self)@),
    {
        let ghost gin: GameModel = self@;
        proof {
            assert(gin == old(self)@);
            lemma_input_preserves_wf(gin, input, dt);
        }
        if self.game_over {
            if input.restart {
                self.restart_rounds();
            }
            return ;
        }
        let d: i64 = if dt > DT_MAX_MS {
            DT_MAX_MS as i64
        } else {
            dt as i64
        };
        let sd: i64 = PLAYER_SPEED * d;
        let mut px: i64 = self.player_x;
        if input.left {
            px = px - sd;
        }
        if input.right {
            px = px + sd;
        }
        proof {
            assert(d as int == capped_dt(dt));
            assert(px == gin.player_x + player_shift(input, capped_dt(dt)));
        }
        let hi: i64 = self.cfg.screen_w - self.cfg.player_w;
        if px < 0 {
            px = 0;
        } else if px > hi {
            px = hi;
        }
        self.player_x = px;
        proof {
            assert(self@.player_x == clamped_player_x(
                gin.cfg,
                gin.player_x + player_shift(input, capped_dt(dt)),
            ));
        }
        if input.fire && self.bullet.is_none() {
            let half_pw: i64 = ((self.cfg.player_w as u64) / 2) as i64;
            let half_bw: i64 = ((self.cfg.bullet_w as u64) / 2) as i64;
            proof {
                assert(half_pw == self.cfg.player_w as int / 2);
                assert(half_bw == self.cfg.bullet_w as int / 2);
            }
            self.bullet = Option::Some(
                Bullet {
                    x: px + half_pw - half_bw,
                    y: self.player_y - self.cfg.bullet_h,
                    speed: BULLET_SPEED,
                },
            );
        }
        proof {
            assert(self@ =~= input_model(gin, input, dt));
        }
    }

    /// Advances the world by one tick: bullet motion, swarm motion with
    /// any-triggers-all reversal and step-down, collision resolution in the
    /// order bullet-vs-swarm, swarm-vs-player, swarm-vs-floor, then round
    /// progression. A set game-over flag freezes everything.
    pub fn update(&mut self, dt: u32)
        requires
            wf(old(self)@),
        ensures
            final(self)@ == update_model(old(self)@, dt),
            wf(final(self)@),
    {
        let ghost g0: GameModel = self@;
        proof {
            assert(g0 == old(self)@);
            lemma_update_preserves_wf(g0, dt);
        }
        if self.game_over {
            return ;
        }
        let d: i64 = if dt > DT_MAX_MS {
            DT_MAX_MS as i64
        } else {
            dt as i64
        };
        proof {
            assert(d as int == capped_dt(dt));
        }
        // Bullet motion: upward, removed once above the top of the screen.
        if let Option::Some(b) = self.bullet {
            proof {
                assert(b.speed == BULLET_SPEED);
            }
            let ny: i64 = b.y - BULLET_SPEED * d;
            proof {
                assert(ny == b.y - b.speed * d);
            }
            if ny + self.cfg.bullet_h < 0 {
                self.bullet = Option::None;
            } else {
                self.bullet = Option::Some(Bullet { x: b.x, y: ny, speed: b.speed });
            }
        }
        let ghost b1: Option<Bullet> = self@.bullet;
        proof {
            assert(b1 == bullet_after_motion(g0.bullet, g0.cfg, d as int));
        }
        // Swarm motion: every living alien advances by the shared velocity.
        let dx: i64 = self.alien_dx;
        let n: usize = self.aliens.len();
        let mut moved: Vec<Alien> = Vec::new();
        let mut i: usize = 0;
        while i < n
            invariant
                wf(g0),
                !g0.game_over,
                self@.aliens == g0.aliens,
                self@.cfg == g0.cfg,
                dx == g0.alien_dx,
                0 <= d <= DT_MAX_MS,
                n == g0.aliens.len(),
                i <= n,
                moved@.len() == i,
                forall|j: int|
                    0 <= j < i ==> moved@[j] == moved_alien(g0.aliens[j], dx, d as int),
            decreases n - i,
        {
            let a: Alien = self.aliens[i];
            proof {
                assert(alien_in_bounds(g0.aliens[i as int], g0.cfg));
                assert(-(DX_LIMIT as int) * 1000 <= dx * d <= (DX_LIMIT as int) * 1000)
                    by (nonlinear_arith)
                    requires
                        -DX_LIMIT <= dx <= DX_LIMIT,
                        0 <= d <= 1000,
                ;
            }
            if a.alive {
                let delta: i64 = dx * d;
                let nx_raw: i64 = a.x + delta;
                let nx: i64 = if nx_raw < -POS_LIMIT {
                    -POS_LIMIT
                } else if nx_raw > POS_LIMIT {
                    POS_LIMIT
                } else {
                    nx_raw
                };
                moved.push(Alien { x: nx, y: a.y, alive: true });
            } else {
                moved.push(a);
            }
            proof {
                assert(moved@[i as int] == moved_alien(g0.aliens[i as int], dx, d as int));
            }
            i = i + 1;
        }
        self.aliens = moved;
        // Boundary scan: a second, read-only pass over the moved swarm.
        let mut hit_edge: bool = false;
        let mut e: usize = 0;
        while e < n
            invariant
                wf(g0),
                self@.aliens.len() == n,
                n == g0.aliens.len(),
                self@.cfg == g0.cfg,
                forall|j: int|
                    0 <= j < n ==> self@.aliens[j] == moved_alien(
                        g0.aliens[j],
                        g0.alien_dx,
                        capped_dt(dt),
                    ),
                e <= n,
                hit_edge == exists|j: int|
                    0 <= j < e && #[trigger] alien_on_edge(self@.aliens[j], g0.cfg),
            decreases n - e,
        {
            let a: Alien = self.aliens[e];
            proof {
                assert(alien_in_bounds(g0.aliens[e as int], g0.cfg));
            }
            if a.alive {
                if a.x <= EDGE_MARGIN || a.x + self.cfg.alien_w >= self.cfg.screen_w
                    - EDGE_MARGIN {
                    hit_edge = true;
                    proof {
                        assert(alien_on_edge(self@.aliens[e as int], g0.cfg));
                    }
                } else {
                    proof {
                        assert(!alien_on_edge(self@.aliens[e as int], g0.cfg));
                    }
                }
            } else {
                proof {
                    assert(!alien_on_edge(self@.aliens[e as int], g0.cfg));
                }
            }
            e = e + 1;
        }
        let ghost s1: Seq<Alien> = self@.aliens;
        proof {
            assert(s1 =~= aliens_after_motion(g0.aliens, g0.alien_dx, d as int));
            assert(hit_edge == edge_hit(s1, g0.cfg));
        }
        // Any living alien on a margin reverses the whole swarm and lowers
        // every living alien by the step-down, in the same tick.
        if hit_edge {
            self.alien_dx = -dx;
            let step: i64 = self.step_down;
            let mut stepped: Vec<Alien> = Vec::new();
            let mut k: usize = 0;
            while k < n
                invariant
                    wf(g0),
                    self@.aliens == s1,
                    s1 == aliens_after_motion(g0.aliens, g0.alien_dx, capped_dt(dt)),
                    step == g0.step_down,
                    n == s1.len(),
                    k <= n,
                    stepped@.len() == k,
                    forall|j: int|
                        0 <= j < k ==> #[trigger] stepped@[j] == (if s1[j].alive {
                            Alien { x: s1[j].x, y: (s1[j].y + step) as i64, alive: true }
                        } else {
                            s1[j]
                        }),
                decreases n - k,
            {
                let a: Alien = self.aliens[k];
                if a.alive {
                    stepped.push(Alien { x: a.x, y: a.y + step, alive: true });
                } else {
                    stepped.push(a);
                }
                k = k + 1;
            }
            self.aliens = stepped;
            proof {
                assert(self@.aliens =~= aliens_after_step(s1, g0.step_down));
            }
        }
        let ghost s2: Seq<Alien> = self@.aliens;
        let ghost dx2: i64 = self@.alien_dx;
        proof {
            assert(s2 == if edge_hit(s1, g0.cfg) {
                aliens_after_step(s1, g0.step_down)
            } else {
                s1
            });
            assert(dx2 == if edge_hit(s1, g0.cfg) {
                (-(g0.alien_dx as int)) as i64
            } else {
                g0.alien_dx
            });
            assert forall|j: int| 0 <= j < s2.len() implies alien_in_bounds(
                #[trigger] s2[j],
                g0.cfg,
            ) by {
                assert(alien_in_bounds(g0.aliens[j], g0.cfg));
                assert(alien_above_floor(g0.aliens[j], g0.cfg));
            };
        }
        // Bullet vs swarm: the first living alien hit, in iteration order,
        // dies and the bullet is spent.
        if let Option::Some(b) = self.bullet {
            let mut k: usize = 0;
            let mut hit_idx: usize = n;
            while k < n && hit_idx == n
                invariant
                    wf(g0),
                    self@.aliens == s2,
                    self@.bullet == Option::Some(b),
                    b1 == Option::Some(b),
                    wf_config(g0.cfg),
                    self@.cfg == g0.cfg,
                    match b1 {
                        Option::Some(bb) => bb.speed == BULLET_SPEED && -g0.cfg.bullet_h <= bb.y
                            <= PLAYER_START_Y && -g0.cfg.bullet_w <= bb.x <= g0.cfg.screen_w,
                        Option::None => false,
                    },
                    forall|j: int| 0 <= j < s2.len() ==> alien_in_bounds(#[trigger] s2[j], g0.cfg),
                    n == s2.len(),
                    k <= n,
                    hit_idx == n || (hit_idx < n && first_hit_from(s2, b, g0.cfg, 0)
                        == hit_idx as int),
                    hit_idx == n ==> first_hit_from(s2, b, g0.cfg, 0) == first_hit_from(
                        s2,
                        b,
                        g0.cfg,
                        k as int,
                    ),
                decreases n - k,
            {
                let a: Alien = self.aliens[k];
                proof {
                    assert(alien_in_bounds(s2[k as int], g0.cfg));
                }
                if a.alive && rects_overlap(
                    b.x,
                    b.y,
                    self.cfg.bullet_w,
                    self.cfg.bullet_h,
                    a.x,
                    a.y,
                    self.cfg.alien_w,
                    self.cfg.alien_h,
                ) {
                    hit_idx = k;
                } else {
                    proof {
                        assert(first_hit_from(s2, b, g0.cfg, k as int) == first_hit_from(
                            s2,
                            b,
                            g0.cfg,
                            k + 1,
                        ));
                    }
                }
                k = k + 1;
            }
            proof {
                if hit_idx == n {
                    assert(first_hit_from(s2, b, g0.cfg, n as int) == n);
                    assert(first_hit_from(s2, b, g0.cfg, 0) == n);
                }
            }
            if hit_idx < n {
                let mut shot_alien: Alien = self.aliens[hit_idx];
                shot_alien.alive = false;
                self.aliens[hit_idx] = shot_alien;
                self.bullet = Option::None;
                proof {
                    assert(self@.aliens =~= kill_at(s2, hit_idx as int));
                }
            }
        }
        let ghost s3: Seq<Alien> = self@.aliens;
        let ghost b2: Option<Bullet> = self@.bullet;
        proof {
            assert forall|j: int| 0 <= j < s3.len() implies alien_in_bounds(
                #[trigger] s3[j],
                g0.cfg,
            ) by {
                assert(alien_in_bounds(s2[j], g0.cfg));
            };
            let shot = match b1 {
                Option::Some(b) => first_hit_from(s2, b, g0.cfg, 0),
                Option::None => s2.len() as int,
            };
            assert(s3 == if shot < s2.len() {
                kill_at(s2, shot)
            } else {
                s2
            });
            assert(b2 == if shot < s2.len() {
                Option::None
            } else {
                b1
            });
        }
        // Swarm vs player, then swarm vs floor: either sets game-over.
        let px: i64 = self.player_x;
        let py: i64 = self.player_y;
        let mut touching: bool = false;
        let mut k: usize = 0;
        while k < n
            invariant
                wf(g0),
                self@.aliens == s3,
                self@.cfg == g0.cfg,
                px == g0.player_x,
                py == g0.player_y,
                0 <= px <= g0.cfg.screen_w,
                py == PLAYER_START_Y,
                wf_config(g0.cfg),
                forall|j: int| 0 <= j < s3.len() ==> alien_in_bounds(#[trigger] s3[j], g0.cfg),
                n == s3.len(),
                k <= n,
                touching == exists|j: int|
                    0 <= j < k && s3[j].alive && overlaps(
                        px as int,
                        py as int,
                        g0.cfg.player_w as int,
                        g0.cfg.player_h as int,
                        s3[j].x as int,
                        s3[j].y as int,
                        g0.cfg.alien_w as int,
                        g0.cfg.alien_h as int,
                    ),
            decreases n - k,
        {
            let a: Alien = self.aliens[k];
            proof {
                assert(alien_in_bounds(s3[k as int], g0.cfg));
            }
            if a.alive && rects_overlap(
                px,
                py,
                self.cfg.player_w,
                self.cfg.player_h,
                a.x,
                a.y,
                self.cfg.alien_w,
                self.cfg.alien_h,
            ) {
                touching = true;
            }
            k = k + 1;
        }
        let mut floored: bool = false;
        let mut k2: usize = 0;
        while k2 < n
            invariant
                wf(g0),
                self@.aliens == s3,
                self@.cfg == g0.cfg,
                wf_config(g0.cfg),
                forall|j: int| 0 <= j < s3.len() ==> alien_in_bounds(#[trigger] s3[j], g0.cfg),
                n == s3.len(),
                k2 <= n,
                floored == exists|j: int|
                    0 <= j < k2 && s3[j].alive && s3[j].y + g0.cfg.alien_h >= g0.cfg.screen_h
                        - FLOOR_MARGIN,
            decreases n - k2,
        {
            let a: Alien = self.aliens[k2];
            proof {
                assert(alien_in_bounds(s3[k2 as int], g0.cfg));
            }
            if a.alive && a.y + self.cfg.alien_h >= self.cfg.screen_h - FLOOR_MARGIN {
                floored = true;
            }
            k2 = k2 + 1;
        }
        if touching || floored {
            self.game_over = true;
        }
        proof {
            assert(touching == swarm_touches_player(s3, g0.cfg, g0.player_x, g0.player_y));
            assert(floored == swarm_on_floor(s3, g0.cfg));
        }
        // Round progression: when play continues and no alien is left
        // alive, the next round starts with a fresh, faster swarm.
        if !self.game_over {
            let mut any_alive: bool = false;
            let mut k3: usize = 0;
            while k3 < n
                invariant
                    self@.aliens == s3,
                    n == s3.len(),
                    k3 <= n,
                    any_alive == exists|j: int| 0 <= j < k3 && s3[j].alive,
                decreases n - k3,
            {
                if self.aliens[k3].alive {
                    any_alive = true;
                }
                k3 = k3 + 1;
            }
            proof {
                assert(any_alive == !all_dead(s3));
            }
            if !any_alive {
                let next_round: u32 = if self.round < 0xffff_ffff_u32 {
                    self.round + 1
                } else {
                    self.round
                };
                self.round = next_round;
                self.start_round(next_round);
            }
        }
        proof {
            assert(self@ =~= update_model(g0, dt));
        }
    }
}

} // verus!
