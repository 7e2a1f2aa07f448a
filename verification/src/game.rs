//! The game: configuration, per-tick bookkeeping around the world, and
//! the mapping from player controls to world actions.

use crate::bot::BotV;
use crate::camera::CameraV;
use crate::car::CarV;
use crate::world::WorldV;
use vstd::prelude::*;

verus! {

broadcast use vstd::string::to_string_from_display_ensures_for_str;

/// The player's lateral movement command.
#[derive(Clone, Copy, PartialEq, Eq, Structural, Debug)]
pub enum Turn {
    Left,
    Right,
    Straight,
}

/// Configurable constants of the game. Distances are in thousandths of a
/// world unit, times in milliseconds, speeds in thousandths of a unit per
/// second, accelerations per second squared, and `mouse_speed` is in
/// millionths of a radian per pixel of mouse travel.
pub struct GameConfig {
    pub title: String,
    pub screen_size: crate::Pixel,
    /// Updates per second.
    pub ups: u64,
    pub max_fps: u64,
    pub tunel_size: crate::geom::Vec3,
    pub player_size: crate::geom::Vec3,
    /// Smallest and largest player speed.
    pub player_speed: (i64, i64),
    pub player_turn_speed: i64,
    /// Ranges of a spawned bot's extents.
    pub bot_size: [(i64, i64); 3],
    pub bot_speed: (i64, i64),
    pub bot_turn_speed: (i64, i64),
    /// Width and length of a road divider.
    pub divider_size: crate::geom::Point2,
    /// Height of the camera above the player.
    pub camera_height: i64,
    /// Distance from the camera to the player.
    pub camera_distance: i64,
    /// Distance between decorations.
    pub decor_distance: i64,
    pub sprint_factor: i64,
    /// Range of the delay before the next bot spawns.
    pub spawn_time: (i64, i64),
    /// How fast the game speeds up.
    pub game_sprint: i64,
    pub game_max_speed: i64,
    pub player_jump_v: i64,
    pub player_jump_a: i64,
    pub jump_turn_decrease: i64,
    pub jump_timeout: i64,
    pub mouse_speed: i64,
    pub trueshot_distance: i64,
    /// Number of bullets in a full stock.
    pub bullet_stock: i64,
    pub recharge_time: i64,
    pub bullet_len: i64,
    pub bullet_speed: i64,
    /// If true, zoom in while looking around.
    pub zoom_in: bool,
}

/// The bounds under which the simulation's arithmetic is proved exact.
pub open spec fn wf_config(c: &GameConfig) -> bool {
    &&& c.screen_size.w <= 100_000
    &&& c.screen_size.h <= 100_000
    &&& 0 < c.tunel_size@.x <= crate::car::SIZE_LIMIT
    &&& 0 < c.tunel_size@.y <= crate::car::SIZE_LIMIT
    &&& 0 < c.tunel_size@.z <= crate::car::SIZE_LIMIT
    &&& 0 < c.player_size@.x <= crate::car::SIZE_LIMIT
    &&& 0 < c.player_size@.y <= crate::car::SIZE_LIMIT
    &&& 0 < c.player_size@.z <= crate::car::SIZE_LIMIT
    &&& c.player_size@.x <= c.tunel_size@.x
    &&& c.player_size@.y <= c.tunel_size@.y
    &&& 0 <= c.player_speed.0 <= c.player_speed.1 <= crate::car::SPEED_LIMIT
    &&& 0 <= c.player_turn_speed <= crate::car::SPEED_LIMIT
    &&& (forall|i: int|
        0 <= i < 3 ==> {
            &&& 0 < (#[trigger] c.bot_size@[i]).0 <= crate::car::SIZE_LIMIT
            &&& 0 < c.bot_size@[i].1 <= crate::car::SIZE_LIMIT
        })
    &&& c.bot_size@.len() == 3
    &&& c.bot_size@[0].0 <= c.tunel_size@.x && c.bot_size@[0].1 <= c.tunel_size@.x
    &&& c.bot_size@[1].0 <= c.tunel_size@.y && c.bot_size@[1].1 <= c.tunel_size@.y
    &&& 0 <= c.bot_speed.0 <= crate::car::SPEED_LIMIT
    &&& 0 <= c.bot_speed.1 <= crate::car::SPEED_LIMIT
    &&& 0 <= c.bot_turn_speed.0 <= crate::car::SPEED_LIMIT
    &&& 0 <= c.bot_turn_speed.1 <= crate::car::SPEED_LIMIT
    &&& 0 < c.divider_size@.x <= crate::car::SIZE_LIMIT
    &&& 0 < c.divider_size@.y <= crate::car::SIZE_LIMIT
    &&& 0 <= c.camera_height <= crate::car::SIZE_LIMIT
    &&& 0 <= c.camera_distance <= crate::car::SIZE_LIMIT
    &&& 0 < c.decor_distance <= crate::car::SIZE_LIMIT
    &&& 0 <= c.sprint_factor <= c.player_speed.0
    &&& c.player_speed.1 + c.sprint_factor <= crate::car::SPEED_LIMIT
    &&& 0 <= c.spawn_time.0 <= 1_000_000
    &&& 0 <= c.spawn_time.1 <= 1_000_000
    &&& 0 <= c.game_sprint
    &&& c.game_max_speed + c.game_sprint <= crate::car::SPEED_LIMIT
    &&& 0 <= c.game_max_speed <= crate::car::SPEED_LIMIT
    &&& 0 <= c.player_jump_v <= crate::car::SPEED_LIMIT
    &&& crate::car::ACC_MIN <= c.player_jump_a <= crate::car::ACC_LIMIT
    &&& 1 <= c.jump_turn_decrease <= crate::geom::MILLI
    &&& 0 <= c.jump_timeout <= 1_000_000
    &&& 0 < c.trueshot_distance <= crate::car::SIZE_LIMIT
    &&& 0 <= c.bullet_stock <= 1_000_000
    &&& 0 <= c.recharge_time <= 1_000_000
    &&& 0 <= c.bullet_len <= crate::car::SIZE_LIMIT
    &&& 0 <= c.bullet_speed <= crate::car::SPEED_LIMIT
}

impl Default for GameConfig {
    /// The stock configuration: a 15 x 8 x 150 unit tunnel, an 800 x 600
    /// window, and the tuning the game shipped with.
    fn default() -> (c: GameConfig)
        ensures
            c.title@ == "Box Crash"@,
            c.screen_size == (crate::Pixel { w: 800, h: 600 }),
            c.ups == 60u64 && c.max_fps == 60u64,
            c.tunel_size@ == crate::geom::v3(15_000, 8_000, 150_000),
            c.player_size@ == crate::geom::v3(1_500, 800, 3_000),
            c.player_speed == (20_000i64, 120_000i64),
            c.player_turn_speed == 15_000i64,
            c.bot_size@ == seq![(1_000i64, 4_000i64), (500i64, 2_500i64), (2_500i64, 8_000i64)],
            c.bot_speed == (20_000i64, 120_000i64),
            c.bot_turn_speed == (5_000i64, 20_000i64),
            c.divider_size@ == crate::geom::p2(1_000, 7_000),
            c.camera_height == 3_000i64,
            c.camera_distance == 5_500i64,
            c.decor_distance == 8_000i64,
            c.sprint_factor == 15_000i64,
            c.spawn_time == (250i64, 1_000i64),
            c.game_sprint == 1_000i64,
            c.game_max_speed == 80_000i64,
            c.player_jump_v == 7_000i64,
            c.player_jump_a == 5_000i64,
            c.jump_turn_decrease == 3i64,
            c.jump_timeout == 8_000i64,
            c.mouse_speed == 7_480i64,
            c.trueshot_distance == 100_000i64,
            c.bullet_stock == 15i64,
            c.recharge_time == 10_000i64,
            c.bullet_len == 5_000i64,
            c.bullet_speed == 100_000i64,
            !c.zoom_in,
            wf_config(&c),
    {
        let c = GameConfig {
            title: "Box Crash".to_string(),
            screen_size: crate::Pixel::new(800, 600),
            ups: 60,
            max_fps: 60,
            tunel_size: crate::geom::Vec3::new(15_000, 8_000, 150_000),
            player_size: crate::geom::Vec3::new(1_500, 800, 3_000),
            player_speed: (20_000, 120_000),
            player_turn_speed: 15_000,
            bot_size: [(1_000, 4_000), (500, 2_500), (2_500, 8_000)],
            bot_speed: (20_000, 120_000),
            bot_turn_speed: (5_000, 20_000),
            divider_size: crate::geom::Point2 { x: 1_000, y: 7_000 },
            camera_height: 3_000,
            camera_distance: 5_500,
            decor_distance: 8_000,
            sprint_factor: 15_000,
            spawn_time: (250, 1_000),
            game_sprint: 1_000,
            game_max_speed: 80_000,
            player_jump_v: 7_000,
            player_jump_a: 5_000,
            jump_turn_decrease: 3,
            jump_timeout: 8_000,
            mouse_speed: 7_480,
            trueshot_distance: 100_000,
            bullet_stock: 15,
            recharge_time: 10_000,
            bullet_len: 5_000,
            bullet_speed: 100_000,
            zoom_in: false,
        };
        proof {
            assert(c.bot_size@ =~= seq![
                (1_000i64, 4_000i64),
                (500i64, 2_500i64),
                (2_500i64, 8_000i64),
            ]);
        }
        c
    }
}


/// A semantic input: what a raw key or mouse event means to the game.
/// The host maps its input events to these.
#[derive(Clone, Copy, PartialEq, Eq, Structural, Debug)]
pub enum Button {
    Left,
    Right,
    Sprint,
    Jump,
    Look,
    Fire,
    Other,
}

/// Mathematical counterpart of `State`.
pub ghost struct StateV {
    pub turn: Turn,
    pub sprint: bool,
    pub spawn: int,
    pub ended: bool,
    pub game_speed: int,
    pub jump_timeout: int,
    pub rotate_cam: bool,
    pub bullets: int,
    pub recharge: int,
    pub frame_ms: int,
}

/// The running state of a game: count-down clocks, the current movement
/// command, and the bullet stock. Clocks are in milliseconds and
/// saturate well below zero, since only their sign is ever read.
pub struct State {
    pub turn: Turn,
    pub sprint: bool,
    /// Count-down to the next bot spawn.
    pub spawn: i64,
    /// The game is over.
    pub ended: bool,
    /// Game speed on top of the player's, in thousandths of a unit per
    /// second.
    pub game_speed: i64,
    /// Count-down until the next jump is allowed.
    pub jump_timeout: i64,
    /// The camera may be rotated with the mouse.
    pub rotate_cam: bool,
    /// Bullets left in the stock.
    pub bullets: i64,
    /// Count-down until an empty stock recharges.
    pub recharge: i64,
    /// Duration of the last rendered frame, used as the true time step.
    pub frame_ms: i64,
}

impl View for State {
    type V = StateV;

    open spec fn view(&self) -> StateV {
        StateV {
            turn: self.turn,
            sprint: self.sprint,
            spawn: self.spawn as int,
            ended: self.ended,
            game_speed: self.game_speed as int,
            jump_timeout: self.jump_timeout as int,
            rotate_cam: self.rotate_cam,
            bullets: self.bullets as int,
            recharge: self.recharge as int,
            frame_ms: self.frame_ms as int,
        }
    }
}

/// A count-down step: subtract, but never sink far below zero (only the
/// sign of a clock is ever read).
pub open spec fn tick_down(a: int, d: int) -> int {
    if a - d < -1_000_000 {
        -1_000_000
    } else {
        a - d
    }
}

fn tick_down_exec(a: i64, d: i64) -> (r: i64)
    requires
        -1_000_000 <= a <= 2_000_000,
        0 <= d <= crate::car::DT_LIMIT,
    ensures
        r as int == tick_down(a as int, d as int),
{
    if a - d < -1_000_000 {
        -1_000_000
    } else {
        a - d
    }
}

pub open spec fn wf_state(s: StateV, c: &GameConfig) -> bool {
    &&& 0 <= s.game_speed <= c.game_max_speed + c.game_sprint
    &&& -1_000_000 <= s.spawn <= 2_000_000
    &&& -1_000_000 <= s.jump_timeout <= 2_000_000
    &&& -1_000_000 <= s.recharge <= 2_000_000
    &&& 0 <= s.bullets <= c.bullet_stock
    &&& 0 <= s.frame_ms <= crate::car::DT_LIMIT
}

/// The whole game: configuration, world, spawn rules, camera, and state.
pub struct Game {
    pub config: GameConfig,
    pub world: crate::world::World,
    /// Rules a new bot is drawn from.
    pub bot_rules: crate::bot::BoxRules,
    pub camera: crate::camera::Camera,
    pub state: State,
}

pub open spec fn wf_game(g: Game) -> bool {
    &&& wf_config(&g.config)
    &&& crate::world::wf_world(g.world@)
    &&& crate::camera::wf_camera(g.camera@)
    &&& crate::bot::wf_rules(&g.bot_rules)
    &&& wf_state(g.state@, &g.config)
    &&& g.bot_rules.size@[0].0 <= g.world@.tunel.size.x
    &&& g.bot_rules.size@[0].1 <= g.world@.tunel.size.x
    &&& g.bot_rules.size@[1].0 <= g.world@.tunel.size.y
    &&& g.bot_rules.size@[1].1 <= g.world@.tunel.size.y
}



/// The world just before the tick's motion step: the player's sprint
/// speed applied and the spawned bot, if any, appended.
pub open spec fn stepped_w2(g: Game, d: int, sp: Option<BotV>) -> WorldV {
    let s0 = g.state@;
    let w0 = g.world@;
    let w1 = WorldV {
        player: CarV { speed: sprint_speed(w0.player.speed, s0.sprint, &g.config, d), ..w0.player },
        ..w0
    };
    match sp {
        Some(b) => WorldV { bots: w1.bots.push(b), ..w1 },
        None => w1,
    }
}


/// The clock-and-stock part of a tick: recharge an empty stock, run the
/// jump clock, and ramp the game speed.
pub open spec fn ticked_state(s: StateV, c: &GameConfig, d: int) -> StateV {
    let (bullets1, recharge1) = if s.bullets <= 0 {
        let r = tick_down(s.recharge, d);
        if r < 0 {
            (c.bullet_stock as int, r)
        } else {
            (s.bullets, r)
        }
    } else {
        (s.bullets, s.recharge)
    };
    StateV {
        bullets: bullets1,
        recharge: recharge1,
        jump_timeout: tick_down(s.jump_timeout, d),
        game_speed: if s.game_speed < c.game_max_speed {
            s.game_speed + (d * c.game_sprint) / 1000
        } else {
            s.game_speed
        },
        ..s
    }
}

/// The sprint part of a tick: the player's speed ramps toward the
/// bounds of its configured range.
pub open spec fn sprint_speed(speed: int, sprint: bool, c: &GameConfig, d: int) -> int {
    if sprint {
        if speed < c.player_speed.1 {
            speed + (d * c.sprint_factor) / 1000
        } else {
            speed
        }
    } else if speed > c.player_speed.0 {
        speed - (d * c.sprint_factor) / 1000
    } else {
        speed
    }
}

/// One bookkeeping tick around the world, given the random draws the
/// tick made: `sp` is the spawned bot (when the spawn clock ran out) and
/// `delay` the next spawn delay. The effective time step is the last
/// frame's duration when one is known.
pub open spec fn game_step(g: Game, dt0: int, sp: Option<BotV>, delay: int) -> (
    WorldV,
    StateV,
    CameraV,
) {
    let s0 = g.state@;
    let w0 = g.world@;
    let d = if s0.frame_ms != 0 {
        s0.frame_ms
    } else {
        dt0
    };
    let st1 = ticked_state(s0, &g.config, d);
    let gs1 = st1.game_speed;
    let spawn1 = tick_down(s0.spawn, d);
    let w2 = stepped_w2(g, d, sp);
    let spawn2 = match sp {
        Some(b) => spawn1 + delay,
        None => spawn1,
    };
    let w3 = WorldV {
        player: (match s0.turn {
            Turn::Left => crate::car::car_turn_left_spec(w2.player, d),
            Turn::Right => crate::car::car_turn_right_spec(w2.player, d),
            Turn::Straight => w2.player,
        }),
        ..w2
    };
    let w5 = crate::world::world_validate(crate::world::world_update(w3, d, gs1));
    let eye2 = crate::geom::add3(
        g.camera@.eye,
        crate::geom::sub3(w5.player.position, w0.player.position),
    );
    let cam2 = if crate::geom::in_range(eye2, crate::camera::CAM_POS_LIMIT as int) {
        CameraV { eye: eye2, ..g.camera@ }
    } else {
        g.camera@
    };
    let any = any_crashed_spec(w5);
    let s1 = StateV { spawn: spawn2, ended: s0.ended || any, ..st1 };
    (w5, s1, cam2)
}

/// The witnesses an update tick may draw: a bot within the rules when
/// the spawn clock ran out, and a delay within the configured range.
pub open spec fn spawn_witness_ok(g: Game, dt0: int, sp: Option<BotV>, delay: int) -> bool {
    let d = if g.state@.frame_ms != 0 {
        g.state@.frame_ms
    } else {
        dt0
    };
    let spawn1 = tick_down(g.state@.spawn, d);
    match sp {
        Some(b) => spawn1 < 0 && crate::bot::bot_in_rules(b, &g.bot_rules) && crate::rng::sampled_in(
            delay,
            g.config.spawn_time,
        ),
        None => spawn1 >= 0 && delay == 0,
    }
}


/// Where the camera may aim from, in thousandths of a unit.
pub const AIM_LIMIT: i64 = 10_000_000;

/// The aim of a trueshot: the point at distance `t` ahead of the eye is
/// pulled onto the camera's axis, taken relative to the muzzle, and
/// scaled to `speed`. `None` when the camera points away or the aim
/// leaves the working range.
pub open spec fn aim_spec(cam: CameraV, pos: crate::geom::Vec3i, t: int, speed: int) -> Option<
    crate::geom::Vec3i,
> {
    let den = t * cam.c.z;
    if den <= 0 {
        None
    } else {
        let m0 = t * t;
        let d1 = crate::geom::v3(
            (cam.c.x * m0) / den,
            (cam.c.y * m0) / den,
            (cam.c.z * m0) / den,
        );
        if !crate::geom::in_range(d1, AIM_LIMIT as int) {
            None
        } else {
            let d2 = crate::geom::sub3(crate::geom::add3(cam.eye, d1), pos);
            if d2 == crate::geom::v3(0, 0, 0) {
                None
            } else {
                let sq = crate::geom::sqrt_floor(crate::geom::mag2(d2) as nat) as int;
                Some(
                    crate::geom::v3(
                        (d2.x * speed) / sq,
                        (d2.y * speed) / sq,
                        (d2.z * speed) / sq,
                    ),
                )
            }
        }
    }
}

/// Compute the trueshot direction; `None` rejects the shot.
fn aim(camera: &crate::camera::Camera, pos: crate::geom::Vec3, t: i64, speed: i64) -> (r: Option<
    crate::geom::Vec3,
>)
    requires
        crate::camera::wf_camera(camera@),
        crate::geom::in_range(pos@, crate::camera::CAM_POS_LIMIT as int),
        0 < t <= 2 * crate::car::SIZE_LIMIT,
        0 <= speed <= crate::car::SPEED_LIMIT,
    ensures
        r is Some <==> aim_spec(camera@, pos@, t as int, speed as int) is Some,
        r matches Some(v) ==> aim_spec(camera@, pos@, t as int, speed as int) == Some(v@)
            && crate::geom::in_range(v@, crate::car::SPEED_LIMIT as int),
{
    proof {
        crate::geom::lemma_mul_bound(t as int, camera@.c.z, 2_000_000, 100_000);
    }
    let den = t * camera.c.z;
    if den <= 0 {
        return None;
    }
    proof {
        crate::geom::lemma_mul_bound(t as int, t as int, 2_000_000, 2_000_000);
        crate::geom::lemma_mul_bound(camera@.c.x, t as int * t as int, 100_000, 4_000_000_000_000);
        crate::geom::lemma_mul_bound(camera@.c.y, t as int * t as int, 100_000, 4_000_000_000_000);
        crate::geom::lemma_mul_bound(camera@.c.z, t as int * t as int, 100_000, 4_000_000_000_000);
    }
    let m0 = t * t;
    let d1x = crate::geom::div_floor_i64(camera.c.x * m0, den);
    let d1y = crate::geom::div_floor_i64(camera.c.y * m0, den);
    let d1z = crate::geom::div_floor_i64(camera.c.z * m0, den);
    if !(-AIM_LIMIT <= d1x && d1x <= AIM_LIMIT && -AIM_LIMIT <= d1y && d1y <= AIM_LIMIT
        && -AIM_LIMIT <= d1z && d1z <= AIM_LIMIT) {
        return None;
    }
    let d2 = camera.eye.add(crate::geom::Vec3::new(d1x, d1y, d1z)).sub(pos);
    if d2.x == 0 && d2.y == 0 && d2.z == 0 {
        return None;
    }
    proof {
        crate::geom::lemma_mag2_range(d2@, 30_000_000);
    }
    let m2 = d2.mag2();
    proof {
        if m2 as int == 0 {
            crate::world::lemma_zero_mag2(d2@);
        }
    }
    let sq = crate::geom::isqrt(m2 as u64) as i64;
    proof {
        crate::geom::lemma_sqrt_positive(m2 as int, sq as int);
        crate::world::lemma_component_below_sqrt(d2@, sq as int);
        let sp = speed as int;
        crate::geom::lemma_mul_bound(d2@.x, sp, crate::geom::iabs(d2@.x), sp);
        crate::geom::lemma_mul_bound(d2@.y, sp, crate::geom::iabs(d2@.y), sp);
        crate::geom::lemma_mul_bound(d2@.z, sp, crate::geom::iabs(d2@.z), sp);
        crate::geom::lemma_mul_bound(d2@.x, sp, 30_000_000, 1_000_000);
        crate::geom::lemma_mul_bound(d2@.y, sp, 30_000_000, 1_000_000);
        crate::geom::lemma_mul_bound(d2@.z, sp, 30_000_000, 1_000_000);
        lemma_aim_scale(d2@.x, sp, sq as int);
        lemma_aim_scale(d2@.y, sp, sq as int);
        lemma_aim_scale(d2@.z, sp, sq as int);
    }
    let vx = crate::geom::div_floor_i64(d2.x * speed, sq);
    let vy = crate::geom::div_floor_i64(d2.y * speed, sq);
    let vz = crate::geom::div_floor_i64(d2.z * speed, sq);
    Some(crate::geom::Vec3::new(vx, vy, vz))
}

/// A component scaled by `speed` and divided by the magnitude stays
/// within `speed`.
proof fn lemma_aim_scale(x: int, speed: int, sq: int)
    requires
        1 <= sq,
        0 <= speed,
        crate::geom::iabs(x) <= sq,
        crate::geom::iabs(x * speed) <= crate::geom::iabs(x) * speed,
    ensures
        crate::geom::iabs((x * speed) / sq) <= speed,
{
    assert(crate::geom::iabs(x) * speed <= speed * sq) by (nonlinear_arith)
        requires
            crate::geom::iabs(x) <= sq,
            0 <= speed,
            0 <= crate::geom::iabs(x),
    ;
    crate::geom::lemma_scaled_div_bound(x * speed, sq, sq, speed);
}


/// Whether the player's car overlaps any bot.
pub open spec fn any_crashed_spec(w: WorldV) -> bool {
    exists|t: int|
        0 <= t < w.bots.len() && crate::car::crashed_spec(w.player, (#[trigger] w.bots[t]).car)
}

/// Whether the player's car overlaps any bot.
fn any_crashed(w: &crate::world::World) -> (r: bool)
    requires
        crate::world::wf_world(w@),
        crate::world::entities_bounded(w@, crate::car::POS_LIMIT as int),
    ensures
        r == any_crashed_spec(w@),
{
    let n = w.bots.len();
    let mut any = false;
    let mut i: usize = 0;
    while i < n
        invariant
            n == w.bots@.len(),
            i <= n,
            crate::world::wf_world(w@),
            crate::world::entities_bounded(w@, crate::car::POS_LIMIT as int),
            any == exists|t: int|
                0 <= t < i && crate::car::crashed_spec(w@.player, (#[trigger] w@.bots[t]).car),
        decreases n - i,
    {
        proof {
            assert(w.bots@[i as int]@ == w@.bots[i as int]);
        }
        if w.player.crashed(&w.bots[i].car) {
            any = true;
            proof {
                assert(crate::car::crashed_spec(w@.player, w@.bots[i as int].car));
            }
        }
        i = i + 1;
    }
    any
}

/// Ties one executed tick, piece by piece, to `game_step`.
proof fn lemma_update_wrapup(
    g0: Game,
    dt: int,
    sp: Option<BotV>,
    delay: int,
    d: int,
    w3: WorldV,
    w_final: WorldV,
    s_mid: StateV,
    cam_final: CameraV,
    any: bool,
    s_final: StateV,
)
    requires
        d == (if g0.state@.frame_ms != 0 {
            g0.state@.frame_ms
        } else {
            dt
        }),
        w3 == (WorldV {
            player: (match g0.state@.turn {
                Turn::Left => crate::car::car_turn_left_spec(stepped_w2(g0, d, sp).player, d),
                Turn::Right => crate::car::car_turn_right_spec(stepped_w2(g0, d, sp).player, d),
                Turn::Straight => stepped_w2(g0, d, sp).player,
            }),
            ..stepped_w2(g0, d, sp)
        }),
        s_mid == (StateV {
            spawn: (match sp {
                Some(b) => tick_down(g0.state@.spawn, d) + delay,
                None => tick_down(g0.state@.spawn, d),
            }),
            ..ticked_state(g0.state@, &g0.config, d)
        }),
        w_final == crate::world::world_validate(
            crate::world::world_update(w3, d, s_mid.game_speed),
        ),
        cam_final == (if crate::geom::in_range(
            crate::geom::add3(
                g0.camera@.eye,
                crate::geom::sub3(w_final.player.position, g0.world@.player.position),
            ),
            crate::camera::CAM_POS_LIMIT as int,
        ) {
            CameraV {
                eye: crate::geom::add3(
                    g0.camera@.eye,
                    crate::geom::sub3(w_final.player.position, g0.world@.player.position),
                ),
                ..g0.camera@
            }
        } else {
            g0.camera@
        }),
        any == any_crashed_spec(w_final),
        s_final == (if any {
            StateV { ended: true, ..s_mid }
        } else {
            s_mid
        }),
    ensures
        (w_final, s_final, cam_final) == game_step(g0, dt, sp, delay),
{
    let stepped = game_step(g0, dt, sp, delay);
    let s0 = g0.state@;
    let st1 = ticked_state(s0, &g0.config, d);
    let gs1 = st1.game_speed;
    let w2 = stepped_w2(g0, d, sp);
    let w3g = WorldV {
        player: (match s0.turn {
            Turn::Left => crate::car::car_turn_left_spec(w2.player, d),
            Turn::Right => crate::car::car_turn_right_spec(w2.player, d),
            Turn::Straight => w2.player,
        }),
        ..w2
    };
    let w5 = crate::world::world_validate(crate::world::world_update(w3g, d, gs1));
    assert(w3g == w3);
    assert(w5 == w_final);
    assert(w_final == stepped.0);
    let anyg = any_crashed_spec(w5);
    assert(anyg == any_crashed_spec(w_final));
    assert(stepped.1 == (StateV { spawn: s_mid.spawn, ended: s0.ended || anyg, ..st1 }));
    assert(s_final.ended == stepped.1.ended);
    assert(s_final == stepped.1);
    assert(cam_final == stepped.2);
}

/// What a press changes: the movement command, a jump, the look mode
/// (possibly zooming), or a shot. A shot in look mode always spends a
/// bullet; the bullet itself exists only when the aim is sound. An aim
/// degenerates when the camera has turned past its own plane or the
/// direction collapses to the zero vector (which `add_bullet` rejects):
/// the shot is then spent with nothing fired, rather than a bullet with
/// undefined data entering the world.
pub open spec fn game_press(g: Game, b: Button) -> (WorldV, StateV, CameraV) {
    let s0 = g.state@;
    let w0 = g.world@;
    let cam = g.camera@;
    match b {
        Button::Left => (w0, StateV { turn: Turn::Left, ..s0 }, cam),
        Button::Right => (w0, StateV { turn: Turn::Right, ..s0 }, cam),
        Button::Sprint => (w0, StateV { sprint: true, ..s0 }, cam),
        Button::Jump => if s0.jump_timeout <= 0 {
            (
                WorldV { player: crate::car::car_jump_spec(w0.player), ..w0 },
                StateV { jump_timeout: g.config.jump_timeout as int, ..s0 },
                cam,
            )
        } else {
            (w0, s0, cam)
        },
        Button::Look => (
            w0,
            StateV { rotate_cam: true, ..s0 },
            if g.config.zoom_in {
                if crate::geom::in_range(
                    crate::geom::v3(2 * cam.c.x, 2 * cam.c.y, 2 * cam.c.z),
                    crate::camera::CAM_VEC_LIMIT as int,
                ) {
                    CameraV { c: crate::geom::v3(2 * cam.c.x, 2 * cam.c.y, 2 * cam.c.z), ..cam }
                } else {
                    cam
                }
            } else {
                cam
            },
        ),
        Button::Fire => if s0.rotate_cam && s0.bullets > 0 {
            let muzzle = crate::geom::v3(
                w0.player.position.x,
                w0.player.position.y + w0.player.size.y,
                w0.player.position.z,
            );
            let t = g.config.trueshot_distance + g.config.camera_distance;
            let w1 = if crate::geom::in_range(muzzle, crate::camera::CAM_POS_LIMIT as int) {
                match aim_spec(cam, muzzle, t as int, g.config.bullet_speed as int) {
                    Some(dir) => if dir == crate::geom::v3(0, 0, 0) {
                        w0
                    } else {
                        WorldV {
                            bullets: w0.bullets.push(
                                crate::world::BulletV {
                                    origin: muzzle,
                                    displacement: crate::world::scaled_displacement(
                                        dir,
                                        g.config.bullet_len as int,
                                    ),
                                    direction: dir,
                                },
                            ),
                            ..w0
                        }
                    },
                    None => w0,
                }
            } else {
                w0
            };
            let b1 = s0.bullets - 1;
            (
                w1,
                StateV {
                    bullets: b1,
                    recharge: if b1 <= 0 {
                        g.config.recharge_time as int
                    } else {
                        s0.recharge
                    },
                    ..s0
                },
                cam,
            )
        } else {
            (w0, s0, cam)
        },
        Button::Other => (w0, s0, cam),
    }
}

/// What a release changes: dropping a movement command, ending a sprint,
/// or leaving the look mode (which also resets the camera behind the
/// player, when the player is within the camera's working range).
pub open spec fn game_release(g: Game, b: Button) -> (StateV, CameraV) {
    let s0 = g.state@;
    let cam = g.camera@;
    match b {
        Button::Left => (
            if s0.turn == Turn::Left {
                StateV { turn: Turn::Straight, ..s0 }
            } else {
                s0
            },
            cam,
        ),
        Button::Right => (
            if s0.turn == Turn::Right {
                StateV { turn: Turn::Straight, ..s0 }
            } else {
                s0
            },
            cam,
        ),
        Button::Sprint => (StateV { sprint: false, ..s0 }, cam),
        Button::Look => {
            let loc = crate::geom::add3(
                crate::geom::v3(
                    0,
                    g.config.camera_height as int,
                    -g.config.camera_distance as int,
                ),
                g.world@.player.position,
            );
            let cam2 = if crate::geom::in_range(loc, crate::camera::CAM_POS_LIMIT as int) {
                CameraV {
                    eye: loc,
                    c: crate::geom::v3(0, 0, 500),
                    axis_x: crate::geom::v3(1000, 0, 0),
                    axis_y: crate::geom::v3(0, 1000, 0),
                    zoom_factor: g.config.screen_size.w as int,
                    screen_w: g.config.screen_size.w as int,
                    screen_h: g.config.screen_size.h as int,
                }
            } else {
                cam
            };
            (StateV { rotate_cam: false, ..s0 }, cam2)
        },
        _ => (s0, cam),
    }
}

impl Game {
    /// A fresh game: a world from the configuration, spawn rules for the
    /// bots, a camera behind the player, and a full bullet stock.
    pub fn new(config: GameConfig) -> (r: Game)
        requires
            wf_config(&config),
        ensures
            r.config == config,
            r.bot_rules.size@ == config.bot_size@,
            r.bot_rules.position@ == seq![
                (0i64, config.tunel_size.x),
                (0i64, 0i64),
                (config.tunel_size.z, config.tunel_size.z),
            ],
            r.bot_rules.speed == config.bot_speed,
            r.bot_rules.turn_speed == config.bot_turn_speed,
            r.bot_rules.jump_turn_decrease == config.jump_turn_decrease,
            r.world@.tunel.size == config.tunel_size@,
            r.world@.player.position == crate::geom::v3(config.tunel_size@.x / 2, 0, 10_000),
            r.world@.player.speed == config.player_speed.0 as int,
            r.world@.bots == Seq::<BotV>::empty(),
            r.world@.bullets == Seq::<crate::world::BulletV>::empty(),
            r.camera@ == (CameraV {
                eye: crate::geom::add3(
                    crate::geom::v3(
                        0,
                        config.camera_height as int,
                        -config.camera_distance as int,
                    ),
                    crate::geom::v3(config.tunel_size@.x / 2, 0, 10_000),
                ),
                c: crate::geom::v3(0, 0, 500),
                axis_x: crate::geom::v3(1000, 0, 0),
                axis_y: crate::geom::v3(0, 1000, 0),
                zoom_factor: config.screen_size.w as int,
                screen_w: config.screen_size.w as int,
                screen_h: config.screen_size.h as int,
            }),
            r.state@ == (StateV {
                turn: Turn::Straight,
                sprint: false,
                spawn: 0,
                ended: false,
                game_speed: 0,
                jump_timeout: 0,
                rotate_cam: false,
                bullets: config.bullet_stock as int,
                recharge: 0,
                frame_ms: 0,
            }),
            wf_game(r),
            crate::world::positions_bounded(r.world@, crate::car::POS_LIMIT as int),
    {
        let bot_rules = crate::bot::BoxRules {
            size: config.bot_size,
            position: [
                (0, config.tunel_size.x),
                (0, 0),
                (config.tunel_size.z, config.tunel_size.z),
            ],
            speed: config.bot_speed,
            turn_speed: config.bot_turn_speed,
            color: vec![
                crate::color::Color::red(),
                crate::color::Color::orange(),
                crate::color::Color::violet(),
                crate::color::Color::green(),
                crate::color::Color::pale(),
            ],
            jump_turn_decrease: config.jump_turn_decrease,
        };
        let world = crate::world::World::new(&config);
        let eye = crate::geom::Vec3::new(0, config.camera_height, -config.camera_distance).add(
            world.player.pos(),
        );
        let camera = crate::camera::Camera::new(config.screen_size, eye);
        let state = State {
            turn: Turn::Straight,
            sprint: false,
            spawn: 0,
            ended: false,
            game_speed: 0,
            jump_timeout: 0,
            rotate_cam: false,
            bullets: config.bullet_stock,
            recharge: 0,
            frame_ms: 0,
        };
        Game { config, world, bot_rules, camera, state }
    }

    /// Record how long the last frame took; a frame longer than the
    /// largest simulation step counts as one full step.
    pub fn update_fps(&mut self, elapsed_ms: u64)
        ensures
            final(self).state@ == (StateV {
                frame_ms: if elapsed_ms >= 1000 {
                    1000int
                } else {
                    elapsed_ms as int
                },
                ..old(self).state@
            }),
            final(self).world == old(self).world,
            final(self).camera == old(self).camera,
            final(self).config == old(self).config,
            final(self).bot_rules == old(self).bot_rules,
            wf_game(*old(self)) ==> wf_game(*final(self)),
    {
        self.state.frame_ms = if elapsed_ms >= 1000 {
            1000
        } else {
            elapsed_ms as i64
        };
    }

    /// The flow the game hands the host loop: the game asks to leave
    /// exactly when it has ended.
    pub fn flow(&self) -> (r: Option<crate::control::Flow>)
        ensures
            r == (if self.state@.ended {
                Some(crate::control::Flow::LoseGame)
            } else {
                None::<crate::control::Flow>
            }),
    {
        if self.state.ended {
            Some(crate::control::Flow::LoseGame)
        } else {
            None
        }
    }

    /// Apply a pressed input. See `game_press` for the one subtlety:
    /// a shot in look mode always spends a bullet, even when its aim
    /// degenerates and nothing is fired.
    pub fn press(&mut self, b: Button)
        requires
            wf_game(*old(self)),
            crate::world::positions_bounded(old(self).world@, crate::car::POS_LIMIT as int),
        ensures
            (final(self).world@, final(self).state@, final(self).camera@) == game_press(
                *old(self),
                b,
            ),
            final(self).config == old(self).config,
            final(self).bot_rules == old(self).bot_rules,
            wf_game(*final(self)),
            crate::world::positions_bounded(final(self).world@, crate::car::POS_LIMIT as int),
    {
        match b {
            Button::Left => {
                self.state.turn = Turn::Left;
            },
            Button::Right => {
                self.state.turn = Turn::Right;
            },
            Button::Sprint => {
                self.state.sprint = true;
            },
            Button::Jump => {
                if self.state.jump_timeout <= 0 {
                    self.state.jump_timeout = self.config.jump_timeout;
                    self.world.player.jump();
                }
            },
            Button::Look => {
                if self.config.zoom_in {
                    self.camera.zoom_in();
                }
                self.state.rotate_cam = true;
            },
            Button::Fire => {
                if self.state.rotate_cam && self.state.bullets > 0 {
                    let muzzle = crate::geom::Vec3::new(
                        self.world.player.position.x,
                        self.world.player.position.y + self.world.player.size.y,
                        self.world.player.position.z,
                    );
                    let t = self.config.trueshot_distance + self.config.camera_distance;
                    if crate::camera::in_vec_range(muzzle, crate::camera::CAM_POS_LIMIT) {
                        match aim(&self.camera, muzzle, t, self.config.bullet_speed) {
                            Some(dir) => {
                                self.world.add_bullet(muzzle, dir, self.config.bullet_len);
                            },
                            None => {},
                        }
                    }
                    self.state.bullets = self.state.bullets - 1;
                    if self.state.bullets <= 0 {
                        self.state.recharge = self.config.recharge_time;
                    }
                }
            },
            Button::Other => {},
        }
    }

    /// Apply a released input.
    pub fn release(&mut self, b: Button)
        requires
            wf_game(*old(self)),
            crate::geom::in_range(old(self).world@.player.position, 4 * crate::car::POS_LIMIT as int),
        ensures
            (final(self).state@, final(self).camera@) == game_release(*old(self), b),
            final(self).world == old(self).world,
            final(self).config == old(self).config,
            final(self).bot_rules == old(self).bot_rules,
            wf_game(*final(self)),
    {
        match b {
            Button::Left => {
                if matches!(self.state.turn, Turn::Left) {
                    self.state.turn = Turn::Straight;
                }
            },
            Button::Right => {
                if matches!(self.state.turn, Turn::Right) {
                    self.state.turn = Turn::Straight;
                }
            },
            Button::Sprint => {
                self.state.sprint = false;
            },
            Button::Look => {
                self.state.rotate_cam = false;
                let loc = crate::geom::Vec3::new(
                    0,
                    self.config.camera_height,
                    -self.config.camera_distance,
                ).add(self.world.player.pos());
                if crate::camera::in_vec_range(loc, crate::camera::CAM_POS_LIMIT) {
                    self.camera = crate::camera::Camera::new(self.config.screen_size, loc);
                }
            },
            _ => {},
        }
    }

    /// Turn the camera by the mouse's travel while the look mode is
    /// held: the host supplies the scaled sines and cosines of the two
    /// angles. A no-op when the player is outside the camera's working
    /// range.
    pub fn mouse_look(&mut self, ys: i64, yc: i64, xs: i64, xc: i64)
        requires
            wf_game(*old(self)),
            crate::geom::iabs(ys as int) <= 1000,
            crate::geom::iabs(yc as int) <= 1000,
            crate::geom::iabs(xs as int) <= 1000,
            crate::geom::iabs(xc as int) <= 1000,
        ensures
            final(self).camera@ == (if old(self).state@.rotate_cam && crate::geom::in_range(
                old(self).world@.player.position,
                crate::camera::CAM_POS_LIMIT as int,
            ) {
                if crate::camera::wf_camera(
                    crate::camera::rotated(
                        old(self).camera@,
                        ys as int,
                        yc as int,
                        xs as int,
                        xc as int,
                        old(self).world@.player.position,
                    ),
                ) {
                    crate::camera::rotated(
                        old(self).camera@,
                        ys as int,
                        yc as int,
                        xs as int,
                        xc as int,
                        old(self).world@.player.position,
                    )
                } else {
                    old(self).camera@
                }
            } else {
                old(self).camera@
            }),
            final(self).world == old(self).world,
            final(self).state == old(self).state,
            final(self).config == old(self).config,
            final(self).bot_rules == old(self).bot_rules,
            wf_game(*final(self)),
    {
        let pivot = self.world.player.pos();
        if self.state.rotate_cam && crate::camera::in_vec_range(
            pivot,
            crate::camera::CAM_POS_LIMIT,
        ) {
            self.camera.rotate(ys, yc, xs, xc, pivot);
        }
    }



    /// The clock-and-stock part of a tick, and the sprint speed ramp.
    fn tick_clocks(&mut self, d: i64)
        requires
            wf_game(*old(self)),
            0 <= d <= crate::car::DT_LIMIT,
        ensures
            final(self).state@ == ticked_state(old(self).state@, &old(self).config, d as int),
            final(self).world@ == (WorldV {
                player: CarV {
                    speed: sprint_speed(
                        old(self).world@.player.speed,
                        old(self).state@.sprint,
                        &old(self).config,
                        d as int,
                    ),
                    ..old(self).world@.player
                },
                ..old(self).world@
            }),
            final(self).camera == old(self).camera,
            final(self).config == old(self).config,
            final(self).bot_rules == old(self).bot_rules,
            wf_game(*final(self)),
    {
        let ghost g0 = *old(self);
        let ghost di = d as int;
        if self.state.bullets <= 0 {
            self.state.recharge = tick_down_exec(self.state.recharge, d);
            if self.state.recharge < 0 {
                self.state.bullets = self.config.bullet_stock;
            }
        }
        self.state.jump_timeout = tick_down_exec(self.state.jump_timeout, d);
        if self.state.game_speed < self.config.game_max_speed {
            proof {
                crate::geom::lemma_mul_bound(
                    di,
                    g0.config.game_sprint as int,
                    1000,
                    g0.config.game_sprint as int,
                );
                vstd::arithmetic::mul::lemma_mul_nonnegative(di, g0.config.game_sprint as int);
                vstd::arithmetic::div_mod::lemma_div_is_ordered(
                    0,
                    di * g0.config.game_sprint as int,
                    1000,
                );
                crate::geom::lemma_scaled_div_bound(
                    di * g0.config.game_sprint as int,
                    1000,
                    1000,
                    g0.config.game_sprint as int,
                );
            }
            self.state.game_speed = self.state.game_speed + crate::geom::div_floor_i64(
                d * self.config.game_sprint,
                1000,
            );
        }
        proof {
            crate::geom::lemma_mul_bound(
                di,
                g0.config.sprint_factor as int,
                1000,
                g0.config.sprint_factor as int,
            );
            vstd::arithmetic::mul::lemma_mul_nonnegative(di, g0.config.sprint_factor as int);
            vstd::arithmetic::div_mod::lemma_div_is_ordered(
                0,
                di * g0.config.sprint_factor as int,
                1000,
            );
            crate::geom::lemma_scaled_div_bound(
                di * g0.config.sprint_factor as int,
                1000,
                1000,
                g0.config.sprint_factor as int,
            );
        }
        if self.state.sprint {
            if self.world.player.speed < self.config.player_speed.1 {
                self.world.player.speed = self.world.player.speed + crate::geom::div_floor_i64(
                    d * self.config.sprint_factor,
                    1000,
                );
            }
        } else if self.world.player.speed > self.config.player_speed.0 {
            self.world.player.speed = self.world.player.speed - crate::geom::div_floor_i64(
                d * self.config.sprint_factor,
                1000,
            );
        }
        proof {
            assert(crate::car::wf_car(self.world@.player));
            assert(self.world@.bots == g0.world@.bots);
            assert(self.world@.bullets == g0.world@.bullets);
            assert(self.world@.tunel == g0.world@.tunel);
            assert(crate::world::wf_world(self.world@));
        }
    }

    /// One tick of the whole game: adjust the clocks and speeds, maybe
    /// spawn a bot, apply the turn command, run the world's update and
    /// validation, follow the player with the camera, and end the game
    /// on a collision.
    #[verifier::rlimit(100)]
    pub fn update(&mut self, dt: i64)
        requires
            wf_game(*old(self)),
            crate::world::positions_bounded(old(self).world@, crate::car::POS_LIMIT as int),
            0 <= dt <= crate::car::DT_LIMIT,
        ensures
            final(self).config == old(self).config,
            final(self).bot_rules == old(self).bot_rules,
            wf_game(*final(self)),
            crate::world::entities_bounded(final(self).world@, crate::car::POS_LIMIT as int),
            crate::geom::iabs(final(self).world@.tunel.divider_state) <= crate::car::POS_LIMIT
                as int + 4_000_000,
            crate::geom::iabs(final(self).world@.tunel.decor_state) <= crate::car::POS_LIMIT
                as int + 4_000_000,
            exists|sp: Option<BotV>, delay: int|
                spawn_witness_ok(*old(self), dt as int, sp, delay) && (
                final(self).world@,
                final(self).state@,
                final(self).camera@,
                ) == game_step(*old(self), dt as int, sp, delay),
    {
        let ghost g0 = *old(self);
        let old_pos = self.world.player.pos();
        let d = if self.state.frame_ms != 0 {
            self.state.frame_ms
        } else {
            dt
        };
        let ghost di = d as int;
        self.tick_clocks(d);
        self.state.spawn = tick_down_exec(self.state.spawn, d);
        let ghost mut sp: Option<BotV> = None;
        let ghost mut delay: int = 0;
        if self.state.spawn < 0 {
            let ghost w_pre = self.world@;
            self.world.add_bot(&self.bot_rules);
            proof {
                let spb = choose|b: BotV|
                    crate::bot::bot_in_rules(b, &g0.bot_rules) && self.world@ == (WorldV {
                        bots: w_pre.bots.push(b),
                        ..w_pre
                    });
                sp = Some(spb);
            }
            let extra = crate::rng::rnd(self.config.spawn_time);
            proof {
                delay = extra as int;
            }
            self.state.spawn = self.state.spawn + extra;
        }
        proof {
            crate::geom::lemma_div_abs_bound(
                self.world@.player.turn_speed,
                self.world@.player.jump_turn_decrease,
            );
            crate::geom::lemma_mul_bound(
                di,
                crate::car::eff_turn_speed(self.world@.player),
                1000,
                1_000_000,
            );
            crate::geom::lemma_scaled_div_bound(
                di * crate::car::eff_turn_speed(self.world@.player),
                1000,
                1000,
                1_000_000,
            );
        }
        self.world.player.turn(&self.state.turn, d);
        let ghost smid = self.state@;
        let gs = self.state.game_speed;
        let ghost w3 = self.world@;
        proof {
            assert(crate::geom::in_range(
                w3.player.position,
                crate::car::POS_LIMIT as int + 1_000_000,
            ));
            assert(crate::geom::iabs(w3.tunel.divider_state) <= crate::car::POS_LIMIT as int);
            assert(crate::geom::iabs(w3.tunel.decor_state) <= crate::car::POS_LIMIT as int);
            assert forall|i: int| 0 <= i < w3.bots.len() implies crate::geom::in_range(
                (#[trigger] w3.bots[i]).car.position,
                crate::car::POS_LIMIT as int + 1_000_000,
            ) && crate::geom::iabs(w3.bots[i].car.position.z) <= crate::car::POS_LIMIT as int by {
                if sp is Some && i == w3.bots.len() - 1 {
                    assert(crate::bot::bot_in_rules(w3.bots[i], &g0.bot_rules));
                } else {
                    assert(w3.bots[i] == g0.world@.bots[i]);
                }
            }
            crate::world::lemma_cycle_bounded(w3, di, gs as int);
        }
        self.world.update(d, gs);
        self.world.validate();
        let newp = self.world.player.pos();
        let eye2 = self.camera.eye.add(newp.sub(old_pos));
        if crate::camera::in_vec_range(eye2, crate::camera::CAM_POS_LIMIT) {
            self.camera.eye = eye2;
        }
        let any = any_crashed(&self.world);
        if any {
            self.state.ended = true;
        }
        proof {
            assert(spawn_witness_ok(g0, dt as int, sp, delay));
            let speed3 = gs as int + w3.player.speed;
            crate::geom::lemma_mul_bound(di, speed3, 1000, 2_000_000);
            vstd::arithmetic::mul::lemma_mul_nonnegative(di, speed3);
            vstd::arithmetic::div_mod::lemma_div_is_ordered(0, di * speed3, 1000);
            crate::geom::lemma_scaled_div_bound(di * speed3, 1000, 1000, 2_000_000);
            assert(w3 == (WorldV {
                player: (match g0.state@.turn {
                    Turn::Left => crate::car::car_turn_left_spec(stepped_w2(g0, di, sp).player, di),
                    Turn::Right => crate::car::car_turn_right_spec(
                        stepped_w2(g0, di, sp).player,
                        di,
                    ),
                    Turn::Straight => stepped_w2(g0, di, sp).player,
                }),
                ..stepped_w2(g0, di, sp)
            }));
            lemma_update_wrapup(
                g0,
                dt as int,
                sp,
                delay,
                di,
                w3,
                self.world@,
                smid,
                self.camera@,
                any,
                self.state@,
            );
        }
    }

}


/// Check at run time that a configuration lies within the bounds the
/// simulation's arithmetic is proved under.
pub fn config_ok(c: &GameConfig) -> (r: bool)
    ensures
        r == wf_config(c),
{
    let sl = crate::car::SIZE_LIMIT;
    let vl = crate::car::SPEED_LIMIT;
    let r = c.screen_size.w <= 100_000 && c.screen_size.h <= 100_000 && 0 < c.tunel_size.x
        && c.tunel_size.x <= sl && 0 < c.tunel_size.y && c.tunel_size.y <= sl && 0 < c.tunel_size.z
        && c.tunel_size.z <= sl && 0 < c.player_size.x && c.player_size.x <= sl && 0
        < c.player_size.y && c.player_size.y <= sl && 0 < c.player_size.z && c.player_size.z <= sl
        && c.player_size.x <= c.tunel_size.x && c.player_size.y <= c.tunel_size.y && 0
        <= c.player_speed.0 && c.player_speed.0 <= c.player_speed.1 && c.player_speed.1 <= vl && 0
        <= c.player_turn_speed && c.player_turn_speed <= vl && 0 < c.bot_size[0].0
        && c.bot_size[0].0 <= sl && 0 < c.bot_size[0].1 && c.bot_size[0].1 <= sl && 0
        < c.bot_size[1].0 && c.bot_size[1].0 <= sl && 0 < c.bot_size[1].1 && c.bot_size[1].1 <= sl
        && 0 < c.bot_size[2].0 && c.bot_size[2].0 <= sl && 0 < c.bot_size[2].1 && c.bot_size[2].1
        <= sl && c.bot_size[0].0 <= c.tunel_size.x && c.bot_size[0].1 <= c.tunel_size.x
        && c.bot_size[1].0 <= c.tunel_size.y && c.bot_size[1].1 <= c.tunel_size.y && 0
        <= c.bot_speed.0 && c.bot_speed.0 <= vl && 0 <= c.bot_speed.1 && c.bot_speed.1 <= vl && 0
        <= c.bot_turn_speed.0 && c.bot_turn_speed.0 <= vl && 0 <= c.bot_turn_speed.1
        && c.bot_turn_speed.1 <= vl && 0 < c.divider_size.x && c.divider_size.x <= sl && 0
        < c.divider_size.y && c.divider_size.y <= sl && 0 <= c.camera_height && c.camera_height
        <= sl && 0 <= c.camera_distance && c.camera_distance <= sl && 0 < c.decor_distance
        && c.decor_distance <= sl && 0 <= c.sprint_factor && c.sprint_factor <= c.player_speed.0
        && c.sprint_factor <= vl - c.player_speed.1 && 0 <= c.spawn_time.0 && c.spawn_time.0
        <= 1_000_000 && 0 <= c.spawn_time.1 && c.spawn_time.1 <= 1_000_000 && 0 <= c.game_max_speed
        && c.game_max_speed <= vl && 0 <= c.game_sprint && c.game_sprint <= vl - c.game_max_speed && 0 <= c.player_jump_v && c.player_jump_v <= vl && crate::car::ACC_MIN
        <= c.player_jump_a && c.player_jump_a <= crate::car::ACC_LIMIT && 1 <= c.jump_turn_decrease
        && c.jump_turn_decrease <= crate::geom::MILLI && 0 <= c.jump_timeout && c.jump_timeout
        <= 1_000_000 && 0 < c.trueshot_distance && c.trueshot_distance <= sl && 0 <= c.bullet_stock
        && c.bullet_stock <= 1_000_000 && 0 <= c.recharge_time && c.recharge_time <= 1_000_000 && 0
        <= c.bullet_len && c.bullet_len <= sl && 0 <= c.bullet_speed && c.bullet_speed <= vl;
    proof {
        assert(c.bot_size@.len() == 3);
        assert(c.bot_size@[0] == c.bot_size[0] && c.bot_size@[1] == c.bot_size[1] && c.bot_size@[2]
            == c.bot_size[2]);
        if r {
            assert forall|i: int| 0 <= i < 3 implies 0 < (#[trigger] c.bot_size@[i]).0
                <= crate::car::SIZE_LIMIT && 0 < c.bot_size@[i].1 <= crate::car::SIZE_LIMIT by {
                if i == 0 {
                } else if i == 1 {
                } else {
                }
            }
        }
    }
    r
}

} // verus!
