//! The world: the player's car, the bot cars, the bullets in flight, and
//! the per-tick update and validation pipeline.

use crate::bot::{bot_drive, wf_bot, wf_rules, Bot, BotV, BoxRules};
use crate::camera::{
    line_opt, lines_view, push_line, wf_camera, Camera, CameraV, RenderedLine, RenderedLineV,
};
use crate::car::{
    car_forward, car_render_spec, car_update_jump, crashed_spec, hit_spec, wf_car, Car, CarV,
    DT_LIMIT, POS_LIMIT, RENDER_LIMIT, SIZE_LIMIT, SPEED_LIMIT, T_LIMIT,
};
use crate::color::Color;
use crate::game::GameConfig;
use crate::geom::{
    add3, div_floor_i64, iabs, in_range, isqrt, lemma_mul_bound, lemma_scaled_div_bound,
    lemma_sqrt_positive, mag2, sqrt_floor, v3, Vec3, Vec3i,
};
use crate::tunel::{tunel_render_spec, tunel_update, wf_tunel, Tunel, TunelV, STATE_RENDER_MIN};
use vstd::prelude::*;

verus! {

/// How far outside the standing working range one update step can move a
/// position.
pub const VAL_LIMIT: i64 = 1_000_005_000_000;

/// Mathematical counterpart of `Bullet`.
pub ghost struct BulletV {
    pub origin: Vec3i,
    pub displacement: Vec3i,
    pub direction: Vec3i,
}

/// A bullet: where it is, the fixed-length segment it occupies, and the
/// velocity it flies with (thousandths of a unit per second).
#[derive(Clone, Copy, PartialEq, Eq, Structural, Debug)]
pub struct Bullet {
    pub origin: Vec3,
    pub displacement: Vec3,
    pub direction: Vec3,
}

impl View for Bullet {
    type V = BulletV;

    open spec fn view(&self) -> BulletV {
        BulletV { origin: self.origin@, displacement: self.displacement@, direction: self.direction@ }
    }
}

/// Mathematical counterpart of `World`.
pub ghost struct WorldV {
    pub tunel: TunelV,
    pub player: CarV,
    pub bots: Seq<BotV>,
    pub bullets: Seq<BulletV>,
}

/// The world: the tunnel, the player's car, the bot cars (kept sorted by
/// depth by `validate`), and the bullets in flight.
pub struct World {
    pub tunel: Tunel,
    pub player: Car,
    pub bots: Vec<Bot>,
    pub bullets: Vec<Bullet>,
}

pub open spec fn bots_view(s: Seq<Bot>) -> Seq<BotV> {
    s.map_values(|b: Bot| b@)
}

pub open spec fn bullets_view(s: Seq<Bullet>) -> Seq<BulletV> {
    s.map_values(|b: Bullet| b@)
}

impl View for World {
    type V = WorldV;

    open spec fn view(&self) -> WorldV {
        WorldV {
            tunel: self.tunel@,
            player: self.player@,
            bots: bots_view(self.bots@),
            bullets: bullets_view(self.bullets@),
        }
    }
}

/// Validity of a bullet: its velocity and its segment are bounded.
pub open spec fn wf_bullet(b: BulletV) -> bool {
    &&& in_range(b.direction, 2 * SPEED_LIMIT as int)
    &&& in_range(b.displacement, SIZE_LIMIT as int)
}

/// Validity of the world: every part is well-formed, and every car fits
/// the tunnel's width and height.
pub open spec fn wf_world(w: WorldV) -> bool {
    &&& wf_tunel(w.tunel)
    &&& wf_car(w.player)
    &&& w.player.size.x <= w.tunel.size.x
    &&& w.player.size.y <= w.tunel.size.y
    &&& (forall|i: int|
        0 <= i < w.bots.len() ==> {
            &&& wf_bot(#[trigger] w.bots[i])
            &&& w.bots[i].car.size.x <= w.tunel.size.x
            &&& w.bots[i].car.size.y <= w.tunel.size.y
        })
    &&& forall|i: int| 0 <= i < w.bullets.len() ==> wf_bullet(#[trigger] w.bullets[i])
}

/// All positions (and the tunnel's animation states) are within `lim`.
pub open spec fn positions_bounded(w: WorldV, lim: int) -> bool {
    &&& in_range(w.player.position, lim)
    &&& (forall|i: int| 0 <= i < w.bots.len() ==> in_range((#[trigger] w.bots[i]).car.position, lim))
    &&& (forall|i: int| 0 <= i < w.bullets.len() ==> in_range((#[trigger] w.bullets[i]).origin, lim))
    &&& iabs(w.tunel.divider_state) <= lim
    &&& iabs(w.tunel.decor_state) <= lim
}

/// One flight step of a bullet.
pub open spec fn bullet_step(b: BulletV, dt: int) -> BulletV {
    BulletV {
        origin: v3(
            b.origin.x + (dt * b.direction.x) / 1000,
            b.origin.y + (dt * b.direction.y) / 1000,
            b.origin.z + (dt * b.direction.z) / 1000,
        ),
        ..b
    }
}

/// One step of a bot: run its script, then drive it forward.
pub open spec fn bot_step(b: BotV, dt: int, speed: int) -> BotV {
    let d = bot_drive(b, dt);
    BotV { car: car_forward(d.car, dt, speed), actions: d.actions }
}

/// One tick of the world: the player's jump, the tunnel's animation,
/// every bot's script and motion, every bullet's flight.
pub open spec fn world_update(w: WorldV, dt: int, game_speed: int) -> WorldV {
    let speed = game_speed + w.player.speed;
    WorldV {
        tunel: tunel_update(w.tunel, dt, speed),
        player: car_update_jump(w.player, dt),
        bots: w.bots.map_values(|b: BotV| bot_step(b, dt, speed)),
        bullets: w.bullets.map_values(|b: BulletV| bullet_step(b, dt)),
    }
}

/// Whether a bullet is still inside the tunnel: each origin component
/// lies in the half-open interval from zero to the tunnel's extent.
pub open spec fn bullet_in_bounds(b: BulletV, size: Vec3i) -> bool {
    &&& 0 <= b.origin.x < size.x
    &&& 0 <= b.origin.y < size.y
    &&& 0 <= b.origin.z < size.z
}

/// The bullets still inside the tunnel, in order.
pub open spec fn bullets_kept(s: Seq<BulletV>, size: Vec3i) -> Seq<BulletV>
    decreases s.len(),
{
    if s.len() == 0 {
        seq![]
    } else {
        (if bullet_in_bounds(s[0], size) {
            seq![s[0]]
        } else {
            seq![]
        }) + bullets_kept(s.drop_first(), size)
    }
}

/// Clamp a car back between the tunnel walls: the x range of its box is
/// pushed inside `[0, size.x]`, and its top below `size.y`.
pub open spec fn clamp_car(c: CarV, size: Vec3i) -> CarV {
    let half = c.size.x / 2;
    let x = if c.position.x + half > size.x {
        size.x - half
    } else if c.position.x - half < 0 {
        half
    } else {
        c.position.x
    };
    let y = if c.position.y + c.size.y > size.y {
        size.y - c.size.y
    } else {
        c.position.y
    };
    CarV { position: v3(x, y, c.position.z), ..c }
}

pub open spec fn clamp_bot(b: BotV, size: Vec3i) -> BotV {
    BotV { car: clamp_car(b.car, size), ..b }
}

pub open spec fn bots_clamped(s: Seq<BotV>, size: Vec3i) -> Seq<BotV> {
    s.map_values(|b: BotV| clamp_bot(b, size))
}

/// A bot leaves the world when it falls behind the player or a surviving
/// bullet has hit it.
pub open spec fn bot_gone(b: BotV, bullets: Seq<BulletV>) -> bool {
    ||| b.car.position.z <= 0
    ||| exists|i: int| 0 <= i < bullets.len() && hit_spec(b.car, #[trigger] bullets[i])
}

/// The bots that stay, in order.
pub open spec fn bots_kept(s: Seq<BotV>, bullets: Seq<BulletV>) -> Seq<BotV>
    decreases s.len(),
{
    if s.len() == 0 {
        seq![]
    } else {
        (if bot_gone(s[0], bullets) {
            seq![]
        } else {
            seq![s[0]]
        }) + bots_kept(s.drop_first(), bullets)
    }
}

/// Stable insertion by depth: the bot goes after every bot that is not
/// strictly deeper.
pub open spec fn insert_bot(s: Seq<BotV>, b: BotV) -> Seq<BotV>
    decreases s.len(),
{
    if s.len() == 0 {
        seq![b]
    } else if s.last().car.position.z > b.car.position.z {
        insert_bot(s.drop_last(), b).push(s.last())
    } else {
        s.push(b)
    }
}

/// Stable insertion sort by ascending depth.
pub open spec fn sort_bots(s: Seq<BotV>) -> Seq<BotV>
    decreases s.len(),
{
    if s.len() == 0 {
        seq![]
    } else {
        insert_bot(sort_bots(s.drop_last()), s.last())
    }
}

/// After sorting, a bot is pruned when it overlaps its predecessor or its
/// successor in depth order.
pub open spec fn crashed_mark(s: Seq<BotV>, i: int) -> bool {
    ||| (i > 0 && crashed_spec(s[i - 1].car, s[i].car))
    ||| (i + 1 < s.len() && crashed_spec(s[i].car, s[i + 1].car))
}

pub open spec fn prune_from(s: Seq<BotV>, i: int) -> Seq<BotV>
    decreases s.len() - i,
{
    if i < 0 || i >= s.len() {
        seq![]
    } else {
        (if crashed_mark(s, i) {
            seq![]
        } else {
            seq![s[i]]
        }) + prune_from(s, i + 1)
    }
}

/// Both members of every depth-adjacent crashed pair are removed.
pub open spec fn prune_crashed(s: Seq<BotV>) -> Seq<BotV> {
    prune_from(s, 0)
}

/// The whole validation pass: drop bullets that left the tunnel, clamp
/// the player and the bots between the walls, drop bots that fell behind
/// or were hit, re-sort the bots by depth, and prune crashed neighbours.
pub open spec fn world_validate(w: WorldV) -> WorldV {
    let size = w.tunel.size;
    let bullets2 = bullets_kept(w.bullets, size);
    WorldV {
        tunel: w.tunel,
        player: clamp_car(w.player, size),
        bots: prune_crashed(sort_bots(bots_kept(bots_clamped(w.bots, size), bullets2))),
        bullets: bullets2,
    }
}


/// The rendered wireframes of a row of bots, in order.
pub open spec fn bots_lines(cam: CameraV, s: Seq<BotV>) -> Seq<RenderedLineV>
    decreases s.len(),
{
    if s.len() == 0 {
        seq![]
    } else {
        car_render_spec(cam, s[0].car) + bots_lines(cam, s.drop_first())
    }
}

/// The rendered segments of the bullets, in the player's color.
pub open spec fn bullets_lines(cam: CameraV, s: Seq<BulletV>, color: Color) -> Seq<RenderedLineV>
    decreases s.len(),
{
    if s.len() == 0 {
        seq![]
    } else {
        line_opt(cam, s[0].origin, add3(s[0].origin, s[0].displacement), color) + bullets_lines(
            cam,
            s.drop_first(),
            color,
        )
    }
}

/// Everything the world draws: the tunnel, the player, the bots, and the
/// bullets, in that order.
pub open spec fn world_render_spec(cam: CameraV, w: WorldV) -> Seq<RenderedLineV> {
    tunel_render_spec(cam, w.tunel) + car_render_spec(cam, w.player) + bots_lines(cam, w.bots)
        + bullets_lines(cam, w.bullets, w.player.color)
}

/// Positions close enough to the origin for the camera's working range.
pub open spec fn render_ready(w: WorldV) -> bool {
    &&& in_range(w.player.position, RENDER_LIMIT as int)
    &&& (forall|i: int|
        0 <= i < w.bots.len() ==> in_range(
            (#[trigger] w.bots[i]).car.position,
            RENDER_LIMIT as int,
        ))
    &&& (forall|i: int|
        0 <= i < w.bullets.len() ==> in_range((#[trigger] w.bullets[i]).origin, RENDER_LIMIT as int))
    &&& STATE_RENDER_MIN <= w.tunel.divider_state
    &&& STATE_RENDER_MIN <= w.tunel.decor_state
}

/// The length-`len` segment along `d`, divided component-wise by `|d|`.
pub open spec fn scaled_displacement(d: Vec3i, len: int) -> Vec3i {
    let s = sqrt_floor(mag2(d) as nat) as int;
    v3((d.x * len) / s, (d.y * len) / s, (d.z * len) / s)
}

impl World {
    /// A fresh world from the configuration: an empty road and a yellow
    /// player car a few units into the tunnel.
    pub fn new(config: &GameConfig) -> (r: World)
        requires
            crate::game::wf_config(config),
        ensures
            r@.tunel == (TunelV {
                size: config.tunel_size@,
                color: Color { r: 0, g: 0, b: 1000, a: 1000 },
                divider: config.divider_size@,
                divider_state: config.divider_size@.y,
                decor_distance: config.decor_distance as int,
                decor_state: config.decor_distance as int,
            }),
            r@.player == (CarV {
                size: config.player_size@,
                position: v3(config.tunel_size@.x / 2, 0, 10_000),
                speed: config.player_speed.0 as int,
                turn_speed: config.player_turn_speed as int,
                color: Color { r: 1000, g: 1000, b: 0, a: 1000 },
                jump_v: config.player_jump_v as int,
                jump_a: config.player_jump_a as int,
                jumping: false,
                current_t: 0,
                jump_turn_decrease: config.jump_turn_decrease as int,
            }),
            r@.bots == Seq::<BotV>::empty(),
            r@.bullets == Seq::<BulletV>::empty(),
            wf_world(r@),
            positions_bounded(r@, POS_LIMIT as int),
    {
        let player = Car {
            size: config.player_size,
            position: Vec3::new(div_floor_i64(config.tunel_size.x, 2), 0, 10_000),
            speed: config.player_speed.0,
            turn_speed: config.player_turn_speed,
            color: Color::yellow(),
            jump_v: config.player_jump_v,
            jump_a: config.player_jump_a,
            jumping: false,
            current_t: 0,
            jump_turn_decrease: config.jump_turn_decrease,
        };
        let r = World {
            tunel: Tunel::new(config),
            player,
            bots: Vec::new(),
            bullets: Vec::new(),
        };
        proof {
            assert(bots_view(r.bots@) =~= Seq::<BotV>::empty());
            assert(bullets_view(r.bullets@) =~= Seq::<BulletV>::empty());
        }
        r
    }

    /// Spawn one bot drawn from the rules.
    pub fn add_bot(&mut self, rules: &BoxRules)
        requires
            wf_world(old(self)@),
            positions_bounded(old(self)@, VAL_LIMIT as int),
            wf_rules(rules),
            rules.size@[0].0 <= old(self)@.tunel.size.x,
            rules.size@[0].1 <= old(self)@.tunel.size.x,
            rules.size@[1].0 <= old(self)@.tunel.size.y,
            rules.size@[1].1 <= old(self)@.tunel.size.y,
        ensures
            exists|b: BotV|
                crate::bot::bot_in_rules(b, rules) && final(self)@ == (WorldV {
                    bots: old(self)@.bots.push(b),
                    ..old(self)@
                }),
            wf_world(final(self)@),
            positions_bounded(final(self)@, VAL_LIMIT as int),
    {
        let b = Bot::new_random(rules);
        let ghost bv = b@;
        self.bots.push(b);
        proof {
            assert(bots_view(self.bots@) =~= bots_view(old(self).bots@).push(bv));
            assert(crate::bot::bot_in_rules(bv, rules) && self@ == (WorldV {
                bots: old(self)@.bots.push(bv),
                ..old(self)@
            }));
        }
    }

    /// Fire a bullet: the stored segment is `direction` normalised to
    /// `len`, the velocity is `direction` itself. A zero direction is
    /// rejected and leaves the world unchanged.
    pub fn add_bullet(&mut self, origin: Vec3, direction: Vec3, len: i64)
        requires
            wf_world(old(self)@),
            positions_bounded(old(self)@, VAL_LIMIT as int),
            in_range(origin@, VAL_LIMIT as int),
            in_range(direction@, 2 * SPEED_LIMIT as int),
            0 <= len <= SIZE_LIMIT,
        ensures
            final(self)@ == (if direction@ == v3(0, 0, 0) {
                old(self)@
            } else {
                WorldV {
                    bullets: old(self)@.bullets.push(
                        BulletV {
                            origin: origin@,
                            displacement: scaled_displacement(direction@, len as int),
                            direction: direction@,
                        },
                    ),
                    ..old(self)@
                }
            }),
            wf_world(final(self)@),
            positions_bounded(final(self)@, VAL_LIMIT as int),
    {
        proof {
            crate::geom::lemma_mag2_range(direction@, 2_000_000);
        }
        let m = direction.mag2();
        if m == 0 {
            proof {
                lemma_zero_mag2(direction@);
            }
            return ;
        }
        let s = isqrt(m as u64) as i64;
        proof {
            lemma_sqrt_positive(m as int, s as int);
            lemma_component_below_sqrt(direction@, s as int);
            let d = direction@;
            let li = len as int;
            lemma_mul_bound(d.x, li, iabs(d.x), li);
            lemma_mul_bound(d.y, li, iabs(d.y), li);
            lemma_mul_bound(d.z, li, iabs(d.z), li);
            lemma_mul_bound(d.x, li, 2 * SPEED_LIMIT as int, SIZE_LIMIT as int);
            lemma_mul_bound(d.y, li, 2 * SPEED_LIMIT as int, SIZE_LIMIT as int);
            lemma_mul_bound(d.z, li, 2 * SPEED_LIMIT as int, SIZE_LIMIT as int);
            lemma_mul_le(iabs(d.x), s as int, li);
            lemma_mul_le(iabs(d.y), s as int, li);
            lemma_mul_le(iabs(d.z), s as int, li);
            lemma_scaled_div_bound(d.x * li, s as int, s as int, li);
            lemma_scaled_div_bound(d.y * li, s as int, s as int, li);
            lemma_scaled_div_bound(d.z * li, s as int, s as int, li);
        }
        let dx = div_floor_i64(direction.x * len, s);
        let dy = div_floor_i64(direction.y * len, s);
        let dz = div_floor_i64(direction.z * len, s);
        let b = Bullet { origin, displacement: Vec3::new(dx, dy, dz), direction };
        let ghost bv = b@;
        self.bullets.push(b);
        proof {
            assert(bullets_view(self.bullets@) =~= bullets_view(old(self).bullets@).push(bv));
            assert(self@ == (WorldV { bullets: old(self)@.bullets.push(bv), ..old(self)@ }));
        }
    }

    /// One tick: advance the player's jump, scroll the tunnel, run every
    /// bot's script and motion, and fly every bullet.
    pub fn update(&mut self, dt: i64, game_speed: i64)
        requires
            wf_world(old(self)@),
            positions_bounded(old(self)@, POS_LIMIT as int + 1_000_000),
            0 <= dt <= DT_LIMIT,
            0 <= game_speed <= SPEED_LIMIT,
        ensures
            final(self)@ == world_update(old(self)@, dt as int, game_speed as int),
            wf_world(final(self)@),
            positions_bounded(final(self)@, VAL_LIMIT as int),
    {
        let ghost w0 = old(self)@;
        let ghost dti = dt as int;
        let ghost speedi = game_speed as int + w0.player.speed;
        let speed = game_speed + self.player.speed;
        self.player.update_jump(dt);
        self.tunel.update(dt, speed);
        let ghost p1 = self.player@;
        let ghost t1 = self.tunel@;
        let mut rest: Vec<Bot> = Vec::new();
        core::mem::swap(&mut rest, &mut self.bots);
        let ghost all_bots = bots_view(rest@);
        proof {
            assert(all_bots =~= w0.bots);
            assert(all_bots.subrange(0, all_bots.len() as int) =~= all_bots);
            assert(bots_view(self.bots@) =~= all_bots.subrange(0, 0).map_values(
                |b: BotV| bot_step(b, dti, speedi),
            ));
        }
        while rest.len() > 0
            invariant
                0 <= dti <= DT_LIMIT,
                0 <= speedi <= 2 * SPEED_LIMIT,
                dti == dt as int,
                speed == speedi,
                all_bots == w0.bots,
                self.player@ == p1,
                self.tunel@ == t1,
                bullets_view(self.bullets@) == w0.bullets,
                forall|i: int|
                    0 <= i < all_bots.len() ==> wf_bot(#[trigger] all_bots[i]) && in_range(
                        all_bots[i].car.position,
                        POS_LIMIT as int + 1_000_000,
                    ),
                rest@.len() <= all_bots.len(),
                bots_view(rest@) == all_bots.subrange(
                    all_bots.len() - rest@.len(),
                    all_bots.len() as int,
                ),
                bots_view(self.bots@) == all_bots.subrange(
                    0,
                    all_bots.len() - rest@.len(),
                ).map_values(|b: BotV| bot_step(b, dti, speedi)),
                forall|i: int|
                    0 <= i < self.bots@.len() ==> wf_bot(#[trigger] bots_view(self.bots@)[i])
                        && in_range(bots_view(self.bots@)[i].car.position, VAL_LIMIT as int),
            decreases rest.len(),
        {
            let ghost k = all_bots.len() - rest@.len();
            let ghost pre = rest@;
            let mut b = rest.remove(0);
            proof {
                pre.remove_ensures(0);
                assert(b@ == bots_view(pre)[0]);
                assert(bots_view(pre) == all_bots.subrange(k, all_bots.len() as int));
                assert(all_bots.subrange(k, all_bots.len() as int)[0] == all_bots[k]);
                assert(b@ == all_bots[k]);
                assert forall|j: int| 0 <= j < rest@.len() implies bots_view(rest@)[j]
                    == all_bots.subrange(k + 1, all_bots.len() as int)[j] by {
                    assert(rest@[j] == pre[j + 1]);
                    assert(bots_view(pre)[j + 1] == all_bots.subrange(
                        k,
                        all_bots.len() as int,
                    )[j + 1]);
                }
                assert(bots_view(rest@) =~= all_bots.subrange(k + 1, all_bots.len() as int));
            }
            proof {
                lemma_step_bounds(b@, dti, speedi);
            }
            b.drive(dt);
            b.forward(dt, speed);
            let ghost prev = bots_view(self.bots@);
            let ghost prev_len = self.bots@.len() as int;
            self.bots.push(b);
            proof {
                assert(b@ == bot_step(all_bots[k], dti, speedi));
                assert(bots_view(self.bots@) =~= prev.push(b@));
                assert forall|i: int| 0 <= i < self.bots@.len() implies wf_bot(
                    #[trigger] bots_view(self.bots@)[i],
                ) && in_range(bots_view(self.bots@)[i].car.position, VAL_LIMIT as int) by {
                    if i < prev_len {
                        assert(bots_view(self.bots@)[i] == prev[i]);
                    } else {
                        assert(bots_view(self.bots@)[i] == b@);
                    }
                }
                assert(bots_view(self.bots@) =~= all_bots.subrange(0, k + 1).map_values(
                    |bb: BotV| bot_step(bb, dti, speedi),
                ));
            }
        }
        let ghost bots1 = bots_view(self.bots@);
        let mut brest: Vec<Bullet> = Vec::new();
        core::mem::swap(&mut brest, &mut self.bullets);
        let ghost all_bullets = bullets_view(brest@);
        proof {
            assert(all_bullets =~= w0.bullets);
            assert(all_bullets.subrange(0, all_bullets.len() as int) =~= all_bullets);
            assert(bullets_view(self.bullets@) =~= all_bullets.subrange(0, 0).map_values(
                |b: BulletV| bullet_step(b, dti),
            ));
        }
        while brest.len() > 0
            invariant
                0 <= dti <= DT_LIMIT,
                dti == dt as int,
                all_bullets == w0.bullets,
                self.player@ == p1,
                self.tunel@ == t1,
                bots_view(self.bots@) == bots1,
                forall|i: int|
                    0 <= i < all_bullets.len() ==> wf_bullet(#[trigger] all_bullets[i]) && in_range(
                        all_bullets[i].origin,
                        POS_LIMIT as int + 1_000_000,
                    ),
                brest@.len() <= all_bullets.len(),
                bullets_view(brest@) == all_bullets.subrange(
                    all_bullets.len() - brest@.len(),
                    all_bullets.len() as int,
                ),
                bullets_view(self.bullets@) == all_bullets.subrange(
                    0,
                    all_bullets.len() - brest@.len(),
                ).map_values(|b: BulletV| bullet_step(b, dti)),
                forall|i: int|
                    0 <= i < self.bullets@.len() ==> wf_bullet(
                        #[trigger] bullets_view(self.bullets@)[i],
                    ) && in_range(bullets_view(self.bullets@)[i].origin, VAL_LIMIT as int),
            decreases brest.len(),
        {
            let ghost k = all_bullets.len() - brest@.len();
            let ghost pre = brest@;
            let b = brest.remove(0);
            proof {
                pre.remove_ensures(0);
                assert(b@ == bullets_view(pre)[0]);
                assert(bullets_view(pre) == all_bullets.subrange(k, all_bullets.len() as int));
                assert(all_bullets.subrange(k, all_bullets.len() as int)[0] == all_bullets[k]);
                assert(b@ == all_bullets[k]);
                assert forall|j: int| 0 <= j < brest@.len() implies bullets_view(brest@)[j]
                    == all_bullets.subrange(k + 1, all_bullets.len() as int)[j] by {
                    assert(brest@[j] == pre[j + 1]);
                    assert(bullets_view(pre)[j + 1] == all_bullets.subrange(
                        k,
                        all_bullets.len() as int,
                    )[j + 1]);
                }
                assert(bullets_view(brest@) =~= all_bullets.subrange(
                    k + 1,
                    all_bullets.len() as int,
                ));
                lemma_mul_bound(dti, b@.direction.x, DT_LIMIT as int, 2 * SPEED_LIMIT as int);
                lemma_mul_bound(dti, b@.direction.y, DT_LIMIT as int, 2 * SPEED_LIMIT as int);
                lemma_mul_bound(dti, b@.direction.z, DT_LIMIT as int, 2 * SPEED_LIMIT as int);
                lemma_scaled_div_bound(dti * b@.direction.x, 1000, 1000, 2_000_000);
                lemma_scaled_div_bound(dti * b@.direction.y, 1000, 1000, 2_000_000);
                lemma_scaled_div_bound(dti * b@.direction.z, 1000, 1000, 2_000_000);
            }
            let nb = Bullet {
                origin: Vec3::new(
                    b.origin.x + div_floor_i64(dt * b.direction.x, 1000),
                    b.origin.y + div_floor_i64(dt * b.direction.y, 1000),
                    b.origin.z + div_floor_i64(dt * b.direction.z, 1000),
                ),
                displacement: b.displacement,
                direction: b.direction,
            };
            let ghost prev = bullets_view(self.bullets@);
            let ghost prev_len = self.bullets@.len() as int;
            self.bullets.push(nb);
            proof {
                assert(nb@ == bullet_step(all_bullets[k], dti));
                assert(bullets_view(self.bullets@) =~= prev.push(nb@));
                assert forall|i: int| 0 <= i < self.bullets@.len() implies wf_bullet(
                    #[trigger] bullets_view(self.bullets@)[i],
                ) && in_range(bullets_view(self.bullets@)[i].origin, VAL_LIMIT as int) by {
                    if i < prev_len {
                        assert(bullets_view(self.bullets@)[i] == prev[i]);
                    } else {
                        assert(bullets_view(self.bullets@)[i] == nb@);
                    }
                }
                assert(bullets_view(self.bullets@) =~= all_bullets.subrange(0, k + 1).map_values(
                    |bb: BulletV| bullet_step(bb, dti),
                ));
            }
        }
        proof {
            lemma_update_jump_pos(w0.player, dti, VAL_LIMIT as int);
            lemma_mul_bound(dti, speedi, DT_LIMIT as int, 2 * SPEED_LIMIT as int);
            lemma_scaled_div_bound(dti * speedi, 1000, 1000, 2_000_000);
            assert(bots_view(self.bots@) =~= all_bots.map_values(
                |b: BotV| bot_step(b, dti, speedi),
            ));
            assert(bullets_view(self.bullets@) =~= all_bullets.map_values(
                |b: BulletV| bullet_step(b, dti),
            ));
        }
    }

    /// Draw the whole world: the tunnel, the player, the bots, and the
    /// bullets.
    #[verifier::rlimit(60)]
    pub fn render(&self, camera: &Camera) -> (r: Vec<RenderedLine>)
        requires
            wf_world(self@),
            wf_camera(camera@),
            render_ready(self@),
        ensures
            lines_view(r@) == world_render_spec(camera@, self@),
    {
        let ghost cam = camera@;
        let ghost w = self@;
        let mut out = self.tunel.render(camera);
        let mut pl = self.player.render(camera);
        out.append(&mut pl);
        let ghost base = lines_view(out@);
        proof {
            assert(base =~= tunel_render_spec(cam, w.tunel) + car_render_spec(cam, w.player));
            assert(bots_view(self.bots@).subrange(0, bots_view(self.bots@).len() as int)
                =~= bots_view(self.bots@));
        }
        let n = self.bots.len();
        let mut i: usize = 0;
        while i < n
            invariant
                wf_world(self@),
                wf_camera(cam),
                render_ready(self@),
                cam == camera@,
                w == self@,
                n == self.bots@.len(),
                i <= n,
                base == tunel_render_spec(cam, w.tunel) + car_render_spec(cam, w.player),
                lines_view(out@) + bots_lines(cam, w.bots.subrange(i as int, n as int)) == base
                    + bots_lines(cam, w.bots),
            decreases n - i,
        {
            let ghost pre = lines_view(out@);
            let mut lines = self.bots[i].render(camera);
            out.append(&mut lines);
            proof {
                let suffix = w.bots.subrange(i as int, n as int);
                assert(suffix[0] == w.bots[i as int]);
                assert(suffix.drop_first() =~= w.bots.subrange(i + 1, n as int));
                assert(bots_lines(cam, suffix) == car_render_spec(cam, suffix[0].car)
                    + bots_lines(cam, suffix.drop_first()));
                assert(lines_view(out@) =~= pre + car_render_spec(cam, w.bots[i as int].car));
                assert(lines_view(out@) + bots_lines(cam, w.bots.subrange(i + 1, n as int))
                    =~= base + bots_lines(cam, w.bots));
            }
            i = i + 1;
        }
        proof {
            assert(bots_lines(cam, w.bots.subrange(n as int, n as int))
                =~= Seq::<RenderedLineV>::empty());
            assert(lines_view(out@) + Seq::<RenderedLineV>::empty() =~= lines_view(out@));
        }
        let mut bl = self.bullets_render(camera);
        out.append(&mut bl);
        proof {
            assert(lines_view(out@) =~= world_render_spec(cam, w));
        }
        out
    }

    /// Draw the bullets as short segments in the player's color.
    fn bullets_render(&self, camera: &Camera) -> (r: Vec<RenderedLine>)
        requires
            wf_world(self@),
            wf_camera(camera@),
            render_ready(self@),
        ensures
            lines_view(r@) == bullets_lines(camera@, self@.bullets, self@.player.color),
    {
        let ghost cam = camera@;
        let ghost w = self@;
        let mut out: Vec<RenderedLine> = Vec::new();
        proof {
            assert(lines_view(out@) =~= Seq::<RenderedLineV>::empty());
            assert(w.bullets.subrange(0, w.bullets.len() as int) =~= w.bullets);
        }
        let n = self.bullets.len();
        let mut i: usize = 0;
        while i < n
            invariant
                wf_world(self@),
                wf_camera(cam),
                render_ready(self@),
                cam == camera@,
                w == self@,
                n == self.bullets@.len(),
                i <= n,
                lines_view(out@) + bullets_lines(
                    cam,
                    w.bullets.subrange(i as int, n as int),
                    w.player.color,
                ) == bullets_lines(cam, w.bullets, w.player.color),
            decreases n - i,
        {
            let ghost pre = lines_view(out@);
            let b = self.bullets[i];
            let tail = b.origin.add(b.displacement);
            push_line(&mut out, camera, b.origin, tail, self.player.color);
            proof {
                let suffix = w.bullets.subrange(i as int, n as int);
                assert(suffix[0] == w.bullets[i as int]);
                assert(suffix.drop_first() =~= w.bullets.subrange(i + 1, n as int));
                assert(b@ == w.bullets[i as int]);
                assert(bullets_lines(cam, suffix, w.player.color) == line_opt(
                    cam,
                    suffix[0].origin,
                    add3(suffix[0].origin, suffix[0].displacement),
                    w.player.color,
                ) + bullets_lines(cam, suffix.drop_first(), w.player.color));
                assert(lines_view(out@) + bullets_lines(
                    cam,
                    w.bullets.subrange(i + 1, n as int),
                    w.player.color,
                ) =~= bullets_lines(cam, w.bullets, w.player.color));
            }
            i = i + 1;
        }
        proof {
            assert(bullets_lines(cam, w.bullets.subrange(n as int, n as int), w.player.color)
                =~= Seq::<RenderedLineV>::empty());
            assert(lines_view(out@) + Seq::<RenderedLineV>::empty() =~= lines_view(out@));
        }
        out
    }

    /// The per-tick validation pass: drop bullets that left the tunnel,
    /// clamp the player and the bots between the walls, drop bots that
    /// fell behind the player or were hit by a surviving bullet, re-sort
    /// the bots by depth, and remove both members of every depth-adjacent
    /// crashed pair.
    pub fn validate(&mut self)
        requires
            wf_world(old(self)@),
            positions_bounded(old(self)@, VAL_LIMIT as int),
        ensures
            final(self)@ == world_validate(old(self)@),
            wf_world(final(self)@),
            positions_bounded(final(self)@, VAL_LIMIT as int),
            forall|i: int|
                0 <= i < final(self)@.bots.len() ==> good_bot(
                    #[trigger] final(self)@.bots[i],
                    old(self)@.tunel,
                ),
    {
        let ghost w0 = old(self)@;
        let size = self.tunel.size;
        let ghost sz = w0.tunel.size;

        // Bullets that left the tunnel are destroyed.
        let mut brest: Vec<Bullet> = Vec::new();
        core::mem::swap(&mut brest, &mut self.bullets);
        let ghost all_bullets = bullets_view(brest@);
        proof {
            assert(all_bullets =~= w0.bullets);
            assert(all_bullets.subrange(0, all_bullets.len() as int) =~= all_bullets);
            assert(bullets_view(self.bullets@) =~= Seq::<BulletV>::empty());
            assert(bullets_view(self.bullets@) + bullets_kept(bullets_view(brest@), sz)
                =~= bullets_kept(all_bullets, sz));
        }
        while brest.len() > 0
            invariant
                size@ == sz,
                self.player@ == w0.player,
                self.tunel@ == w0.tunel,
                bots_view(self.bots@) == w0.bots,
                brest@.len() <= all_bullets.len(),
                forall|i: int|
                    0 <= i < all_bullets.len() ==> wf_bullet(#[trigger] all_bullets[i]) && in_range(
                        all_bullets[i].origin,
                        VAL_LIMIT as int,
                    ),
                bullets_view(brest@) == all_bullets.subrange(
                    all_bullets.len() - brest@.len(),
                    all_bullets.len() as int,
                ),
                bullets_view(self.bullets@) + bullets_kept(bullets_view(brest@), sz)
                    == bullets_kept(all_bullets, sz),
                forall|i: int|
                    0 <= i < self.bullets@.len() ==> wf_bullet(
                        #[trigger] bullets_view(self.bullets@)[i],
                    ) && bullet_in_bounds(bullets_view(self.bullets@)[i], sz) && in_range(
                        bullets_view(self.bullets@)[i].origin,
                        VAL_LIMIT as int,
                    ),
            decreases brest.len(),
        {
            let ghost k = all_bullets.len() - brest@.len();
            let ghost pre = brest@;
            let b = brest.remove(0);
            proof {
                pre.remove_ensures(0);
                assert(b@ == bullets_view(pre)[0]);
                assert(bullets_view(pre) == all_bullets.subrange(k, all_bullets.len() as int));
                assert(all_bullets.subrange(k, all_bullets.len() as int)[0] == all_bullets[k]);
                assert(b@ == all_bullets[k]);
                assert forall|j: int| 0 <= j < brest@.len() implies bullets_view(brest@)[j]
                    == bullets_view(pre).drop_first()[j] by {
                    assert(brest@[j] == pre[j + 1]);
                }
                assert(bullets_view(brest@) =~= bullets_view(pre).drop_first());
            }
            let ghost prev = bullets_view(self.bullets@);
            if b.origin.x >= 0 && b.origin.x < size.x && b.origin.y >= 0 && b.origin.y < size.y
                && b.origin.z >= 0 && b.origin.z < size.z {
                self.bullets.push(b);
                proof {
                    assert(bullet_in_bounds(b@, sz));
                    assert(bullets_view(self.bullets@) =~= prev.push(b@));
                }
            } else {
                proof {
                    assert(!bullet_in_bounds(b@, sz));
                }
            }
            proof {
                assert(bullets_kept(bullets_view(pre), sz) == (if bullet_in_bounds(b@, sz) {
                    seq![b@]
                } else {
                    seq![]
                }) + bullets_kept(bullets_view(brest@), sz));
                assert(bullets_view(self.bullets@) + bullets_kept(bullets_view(brest@), sz)
                    =~= bullets_kept(all_bullets, sz));
            }
        }
        let ghost bullets2 = bullets_view(self.bullets@);
        proof {
            assert(bullets_kept(bullets_view(brest@), sz) =~= Seq::<BulletV>::empty());
            assert(bullets2 + Seq::<BulletV>::empty() =~= bullets2);
            assert(bullets2 == bullets_kept(w0.bullets, sz));
        }

        // The player is clamped between the walls.
        validate_car(&mut self.player, size);

        // Bots are clamped; those behind the player or hit are dropped.
        let mut rest: Vec<Bot> = Vec::new();
        core::mem::swap(&mut rest, &mut self.bots);
        let ghost all_bots = bots_view(rest@);
        proof {
            assert(all_bots =~= w0.bots);
            assert(all_bots.subrange(0, all_bots.len() as int) =~= all_bots);
            assert(bots_view(self.bots@) =~= Seq::<BotV>::empty());
            assert(bots_clamped(bots_view(rest@), sz) =~= bots_clamped(all_bots, sz));
            assert(bots_view(self.bots@) + bots_kept(bots_clamped(bots_view(rest@), sz), bullets2)
                =~= bots_kept(bots_clamped(all_bots, sz), bullets2));
        }
        while rest.len() > 0
            invariant
                size@ == sz,
                sz == w0.tunel.size,
                wf_tunel(w0.tunel),
                self.player@ == clamp_car(w0.player, sz),
                self.tunel@ == w0.tunel,
                bullets_view(self.bullets@) == bullets2,
                forall|i: int|
                    0 <= i < bullets2.len() ==> wf_bullet(#[trigger] bullets2[i]) && in_range(
                        bullets2[i].origin,
                        VAL_LIMIT as int,
                    ),
                rest@.len() <= all_bots.len(),
                forall|i: int|
                    0 <= i < all_bots.len() ==> wf_bot(#[trigger] all_bots[i]) && in_range(
                        all_bots[i].car.position,
                        VAL_LIMIT as int,
                    ) && all_bots[i].car.size.x <= sz.x && all_bots[i].car.size.y <= sz.y,
                bots_view(rest@) == all_bots.subrange(
                    all_bots.len() - rest@.len(),
                    all_bots.len() as int,
                ),
                bots_view(self.bots@) + bots_kept(
                    bots_clamped(bots_view(rest@), sz),
                    bullets2,
                ) == bots_kept(bots_clamped(all_bots, sz), bullets2),
                forall|i: int|
                    0 <= i < self.bots@.len() ==> good_bot(
                        #[trigger] bots_view(self.bots@)[i],
                        w0.tunel,
                    ),
            decreases rest.len(),
        {
            let ghost k = all_bots.len() - rest@.len();
            let ghost pre = rest@;
            let mut b = rest.remove(0);
            proof {
                pre.remove_ensures(0);
                assert(b@ == bots_view(pre)[0]);
                assert(bots_view(pre) == all_bots.subrange(k, all_bots.len() as int));
                assert(all_bots.subrange(k, all_bots.len() as int)[0] == all_bots[k]);
                assert(b@ == all_bots[k]);
                assert forall|j: int| 0 <= j < rest@.len() implies bots_view(rest@)[j]
                    == bots_view(pre).drop_first()[j] by {
                    assert(rest@[j] == pre[j + 1]);
                }
                assert(bots_view(rest@) =~= bots_view(pre).drop_first());
                assert forall|j: int| 0 <= j < bots_clamped(bots_view(rest@), sz).len() implies
                    bots_clamped(bots_view(rest@), sz)[j] == bots_clamped(
                    bots_view(pre),
                    sz,
                ).drop_first()[j] by {}
                assert(bots_clamped(bots_view(rest@), sz) =~= bots_clamped(
                    bots_view(pre),
                    sz,
                ).drop_first());
            }
            validate_car(&mut b.car, size);
            proof {
                assert(b@ == clamp_bot(all_bots[k], sz));
                assert(bots_clamped(bots_view(pre), sz)[0] == clamp_bot(all_bots[k], sz));
            }
            let keep_z = b.car.position.z > 0;
            let n_bul = self.bullets.len();
            let mut any_hit = false;
            let mut j: usize = 0;
            while j < n_bul
                invariant
                    j <= n_bul,
                    n_bul == self.bullets@.len(),
                    bullets_view(self.bullets@) == bullets2,
                    forall|i: int|
                        0 <= i < bullets2.len() ==> wf_bullet(#[trigger] bullets2[i]) && in_range(
                            bullets2[i].origin,
                            VAL_LIMIT as int,
                        ),
                    wf_bot(b@),
                    in_range(b@.car.position, VAL_LIMIT as int),
                    any_hit == exists|t: int|
                        0 <= t < j && hit_spec(b@.car, #[trigger] bullets2[t]),
                decreases n_bul - j,
            {
                let bj = self.bullets[j];
                proof {
                    assert(bj@ == bullets2[j as int]);
                }
                if b.hit(&bj) {
                    any_hit = true;
                    proof {
                        assert(hit_spec(b@.car, bullets2[j as int]));
                    }
                }
                j = j + 1;
            }
            let ghost prev = bots_view(self.bots@);
            if keep_z && !any_hit {
                self.bots.push(b);
                proof {
                    assert(!bot_gone(b@, bullets2));
                    assert(bots_view(self.bots@) =~= prev.push(b@));
                }
            } else {
                proof {
                    assert(bot_gone(b@, bullets2));
                }
            }
            proof {
                assert(bots_kept(bots_clamped(bots_view(pre), sz), bullets2) == (if bot_gone(
                    b@,
                    bullets2,
                ) {
                    seq![]
                } else {
                    seq![b@]
                }) + bots_kept(bots_clamped(bots_view(rest@), sz), bullets2));
                assert(bots_view(self.bots@) + bots_kept(
                    bots_clamped(bots_view(rest@), sz),
                    bullets2,
                ) =~= bots_kept(bots_clamped(all_bots, sz), bullets2));
            }
        }
        let ghost kept_all = bots_view(self.bots@);
        proof {
            assert(bots_kept(bots_clamped(bots_view(rest@), sz), bullets2)
                =~= Seq::<BotV>::empty());
            assert(kept_all + Seq::<BotV>::empty() =~= kept_all);
            assert(kept_all == bots_kept(bots_clamped(w0.bots, sz), bullets2));
        }

        // Re-sort the bots by ascending depth (stable).
        let mut unsorted: Vec<Bot> = Vec::new();
        core::mem::swap(&mut unsorted, &mut self.bots);
        proof {
            assert(bots_view(unsorted@) =~= kept_all);
            assert(kept_all.subrange(0, kept_all.len() as int) =~= kept_all);
            assert(bots_view(self.bots@) =~= Seq::<BotV>::empty());
            assert(kept_all.subrange(0, 0) =~= Seq::<BotV>::empty());
            assert(bots_view(self.bots@) == sort_bots(kept_all.subrange(0, 0)));
        }
        while unsorted.len() > 0
            invariant
                self.player@ == clamp_car(w0.player, sz),
                self.tunel@ == w0.tunel,
                bullets_view(self.bullets@) == bullets2,
                unsorted@.len() <= kept_all.len(),
                forall|i: int|
                    0 <= i < kept_all.len() ==> good_bot(#[trigger] kept_all[i], w0.tunel),
                bots_view(unsorted@) == kept_all.subrange(
                    kept_all.len() - unsorted@.len(),
                    kept_all.len() as int,
                ),
                bots_view(self.bots@) == sort_bots(
                    kept_all.subrange(0, kept_all.len() - unsorted@.len()),
                ),
                self.bots@.len() == kept_all.len() - unsorted@.len(),
                forall|i: int|
                    0 <= i < self.bots@.len() ==> good_bot(
                        #[trigger] bots_view(self.bots@)[i],
                        w0.tunel,
                    ),
            decreases unsorted.len(),
        {
            let ghost k = kept_all.len() - unsorted@.len();
            let ghost pre = unsorted@;
            let b = unsorted.remove(0);
            proof {
                pre.remove_ensures(0);
                assert(b@ == bots_view(pre)[0]);
                assert(bots_view(pre) == kept_all.subrange(k, kept_all.len() as int));
                assert(kept_all.subrange(k, kept_all.len() as int)[0] == kept_all[k]);
                assert(b@ == kept_all[k]);
                assert forall|j: int| 0 <= j < unsorted@.len() implies bots_view(unsorted@)[j]
                    == kept_all.subrange(k + 1, kept_all.len() as int)[j] by {
                    assert(unsorted@[j] == pre[j + 1]);
                    assert(bots_view(pre)[j + 1] == kept_all.subrange(
                        k,
                        kept_all.len() as int,
                    )[j + 1]);
                }
                assert(bots_view(unsorted@) =~= kept_all.subrange(k + 1, kept_all.len() as int));
            }
            let ghost sorted_pre = bots_view(self.bots@);
            let mut idx = self.bots.len();
            while idx > 0 && self.bots[idx - 1].car.position.z > b.car.position.z
                invariant
                    idx <= self.bots@.len(),
                    bots_view(self.bots@) == sorted_pre,
                    forall|j: int|
                        idx <= j < sorted_pre.len() ==> (#[trigger] sorted_pre[j]).car.position.z
                            > b@.car.position.z,
                decreases idx,
            {
                proof {
                    assert(bots_view(self.bots@)[idx - 1] == sorted_pre[idx - 1]);
                }
                idx = idx - 1;
            }
            proof {
                if idx > 0 {
                    assert(bots_view(self.bots@)[idx - 1] == sorted_pre[idx - 1]);
                }
                lemma_insert_bot_at(sorted_pre, b@, idx as int);
            }
            self.bots.insert(idx, b);
            proof {
                assert(bots_view(self.bots@) =~= sorted_pre.insert(idx as int, b@));
                assert(bots_view(self.bots@) == insert_bot(sorted_pre, b@));
                let q = kept_all.subrange(0, k + 1);
                assert(q.drop_last() =~= kept_all.subrange(0, k));
                assert(q.last() == kept_all[k]);
                assert(sort_bots(q) == insert_bot(sort_bots(kept_all.subrange(0, k)), kept_all[k]));
                lemma_insert_bot_all(sorted_pre, b@, |bb: BotV| good_bot(bb, w0.tunel));
            }
        }
        let ghost sorted_all = bots_view(self.bots@);
        proof {
            assert(kept_all.subrange(0, kept_all.len() as int) =~= kept_all);
            assert(sorted_all == sort_bots(kept_all));
        }

        // Remove both members of every depth-adjacent crashed pair.
        let n = self.bots.len();
        let mut marks: Vec<bool> = Vec::new();
        let mut i: usize = 0;
        while i + 1 < n
            invariant
                n == self.bots@.len(),
                bots_view(self.bots@) == sorted_all,
                forall|t: int|
                    0 <= t < sorted_all.len() ==> good_bot(#[trigger] sorted_all[t], w0.tunel),
                marks@.len() == i,
                n == 0 ==> i == 0,
                n > 0 ==> i <= n - 1,
                forall|t: int|
                    0 <= t < i ==> marks@[t] == crashed_spec(
                        (#[trigger] sorted_all[t]).car,
                        sorted_all[t + 1].car,
                    ),
            decreases n - i,
        {
            proof {
                assert(bots_view(self.bots@)[i as int] == sorted_all[i as int]);
                assert(bots_view(self.bots@)[i + 1] == sorted_all[i + 1]);
            }
            let c = self.bots[i].crashed(&self.bots[i + 1]);
            marks.push(c);
            i = i + 1;
        }
        let ghost marks_v = marks@;

        let mut sorted: Vec<Bot> = Vec::new();
        core::mem::swap(&mut sorted, &mut self.bots);
        proof {
            assert(bots_view(sorted@) =~= sorted_all);
            assert(sorted_all.subrange(0, sorted_all.len() as int) =~= sorted_all);
            assert(bots_view(self.bots@) =~= Seq::<BotV>::empty());
            assert(bots_view(self.bots@) + prune_from(sorted_all, 0) =~= prune_from(
                sorted_all,
                0,
            ));
        }
        while sorted.len() > 0
            invariant
                self.player@ == clamp_car(w0.player, sz),
                self.tunel@ == w0.tunel,
                bullets_view(self.bullets@) == bullets2,
                n == sorted_all.len(),
                sorted@.len() <= sorted_all.len(),
                marks_v.len() == (if n == 0 {
                    0int
                } else {
                    n - 1
                }),
                marks@ == marks_v,
                forall|t: int|
                    0 <= t < marks_v.len() ==> marks_v[t] == crashed_spec(
                        (#[trigger] sorted_all[t]).car,
                        sorted_all[t + 1].car,
                    ),
                forall|t: int|
                    0 <= t < sorted_all.len() ==> good_bot(#[trigger] sorted_all[t], w0.tunel),
                bots_view(sorted@) == sorted_all.subrange(
                    sorted_all.len() - sorted@.len(),
                    sorted_all.len() as int,
                ),
                bots_view(self.bots@) + prune_from(
                    sorted_all,
                    sorted_all.len() - sorted@.len(),
                ) == prune_from(sorted_all, 0),
                forall|t: int|
                    0 <= t < self.bots@.len() ==> good_bot(
                        #[trigger] bots_view(self.bots@)[t],
                        w0.tunel,
                    ),
            decreases sorted.len(),
        {
            let ghost k = sorted_all.len() - sorted@.len();
            let ki = n - sorted.len();
            let ghost pre = sorted@;
            let b = sorted.remove(0);
            proof {
                pre.remove_ensures(0);
                assert(b@ == bots_view(pre)[0]);
                assert(bots_view(pre) == sorted_all.subrange(k, sorted_all.len() as int));
                assert(sorted_all.subrange(k, sorted_all.len() as int)[0] == sorted_all[k]);
                assert(b@ == sorted_all[k]);
                assert forall|j: int| 0 <= j < sorted@.len() implies bots_view(sorted@)[j]
                    == sorted_all.subrange(k + 1, sorted_all.len() as int)[j] by {
                    assert(sorted@[j] == pre[j + 1]);
                    assert(bots_view(pre)[j + 1] == sorted_all.subrange(
                        k,
                        sorted_all.len() as int,
                    )[j + 1]);
                }
                assert(bots_view(sorted@) =~= sorted_all.subrange(
                    k + 1,
                    sorted_all.len() as int,
                ));
                assert(ki as int == k);
            }
            let with_prev = ki > 0 && marks[ki - 1];
            let with_next = ki + 1 < n && marks[ki];
            let ghost prev = bots_view(self.bots@);
            if !(with_prev || with_next) {
                self.bots.push(b);
                proof {
                    assert(!crashed_mark(sorted_all, k));
                    assert(bots_view(self.bots@) =~= prev.push(b@));
                }
            } else {
                proof {
                    assert(crashed_mark(sorted_all, k));
                }
            }
            proof {
                assert(prune_from(sorted_all, k) == (if crashed_mark(sorted_all, k) {
                    seq![]
                } else {
                    seq![sorted_all[k]]
                }) + prune_from(sorted_all, k + 1));
                assert(bots_view(self.bots@) + prune_from(sorted_all, k + 1) =~= prune_from(
                    sorted_all,
                    0,
                ));
            }
        }
        proof {
            assert(prune_from(sorted_all, sorted_all.len() as int) =~= Seq::<BotV>::empty());
            assert(bots_view(self.bots@) + Seq::<BotV>::empty() =~= bots_view(self.bots@));
            assert(bots_view(self.bots@) == prune_crashed(sort_bots(bots_kept(
                bots_clamped(w0.bots, sz),
                bullets2,
            ))));
            assert(self@ == world_validate(w0));
        }
    }
}


/// Clamp one car between the tunnel walls: the per-car step of the
/// validation pass.
fn validate_car(car: &mut Car, size: Vec3)
    requires
        wf_car(old(car)@),
        0 < size@.x <= SIZE_LIMIT,
        0 < size@.y <= SIZE_LIMIT,
        old(car)@.size.x <= size@.x,
        old(car)@.size.y <= size@.y,
        in_range(old(car)@.position, VAL_LIMIT as int),
    ensures
        final(car)@ == clamp_car(old(car)@, size@),
        wf_car(final(car)@),
        0 <= final(car)@.position.x <= size@.x,
        0 <= final(car)@.position.y <= size@.y,
        final(car)@.position.z == old(car)@.position.z,
        in_range(final(car)@.position, VAL_LIMIT as int),
{
    proof {
        vstd::arithmetic::div_mod::lemma_div_is_ordered(0, old(car)@.size.x, 2);
        crate::geom::lemma_div_abs_bound(old(car)@.size.x, 2);
    }
    let half = div_floor_i64(car.size.x, 2);
    if car.position.x + half > size.x {
        car.position.x = size.x - half;
    } else if car.position.x - half < 0 {
        car.position.x = half;
    }
    if car.position.y + car.size.y > size.y {
        car.position.y = size.y - car.size.y;
    }
}

/// After validation the x-position of every car lies between half its
/// width and the tunnel's width less half its width.
pub proof fn lemma_validate_clamps_x(c: CarV, size: Vec3i)
    requires
        0 < c.size.x <= size.x,
    ensures
        c.size.x / 2 <= clamp_car(c, size).position.x <= size.x - c.size.x / 2,
{
    vstd::arithmetic::div_mod::lemma_div_is_ordered(0, c.size.x, 2);
    vstd::arithmetic::div_mod::lemma_fundamental_div_mod(c.size.x, 2);
    vstd::arithmetic::div_mod::lemma_mod_bound(c.size.x, 2);
}

/// One update step moves a bot's position at most a few units: the turn
/// by at most one, the forward motion by at most three, and the jump to a
/// height the parabola bounds.
proof fn lemma_step_bounds(b: BotV, dt: int, speed: int)
    requires
        wf_bot(b),
        0 <= dt <= DT_LIMIT,
        0 <= speed <= 2 * SPEED_LIMIT,
        in_range(b.car.position, POS_LIMIT as int + 1_000_000),
    ensures
        in_range(bot_drive(b, dt).car.position, POS_LIMIT as int + 2_000_000),
        in_range(bot_step(b, dt, speed).car.position, VAL_LIMIT as int),
{
    let c = b.car;
    crate::geom::lemma_div_abs_bound(c.turn_speed, c.jump_turn_decrease);
    let eff = crate::car::eff_turn_speed(c);
    lemma_mul_bound(dt, eff, DT_LIMIT as int, SPEED_LIMIT as int);
    lemma_scaled_div_bound(dt * eff, 1000, 1000, 1_000_000);
    let d = bot_drive(b, dt);
    assert(in_range(d.car.position, POS_LIMIT as int + 2_000_000));
    assert(d.car.speed == c.speed && d.car.jump_v == c.jump_v && d.car.jump_a == c.jump_a && 0
        <= d.car.current_t <= T_LIMIT);
    lemma_mul_bound(dt, d.car.speed + speed, DT_LIMIT as int, 3 * SPEED_LIMIT as int);
    lemma_scaled_div_bound(dt * (d.car.speed + speed), 1000, 1000, 3_000_000);
    let m = CarV {
        position: v3(
            d.car.position.x,
            d.car.position.y,
            d.car.position.z - (dt * (d.car.speed + speed)) / 1000,
        ),
        ..d.car
    };
    assert(in_range(m.position, POS_LIMIT as int + 4_000_000));
    lemma_update_jump_pos(m, dt, POS_LIMIT as int + 4_000_000);
}

/// One jump step keeps the position within `lim` when the old position
/// was: the ground level and the parabola's height are both bounded.
proof fn lemma_update_jump_pos(c: CarV, dt: int, lim: int)
    requires
        0 <= c.speed <= SPEED_LIMIT,
        0 <= c.jump_v <= SPEED_LIMIT,
        1 <= c.jump_a,
        0 <= c.current_t <= T_LIMIT,
        0 <= dt <= DT_LIMIT,
        4_100_000_000 <= lim,
        in_range(c.position, lim),
    ensures
        in_range(car_update_jump(c, dt).position, lim),
{
    if c.jumping {
        let t = c.current_t + dt;
        let rise = (c.jump_v * t) / 1000;
        lemma_mul_bound(c.jump_v, t, SPEED_LIMIT as int, T_LIMIT as int + DT_LIMIT as int);
        lemma_scaled_div_bound(c.jump_v * t, 1000, 1000, 4_001_000_000);
        vstd::arithmetic::mul::lemma_mul_nonnegative(c.jump_v, t);
        vstd::arithmetic::div_mod::lemma_div_is_ordered(0, c.jump_v * t, 1000);
        vstd::arithmetic::mul::lemma_mul_nonnegative(c.jump_a, t);
        vstd::arithmetic::mul::lemma_mul_nonnegative(c.jump_a * t, t);
        vstd::arithmetic::div_mod::lemma_div_is_ordered(0, c.jump_a * t * t, 2_000_000);
        assert(crate::car::jump_y(c.jump_v, c.jump_a, t) <= rise);
    }
}


/// A bot that survived validation: well-formed, fitting the tunnel,
/// clamped between its walls, and still ahead of the player.
pub open spec fn good_bot(b: BotV, t: TunelV) -> bool {
    &&& wf_bot(b)
    &&& b.car.size.x <= t.size.x
    &&& b.car.size.y <= t.size.y
    &&& in_range(b.car.position, VAL_LIMIT as int)
    &&& 0 <= b.car.position.x <= t.size.x
    &&& 0 <= b.car.position.y <= t.size.y
    &&& 0 < b.car.position.z
}

/// Inserting preserves any property all elements have.
pub(crate) proof fn lemma_insert_bot_all(s: Seq<BotV>, b: BotV, p: spec_fn(BotV) -> bool)
    requires
        forall|i: int| 0 <= i < s.len() ==> p(#[trigger] s[i]),
        p(b),
    ensures
        insert_bot(s, b).len() == s.len() + 1,
        forall|i: int| 0 <= i < insert_bot(s, b).len() ==> p(#[trigger] insert_bot(s, b)[i]),
    decreases s.len(),
{
    if s.len() == 0 {
    } else if s.last().car.position.z > b.car.position.z {
        assert(forall|i: int| 0 <= i < s.drop_last().len() ==> p(#[trigger] s.drop_last()[i]));
        lemma_insert_bot_all(s.drop_last(), b, p);
        assert(p(s.last()));
    } else {
    }
}

/// Sorting preserves any property all elements have.
pub(crate) proof fn lemma_sort_bots_all(s: Seq<BotV>, p: spec_fn(BotV) -> bool)
    requires
        forall|i: int| 0 <= i < s.len() ==> p(#[trigger] s[i]),
    ensures
        sort_bots(s).len() == s.len(),
        forall|i: int| 0 <= i < sort_bots(s).len() ==> p(#[trigger] sort_bots(s)[i]),
    decreases s.len(),
{
    if s.len() > 0 {
        assert(forall|i: int| 0 <= i < s.drop_last().len() ==> p(#[trigger] s.drop_last()[i]));
        lemma_sort_bots_all(s.drop_last(), p);
        assert(p(s.last()));
        lemma_insert_bot_all(sort_bots(s.drop_last()), s.last(), p);
    }
}

/// Pruning keeps a subset, so it preserves any property all elements have.
pub(crate) proof fn lemma_prune_from_all(s: Seq<BotV>, k: int, p: spec_fn(BotV) -> bool)
    requires
        forall|i: int| 0 <= i < s.len() ==> p(#[trigger] s[i]),
    ensures
        forall|i: int| 0 <= i < prune_from(s, k).len() ==> p(#[trigger] prune_from(s, k)[i]),
    decreases s.len() - k,
{
    if 0 <= k < s.len() {
        lemma_prune_from_all(s, k + 1, p);
        assert(p(s[k]));
        let head: Seq<BotV> = if crashed_mark(s, k) {
            seq![]
        } else {
            seq![s[k]]
        };
        assert(prune_from(s, k) == head + prune_from(s, k + 1));
        assert forall|i: int| 0 <= i < prune_from(s, k).len() implies p(
            #[trigger] prune_from(s, k)[i],
        ) by {
            if i < head.len() {
                assert(prune_from(s, k)[i] == s[k]);
            } else {
                assert(prune_from(s, k)[i] == prune_from(s, k + 1)[i - head.len()]);
            }
        }
    }
}

/// Keeping a subsequence preserves any property all elements have.
pub(crate) proof fn lemma_bots_kept_all(s: Seq<BotV>, bullets: Seq<BulletV>, p: spec_fn(BotV) -> bool)
    requires
        forall|i: int| 0 <= i < s.len() ==> p(#[trigger] s[i]),
    ensures
        forall|i: int|
            0 <= i < bots_kept(s, bullets).len() ==> p(#[trigger] bots_kept(s, bullets)[i]),
    decreases s.len(),
{
    if s.len() > 0 {
        assert(forall|i: int|
            0 <= i < s.drop_first().len() ==> p(#[trigger] s.drop_first()[i]));
        lemma_bots_kept_all(s.drop_first(), bullets, p);
        assert(p(s[0]));
        let head: Seq<BotV> = if bot_gone(s[0], bullets) {
            seq![]
        } else {
            seq![s[0]]
        };
        assert(bots_kept(s, bullets) == head + bots_kept(s.drop_first(), bullets));
        assert forall|i: int| 0 <= i < bots_kept(s, bullets).len() implies p(
            #[trigger] bots_kept(s, bullets)[i],
        ) by {
            if i < head.len() {
                assert(bots_kept(s, bullets)[i] == s[0]);
            } else {
                assert(bots_kept(s, bullets)[i] == bots_kept(s.drop_first(), bullets)[i
                    - head.len()]);
            }
        }
    }
}

/// Surviving bullets preserve any property all bullets have.
pub(crate) proof fn lemma_bullets_kept_all(s: Seq<BulletV>, size: Vec3i, p: spec_fn(BulletV) -> bool)
    requires
        forall|i: int| 0 <= i < s.len() ==> p(#[trigger] s[i]),
    ensures
        forall|i: int|
            0 <= i < bullets_kept(s, size).len() ==> p(#[trigger] bullets_kept(s, size)[i]),
    decreases s.len(),
{
    if s.len() > 0 {
        assert(forall|i: int|
            0 <= i < s.drop_first().len() ==> p(#[trigger] s.drop_first()[i]));
        lemma_bullets_kept_all(s.drop_first(), size, p);
        assert(p(s[0]));
        let head: Seq<BulletV> = if bullet_in_bounds(s[0], size) {
            seq![s[0]]
        } else {
            seq![]
        };
        assert(bullets_kept(s, size) == head + bullets_kept(s.drop_first(), size));
        assert forall|i: int| 0 <= i < bullets_kept(s, size).len() implies p(
            #[trigger] bullets_kept(s, size)[i],
        ) by {
            if i < head.len() {
                assert(bullets_kept(s, size)[i] == s[0]);
            } else {
                assert(bullets_kept(s, size)[i] == bullets_kept(s.drop_first(), size)[i
                    - head.len()]);
            }
        }
    }
}

/// Exactly where the scan stopped is where stable insertion puts the bot.
proof fn lemma_insert_bot_at(s: Seq<BotV>, b: BotV, idx: int)
    requires
        0 <= idx <= s.len(),
        forall|j: int| idx <= j < s.len() ==> (#[trigger] s[j]).car.position.z > b.car.position.z,
        idx > 0 ==> !(s[idx - 1].car.position.z > b.car.position.z),
    ensures
        insert_bot(s, b) == s.insert(idx, b),
    decreases s.len(),
{
    if s.len() == 0 {
        assert(insert_bot(s, b) =~= s.insert(0, b));
    } else if s.last().car.position.z > b.car.position.z {
        assert(idx < s.len());
        assert(forall|j: int|
            idx <= j < s.drop_last().len() ==> (#[trigger] s.drop_last()[j]).car.position.z
                > b.car.position.z);
        lemma_insert_bot_at(s.drop_last(), b, idx);
        assert(insert_bot(s, b) =~= s.insert(idx, b));
    } else {
        assert(idx == s.len());
        assert(insert_bot(s, b) =~= s.insert(idx, b));
    }
}


/// Every surviving bullet is inside the tunnel.
pub(crate) proof fn lemma_bullets_kept_in_bounds(s: Seq<BulletV>, size: Vec3i)
    ensures
        forall|i: int|
            0 <= i < bullets_kept(s, size).len() ==> bullet_in_bounds(
                #[trigger] bullets_kept(s, size)[i],
                size,
            ),
    decreases s.len(),
{
    if s.len() > 0 {
        lemma_bullets_kept_in_bounds(s.drop_first(), size);
        let head: Seq<BulletV> = if bullet_in_bounds(s[0], size) {
            seq![s[0]]
        } else {
            seq![]
        };
        assert(bullets_kept(s, size) == head + bullets_kept(s.drop_first(), size));
        assert forall|i: int| 0 <= i < bullets_kept(s, size).len() implies bullet_in_bounds(
            #[trigger] bullets_kept(s, size)[i],
            size,
        ) by {
            if i < head.len() {
                assert(bullets_kept(s, size)[i] == s[0]);
            } else {
                assert(bullets_kept(s, size)[i] == bullets_kept(s.drop_first(), size)[i
                    - head.len()]);
            }
        }
    }
}


/// All entity positions (not the tunnel's animation states) are within
/// `lim`.
pub open spec fn entities_bounded(w: WorldV, lim: int) -> bool {
    &&& in_range(w.player.position, lim)
    &&& (forall|i: int| 0 <= i < w.bots.len() ==> in_range((#[trigger] w.bots[i]).car.position, lim))
    &&& (forall|i: int| 0 <= i < w.bullets.len() ==> in_range((#[trigger] w.bullets[i]).origin, lim))
}

/// Every surviving bot is still ahead of the player.
pub(crate) proof fn lemma_bots_kept_alive(s: Seq<BotV>, bullets: Seq<BulletV>)
    ensures
        forall|i: int|
            0 <= i < bots_kept(s, bullets).len() ==> (#[trigger] bots_kept(
                s,
                bullets,
            )[i]).car.position.z > 0,
    decreases s.len(),
{
    if s.len() > 0 {
        lemma_bots_kept_alive(s.drop_first(), bullets);
        let head: Seq<BotV> = if bot_gone(s[0], bullets) {
            seq![]
        } else {
            seq![s[0]]
        };
        assert(bots_kept(s, bullets) == head + bots_kept(s.drop_first(), bullets));
        assert forall|i: int| 0 <= i < bots_kept(s, bullets).len() implies (#[trigger] bots_kept(
            s,
            bullets,
        )[i]).car.position.z > 0 by {
            if i < head.len() {
                assert(bots_kept(s, bullets)[i] == s[0]);
            } else {
                assert(bots_kept(s, bullets)[i] == bots_kept(s.drop_first(), bullets)[i
                    - head.len()]);
            }
        }
    }
}

/// One update-and-validate cycle brings every entity back into the
/// standing working range, provided no depth exceeded it before.
pub proof fn lemma_cycle_bounded(w: WorldV, dt: int, gs: int)
    requires
        wf_world(w),
        0 <= dt <= DT_LIMIT,
        0 <= gs <= SPEED_LIMIT,
        positions_bounded(w, POS_LIMIT as int + 1_000_000),
        iabs(w.player.position.z) <= POS_LIMIT as int,
        forall|i: int|
            0 <= i < w.bots.len() ==> iabs((#[trigger] w.bots[i]).car.position.z)
                <= POS_LIMIT as int,
    ensures
        entities_bounded(world_validate(world_update(w, dt, gs)), POS_LIMIT as int),
{
    let u = world_update(w, dt, gs);
    let sz = w.tunel.size;
    let v = world_validate(u);
    // The player: x and y are clamped into the tunnel, z never moves.
    assert(u.player.position.z == w.player.position.z);
    lemma_clamp_bounds(u.player, sz);
    assert(in_range(v.player.position, POS_LIMIT as int));
    // The bots: depth only shrinks under forward motion.
    let speed = gs + w.player.speed;
    assert forall|i: int| 0 <= i < u.bots.len() implies iabs(
        (#[trigger] u.bots[i]).car.position.z,
    ) <= POS_LIMIT as int + 4_000_000 && u.bots[i].car.position.z <= POS_LIMIT as int by {
        let b = w.bots[i];
        let d = bot_drive(b, dt);
        assert(d.car.position.z == b.car.position.z);
        assert(u.bots[i] == bot_step(b, dt, speed));
        vstd::arithmetic::mul::lemma_mul_nonnegative(dt, d.car.speed + speed);
        lemma_mul_bound(dt, d.car.speed + speed, DT_LIMIT as int, 3 * SPEED_LIMIT as int);
        vstd::arithmetic::div_mod::lemma_div_is_ordered(0, dt * (d.car.speed + speed), 1000);
        lemma_scaled_div_bound(dt * (d.car.speed + speed), 1000, 1000, 3_000_000);
    }
    let pc = |b: BotV|
        {
            &&& 0 <= b.car.position.x <= sz.x
            &&& 0 <= b.car.position.y <= sz.y
            &&& b.car.position.z <= POS_LIMIT as int
            &&& -(POS_LIMIT as int) - 4_000_000 <= b.car.position.z
        };
    let cl = bots_clamped(u.bots, sz);
    assert forall|i: int| 0 <= i < cl.len() implies pc(#[trigger] cl[i]) by {
        assert(cl[i] == clamp_bot(u.bots[i], sz));
        lemma_clamp_bounds(u.bots[i].car, sz);
    }
    let bullets2 = bullets_kept(u.bullets, sz);
    let kept = bots_kept(cl, bullets2);
    lemma_bots_kept_all(cl, bullets2, pc);
    lemma_bots_kept_alive(cl, bullets2);
    let pk = |b: BotV|
        {
            &&& 0 <= b.car.position.x <= sz.x
            &&& 0 <= b.car.position.y <= sz.y
            &&& 0 < b.car.position.z <= POS_LIMIT as int
        };
    assert(forall|i: int| 0 <= i < kept.len() ==> pk(#[trigger] kept[i]));
    lemma_sort_bots_all(kept, pk);
    lemma_prune_from_all(sort_bots(kept), 0, pk);
    assert(forall|i: int| 0 <= i < v.bots.len() ==> pk(#[trigger] v.bots[i]));
    assert forall|i: int| 0 <= i < v.bots.len() implies in_range(
        (#[trigger] v.bots[i]).car.position,
        POS_LIMIT as int,
    ) by {
        assert(pk(v.bots[i]));
    }
    // The bullets: the survivors are strictly inside the tunnel.
    lemma_bullets_kept_in_bounds(u.bullets, sz);
    assert forall|i: int| 0 <= i < v.bullets.len() implies in_range(
        (#[trigger] v.bullets[i]).origin,
        POS_LIMIT as int,
    ) by {
        assert(bullet_in_bounds(v.bullets[i], sz));
    }
}

/// The clamped position lies inside the tunnel's cross-section, and its
/// depth is untouched.
pub(crate) proof fn lemma_clamp_bounds(c: CarV, size: Vec3i)
    requires
        0 < c.size.x <= size.x,
        0 < c.size.y <= size.y,
        0 <= c.position.y,
    ensures
        0 <= clamp_car(c, size).position.x <= size.x,
        0 <= clamp_car(c, size).position.y <= size.y,
        clamp_car(c, size).position.z == c.position.z,
{
    vstd::arithmetic::div_mod::lemma_div_is_ordered(0, c.size.x, 2);
    crate::geom::lemma_div_abs_bound(c.size.x, 2);
}

/// A vector with squared magnitude zero is the zero vector.
pub(crate) proof fn lemma_zero_mag2(d: Vec3i)
    requires
        mag2(d) == 0,
    ensures
        d == v3(0, 0, 0),
{
    crate::geom::lemma_square_nonneg(d.x);
    crate::geom::lemma_square_nonneg(d.y);
    crate::geom::lemma_square_nonneg(d.z);
    assert(d.x == 0 && d.y == 0 && d.z == 0) by (nonlinear_arith)
        requires
            d.x * d.x + d.y * d.y + d.z * d.z == 0,
            d.x * d.x >= 0,
            d.y * d.y >= 0,
            d.z * d.z >= 0,
    ;
}

/// No component of a vector exceeds the floor square root of its squared
/// magnitude.
pub(crate) proof fn lemma_component_below_sqrt(d: Vec3i, s: int)
    requires
        0 <= s,
        mag2(d) < (s + 1) * (s + 1),
    ensures
        iabs(d.x) <= s,
        iabs(d.y) <= s,
        iabs(d.z) <= s,
{
    assert(iabs(d.x) <= s && iabs(d.y) <= s && iabs(d.z) <= s) by (nonlinear_arith)
        requires
            d.x * d.x + d.y * d.y + d.z * d.z < (s + 1) * (s + 1),
            0 <= s,
            iabs(d.x) == if d.x < 0 {
                -d.x
            } else {
                d.x
            },
            iabs(d.y) == if d.y < 0 {
                -d.y
            } else {
                d.y
            },
            iabs(d.z) == if d.z < 0 {
                -d.z
            } else {
                d.z
            },
    ;
}

/// `a * c <= b * c` for `a <= b` and nonnegative `c`, stated for bounding
/// scaled components.
proof fn lemma_mul_le(a: int, b: int, c: int)
    requires
        a <= b,
        0 <= c,
        0 <= a,
    ensures
        a * c <= b * c,
{
    assert(a * c <= b * c) by (nonlinear_arith)
        requires
            a <= b,
            0 <= c,
    ;
}

} // verus!
