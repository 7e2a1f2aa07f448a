//! Bot cars: a box car driven by a scripted queue of timed actions.

use crate::camera::{lines_view, wf_camera, Camera, RenderedLine};
use crate::car::{
    car_forward, car_jump_spec, car_render_spec, car_turn_left_spec, car_turn_right_spec,
    car_update_jump, crashed_spec, hit_spec, wf_car, Car, CarV, DT_LIMIT, POS_LIMIT, RENDER_LIMIT,
    SIZE_LIMIT, SPEED_LIMIT,
};
use crate::world::Bullet;
use crate::color::Color;
use crate::geom::{in_range, v3, Vec3, MILLI};
use crate::rng::{random_index, rnd, sampled_in};
use vstd::prelude::*;

verus! {

/// Longest scripted action duration the world accepts, in milliseconds.
pub const ACTION_LIMIT: i64 = 1_000_000_000;

/// An action with a duration: `TurnLeft(3000)` means turn left for three
/// seconds.
#[derive(Clone, Copy, PartialEq, Eq, Structural, Debug)]
pub enum Action {
    /// Do nothing for the given time.
    Rest(i64),
    Jump,
    TurnLeft(i64),
    TurnRight(i64),
}

/// Bounds of the rules a new bot is drawn from.
pub struct BoxRules {
    pub size: [(i64, i64); 3],
    pub position: [(i64, i64); 3],
    pub speed: (i64, i64),
    pub turn_speed: (i64, i64),
    pub color: Vec<Color>,
    pub jump_turn_decrease: i64,
}

/// Mathematical counterpart of `Bot`.
pub ghost struct BotV {
    pub car: CarV,
    pub actions: Seq<Action>,
}

pub struct Bot {
    pub car: Car,
    pub actions: Vec<Action>,
}

impl View for Bot {
    type V = BotV;

    open spec fn view(&self) -> BotV {
        BotV { car: self.car@, actions: self.actions@ }
    }
}

pub open spec fn action_duration_ok(a: Action) -> bool {
    match a {
        Action::Rest(t) => -2000 <= t <= ACTION_LIMIT,
        Action::Jump => true,
        Action::TurnLeft(t) => -2000 <= t <= ACTION_LIMIT,
        Action::TurnRight(t) => -2000 <= t <= ACTION_LIMIT,
    }
}

pub open spec fn wf_bot(b: BotV) -> bool {
    &&& wf_car(b.car)
    &&& forall|i: int| 0 <= i < b.actions.len() ==> action_duration_ok(#[trigger] b.actions[i])
}

/// One step of the script: pop the most recent action, apply it, and
/// push it back with the elapsed time deducted if it has time left.
pub open spec fn bot_drive(b: BotV, dt: int) -> BotV {
    if b.actions.len() == 0 {
        b
    } else {
        let rest = b.actions.drop_last();
        match b.actions.last() {
            Action::Jump => BotV { car: car_jump_spec(b.car), actions: rest },
            Action::TurnRight(t) => if t > 0 {
                BotV {
                    car: car_turn_right_spec(b.car, dt),
                    actions: rest.push(Action::TurnRight((t - dt) as i64)),
                }
            } else {
                BotV { car: b.car, actions: rest }
            },
            Action::TurnLeft(t) => if t > 0 {
                BotV {
                    car: car_turn_left_spec(b.car, dt),
                    actions: rest.push(Action::TurnLeft((t - dt) as i64)),
                }
            } else {
                BotV { car: b.car, actions: rest }
            },
            Action::Rest(t) => if t > 0 {
                BotV { car: b.car, actions: rest.push(Action::Rest((t - dt) as i64)) }
            } else {
                BotV { car: b.car, actions: rest }
            },
        }
    }
}

/// Validity of spawn rules: sampled sizes are positive box extents,
/// speeds and positions stay within the simulation's working range.
pub open spec fn wf_rules(r: &BoxRules) -> bool {
    &&& r.size@.len() == 3
    &&& r.position@.len() == 3
    &&& (forall|i: int|
        0 <= i < 3 ==> {
            &&& 0 < (#[trigger] r.size@[i]).0 <= SIZE_LIMIT
            &&& 0 < r.size@[i].1 <= SIZE_LIMIT
        })
    &&& (forall|i: int|
        0 <= i < 3 ==> {
            &&& -POS_LIMIT <= (#[trigger] r.position@[i]).0 <= POS_LIMIT
            &&& -POS_LIMIT <= r.position@[i].1 <= POS_LIMIT
        })
    &&& 0 <= r.position@[1].0 && 0 <= r.position@[1].1
    &&& 0 <= r.speed.0 <= SPEED_LIMIT
    &&& 0 <= r.speed.1 <= SPEED_LIMIT
    &&& 0 <= r.turn_speed.0 <= SPEED_LIMIT
    &&& 0 <= r.turn_speed.1 <= SPEED_LIMIT
    &&& 1 <= r.jump_turn_decrease <= MILLI
}

/// The shape of a randomly scripted action: a jump, or a quarter- to
/// one-second rest or turn.
pub open spec fn random_action_ok(a: Action) -> bool {
    match a {
        Action::Rest(t) => 250 <= t <= 1000,
        Action::Jump => true,
        Action::TurnLeft(t) => 250 <= t <= 1000,
        Action::TurnRight(t) => 250 <= t <= 1000,
    }
}

/// What any bot drawn from `rules` looks like.
pub open spec fn bot_in_rules(b: BotV, r: &BoxRules) -> bool {
    &&& sampled_in(b.car.size.x, r.size@[0])
    &&& sampled_in(b.car.size.y, r.size@[1])
    &&& sampled_in(b.car.size.z, r.size@[2])
    &&& sampled_in(b.car.position.x, r.position@[0])
    &&& sampled_in(b.car.position.y, r.position@[1])
    &&& sampled_in(b.car.position.z, r.position@[2])
    &&& sampled_in(b.car.speed, r.speed)
    &&& sampled_in(b.car.turn_speed, r.turn_speed)
    &&& (if r.color@.len() == 0 {
        b.car.color == (Color { r: 1000, g: 0, b: 0, a: 1000 })
    } else {
        r.color@.contains(b.car.color)
    })
    &&& b.car.jump_v == 5000
    &&& b.car.jump_a == 7000
    &&& !b.car.jumping
    &&& b.car.current_t == 0
    &&& b.car.jump_turn_decrease == r.jump_turn_decrease
    &&& b.actions.len() <= 5
    &&& forall|i: int| 0 <= i < b.actions.len() ==> random_action_ok(#[trigger] b.actions[i])
}

impl Action {
    /// A random action: a rest, turn or jump, with a quarter- to
    /// one-second duration.
    fn rand() -> (a: Action)
        ensures
            random_action_ok(a),
    {
        let kind = random_index(4);
        if kind == 0 {
            Action::Rest(rnd((250, 1000)))
        } else if kind == 1 {
            Action::TurnLeft(rnd((250, 1000)))
        } else if kind == 2 {
            Action::TurnRight(rnd((250, 1000)))
        } else {
            Action::Jump
        }
    }
}

impl Bot {
    /// A new bot drawn from the spawn rules: size, position and speeds
    /// uniform in their ranges, a color picked from the palette (red when
    /// it is empty), and up to five random scripted actions.
    pub fn new_random(rules: &BoxRules) -> (r: Bot)
        requires
            wf_rules(rules),
        ensures
            wf_bot(r@),
            bot_in_rules(r@, rules),
    {
        let sx = rnd(rules.size[0]);
        let sy = rnd(rules.size[1]);
        let sz = rnd(rules.size[2]);
        let px = rnd(rules.position[0]);
        let py = rnd(rules.position[1]);
        let pz = rnd(rules.position[2]);
        let color = if rules.color.len() == 0 {
            Color::red()
        } else {
            rules.color[random_index(rules.color.len())]
        };
        let car = Car {
            size: Vec3::new(sx, sy, sz),
            position: Vec3::new(px, py, pz),
            speed: rnd(rules.speed),
            turn_speed: rnd(rules.turn_speed),
            color,
            jump_v: 5000,
            jump_a: 7000,
            jumping: false,
            current_t: 0,
            jump_turn_decrease: rules.jump_turn_decrease,
        };
        let n = random_index(6);
        let mut actions: Vec<Action> = Vec::new();
        let mut i: usize = 0;
        while i < n
            invariant
                n <= 5,
                actions@.len() == i <= n,
                forall|j: int| 0 <= j < i ==> random_action_ok(#[trigger] actions@[j]),
            decreases n - i,
        {
            actions.push(Action::rand());
            i = i + 1;
        }
        Bot { car, actions }
    }

    /// Draw the bot's car.
    pub fn render(&self, camera: &Camera) -> (r: Vec<RenderedLine>)
        requires
            wf_bot(self@),
            wf_camera(camera@),
            crate::geom::in_range(self@.car.position, RENDER_LIMIT as int),
        ensures
            lines_view(r@) == car_render_spec(camera@, self@.car),
    {
        self.car.render(camera)
    }

    /// Box overlap with another bot's car.
    pub fn crashed(&self, other: &Bot) -> (r: bool)
        requires
            wf_bot(self@),
            wf_bot(other@),
            crate::geom::in_range(self@.car.position, 4 * POS_LIMIT as int),
            crate::geom::in_range(other@.car.position, 4 * POS_LIMIT as int),
        ensures
            r == crashed_spec(self@.car, other@.car),
    {
        self.car.crashed(&other.car)
    }

    /// Whether the bullet's segment touches the bot's car.
    pub fn hit(&self, bullet: &Bullet) -> (r: bool)
        requires
            wf_bot(self@),
            crate::geom::in_range(self@.car.position, 4 * POS_LIMIT as int),
            crate::geom::in_range(bullet@.origin, 4 * POS_LIMIT as int),
            crate::geom::in_range(bullet@.displacement, 4 * POS_LIMIT as int),
        ensures
            r == hit_spec(self@.car, bullet@),
    {
        self.car.hit(bullet)
    }

    /// Drive the bot's car forward.
    pub fn forward(&mut self, dt: i64, outside_speed: i64)
        requires
            wf_bot(old(self)@),
            0 <= dt <= DT_LIMIT,
            0 <= outside_speed <= 2 * SPEED_LIMIT,
            crate::geom::in_range(old(self)@.car.position, 4 * POS_LIMIT as int),
        ensures
            final(self)@ == (BotV {
                car: car_forward(old(self)@.car, dt as int, outside_speed as int),
                ..old(self)@
            }),
            wf_bot(final(self)@),
    {
        self.car.forward(dt, outside_speed)
    }

    /// Advance the bot's jump.
    pub fn update_jump(&mut self, dt: i64)
        requires
            wf_bot(old(self)@),
            0 <= dt <= DT_LIMIT,
        ensures
            final(self)@ == (BotV { car: car_update_jump(old(self)@.car, dt as int), ..old(self)@ }),
            wf_bot(final(self)@),
    {
        self.car.update_jump(dt)
    }

    /// Start a jump.
    pub fn jump(&mut self)
        requires
            wf_bot(old(self)@),
        ensures
            final(self)@ == (BotV { car: car_jump_spec(old(self)@.car), ..old(self)@ }),
            wf_bot(final(self)@),
    {
        self.car.jump()
    }

    pub fn turn_left(&mut self, dt: i64)
        requires
            wf_bot(old(self)@),
            0 <= dt <= DT_LIMIT,
            crate::geom::in_range(old(self)@.car.position, 4 * POS_LIMIT as int),
        ensures
            final(self)@ == (BotV {
                car: car_turn_left_spec(old(self)@.car, dt as int),
                ..old(self)@
            }),
            wf_bot(final(self)@),
    {
        self.car.turn_left(dt)
    }

    pub fn turn_right(&mut self, dt: i64)
        requires
            wf_bot(old(self)@),
            0 <= dt <= DT_LIMIT,
            crate::geom::in_range(old(self)@.car.position, 4 * POS_LIMIT as int),
        ensures
            final(self)@ == (BotV {
                car: car_turn_right_spec(old(self)@.car, dt as int),
                ..old(self)@
            }),
            wf_bot(final(self)@),
    {
        self.car.turn_right(dt)
    }

    pub fn pos(&self) -> (r: Vec3)
        ensures
            r@ == self@.car.position,
    {
        self.car.pos()
    }

    /// The car's turn speed, dampened while airborne.
    pub fn turn_speed(&self) -> (r: i64)
        requires
            wf_bot(self@),
        ensures
            r == crate::car::eff_turn_speed(self@.car),
    {
        self.car.turn_speed()
    }

    /// Run one step of the action script.
    pub fn drive(&mut self, dt: i64)
        requires
            wf_bot(old(self)@),
            0 <= dt <= DT_LIMIT,
            in_range(old(self)@.car.position, 4 * POS_LIMIT as int),
        ensures
            final(self)@ == bot_drive(old(self)@, dt as int),
            wf_bot(final(self)@),
    {
        match self.actions.pop() {
            None => {},
            Some(a) => match a {
                Action::Jump => self.car.jump(),
                Action::TurnRight(t) => if t > 0 {
                    self.car.turn_right(dt);
                    self.actions.push(Action::TurnRight(t - dt));
                },
                Action::TurnLeft(t) => if t > 0 {
                    self.car.turn_left(dt);
                    self.actions.push(Action::TurnLeft(t - dt));
                },
                Action::Rest(t) => if t > 0 {
                    self.actions.push(Action::Rest(t - dt));
                },
            },
        }
    }
}

} // verus!
