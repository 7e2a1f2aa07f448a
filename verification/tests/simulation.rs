use boxcrash::bot::{Action, Bot, BoxRules};
use boxcrash::car::Car;
use boxcrash::color::Color;
use boxcrash::game::GameConfig;
use boxcrash::geom::Vec3;
use boxcrash::world::World;

fn default_world() -> World {
    World::new(&GameConfig::default())
}

fn test_bot(size: Vec3, position: Vec3) -> Bot {
    Bot {
        car: Car {
            size,
            position,
            speed: 20_000,
            turn_speed: 5_000,
            color: Color::red(),
            jump_v: 5_000,
            jump_a: 7_000,
            jumping: false,
            current_t: 0,
            jump_turn_decrease: 3,
        },
        actions: Vec::new(),
    }
}

#[test]
fn world_starts_with_player_mid_tunnel() {
    let w = default_world();
    assert_eq!(w.player.position, Vec3 { x: 7_500, y: 0, z: 10_000 });
    assert_eq!(w.tunel.size, Vec3 { x: 15_000, y: 8_000, z: 150_000 });
    assert!(w.bots.is_empty());
    assert!(w.bullets.is_empty());
}

// A bot far outside the 15-unit-wide tunnel is clamped back to the wall,
// at the tunnel width less half its own width.
#[test]
fn validate_clamps_bot_to_wall() {
    let mut w = default_world();
    w.bots.push(test_bot(
        Vec3 { x: 2_000, y: 1_000, z: 4_000 },
        Vec3 { x: 20_000, y: 0, z: 30_000 },
    ));
    w.validate();
    assert_eq!(w.bots.len(), 1);
    assert_eq!(w.bots[0].car.position.x, 15_000 - 1_000);
}

#[test]
fn validate_clamps_player_on_both_sides() {
    let mut w = default_world();
    // Player half-width is 750.
    w.player.position.x = -3_000;
    w.validate();
    assert_eq!(w.player.position.x, 750);
    w.player.position.x = 100_000;
    w.validate();
    assert_eq!(w.player.position.x, 15_000 - 750);
}

// A bullet fired from the origin along +z with unit speed moves one unit
// in one second; once past the tunnel's depth, validation removes it.
#[test]
fn bullet_flies_and_expires() {
    let mut w = default_world();
    w.add_bullet(
        Vec3 { x: 7_500, y: 400, z: 0 },
        Vec3 { x: 0, y: 0, z: 1_000 },
        5_000,
    );
    assert_eq!(w.bullets.len(), 1);
    assert_eq!(w.bullets[0].displacement, Vec3 { x: 0, y: 0, z: 5_000 });
    w.update(1_000, 0);
    // The world's own speed does not move bullets; only their direction does.
    assert_eq!(w.bullets[0].origin, Vec3 { x: 7_500, y: 400, z: 1_000 });
    w.bullets[0].origin.z = 150_000;
    w.validate();
    assert!(w.bullets.is_empty());
}

// The tunnel bounds are half-open: an origin component of exactly zero
// is still inside, the far face is already outside.
#[test]
fn bullet_on_the_near_boundary_survives() {
    let mut w = default_world();
    w.add_bullet(Vec3 { x: 0, y: 0, z: 0 }, Vec3 { x: 0, y: 0, z: 1_000 }, 5_000);
    w.validate();
    assert_eq!(w.bullets.len(), 1);
    w.bullets[0].origin = Vec3 { x: 0, y: 0, z: 150_000 };
    w.validate();
    assert!(w.bullets.is_empty());
}

#[test]
fn bullet_with_zero_direction_is_rejected() {
    let mut w = default_world();
    w.add_bullet(Vec3 { x: 7_500, y: 400, z: 0 }, Vec3 { x: 0, y: 0, z: 0 }, 5_000);
    assert!(w.bullets.is_empty());
}

#[test]
fn bullet_direction_of_magnitude_len_is_kept() {
    let mut w = default_world();
    // A 3-4-5 triangle: the direction's magnitude equals the requested
    // length, so the displacement is the direction itself.
    w.add_bullet(
        Vec3 { x: 7_500, y: 400, z: 1 },
        Vec3 { x: 3_000, y: 0, z: 4_000 },
        5_000,
    );
    assert_eq!(w.bullets[0].displacement, Vec3 { x: 3_000, y: 0, z: 4_000 });
}

// Two bots at the same (x, y) whose z-extents overlap become adjacent
// after sorting and are both removed.
#[test]
fn overlapping_bots_are_both_removed() {
    let mut w = default_world();
    w.bots.push(test_bot(
        Vec3 { x: 2_000, y: 1_000, z: 4_000 },
        Vec3 { x: 5_000, y: 0, z: 22_000 },
    ));
    w.bots.push(test_bot(
        Vec3 { x: 2_000, y: 1_000, z: 4_000 },
        Vec3 { x: 5_000, y: 0, z: 20_000 },
    ));
    w.validate();
    assert!(w.bots.is_empty());
}

#[test]
fn distant_bots_survive_and_are_sorted_by_depth() {
    let mut w = default_world();
    w.bots.push(test_bot(
        Vec3 { x: 2_000, y: 1_000, z: 4_000 },
        Vec3 { x: 5_000, y: 0, z: 40_000 },
    ));
    w.bots.push(test_bot(
        Vec3 { x: 10_000, y: 1_000, z: 4_000 },
        Vec3 { x: 9_000, y: 0, z: 20_000 },
    ));
    w.validate();
    assert_eq!(w.bots.len(), 2);
    assert!(w.bots[0].car.position.z <= w.bots[1].car.position.z);
    assert_eq!(w.bots[0].car.position.z, 20_000);
}

#[test]
fn bot_behind_player_is_removed() {
    let mut w = default_world();
    w.bots.push(test_bot(
        Vec3 { x: 2_000, y: 1_000, z: 4_000 },
        Vec3 { x: 5_000, y: 0, z: 0 },
    ));
    w.validate();
    assert!(w.bots.is_empty());
}

#[test]
fn bullet_hit_removes_bot_and_keeps_bullet() {
    let mut w = default_world();
    w.bots.push(test_bot(
        Vec3 { x: 2_000, y: 1_000, z: 4_000 },
        Vec3 { x: 5_000, y: 0, z: 20_000 },
    ));
    w.add_bullet(
        Vec3 { x: 5_000, y: 500, z: 21_000 },
        Vec3 { x: 0, y: 0, z: 1_000 },
        5_000,
    );
    w.validate();
    assert!(w.bots.is_empty());
    assert_eq!(w.bullets.len(), 1);
}

// Crash symmetry and the disjoint-x guarantee, on concrete cars.
#[test]
fn crashed_is_symmetric_and_needs_x_overlap() {
    let a = test_bot(
        Vec3 { x: 2_000, y: 1_000, z: 4_000 },
        Vec3 { x: 5_000, y: 0, z: 20_000 },
    ).car;
    let b = test_bot(
        Vec3 { x: 2_000, y: 1_000, z: 4_000 },
        Vec3 { x: 6_000, y: 0, z: 21_000 },
    ).car;
    assert!(a.crashed(&b));
    assert!(b.crashed(&a));
    assert_eq!(a.crashed(&b), b.crashed(&a));
    let far = test_bot(
        Vec3 { x: 2_000, y: 1_000, z: 4_000 },
        Vec3 { x: 9_000, y: 0, z: 20_000 },
    ).car;
    // Disjoint x-ranges: |5000 - 9000| >= (2000 + 2000) / 2.
    assert!(!a.crashed(&far));
    assert!(!far.crashed(&a));
}

// The jump parabola: v = 7 units/s and a = 5 units/s^2 peak mid-flight
// and land exactly at height zero just past the 2v/a = 2.8 s root.
#[test]
fn jump_lands_exactly_at_zero() {
    let mut car = test_bot(
        Vec3 { x: 1_500, y: 800, z: 3_000 },
        Vec3 { x: 7_500, y: 0, z: 10_000 },
    ).car;
    car.jump_v = 7_000;
    car.jump_a = 5_000;
    car.jump();
    assert!(car.jumping);
    let mut total = 0i64;
    for _ in 0..10 {
        car.update_jump(100);
        total += 100;
    }
    assert_eq!(total, 1_000);
    // y(1000 ms) = 7000*1000/1000 - 5000*1000^2/2_000_000 = 4500.
    assert_eq!(car.position.y, 4_500);
    while car.jumping {
        car.update_jump(100);
        total += 100;
        assert!(total <= 3_000);
    }
    assert_eq!(car.position.y, 0);
    assert!(total >= 2_800);
}

#[test]
fn jump_needs_ground() {
    let mut car = test_bot(
        Vec3 { x: 1_500, y: 800, z: 3_000 },
        Vec3 { x: 7_500, y: 100, z: 10_000 },
    ).car;
    car.jump();
    assert!(!car.jumping);
}

#[test]
fn turning_is_dampened_while_jumping() {
    let mut car = test_bot(
        Vec3 { x: 1_500, y: 800, z: 3_000 },
        Vec3 { x: 7_500, y: 0, z: 10_000 },
    ).car;
    car.turn_speed = 15_000;
    car.jump_turn_decrease = 3;
    car.turn_left(100);
    // 100 ms at 15 units/s moves 1.5 units.
    assert_eq!(car.position.x, 7_500 - 1_500);
    car.jump();
    car.turn_right(100);
    assert_eq!(car.position.x, 7_500 - 1_500 + 500);
}

#[test]
fn forward_moves_down_the_tunnel() {
    let mut bot = test_bot(
        Vec3 { x: 1_500, y: 800, z: 3_000 },
        Vec3 { x: 7_500, y: 0, z: 50_000 },
    );
    bot.forward(500, 10_000);
    // 0.5 s at (20 + 10) units/s.
    assert_eq!(bot.car.position.z, 50_000 - 15_000);
    assert_eq!(bot.car.rear_z(), 50_000 - 15_000 + 3_000);
}

#[test]
fn drive_pops_and_requeues_timed_actions() {
    let mut bot = test_bot(
        Vec3 { x: 1_500, y: 800, z: 3_000 },
        Vec3 { x: 7_500, y: 0, z: 50_000 },
    );
    bot.actions.push(Action::TurnLeft(300));
    bot.drive(100);
    // The action still has time left, so it is requeued with 100 ms used.
    assert_eq!(bot.actions.len(), 1);
    assert!(matches!(bot.actions[0], Action::TurnLeft(200)));
    assert_eq!(bot.car.position.x, 7_500 - 500);
    bot.drive(100);
    bot.drive(100);
    // Now exhausted: popped without effect and dropped.
    bot.drive(100);
    assert!(bot.actions.is_empty());
}

#[test]
fn drive_jump_action_starts_jump() {
    let mut bot = test_bot(
        Vec3 { x: 1_500, y: 800, z: 3_000 },
        Vec3 { x: 7_500, y: 0, z: 50_000 },
    );
    bot.actions.push(Action::Jump);
    bot.drive(100);
    assert!(bot.car.jumping);
    assert!(bot.actions.is_empty());
}

// A bot drawn from degenerate one-point rules takes exactly those values;
// the random draws must land inside their (trivial) ranges.
#[test]
fn random_bot_respects_rules() {
    let rules = BoxRules {
        size: [(2_000, 2_000), (1_000, 1_000), (4_000, 4_000)],
        position: [(5_000, 5_000), (0, 0), (150_000, 150_000)],
        speed: (30_000, 30_000),
        turn_speed: (6_000, 6_000),
        color: vec![Color::green()],
        jump_turn_decrease: 3,
    };
    let bot = Bot::new_random(&rules);
    assert_eq!(bot.car.size, Vec3 { x: 2_000, y: 1_000, z: 4_000 });
    assert_eq!(bot.car.position, Vec3 { x: 5_000, y: 0, z: 150_000 });
    assert_eq!(bot.car.speed, 30_000);
    assert_eq!(bot.car.turn_speed, 6_000);
    assert_eq!(bot.car.color, Color::green());
    assert!(!bot.car.jumping);
    assert!(bot.actions.len() <= 5);
}

#[test]
fn random_bot_ranges_hold_over_many_draws() {
    let rules = BoxRules {
        size: [(1_000, 4_000), (500, 2_500), (2_500, 8_000)],
        position: [(0, 15_000), (0, 0), (150_000, 150_000)],
        speed: (20_000, 120_000),
        turn_speed: (5_000, 20_000),
        color: vec![Color::red(), Color::orange()],
        jump_turn_decrease: 3,
    };
    for _ in 0..50 {
        let bot = Bot::new_random(&rules);
        assert!(1_000 <= bot.car.size.x && bot.car.size.x <= 4_000);
        assert!(500 <= bot.car.size.y && bot.car.size.y <= 2_500);
        assert!(2_500 <= bot.car.size.z && bot.car.size.z <= 8_000);
        assert!(0 <= bot.car.position.x && bot.car.position.x <= 15_000);
        assert!(20_000 <= bot.car.speed && bot.car.speed <= 120_000);
        assert!(bot.car.color == Color::red() || bot.car.color == Color::orange());
        for a in &bot.actions {
            match a {
                Action::Rest(t) | Action::TurnLeft(t) | Action::TurnRight(t) => {
                    assert!(250 <= *t && *t <= 1_000)
                },
                Action::Jump => {},
            }
        }
    }
}

#[test]
fn add_bot_appends_within_rules() {
    let mut w = default_world();
    let rules = BoxRules {
        size: [(2_000, 2_000), (1_000, 1_000), (4_000, 4_000)],
        position: [(0, 15_000), (0, 0), (150_000, 150_000)],
        speed: (20_000, 120_000),
        turn_speed: (5_000, 20_000),
        color: vec![Color::red()],
        jump_turn_decrease: 3,
    };
    w.add_bot(&rules);
    assert_eq!(w.bots.len(), 1);
    assert_eq!(w.bots[0].car.position.z, 150_000);
}

#[test]
fn tunel_update_scrolls_and_wraps() {
    let mut w = default_world();
    assert_eq!(w.tunel.divider_state, 7_000);
    assert_eq!(w.tunel.decor_state, 8_000);
    // One second at 20 units/s scrolls 20 units; the divider wraps by
    // 2 * 7 and the decoration by 8.
    w.tunel.update(1_000, 20_000);
    assert_eq!(w.tunel.divider_state, 7_000 - 20_000 + 14_000);
    assert_eq!(w.tunel.decor_state, 8_000 - 20_000 + 8_000);
}

#[test]
fn hit_checks_both_bullet_ends() {
    let bot = test_bot(
        Vec3 { x: 2_000, y: 1_000, z: 4_000 },
        Vec3 { x: 5_000, y: 0, z: 20_000 },
    );
    let mut w = default_world();
    // Tail ends inside the box even though the origin is before it.
    w.add_bullet(
        Vec3 { x: 5_000, y: 500, z: 17_000 },
        Vec3 { x: 0, y: 0, z: 1_000 },
        5_000,
    );
    assert!(bot.hit(&w.bullets[0]));
    let mut w2 = default_world();
    w2.add_bullet(
        Vec3 { x: 5_000, y: 500, z: 10_000 },
        Vec3 { x: 0, y: 0, z: 1_000 },
        5_000,
    );
    assert!(!bot.hit(&w2.bullets[0]));
}
