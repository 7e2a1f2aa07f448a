use boxcrash::color::Color;
use boxcrash::control::{next_state, Flow, State};
use boxcrash::game::{Button, Game, GameConfig, Turn};
use boxcrash::geom::Vec3;
use boxcrash::menu::{PlayAgainMenu, StartMenu};
use boxcrash::ui::EventLoop;

#[test]
fn default_config_matches_the_shipped_tuning() {
    let c = GameConfig::default();
    assert_eq!(c.title, "Box Crash");
    assert_eq!((c.screen_size.w, c.screen_size.h), (800, 600));
    assert_eq!(c.tunel_size, Vec3::new(15_000, 8_000, 150_000));
    assert_eq!(c.player_size, Vec3::new(1_500, 800, 3_000));
    assert_eq!(c.player_speed, (20_000, 120_000));
    assert_eq!(c.bot_size, [(1_000, 4_000), (500, 2_500), (2_500, 8_000)]);
    assert_eq!(c.bullet_stock, 15);
    assert_eq!(c.player_jump_v, 7_000);
    assert_eq!(c.player_jump_a, 5_000);
    assert!(!c.zoom_in);
}

#[test]
fn colors_carry_their_channels() {
    assert_eq!(Color::red(), Color { r: 1000, g: 0, b: 0, a: 1000 });
    assert_eq!(Color::pale(), Color { r: 300, g: 300, b: 300, a: 100 });
    assert_eq!(Color::blue().alpha(400), Color { r: 0, g: 0, b: 1000, a: 400 });
}

#[test]
fn menus_decide_their_flows() {
    let start = StartMenu::new();
    assert_eq!(start.flow(true), Some(Flow::StartGame));
    assert_eq!(start.flow(false), None);
    assert_eq!(start.button_label(), "Start game");
    let again = PlayAgainMenu::new();
    assert_eq!(again.flow(true), Some(Flow::PlayAgain));
    assert_eq!(again.flow(false), None);
    assert_eq!(again.button_label(), "Play again");
    assert_eq!(again.title(), "You lose!!");
}

#[test]
fn control_state_follows_flows() {
    assert_eq!(next_state(State::StartMenu, Some(Flow::StartGame)), State::Playing);
    assert_eq!(next_state(State::Playing, Some(Flow::LoseGame)), State::PlayAgainMenu);
    assert_eq!(next_state(State::PlayAgainMenu, Some(Flow::PlayAgain)), State::Playing);
    assert_eq!(next_state(State::StartMenu, None), State::StartMenu);
}

#[test]
fn event_loop_paces_frames() {
    let mut ev = EventLoop::new(100);
    assert!(ev.ui_needs_update);
    assert_eq!(ev.sleep_needed(100), 16);
    assert_eq!(ev.sleep_needed(110), 6);
    assert_eq!(ev.sleep_needed(200), 0);
    // The host should only block for events when none are pending and no
    // redraw is owed.
    assert!(!ev.wait_for_event(true));
    assert!(!ev.wait_for_event(false));
    ev.end_frame(200);
    assert!(!ev.ui_needs_update);
    assert!(ev.wait_for_event(false));
    ev.needs_update();
    assert!(!ev.wait_for_event(false));
    assert_eq!(ev.last_update, 200);
}

#[test]
fn pressing_and_releasing_turns() {
    let mut g = Game::new(GameConfig::default());
    g.press(Button::Left);
    assert!(matches!(g.state.turn, Turn::Left));
    // Releasing the other direction changes nothing.
    g.release(Button::Right);
    assert!(matches!(g.state.turn, Turn::Left));
    g.release(Button::Left);
    assert!(matches!(g.state.turn, Turn::Straight));
    g.press(Button::Sprint);
    assert!(g.state.sprint);
    g.release(Button::Sprint);
    assert!(!g.state.sprint);
}

#[test]
fn jump_press_respects_the_timeout() {
    let mut g = Game::new(GameConfig::default());
    g.press(Button::Jump);
    assert!(g.world.player.jumping);
    assert_eq!(g.state.jump_timeout, 8_000);
    // While the timeout runs, a second press neither resets it nor
    // restarts the jump.
    g.world.player.jumping = false;
    g.press(Button::Jump);
    assert!(!g.world.player.jumping);
}

#[test]
fn firing_needs_look_mode_and_spends_a_bullet() {
    let mut g = Game::new(GameConfig::default());
    g.press(Button::Fire);
    assert_eq!(g.state.bullets, 15);
    assert!(g.world.bullets.is_empty());
    g.press(Button::Look);
    assert!(g.state.rotate_cam);
    g.press(Button::Fire);
    assert_eq!(g.state.bullets, 14);
    assert_eq!(g.world.bullets.len(), 1);
    // The muzzle sits one car height above the player's position.
    assert_eq!(
        g.world.bullets[0].origin,
        Vec3 { x: 7_500, y: 800, z: 10_000 },
    );
    g.release(Button::Look);
    assert!(!g.state.rotate_cam);
}

// A shot whose aim degenerates (here the camera has swung a quarter
// turn, so it points past its own plane) spends a bullet but fires
// nothing.
#[test]
fn degenerate_aim_spends_the_bullet_without_firing() {
    let mut g = Game::new(GameConfig::default());
    g.press(Button::Look);
    // sin = 1000, cos = 0 around the y axis: c swings to (500, 0, 0).
    g.mouse_look(1_000, 0, 0, 1_000);
    assert_eq!(g.camera.c, Vec3::new(500, 0, 0));
    g.press(Button::Fire);
    assert_eq!(g.state.bullets, 14);
    assert!(g.world.bullets.is_empty());
}

#[test]
fn game_update_runs_a_quiet_tick_exactly() {
    let mut g = Game::new(GameConfig::default());
    // Avoid the spawn roll on this tick.
    g.state.spawn = 5_000;
    g.update(16);
    // The game speed ramps by dt * game_sprint / 1000 = 16.
    assert_eq!(g.state.game_speed, 16);
    assert_eq!(g.state.jump_timeout, -16);
    assert_eq!(g.state.spawn, 5_000 - 16);
    // The player's z never changes; x stays centred.
    assert_eq!(g.world.player.position, Vec3 { x: 7_500, y: 0, z: 10_000 });
    assert!(!g.state.ended);
    assert_eq!(g.flow(), None);
}

#[test]
fn game_update_spawns_when_the_clock_runs_out() {
    let mut g = Game::new(GameConfig::default());
    g.state.spawn = 0;
    g.update(16);
    assert_eq!(g.world.bots.len(), 1);
    // The new spawn delay is drawn from (250, 1000), minus the elapsed 16.
    assert!(234 <= g.state.spawn && g.state.spawn <= 984);
    let z = g.world.bots[0].car.position.z;
    assert!(0 < z && z <= 150_000);
}

#[test]
fn game_ends_on_a_collision() {
    let mut g = Game::new(GameConfig::default());
    g.state.spawn = 5_000;
    // A bot right on top of the player.
    g.world.bots.push(boxcrash::bot::Bot {
        car: boxcrash::car::Car {
            size: Vec3::new(2_000, 1_000, 4_000),
            position: Vec3::new(7_500, 0, 10_500),
            speed: 0,
            turn_speed: 5_000,
            color: Color::red(),
            jump_v: 5_000,
            jump_a: 7_000,
            jumping: false,
            current_t: 0,
            jump_turn_decrease: 3,
        },
        actions: Vec::new(),
    });
    g.update(16);
    assert!(g.state.ended);
    assert_eq!(g.flow(), Some(Flow::LoseGame));
}

#[test]
fn sprinting_ramps_the_player_speed() {
    let mut g = Game::new(GameConfig::default());
    g.state.spawn = 5_000;
    assert_eq!(g.world.player.speed, 20_000);
    g.press(Button::Sprint);
    g.update(1_000);
    // One full second of sprint adds sprint_factor = 15_000.
    assert_eq!(g.world.player.speed, 35_000);
    g.release(Button::Sprint);
    g.state.spawn = 5_000;
    g.update(1_000);
    assert_eq!(g.world.player.speed, 20_000);
}

#[test]
fn world_renders_some_wireframe() {
    let g = Game::new(GameConfig::default());
    let lines = g.world.render(&g.camera);
    // At least the tunnel's walls and the player's box show up.
    assert!(lines.len() > 10);
}

#[test]
fn update_fps_caps_the_time_step() {
    let mut g = Game::new(GameConfig::default());
    g.update_fps(16);
    assert_eq!(g.state.frame_ms, 16);
    g.update_fps(5_000);
    assert_eq!(g.state.frame_ms, 1_000);
}
