use asteroids_core::flow::{Flow, GameState, InputState, exit_to_menu, manage_inputs, overlay_text};
use asteroids_core::geom::Vec2i;
use asteroids_core::laser::{Laser, restrict_lasers_range};
use asteroids_core::vessel::{
    Player, activate_thrust, fire_lasers, move_vessel, restart, rotate_vessel, setup_vessel,
};

fn idle() -> InputState {
    InputState::idle()
}

#[test]
fn fresh_vessel_has_three_lives() {
    let p = setup_vessel(1);
    assert_eq!(p.lifes, 3);
    assert_eq!(p.name, "Anakin");
    assert_eq!(p.pos, Vec2i::new(0, 0));
    assert_eq!(p.heading, 0);
    assert!(p.visible);
}

#[test]
fn fatal_hit_with_no_lives_left_goes_to_game_over() {
    let mut p = setup_vessel(1);
    p.lifes = 0;
    let mut flow = Flow { state: GameState::InGame, next: None };
    restart(&mut p, &mut flow);
    assert_eq!(flow.next, Some(GameState::GameOver));
    assert_eq!(flow.state, GameState::InGame, "applied only at the boundary");
    assert_eq!(p.lifes, 0);
    assert!(p.visible);
}

#[test]
fn fatal_hit_with_lives_left_respawns_at_origin() {
    let mut p = setup_vessel(1);
    p.lifes = 2;
    p.pos = Vec2i::new(400_000, -300_000);
    p.speed = Vec2i::new(50_000, 60_000);
    p.heading = 7;
    p.visible = false;
    let mut flow = Flow { state: GameState::InGame, next: None };
    restart(&mut p, &mut flow);
    assert_eq!(p.lifes, 1);
    assert_eq!(p.pos, Vec2i::new(0, 0));
    assert_eq!(p.speed, Vec2i::new(0, 0));
    assert_eq!(p.heading, 0);
    assert!(p.visible);
    assert_eq!(flow.next, None, "no transition while lives remain");
}

#[test]
fn rotation_is_a_fixed_step_and_wraps() {
    let mut p = setup_vessel(1);
    let mut left = idle();
    left.rotate_left = true;
    rotate_vessel(&mut p, &left);
    assert_eq!(p.heading, 1);
    let mut right = idle();
    right.rotate_right = true;
    rotate_vessel(&mut p, &right);
    rotate_vessel(&mut p, &right);
    assert_eq!(p.heading, 47, "wraps below zero");
    let mut stick = idle();
    stick.axis_x_milli = 700;
    rotate_vessel(&mut p, &stick);
    assert_eq!(p.heading, 46, "stick past six tenths rotates clockwise");
    stick.axis_x_milli = -700;
    rotate_vessel(&mut p, &stick);
    assert_eq!(p.heading, 47);
    stick.axis_x_milli = 500;
    rotate_vessel(&mut p, &stick);
    assert_eq!(p.heading, 47, "a centered stick does nothing");
}

#[test]
fn thrust_points_along_the_heading() {
    let mut p = setup_vessel(1);
    // Heading 0 points straight up.
    let i0 = activate_thrust(&p);
    assert_eq!(i0, Vec2i::new(0, 10_000_000));
    // A quarter turn counterclockwise points left.
    p.heading = 12;
    let i12 = activate_thrust(&p);
    assert_eq!(i12, Vec2i::new(-10_000_000, 0));
    let mut input = idle();
    assert!(move_vessel(&p, &input).is_none());
    input.thrust = true;
    assert_eq!(move_vessel(&p, &input), Some(i12));
}

#[test]
fn firing_spawns_two_lasers_and_respects_cooldown() {
    let mut p = setup_vessel(1);
    p.pos = Vec2i::new(100_000, 200_000);
    p.speed = Vec2i::new(5000, 6000);
    let mut fire = idle();
    fire.fire = true;
    let r = fire_lasers(&mut p, &fire, 16, 40);
    let (l1, l2) = r.expect("cooldown starts elapsed");
    assert_eq!(l1.id, 40);
    assert_eq!(l2.id, 41);
    // Muzzles at (-22, 27) and (22, 27) world units, heading up.
    assert_eq!(l1.pos, Vec2i::new(100_000 - 22_000, 200_000 + 27_000));
    assert_eq!(l2.pos, Vec2i::new(100_000 + 22_000, 200_000 + 27_000));
    // Muzzle speed 1000 units/s along the heading, on top of the vessel's.
    assert_eq!(l1.speed, Vec2i::new(5000, 6000 + 1_000_000));
    assert_eq!(l2.speed, l1.speed);
    assert_eq!(l1.ttl_ms, 500);
    assert_eq!(p.fire_cooldown_ms, 200);
    // Held fire during the cooldown spawns nothing.
    assert!(fire_lasers(&mut p, &fire, 100, 42).is_none());
    assert_eq!(p.fire_cooldown_ms, 100);
    // Once it has elapsed the next pair leaves.
    assert!(fire_lasers(&mut p, &fire, 100, 42).is_some());
}

#[test]
fn laser_expires_at_flight_time() {
    let l = Laser {
        id: 9,
        pos: Vec2i::new(0, 0),
        heading: 0,
        speed: Vec2i::new(0, 1_000_000),
        ttl_ms: 500,
    };
    let mut lasers = vec![l];
    restrict_lasers_range(&mut lasers, 200);
    assert_eq!(lasers.len(), 1);
    assert_eq!(lasers[0].ttl_ms, 300);
    restrict_lasers_range(&mut lasers, 200);
    assert_eq!(lasers[0].ttl_ms, 100);
    restrict_lasers_range(&mut lasers, 100);
    assert_eq!(lasers.len(), 0, "gone exactly when its time is up");
}

#[test]
fn menu_inputs_drive_the_flow() {
    let mut flow = Flow::new();
    assert_eq!(flow.state, GameState::Menu);
    let mut start = InputState::idle();
    start.start = true;
    let exit_app = manage_inputs(&mut flow, &start);
    assert!(!exit_app);
    assert_eq!(flow.next, Some(GameState::InGame));
    assert_eq!(flow.apply_pending(), Some((GameState::Menu, GameState::InGame)));
    assert_eq!(flow.state, GameState::InGame);
    assert_eq!(flow.next, None);

    exit_to_menu(&mut flow);
    assert_eq!(flow.next, Some(GameState::Menu));
    flow.apply_pending();
    assert_eq!(flow.state, GameState::Menu);

    let mut quit = InputState::idle();
    quit.exit = true;
    assert!(manage_inputs(&mut flow, &quit), "exit at the menu quits");

    flow.state = GameState::GameOver;
    let mut resume = InputState::idle();
    resume.resume = true;
    assert!(!manage_inputs(&mut flow, &resume));
    assert_eq!(flow.next, Some(GameState::Menu));
}

#[test]
fn overlay_texts() {
    assert_eq!(overlay_text(GameState::Menu), Some("Asteroids\nPress Space to start"));
    assert_eq!(overlay_text(GameState::GameOver), Some("Game Over\nPress Space to continue"));
    assert_eq!(overlay_text(GameState::InGame), None);
    assert_eq!(overlay_text(GameState::Paused), None);
}
