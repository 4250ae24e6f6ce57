use arcade_core::close;
use arcade_core::enemy_at;
use arcade_core::input_velocity;
use arcade_core::player_touches_enemy;
use arcade_core::setup_enemy;
use arcade_core::setup_player;
use arcade_core::spawn_projectile;
use arcade_core::GameColor;
use arcade_core::GameState;
use arcade_core::InputState;
use arcade_core::Rectangle;
use arcade_core::Vec2i;

const W: i64 = 800000000;
const H: i64 = 600000000;

fn no_keys() -> InputState {
    InputState {
        left: false,
        right: false,
        up: false,
        down: false,
        fire_pressed: false,
        restart_held: false,
    }
}

fn entity(x: i64, y: i64, size: i64) -> Rectangle {
    Rectangle {
        pos: Vec2i { x, y },
        velocity: Vec2i { x: 0, y: 0 },
        color: GameColor::Green,
        speed: 0,
        size,
        destroy: false,
    }
}

#[test]
fn integrate_moves_by_velocity_speed_dt() {
    let mut e = Rectangle {
        pos: Vec2i { x: 10000000, y: 20000000 },
        velocity: Vec2i { x: 0, y: 1000 },
        color: GameColor::Green,
        speed: 200,
        size: 30,
        destroy: false,
    };
    e.move_rectangle(16);
    assert_eq!(e.pos.x, 10000000);
    assert_eq!(e.pos.y, 20000000 + 1000 * 200 * 16);
}

#[test]
fn integrate_moves_upward_exactly() {
    let mut e = Rectangle {
        pos: Vec2i { x: 0, y: 0 },
        velocity: Vec2i { x: 0, y: -1000 },
        color: GameColor::Yellow,
        speed: 400,
        size: 25,
        destroy: false,
    };
    e.move_rectangle(16);
    assert_eq!(e.pos.y, -6400000);
    let before = e;
    e.move_rectangle(0);
    assert_eq!(e, before);
}

#[test]
fn input_velocity_zero_when_no_keys() {
    let v = input_velocity(&no_keys());
    assert_eq!(v, Vec2i { x: 0, y: 0 });
}

#[test]
fn input_velocity_axis_aligned_is_full_unit() {
    let mut keys = no_keys();
    keys.right = true;
    assert_eq!(input_velocity(&keys), Vec2i { x: 1000, y: 0 });
    keys = no_keys();
    keys.left = true;
    assert_eq!(input_velocity(&keys), Vec2i { x: -1000, y: 0 });
    keys = no_keys();
    keys.up = true;
    assert_eq!(input_velocity(&keys), Vec2i { x: 0, y: -1000 });
    keys = no_keys();
    keys.down = true;
    assert_eq!(input_velocity(&keys), Vec2i { x: 0, y: 1000 });
}

#[test]
fn input_velocity_diagonal_is_normalized() {
    let mut keys = no_keys();
    keys.right = true;
    keys.up = true;
    let v = input_velocity(&keys);
    assert_eq!(v, Vec2i { x: 707, y: -707 });
    let mag_sq = v.x * v.x + v.y * v.y;
    assert!(mag_sq <= 1000 * 1000);
    assert!(mag_sq >= 999698);
}

#[test]
fn input_velocity_right_wins_over_left_and_up_over_down() {
    let mut keys = no_keys();
    keys.right = true;
    keys.left = true;
    assert_eq!(input_velocity(&keys), Vec2i { x: 1000, y: 0 });
    keys = no_keys();
    keys.up = true;
    keys.down = true;
    assert_eq!(input_velocity(&keys), Vec2i { x: 0, y: -1000 });
}

#[test]
fn player_starts_at_canonical_position() {
    let p = setup_player(W, H);
    assert_eq!(p.pos, Vec2i { x: W / 2 - 30000000, y: H - 100000000 });
    assert_eq!(p.velocity, Vec2i { x: 0, y: 0 });
    assert_eq!(p.speed, 250);
    assert_eq!(p.size, 60);
    assert_eq!(p.color, GameColor::Green);
    assert!(!p.destroy);
}

#[test]
fn enemy_spawns_on_top_edge_moving_down() {
    let e = enemy_at(123456);
    assert_eq!(e.pos, Vec2i { x: 123456, y: 0 });
    assert_eq!(e.velocity, Vec2i { x: 0, y: 1000 });
    assert_eq!(e.speed, 200);
    assert_eq!(e.size, 30);
    assert!(!e.destroy);
}

#[test]
fn random_enemy_position_stays_inside_screen_width() {
    for _ in 0..200 {
        let e = setup_enemy(W);
        assert!(0 <= e.pos.x && e.pos.x < W);
        assert_eq!(e.pos.y, 0);
    }
    for _ in 0..50 {
        let e = setup_enemy(1);
        assert_eq!(e.pos.x, 0);
    }
}

#[test]
fn projectile_is_offset_by_a_third_of_player_size() {
    let p = setup_player(W, H);
    let pr = spawn_projectile(&p);
    assert_eq!(pr.pos, Vec2i { x: p.pos.x + 20000000, y: p.pos.y + 20000000 });
    assert_eq!(pr.velocity, Vec2i { x: 0, y: -1000 });
    assert_eq!(pr.speed, 400);
    assert_eq!(pr.size, 25);
    assert_eq!(pr.color, GameColor::Yellow);
    assert!(!pr.destroy);
}

#[test]
fn spawn_timer_one_enemy_per_full_interval() {
    let mut g = GameState::new(W, H);
    let keys = no_keys();
    g.frame_with_spawn_x(400, &keys, W, H, 111);
    assert_eq!(g.enemies.len(), 0);
    assert_eq!(g.spawn_timer, 600);
    g.frame_with_spawn_x(400, &keys, W, H, 222);
    assert_eq!(g.enemies.len(), 0);
    assert_eq!(g.spawn_timer, 200);
    g.frame_with_spawn_x(200, &keys, W, H, 333);
    assert_eq!(g.enemies.len(), 1);
    assert_eq!(g.spawn_timer, 1000);
    assert_eq!(g.enemies[0].pos.x, 333);
    // the fresh enemy moved during its own frame: 200 ms at 200 units/s
    assert_eq!(g.enemies[0].pos.y, 1000 * 200 * 200);
}

#[test]
fn spawn_timer_discards_overshoot() {
    let mut g = GameState::new(W, H);
    let keys = no_keys();
    g.frame_with_spawn_x(1700, &keys, W, H, 0);
    assert_eq!(g.enemies.len(), 1);
    assert_eq!(g.spawn_timer, 1000);
}

#[test]
fn collision_destroys_pair_and_scores_once() {
    let mut g = GameState::new(W, H);
    let mut enemy = entity(100000000, 100000000, 30);
    enemy.velocity = Vec2i { x: 0, y: 1000 };
    enemy.speed = 200;
    let mut shot = entity(110000000, 105000000, 25);
    shot.velocity = Vec2i { x: 0, y: -1000 };
    shot.speed = 400;
    shot.color = GameColor::Yellow;
    g.enemies.push(enemy);
    g.projectiles.push(shot);
    g.collide(H);
    assert!(g.enemies[0].destroy);
    assert!(g.projectiles[0].destroy);
    assert_eq!(g.score, 1);
    assert!(!g.game_over);
    g.cleanup();
    assert!(g.enemies.is_empty());
    assert!(g.projectiles.is_empty());
}

#[test]
fn collision_miss_changes_nothing() {
    let mut g = GameState::new(W, H);
    g.enemies.push(entity(100000000, 100000000, 30));
    g.projectiles.push(entity(200000000, 200000000, 25));
    g.collide(H);
    assert!(!g.enemies[0].destroy);
    assert!(!g.projectiles[0].destroy);
    assert_eq!(g.score, 0);
    g.cleanup();
    assert_eq!(g.enemies.len(), 1);
    assert_eq!(g.projectiles.len(), 1);
}

#[test]
fn collision_threshold_is_strict() {
    // at exactly the enemy's edge length the pair does not collide
    let enemy = entity(0, 0, 30);
    let at_edge = entity(30000000, 0, 25);
    assert!(!close(&enemy, &at_edge));
    let just_inside = entity(29999999, 0, 25);
    assert!(close(&enemy, &just_inside));
}

#[test]
fn one_projectile_can_score_against_two_enemies() {
    let mut g = GameState::new(W, H);
    g.enemies.push(entity(100000000, 100000000, 30));
    g.enemies.push(entity(105000000, 105000000, 30));
    g.projectiles.push(entity(110000000, 105000000, 25));
    g.collide(H);
    assert_eq!(g.score, 2);
    assert!(g.enemies[0].destroy);
    assert!(g.enemies[1].destroy);
    assert!(g.projectiles[0].destroy);
}

#[test]
fn enemy_past_bottom_edge_ends_the_game() {
    let mut g = GameState::new(W, H);
    let mut enemy = entity(100000000, H + 1, 30);
    enemy.velocity = Vec2i { x: 0, y: 1000 };
    enemy.speed = 200;
    g.enemies.push(enemy);
    g.frame_with_spawn_x(0, &no_keys(), W, H, 0);
    assert!(g.game_over);
    assert!(g.enemies.is_empty());
}

#[test]
fn enemy_exactly_on_bottom_edge_keeps_playing() {
    let mut g = GameState::new(W, H);
    g.enemies.push(entity(100000000, H, 30));
    g.frame_with_spawn_x(0, &no_keys(), W, H, 0);
    assert!(!g.game_over);
    assert_eq!(g.enemies.len(), 1);
}

#[test]
fn restart_resets_everything() {
    let mut g = GameState::new(W, H);
    g.enemies.push(entity(1000000, 1000000, 30));
    g.projectiles.push(entity(2000000, 2000000, 25));
    g.score = 7;
    g.spawn_timer = 400;
    g.game_over = true;
    let mut keys = no_keys();
    keys.restart_held = true;
    g.frame_with_spawn_x(16, &keys, W, H, 0);
    assert!(!g.game_over);
    assert_eq!(g.score, 0);
    assert!(g.enemies.is_empty());
    assert!(g.projectiles.is_empty());
    assert_eq!(g.spawn_timer, 1000);
    assert_eq!(g.player, setup_player(W, H));
}

#[test]
fn game_over_without_restart_key_freezes_the_state() {
    let mut g = GameState::new(W, H);
    g.enemies.push(entity(1000000, 1000000, 30));
    g.score = 7;
    g.game_over = true;
    let before_enemies = g.enemies.clone();
    g.frame_with_spawn_x(500, &no_keys(), W, H, 0);
    assert!(g.game_over);
    assert_eq!(g.score, 7);
    assert_eq!(g.enemies, before_enemies);
    assert_eq!(g.spawn_timer, 1000);
}

#[test]
fn cleanup_twice_is_the_same_as_once() {
    let mut g = GameState::new(W, H);
    g.enemies.push(entity(1, 1, 30));
    let mut dead = entity(2, 2, 30);
    dead.destroy = true;
    g.enemies.push(dead);
    g.enemies.push(entity(3, 3, 30));
    g.projectiles.push(dead);
    g.cleanup();
    let enemies_once = g.enemies.clone();
    let projectiles_once = g.projectiles.clone();
    assert_eq!(enemies_once.len(), 2);
    assert_eq!(enemies_once[0].pos, Vec2i { x: 1, y: 1 });
    assert_eq!(enemies_once[1].pos, Vec2i { x: 3, y: 3 });
    assert!(projectiles_once.is_empty());
    g.cleanup();
    assert_eq!(g.enemies, enemies_once);
    assert_eq!(g.projectiles, projectiles_once);
}

#[test]
fn fire_press_appends_one_projectile_at_the_player() {
    let mut g = GameState::new(W, H);
    let player_before = g.player;
    let mut keys = no_keys();
    keys.fire_pressed = true;
    g.frame_with_spawn_x(16, &keys, W, H, 0);
    assert_eq!(g.projectiles.len(), 1);
    let pr = g.projectiles[0];
    // anchored to the pre-move player position, then moved 16 ms at 400 u/s
    assert_eq!(pr.pos.x, player_before.pos.x + 20000000);
    assert_eq!(pr.pos.y, player_before.pos.y + 20000000 - 1000 * 400 * 16);
    // held fire does not repeat: only a fresh press fires
    let mut held = no_keys();
    held.fire_pressed = false;
    g.frame_with_spawn_x(16, &held, W, H, 0);
    assert_eq!(g.projectiles.len(), 1);
}

#[test]
fn player_moves_with_held_keys() {
    let mut g = GameState::new(W, H);
    let start = g.player.pos;
    let mut keys = no_keys();
    keys.right = true;
    g.frame_with_spawn_x(16, &keys, W, H, 0);
    assert_eq!(g.player.pos.x, start.x + 1000 * 250 * 16);
    assert_eq!(g.player.pos.y, start.y);
    keys.up = true;
    g.frame_with_spawn_x(16, &keys, W, H, 0);
    assert_eq!(g.player.pos.x, start.x + 1000 * 250 * 16 + 707 * 250 * 16);
    assert_eq!(g.player.pos.y, start.y - 707 * 250 * 16);
}

#[test]
fn player_enemy_contact_is_detected_but_harmless() {
    let mut g = GameState::new(W, H);
    let mut enemy = entity(g.player.pos.x + 40000000, g.player.pos.y, 30);
    enemy.velocity = Vec2i { x: 0, y: 1000 };
    enemy.speed = 200;
    g.enemies.push(enemy);
    assert!(player_touches_enemy(&g.player, &g.enemies));
    let score_before = g.score;
    g.frame_with_spawn_x(0, &no_keys(), W, H, 0);
    // contact with the player destroys nothing and ends nothing
    assert_eq!(g.enemies.len(), 1);
    assert_eq!(g.score, score_before);
    assert!(!g.game_over);
    let far = vec![entity(0, 0, 30)];
    assert!(!player_touches_enemy(&setup_player(W, H), &far));
}

#[test]
fn within_limits_accepts_fresh_state_and_rejects_runaways() {
    let mut g = GameState::new(W, H);
    assert!(g.within_limits());
    assert!(g.well_formed());
    g.projectiles.push(entity(0, -1000000000000001, 25));
    assert!(!g.within_limits());
    assert!(!g.well_formed());
}

#[test]
fn full_frames_drive_a_short_session() {
    let mut g = GameState::new(W, H);
    let keys = no_keys();
    for _ in 0..120 {
        assert!(g.well_formed());
        g.frame(16, &keys, W, H);
    }
    // 120 frames of 16 ms pass 1.92 seconds: one spawn at 1000 ms, the
    // second due at 2000 ms has not fallen yet
    assert_eq!(g.enemies.len(), 1);
    assert!(0 <= g.enemies[0].pos.x && g.enemies[0].pos.x < W);
    assert!(!g.game_over);
}
