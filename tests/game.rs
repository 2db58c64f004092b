use spacey::enemy::{SPAWN_DEPTH, UNIT};
use spacey::game::{DEFAULT_SEED, SEED_STEP};
use spacey::{Enemy, EnemyType, GameState, Key};

#[test]
fn test_enemy_spawn() {
    let enemy = Enemy::new(12345);
    assert_eq!(enemy.z, 100_000);
    // Ensure x, y within bounds
    assert!(enemy.x >= -1000 && enemy.x <= 1000);
}

#[test]
fn test_enemy_update() {
    let mut enemy = Enemy::new(1);
    let start_z = enemy.z;
    enemy.update(1000);
    assert_eq!(enemy.z, start_z - 1000);
}

#[test]
fn test_visibility() {
    let mut enemy = Enemy::new(1);
    enemy.z = 100;
    assert!(enemy.is_visible());

    enemy.update(200); // z becomes -100
    assert!(!enemy.is_visible());
}

#[test]
fn enemy_placement_from_seed() {
    let enemy = Enemy::new(12345);
    assert_eq!(enemy.x, 450);
    assert_eq!(enemy.y, 55);
    assert_eq!(enemy.kind, EnemyType::Fighter);
    let low = Enemy::new(0);
    assert_eq!((low.x, low.y, low.z), (-1000, -250, SPAWN_DEPTH));
    let high = Enemy::new(199 + 200 * 99);
    assert_eq!((high.x, high.y), (990, 245));
}

#[test]
fn game_test_initial_state() {
    let game = GameState::new();
    assert_eq!(game.score, 0);
    assert!(!game.paused);
    assert!(!game.should_exit);
    assert!(game.lasers.is_empty());
    // Should have at least one enemy spawned
    assert!(!game.enemies.is_empty());
}

#[test]
fn fresh_game_values() {
    let game = GameState::with_seed(12345);
    assert_eq!((game.ship_x, game.ship_y, game.frame, game.last_fire_frame), (0, 0, 0, 0));
    assert_eq!((game.altitude, game.shield), (1500, 10));
    assert_eq!(game.enemies.len(), 1);
    assert_eq!((game.enemies[0].x, game.enemies[0].y, game.enemies[0].z), (450, 55, 100_000));
    assert_eq!(game.seed, 12345u64.wrapping_add(SEED_STEP));
    assert!(game.is_running());
    let default = GameState::default();
    assert_eq!(default.seed, DEFAULT_SEED.wrapping_add(SEED_STEP));
    assert_eq!(default.enemies.len(), 1);
}

#[test]
fn test_movement_clamping() {
    let mut game = GameState::new();
    game.ship_x = 900;
    game.move_right(); // -> 1.0
    game.move_right(); // -> 1.0 (clamped)
    assert_eq!(game.ship_x, UNIT);

    game.ship_x = -900;
    game.move_left(); // -> -1.0
    game.move_left(); // -> -1.0 (clamped)
    assert_eq!(game.ship_x, -UNIT);
}

#[test]
fn vertical_movement_clamps() {
    let mut game = GameState::new();
    for _ in 0..15 {
        game.move_up();
    }
    assert_eq!(game.ship_y, -1000);
    game.move_down();
    assert_eq!(game.ship_y, -900);
    for _ in 0..30 {
        game.move_down();
        assert!(game.ship_y >= -1000 && game.ship_y <= 1000);
    }
    assert_eq!(game.ship_y, 1000);
}

#[test]
fn test_pause_toggle() {
    let mut game = GameState::new();
    assert!(!game.paused);
    game.toggle_pause();
    assert!(game.paused);
    game.toggle_pause();
    assert!(!game.paused);
}

#[test]
fn test_update_while_paused() {
    let mut game = GameState::new();
    game.paused = true;
    let initial_frame = game.frame;
    game.fire_laser(); // Should ignore input
    game.update();
    assert_eq!(game.frame, initial_frame);
    assert!(game.lasers.is_empty());
}

#[test]
fn paused_game_ignores_moves_and_fire() {
    let mut game = GameState::new();
    for _ in 0..20 {
        game.update();
    }
    game.toggle_pause();
    let frame = game.frame;
    let enemy_z = game.enemies[0].z;
    game.move_left();
    game.move_right();
    game.move_up();
    game.move_down();
    game.move_down();
    game.fire_laser();
    for _ in 0..5 {
        game.update();
    }
    assert_eq!((game.ship_x, game.ship_y), (0, 0));
    assert_eq!(game.frame, frame);
    assert!(game.lasers.is_empty());
    assert_eq!(game.enemies[0].z, enemy_z);
    assert_eq!((game.score, game.altitude), (10, 1502));
    game.toggle_pause();
    assert!(!game.paused);
    game.move_right();
    assert_eq!(game.ship_x, 100);
}

#[test]
fn exit_needs_pause() {
    let mut game = GameState::new();
    game.exit_to_menu();
    assert!(!game.should_exit);
    assert!(game.is_running());
    game.toggle_pause();
    game.exit_to_menu();
    assert!(game.should_exit);
    assert!(!game.is_running());
}

#[test]
fn test_fire_laser() {
    let mut game = GameState::new();
    for _ in 0..10 {
        game.update();
    }

    let prev_count = game.lasers.len();
    game.fire_laser();
    assert_eq!(game.lasers.len(), prev_count + 1);

    // Test cooldown
    game.fire_laser();
    assert_eq!(game.lasers.len(), prev_count + 1); // Should not increase yet
}

#[test]
fn cooldown_is_eight_frames() {
    let mut game = GameState::new();
    game.frame = 8;
    game.fire_laser();
    assert!(game.lasers.is_empty());
    game.frame = 9;
    game.ship_x = 300;
    game.ship_y = -200;
    game.fire_laser();
    assert_eq!(game.lasers.len(), 1);
    assert_eq!((game.lasers[0].x, game.lasers[0].y, game.lasers[0].z), (300, -200, 0));
    assert_eq!(game.last_fire_frame, 9);
    for _ in 0..8 {
        game.update();
        game.fire_laser();
        assert_eq!(game.lasers.len(), 1);
    }
    game.update();
    game.fire_laser();
    assert_eq!(game.lasers.len(), 2);
    assert_eq!(game.last_fire_frame, 18);
}

#[test]
fn test_laser_movement() {
    let mut game = GameState::new();
    game.frame = 10;
    game.fire_laser();
    let initial_z = game.lasers[0].z;
    game.update();
    assert!(game.lasers[0].z > initial_z);
}

#[test]
fn laser_leaves_after_fifty_frames() {
    let mut game = GameState::new();
    game.frame = 10;
    game.fire_laser();
    for n in 1..50 {
        game.update();
        assert_eq!(game.lasers.len(), 1);
        assert_eq!(game.lasers[0].z, 2000 * n);
    }
    game.update();
    assert!(game.lasers.is_empty());
}

#[test]
fn enemy_leaves_after_sixty_seven_frames() {
    let mut game = GameState::new();
    for n in 1..67 {
        game.update();
        assert_eq!(game.enemies.len(), 1);
        assert_eq!(game.enemies[0].z, 100_000 - 1500 * n);
    }
    assert_eq!(game.enemies[0].z, 1000);
    game.update();
    assert!(game.enemies.is_empty());
}

#[test]
fn score_and_altitude_every_ten_frames() {
    let mut game = GameState::new();
    for _ in 0..9 {
        game.update();
    }
    assert_eq!((game.score, game.altitude), (0, 1500));
    game.update();
    assert_eq!((game.score, game.altitude), (5, 1501));
    for _ in 0..10 {
        game.update();
    }
    assert_eq!((game.score, game.altitude), (10, 1502));
    game.toggle_pause();
    for _ in 0..30 {
        game.update();
    }
    assert_eq!((game.score, game.altitude), (10, 1502));
}

#[test]
fn counters_wrap() {
    let mut game = GameState::new();
    game.frame = u64::MAX;
    game.score = u32::MAX - 2;
    game.altitude = u32::MAX;
    game.update();
    assert_eq!(game.frame, 0);
    assert_eq!(game.score, 2);
    assert_eq!(game.altitude, 0);
}

#[test]
fn spawns_every_hundred_fifty_frames() {
    let mut game = GameState::with_seed(0);
    game.enemies.clear();
    for _ in 0..149 {
        game.update();
    }
    assert!(game.enemies.is_empty());
    game.update();
    assert_eq!(game.enemies.len(), 1);
    let first = game.enemies[0];
    assert_eq!(first.z, 100_000 - 1500);
    assert_eq!(first.x, (SEED_STEP % 200) as i64 * 10 - 1000);
    for _ in 0..150 {
        game.update();
    }
    assert_eq!(game.enemies.len(), 1);
    assert_ne!(game.enemies[0].x, first.x);
}

#[test]
fn game_keys() {
    let mut game = GameState::new();
    game.handle_key(Key::Left);
    game.handle_key(Key::Char('a'));
    assert_eq!(game.ship_x, -200);
    game.handle_key(Key::Char('d'));
    game.handle_key(Key::Right);
    game.handle_key(Key::Right);
    assert_eq!(game.ship_x, 100);
    game.handle_key(Key::Char('w'));
    game.handle_key(Key::Up);
    game.handle_key(Key::Char('s'));
    assert_eq!(game.ship_y, -100);
    game.handle_key(Key::Down);
    assert_eq!(game.ship_y, 0);
    game.handle_key(Key::Char('q'));
    assert!(game.is_running());
    game.handle_key(Key::Enter);
    assert!(game.paused);
    game.handle_key(Key::Left);
    assert_eq!(game.ship_x, 100);
    game.handle_key(Key::Char('x'));
    game.handle_key(Key::Char('q'));
    assert!(!game.is_running());
}

#[test]
fn laser_among_others_leaves_after_fifty_frames() {
    let mut game = GameState::new();
    game.frame = 10;
    game.fire_laser();
    for _ in 0..9 {
        game.update();
    }
    game.ship_x = 400;
    game.fire_laser();
    assert_eq!(game.lasers.len(), 2);
    assert_eq!((game.lasers[1].x, game.lasers[1].z), (400, 0));
    for n in 1..50 {
        game.update();
        let middle = game.lasers.iter().find(|l| l.x == 400).map(|l| l.z);
        assert_eq!(middle, Some(2000 * n));
        if n == 20 {
            game.ship_x = -300;
            game.fire_laser();
        }
    }
    game.update();
    assert!(game.lasers.iter().all(|l| l.x != 400));
    assert_eq!(game.lasers.len(), 1);
}

#[test]
fn enemy_among_others_leaves_after_sixty_seven_frames() {
    let mut game = GameState::with_seed(7);
    game.enemies.insert(0, Enemy::new(123));
    game.enemies[0].z = 40_000;
    game.enemies[1].x = 777;
    game.enemies.push(Enemy::new(55));
    for n in 1..67 {
        game.update();
        let followed = game.enemies.iter().find(|e| e.x == 777).map(|e| e.z);
        assert_eq!(followed, Some(100_000 - 1500 * n));
    }
    game.update();
    assert!(game.enemies.iter().all(|e| e.x != 777));
    assert_eq!(game.enemies.len(), 0);
}
