use spacey::{cockpit_art, pause_origin, pause_text, Enemy, EnemyType, GameState};

fn text(chars: &[char]) -> String {
    chars.iter().collect()
}

fn game_at(ship_x: i64, ship_y: i64, frame: u64) -> GameState {
    let mut game = GameState::new();
    game.enemies.clear();
    game.ship_x = ship_x;
    game.ship_y = ship_y;
    game.frame = frame;
    game
}

fn enemy(x: i64, y: i64, z: i64) -> Enemy {
    Enemy { x, y, z, kind: EnemyType::Fighter }
}

#[test]
fn trench_centred() {
    let rows: Vec<String> = game_at(0, 0, 0).trench_grid(40, 10).iter().map(|r| text(r)).collect();
    let expected = vec![
        "    ------ --------- --------- -----/   ",
        "|||||||--- --------- --------- -||||||||",
        "          \\--------- --------/          ",
        "   ||||||||||------- -----||||||||||    ",
        "                ---- --/                ",
        "                                        ",
        "                ---- --\\                ",
        "   ||||||||||------- -----||||||||||    ",
        "          /--------- --------\\          ",
        "|||||||--- --------- --------- -||||||||",
    ];
    assert_eq!(rows, expected);
}

#[test]
fn trench_follows_ship_and_frame() {
    let rows: Vec<String> = game_at(500, -300, 7).trench_grid(60, 16).iter().map(|r| text(r)).collect();
    let expected = vec![
        "                                               /            ",
        "                                            /               ",
        "                                         /                  ",
        "||\\                                   ||||||||||            ",
        "     \\                             /                        ",
        "        \\                       /                           ",
        "           \\                 /                              ",
        "              \\           /                                 ",
        "                 \\     /                                    ",
        "                                                            ",
        "                 /     \\                                    ",
        "              /           \\                                 ",
        "           /                 \\                              ",
        "        /                       \\                           ",
        "     /                             \\                        ",
        "||/                                   ||||||||||            ",
    ];
    assert_eq!(rows, expected);
}

#[test]
fn trench_of_empty_view() {
    assert!(game_at(0, 0, 0).trench_grid(30, 0).is_empty());
    let rows = game_at(0, 0, 0).trench_grid(0, 3);
    assert_eq!(rows.len(), 3);
    assert!(rows.iter().all(|r| r.is_empty()));
}

#[test]
fn starfield_scrolls_with_ship() {
    assert_eq!(text(&game_at(0, 0, 0).sky_row(20)), "*  *   *  *   *  *  ");
    assert_eq!(text(&game_at(350, 0, 0).sky_row(20)), "*   *  *   *  *   * ");
    assert_eq!(text(&game_at(-350, 0, 0).sky_row(20)), "   *  *   *  *   *  ");
    assert!(game_at(0, 0, 0).sky_row(0).is_empty());
}

#[test]
fn enemy_sprites_by_distance() {
    let mut game = game_at(0, 0, 0);
    game.enemies.push(enemy(450, 55, 100_000));
    game.enemies.push(enemy(200, -100, 30_000));
    game.enemies.push(enemy(-500, 200, 10_000));
    game.enemies.push(enemy(900, 0, 5_000));
    game.enemies.push(enemy(0, 0, 1_000));
    let sprites = game.enemy_sprites(80, 20);
    let placed: Vec<(u16, u16, &str)> = sprites.iter().map(|s| (s.col, s.row, s.glyph)).collect();
    assert_eq!(placed, vec![(58, 10, "."), (66, 6, "-o-")]);
}

#[test]
fn enemy_sprites_follow_ship() {
    let mut game = game_at(300, -200, 0);
    game.enemies.push(enemy(-200, 100, 40_000));
    game.enemies.push(enemy(0, 0, 15_000));
    let sprites = game.enemy_sprites(80, 20);
    let placed: Vec<(u16, u16, &str)> = sprites.iter().map(|s| (s.col, s.row, s.glyph)).collect();
    assert_eq!(placed, vec![(12, 13, "-o-"), (32, 11, "/-\\")]);
}

#[test]
fn cockpit_is_centred_and_shifted() {
    let art = cockpit_art();
    assert_eq!(art.len(), 14);
    let lines = game_at(0, 0, 0).cockpit_lines(80);
    assert_eq!(lines.len(), 14);
    for (line, row) in lines.iter().zip(art.iter()) {
        assert_eq!(text(line), format!("{}{}", " ".repeat(18), row));
    }
    // The cockpit moves opposite the ship: four cells per unit of offset.
    let right = game_at(1000, 0, 0).cockpit_lines(80);
    assert_eq!(text(&right[0]), format!("{}{}", " ".repeat(14), art[0]));
    let wide = game_at(1000, 0, 0).cockpit_lines(100);
    assert_eq!(text(&wide[0]), format!("{}{}", " ".repeat(24), art[0]));
    let left = game_at(-600, 0, 0).cockpit_lines(81);
    assert_eq!(text(&left[3]), format!("{}{}", " ".repeat(20), art[3]));
    let narrow = game_at(-1000, 0, 0).cockpit_lines(20);
    assert_eq!(text(&narrow[13]), art[13]);
    let narrow_right = game_at(1000, 0, 0).cockpit_lines(20);
    assert_eq!(text(&narrow_right[5]), art[5]);
}

#[test]
fn hud_line_format() {
    let game = GameState::new();
    assert_eq!(
        text(&game.hud_line()),
        "SHIELD: ||||||||   LASER: READY   ALTITUDE: 1500   SCORE: 000000"
    );
    let mut game = GameState::new();
    game.shield = 3;
    game.altitude = 7;
    game.score = 1234;
    assert_eq!(
        text(&game.hud_line()),
        "SHIELD: ||         LASER: READY   ALTITUDE:    7   SCORE: 001234"
    );
    game.shield = 0;
    game.altitude = 123456;
    game.score = 4294967295;
    assert_eq!(
        text(&game.hud_line()),
        "SHIELD:            LASER: READY   ALTITUDE: 123456   SCORE: 4294967295"
    );
}

#[test]
fn shield_gauge_is_proportional() {
    let mut game = GameState::new();
    let gauge = |g: &GameState| text(&g.hud_line()[8..16]);
    let expected = ["        ", "        ", "|       ", "||      ", "|||     ", "||||    ", "||||    ",
        "|||||   ", "||||||  ", "||||||| ", "||||||||"];
    for (level, bars) in expected.iter().enumerate() {
        game.shield = level as u8;
        assert_eq!(gauge(&game), *bars, "shield {}", level);
    }
}

#[test]
fn pause_box_is_centred() {
    assert_eq!(pause_origin(80, 25), (25, 10));
    assert_eq!(pause_origin(31, 6), (0, 0));
    assert_eq!(pause_origin(20, 3), (0, 0));
    assert_eq!(pause_text(), &["", "[ PAUSED ]", "", "Press ENTER to resume", "Press Q to return to menu"]);
}
