//! The game state machine: ship movement, enemy spawning and approach,
//! projectiles, scoring and pause.
use vstd::prelude::*;

use crate::enemy::{approached, spawned, visible, Enemy, SPAWN_DEPTH, UNIT};

verus! {

/// How far one move shifts the ship's view, in thousandths.
pub const SHIP_STEP: i64 = 100;

/// How far enemies approach in one frame.
pub const ENEMY_SPEED: i64 = 1500;

/// How far projectiles travel in one frame.
pub const LASER_SPEED: i64 = 2000;

/// Depth at which projectiles vanish.
pub const LASER_RANGE: i64 = 100_000;

/// Frames that must pass after a shot before the next one.
pub const FIRE_COOLDOWN: u64 = 8;

/// Score and altitude grow once every this many frames.
pub const SCORE_PERIOD: u64 = 10;

/// Score gained once per score period.
pub const SCORE_STEP: u32 = 5;

/// A new enemy appears once every this many frames.
pub const SPAWN_PERIOD: u64 = 150;

/// Altitude at the start of a run.
pub const START_ALTITUDE: u32 = 1500;

/// Shield level at the start of a run, and its maximum.
pub const MAX_SHIELD: u8 = 10;

/// Spawn seed of a run started with `GameState::new`.
pub const DEFAULT_SEED: u64 = 0x2545_f491_4f6c_dd1d;

/// Added to the spawn seed after each spawn (an odd number, so the seeds run
/// through every `u64` value before one repeats).
pub const SEED_STEP: u64 = 0x9e37_79b9_7f4a_7c15;

/// A projectile fired from the ship.
#[derive(Clone, Copy, Debug)]
pub struct Laser {
    /// Lateral offset, the ship's at the time of firing.
    pub x: i64,
    /// Vertical offset, the ship's at the time of firing.
    pub y: i64,
    /// Depth: starts at `0` and grows as the shot moves away.
    pub z: i64,
}

/// The abstract state of a game: the fields of `GameState`, with the live
/// enemies and projectiles as sequences.
pub struct GameModel {
    pub ship_x: i64,
    pub ship_y: i64,
    pub frame: u64,
    pub last_fire_frame: u64,
    pub lasers: Seq<Laser>,
    pub paused: bool,
    pub should_exit: bool,
    pub score: u32,
    pub altitude: u32,
    pub shield: u8,
    pub enemies: Seq<Enemy>,
    pub seed: u64,
}

/// State of one run of the game.
pub struct GameState {
    /// Ship view lateral offset, `-1000..=1000`.
    pub ship_x: i64,
    /// Ship view vertical offset, `-1000..=1000`.
    pub ship_y: i64,
    /// Frame counter; wraps on overflow.
    pub frame: u64,
    /// Frame of the last shot.
    pub last_fire_frame: u64,
    /// Live projectiles, oldest first.
    pub lasers: Vec<Laser>,
    /// Whether the game is paused.
    pub paused: bool,
    /// Whether the player asked to go back to the menu.
    pub should_exit: bool,
    /// Current score; wraps on overflow.
    pub score: u32,
    /// Current altitude; wraps on overflow.
    pub altitude: u32,
    /// Shield level, `0..=10`.
    pub shield: u8,
    /// Live enemies, oldest first.
    pub enemies: Vec<Enemy>,
    /// Seed of the next enemy spawn.
    pub seed: u64,
}

impl View for GameState {
    type V = GameModel;

    open spec fn view(&self) -> GameModel {
        GameModel {
            ship_x: self.ship_x,
            ship_y: self.ship_y,
            frame: self.frame,
            last_fire_frame: self.last_fire_frame,
            lasers: self.lasers@,
            paused: self.paused,
            should_exit: self.should_exit,
            score: self.score,
            altitude: self.altitude,
            shield: self.shield,
            enemies: self.enemies@,
            seed: self.seed,
        }
    }
}

/// An offset within the view's range.
pub open spec fn in_view(v: int) -> bool {
    -UNIT <= v <= UNIT
}

/// A live enemy: inside the view, not yet past the camera.
pub open spec fn enemy_ok(e: Enemy) -> bool {
    &&& in_view(e.x as int)
    &&& -250 <= e.y <= 250
    &&& 0 < e.z <= SPAWN_DEPTH
}

/// A live projectile: inside the view, not yet out of range.
pub open spec fn laser_ok(l: Laser) -> bool {
    &&& in_view(l.x as int)
    &&& in_view(l.y as int)
    &&& 0 <= l.z < LASER_RANGE
}

/// The projectile moved one frame further away.
pub open spec fn receded(l: Laser) -> Laser {
    Laser { z: (l.z + LASER_SPEED) as i64, ..l }
}

/// A projectile stays while it is in range.
pub open spec fn in_range(l: Laser) -> bool {
    l.z < LASER_RANGE
}

/// The seed that follows `seed`.
pub open spec fn next_seed(seed: u64) -> u64 {
    seed.wrapping_add(SEED_STEP)
}

/// The frame after `frame`, wrapping.
pub open spec fn next_frame(frame: u64) -> u64 {
    frame.wrapping_add(1)
}

/// The enemies after one frame: each moved closer, those past the camera gone.
pub open spec fn enemies_after_frame(enemies: Seq<Enemy>) -> Seq<Enemy> {
    enemies.map_values(|e: Enemy| approached(e, ENEMY_SPEED as int)).filter(|e: Enemy| visible(e))
}

/// The projectiles after one frame: each moved away, those out of range gone.
pub open spec fn lasers_after_frame(lasers: Seq<Laser>) -> Seq<Laser> {
    lasers.map_values(|l: Laser| receded(l)).filter(|l: Laser| in_range(l))
}

impl GameModel {
    /// The invariant of a game state.
    pub open spec fn wf(self) -> bool {
        &&& in_view(self.ship_x as int)
        &&& in_view(self.ship_y as int)
        &&& self.shield <= MAX_SHIELD
        &&& forall|i: int| 0 <= i < self.enemies.len() ==> enemy_ok(#[trigger] self.enemies[i])
        &&& forall|i: int| 0 <= i < self.lasers.len() ==> laser_ok(#[trigger] self.lasers[i])
    }

    /// The state of a fresh run whose enemy placements follow from `seed`.
    pub open spec fn start(seed: u64) -> GameModel {
        (GameModel {
            ship_x: 0,
            ship_y: 0,
            frame: 0,
            last_fire_frame: 0,
            lasers: Seq::empty(),
            paused: false,
            should_exit: false,
            score: 0,
            altitude: START_ALTITUDE,
            shield: MAX_SHIELD,
            enemies: Seq::empty(),
            seed,
        }).with_spawn()
    }

    /// The state with one more enemy, spawned from the current seed.
    pub open spec fn with_spawn(self) -> GameModel {
        GameModel { enemies: self.enemies.push(spawned(self.seed)), seed: next_seed(self.seed), ..self }
    }

    /// The state after one frame tick. Nothing changes while paused.
    pub open spec fn step(self) -> GameModel {
        if self.paused {
            self
        } else {
            let frame = next_frame(self.frame);
            let tick = frame % SCORE_PERIOD == 0;
            let grown = if frame % SPAWN_PERIOD == 0 { self.with_spawn() } else { self };
            GameModel {
                frame,
                altitude: if tick { self.altitude.wrapping_add(1) } else { self.altitude },
                score: if tick { self.score.wrapping_add(SCORE_STEP) } else { self.score },
                enemies: enemies_after_frame(grown.enemies),
                lasers: lasers_after_frame(self.lasers),
                seed: grown.seed,
                ..self
            }
        }
    }

    /// Whether a shot would leave now: not paused, cooldown over.
    pub open spec fn can_fire(self) -> bool {
        !self.paused && self.frame > self.last_fire_frame + FIRE_COOLDOWN
    }

    /// The state after a request to fire.
    pub open spec fn fire(self) -> GameModel {
        if self.can_fire() {
            GameModel {
                lasers: self.lasers.push(Laser { x: self.ship_x, y: self.ship_y, z: 0 }),
                last_fire_frame: self.frame,
                ..self
            }
        } else {
            self
        }
    }

    /// The state after `n` frame ticks.
    pub open spec fn steps(self, n: nat) -> GameModel
        decreases n,
    {
        if n == 0 {
            self
        } else {
            self.steps((n - 1) as nat).step()
        }
    }
}

/// Moving one more enemy through a frame extends the result by that enemy
/// if it stays visible.
proof fn lemma_enemies_after_frame_take(s: Seq<Enemy>, i: int)
    requires
        0 <= i < s.len(),
    ensures
        enemies_after_frame(s.take(i + 1)) == (if visible(approached(s[i], ENEMY_SPEED as int)) {
            enemies_after_frame(s.take(i)).push(approached(s[i], ENEMY_SPEED as int))
        } else {
            enemies_after_frame(s.take(i))
        }),
{
    let m1 = s.take(i + 1).map_values(|e: Enemy| approached(e, ENEMY_SPEED as int));
    let m0 = s.take(i).map_values(|e: Enemy| approached(e, ENEMY_SPEED as int));
    assert(m1.drop_last() =~= m0);
    assert(m1.last() == approached(s[i], ENEMY_SPEED as int));
    reveal(Seq::filter);
}

/// Moving one more projectile through a frame extends the result by that
/// projectile if it stays in range.
proof fn lemma_lasers_after_frame_take(s: Seq<Laser>, i: int)
    requires
        0 <= i < s.len(),
    ensures
        lasers_after_frame(s.take(i + 1)) == (if in_range(receded(s[i])) {
            lasers_after_frame(s.take(i)).push(receded(s[i]))
        } else {
            lasers_after_frame(s.take(i))
        }),
{
    let m1 = s.take(i + 1).map_values(|l: Laser| receded(l));
    let m0 = s.take(i).map_values(|l: Laser| receded(l));
    assert(m1.drop_last() =~= m0);
    assert(m1.last() == receded(s[i]));
    reveal(Seq::filter);
}

/// The enemies of `enemies` after one frame.
fn advance_enemies(enemies: &Vec<Enemy>) -> (r: Vec<Enemy>)
    requires
        forall|i: int| 0 <= i < enemies@.len() ==> enemy_ok(#[trigger] enemies@[i]),
    ensures
        r@ == enemies_after_frame(enemies@),
        forall|i: int| 0 <= i < r@.len() ==> enemy_ok(#[trigger] r@[i]),
{
    let mut kept: Vec<Enemy> = Vec::new();
    let mut i: usize = 0;
    while i < enemies.len()
        invariant
            i <= enemies@.len(),
            forall|j: int| 0 <= j < enemies@.len() ==> enemy_ok(#[trigger] enemies@[j]),
            kept@ == enemies_after_frame(enemies@.take(i as int)),
            forall|j: int| 0 <= j < kept@.len() ==> enemy_ok(#[trigger] kept@[j]),
        decreases enemies@.len() - i,
    {
        let mut e = enemies[i];
        assert(enemy_ok(enemies@[i as int]));
        e.update(ENEMY_SPEED);
        proof {
            lemma_enemies_after_frame_take(enemies@, i as int);
        }
        if e.is_visible() {
            kept.push(e);
        }
        i = i + 1;
    }
    assert(enemies@.take(enemies@.len() as int) =~= enemies@);
    kept
}

/// The projectiles of `lasers` after one frame.
fn advance_lasers(lasers: &Vec<Laser>) -> (r: Vec<Laser>)
    requires
        forall|i: int| 0 <= i < lasers@.len() ==> laser_ok(#[trigger] lasers@[i]),
    ensures
        r@ == lasers_after_frame(lasers@),
        forall|i: int| 0 <= i < r@.len() ==> laser_ok(#[trigger] r@[i]),
{
    let mut kept: Vec<Laser> = Vec::new();
    let mut i: usize = 0;
    while i < lasers.len()
        invariant
            i <= lasers@.len(),
            forall|j: int| 0 <= j < lasers@.len() ==> laser_ok(#[trigger] lasers@[j]),
            kept@ == lasers_after_frame(lasers@.take(i as int)),
            forall|j: int| 0 <= j < kept@.len() ==> laser_ok(#[trigger] kept@[j]),
        decreases lasers@.len() - i,
    {
        let mut l = lasers[i];
        assert(laser_ok(lasers@[i as int]));
        l.z = l.z + LASER_SPEED;
        proof {
            lemma_lasers_after_frame_take(lasers@, i as int);
        }
        if l.z < LASER_RANGE {
            kept.push(l);
        }
        i = i + 1;
    }
    assert(lasers@.take(lasers@.len() as int) =~= lasers@);
    kept
}

impl GameState {
    /// A fresh run whose enemy placements follow from `seed`: ship centred,
    /// counters at their start values, one enemy already spawned.
    pub fn with_seed(seed: u64) -> (r: GameState)
        ensures
            r@ == GameModel::start(seed),
            r@.wf(),
    {
        let mut state = GameState {
            ship_x: 0,
            ship_y: 0,
            frame: 0,
            last_fire_frame: 0,
            lasers: Vec::new(),
            paused: false,
            should_exit: false,
            score: 0,
            altitude: START_ALTITUDE,
            shield: MAX_SHIELD,
            enemies: Vec::new(),
            seed,
        };
        state.spawn_enemy();
        state
    }

    /// A fresh run with the default spawn seed.
    pub fn new() -> (r: GameState)
        ensures
            r@ == GameModel::start(DEFAULT_SEED),
            r@.wf(),
    {
        GameState::with_seed(DEFAULT_SEED)
    }

    /// Add an enemy spawned from the current seed, and advance the seed.
    fn spawn_enemy(&mut self)
        requires
            old(self)@.wf(),
        ensures
            final(self)@ == old(self)@.with_spawn(),
            final(self)@.wf(),
    {
        let seed = self.seed;
        let e = Enemy::new(seed);
        assert(enemy_ok(e));
        self.enemies.push(e);
        self.seed = seed.wrapping_add(SEED_STEP);
        assert forall|i: int| 0 <= i < self.enemies@.len() implies enemy_ok(#[trigger] self.enemies@[i]) by {
            if i < old(self).enemies@.len() {
                assert(enemy_ok(old(self)@.enemies[i]));
            }
        }
    }
    /// Advance the game by one frame tick: nothing changes while paused;
    /// otherwise the frame counter moves on, score and altitude grow every
    /// tenth frame, an enemy spawns every 150th frame, enemies approach and
    /// projectiles recede, and those that left the view are dropped.
    pub fn update(&mut self)
        requires
            old(self)@.wf(),
        ensures
            final(self)@ == old(self)@.step(),
            final(self)@.wf(),
    {
        if !self.paused {
            let ghost start = self@;
            self.frame = self.frame.wrapping_add(1);
            if self.frame % SCORE_PERIOD == 0 {
                self.altitude = self.altitude.wrapping_add(1);
                self.score = self.score.wrapping_add(SCORE_STEP);
            }
            assert(self@.enemies == start.enemies && self@.lasers == start.lasers);
            assert(self@.wf());
            if self.frame % SPAWN_PERIOD == 0 {
                self.spawn_enemy();
            }
            self.enemies = advance_enemies(&self.enemies);
            self.lasers = advance_lasers(&self.lasers);
        }
    }

    /// Fire a projectile from the ship's position, unless paused or fewer
    /// than nine frames have passed since the last shot.
    pub fn fire_laser(&mut self)
        requires
            old(self)@.wf(),
        ensures
            final(self)@ == old(self)@.fire(),
            final(self)@.wf(),
    {
        if !self.paused {
            if self.frame > self.last_fire_frame && self.frame - self.last_fire_frame > FIRE_COOLDOWN {
                let shot = Laser { x: self.ship_x, y: self.ship_y, z: 0 };
                self.lasers.push(shot);
                self.last_fire_frame = self.frame;
                assert forall|i: int| 0 <= i < self.lasers@.len() implies laser_ok(#[trigger] self.lasers@[i]) by {
                    if i < old(self).lasers@.len() {
                        assert(laser_ok(old(self)@.lasers[i]));
                    }
                }
            }
        }
    }

    /// Shift the view left by one step, stopping at the edge.
    pub fn move_left(&mut self)
        requires
            old(self)@.wf(),
        ensures
            final(self)@ == (if old(self).paused {
                old(self)@
            } else {
                GameModel { ship_x: clamped_move(old(self).ship_x, -SHIP_STEP), ..old(self)@ }
            }),
            final(self)@.wf(),
    {
        if !self.paused {
            self.ship_x = clamp_step(self.ship_x - SHIP_STEP);
        }
    }

    /// Shift the view right by one step, stopping at the edge.
    pub fn move_right(&mut self)
        requires
            old(self)@.wf(),
        ensures
            final(self)@ == (if old(self).paused {
                old(self)@
            } else {
                GameModel { ship_x: clamped_move(old(self).ship_x, SHIP_STEP as int), ..old(self)@ }
            }),
            final(self)@.wf(),
    {
        if !self.paused {
            self.ship_x = clamp_step(self.ship_x + SHIP_STEP);
        }
    }

    /// Shift the view up by one step, stopping at the edge.
    pub fn move_up(&mut self)
        requires
            old(self)@.wf(),
        ensures
            final(self)@ == (if old(self).paused {
                old(self)@
            } else {
                GameModel { ship_y: clamped_move(old(self).ship_y, -SHIP_STEP), ..old(self)@ }
            }),
            final(self)@.wf(),
    {
        if !self.paused {
            self.ship_y = clamp_step(self.ship_y - SHIP_STEP);
        }
    }

    /// Shift the view down by one step, stopping at the edge.
    pub fn move_down(&mut self)
        requires
            old(self)@.wf(),
        ensures
            final(self)@ == (if old(self).paused {
                old(self)@
            } else {
                GameModel { ship_y: clamped_move(old(self).ship_y, SHIP_STEP as int), ..old(self)@ }
            }),
            final(self)@.wf(),
    {
        if !self.paused {
            self.ship_y = clamp_step(self.ship_y + SHIP_STEP);
        }
    }

    /// Pause or resume; always allowed.
    pub fn toggle_pause(&mut self)
        requires
            old(self)@.wf(),
        ensures
            final(self)@ == (GameModel { paused: !old(self).paused, ..old(self)@ }),
            final(self)@.wf(),
    {
        self.paused = !self.paused;
    }

    /// Ask to go back to the menu; only honoured while paused.
    pub fn exit_to_menu(&mut self)
        requires
            old(self)@.wf(),
        ensures
            final(self)@ == (GameModel { should_exit: old(self).should_exit || old(self).paused, ..old(self)@ }),
            final(self)@.wf(),
    {
        if self.paused {
            self.should_exit = true;
        }
    }

    /// Whether the game loop goes on.
    pub fn is_running(&self) -> (r: bool)
        ensures
            r == !self.should_exit,
    {
        !self.should_exit
    }
}

/// `v` pulled back into the view's range.
fn clamp_step(v: i64) -> (r: i64)
    requires
        -UNIT - SHIP_STEP <= v <= UNIT + SHIP_STEP,
    ensures
        r == clamped_move(v, 0),
{
    if v < -UNIT {
        -UNIT
    } else if v > UNIT {
        UNIT
    } else {
        v
    }
}

impl Default for GameState {
    fn default() -> (r: GameState)
        ensures
            r@ == GameModel::start(DEFAULT_SEED),
            r@.wf(),
    {
        GameState::new()
    }
}

/// `v` moved by `delta` and clamped to the view's range.
pub open spec fn clamped_move(v: i64, delta: int) -> i64 {
    if v + delta < -UNIT {
        -UNIT as i64
    } else if v + delta > UNIT {
        UNIT as i64
    } else {
        (v + delta) as i64
    }
}

} // verus!

verus! {

/// How many of the frames `frame + 1 ..= frame + n` make score and altitude
/// grow.
pub open spec fn score_ticks(frame: int, n: int) -> int {
    (frame + n) / (SCORE_PERIOD as int) - frame / (SCORE_PERIOD as int)
}

/// `enemies` after `n` frames.
pub open spec fn enemies_after_frames(enemies: Seq<Enemy>, n: nat) -> Seq<Enemy>
    decreases n,
{
    if n == 0 {
        enemies
    } else {
        enemies_after_frame(enemies_after_frames(enemies, (n - 1) as nat))
    }
}

/// `lasers` after `n` frames.
pub open spec fn lasers_after_frames(lasers: Seq<Laser>, n: nat) -> Seq<Laser>
    decreases n,
{
    if n == 0 {
        lasers
    } else {
        lasers_after_frame(lasers_after_frames(lasers, (n - 1) as nat))
    }
}

/// Frames an enemy lives after it spawns: the fewest steps of `ENEMY_SPEED`
/// that cover `SPAWN_DEPTH`.
pub open spec fn enemy_lifetime() -> int {
    (SPAWN_DEPTH + ENEMY_SPEED - 1) / (ENEMY_SPEED as int)
}

/// Frames a projectile lives after it is fired: the fewest steps of
/// `LASER_SPEED` that cover `LASER_RANGE`.
pub open spec fn laser_lifetime() -> int {
    (LASER_RANGE + LASER_SPEED - 1) / (LASER_SPEED as int)
}

/// One frame of a running game, as seen by the counters: the frame moves on
/// by one, score and altitude grow on every tenth frame.
proof fn lemma_tick(frame: int, n: int)
    requires
        frame >= 0,
        n >= 1,
    ensures
        score_ticks(frame, n) == score_ticks(frame, n - 1) + (if (frame + n) % (SCORE_PERIOD as int) == 0 {
            1int
        } else {
            0
        }),
{
    let q = (frame + n - 1) / 10;
    let r = (frame + n - 1) % 10;
    assert(frame + n - 1 == 10 * q + r && 0 <= r < 10) by (nonlinear_arith)
        requires
            q == (frame + n - 1) / 10,
            r == (frame + n - 1) % 10,
            frame + n - 1 >= 0,
    ;
    if r == 9 {
        assert((frame + n) / 10 == q + 1 && (frame + n) % 10 == 0) by (nonlinear_arith)
            requires
                frame + n == 10 * q + 10,
        ;
    } else {
        assert((frame + n) / 10 == q && (frame + n) % 10 == r + 1) by (nonlinear_arith)
            requires
                frame + n == 10 * q + r + 1,
                0 <= r < 9,
        ;
    }
}

/// A running game, frame by frame: the frame counter, score and altitude
/// follow the frame count, and nothing else that firing depends on changes.
proof fn lemma_steps_counters(m: GameModel, n: nat)
    requires
        !m.paused,
        m.frame + n <= u64::MAX,
    ensures
        m.steps(n).frame == m.frame + n,
        !m.steps(n).paused,
        m.steps(n).last_fire_frame == m.last_fire_frame,
        m.steps(n).score as int == (m.score + SCORE_STEP * score_ticks(m.frame as int, n as int)) % 0x1_0000_0000,
        m.steps(n).altitude as int == (m.altitude + score_ticks(m.frame as int, n as int)) % 0x1_0000_0000,
    decreases n,
{
    if n == 0 {
        assert(score_ticks(m.frame as int, 0) == 0);
        assert(m.score as int % 0x1_0000_0000 == m.score);
        assert(m.altitude as int % 0x1_0000_0000 == m.altitude);
    } else {
        let k = (n - 1) as nat;
        lemma_steps_counters(m, k);
        lemma_tick(m.frame as int, n as int);
        let prev = m.steps(k);
        let t = score_ticks(m.frame as int, k as int);
        let big = 0x1_0000_0000int;
        if (m.frame + n) % (SCORE_PERIOD as int) == 0 {
            vstd::arithmetic::div_mod::lemma_add_mod_noop(m.score + SCORE_STEP * t, 5, big);
            vstd::arithmetic::div_mod::lemma_add_mod_noop(m.altitude + t, 1, big);
            assert(5int % big == 5);
            assert(1int % big == 1);
            assert(prev.score.wrapping_add(SCORE_STEP) as int == (prev.score + 5) % big);
            assert(prev.altitude.wrapping_add(1) as int == (prev.altitude + 1) % big);
            assert((prev.score + 5) % big == ((m.score + SCORE_STEP * t) % big + 5int % big) % big);
            assert((prev.altitude + 1) % big == ((m.altitude + t) % big + 1int % big) % big);
        }
    }
}

/// While paused, frame ticks change nothing at all.
pub proof fn lemma_paused_game_stands_still(m: GameModel, n: nat)
    requires
        m.paused,
    ensures
        m.steps(n) == m,
        m.fire() == m,
    decreases n,
{
    if n > 0 {
        lemma_paused_game_stands_still(m, (n - 1) as nat);
    }
}

/// While running, score grows by exactly `SCORE_STEP` and altitude by exactly
/// one over any ten frames (both wrapping), as long as the frame counter does
/// not wrap within them.
pub proof fn lemma_score_and_altitude_every_ten_frames(m: GameModel)
    requires
        !m.paused,
        m.frame + SCORE_PERIOD <= u64::MAX,
    ensures
        m.steps(SCORE_PERIOD as nat).score == m.score.wrapping_add(SCORE_STEP),
        m.steps(SCORE_PERIOD as nat).altitude == m.altitude.wrapping_add(1),
{
    lemma_steps_counters(m, SCORE_PERIOD as nat);
    let f = m.frame as int;
    assert(score_ticks(f, 10) == 1) by (nonlinear_arith)
        requires
            f >= 0,
    {
        assert((f + 10) / 10 == f / 10 + 1);
    }
}

/// A shot that leaves starts the cooldown: a second request within the next
/// `FIRE_COOLDOWN` frames fires nothing, one after them fires one more shot
/// (as long as the frame counter does not wrap meanwhile).
pub proof fn lemma_fire_cooldown(m: GameModel, n: nat)
    requires
        m.can_fire(),
        m.frame + n <= u64::MAX,
    ensures
        m.fire().lasers.len() == m.lasers.len() + 1,
        m.fire().steps(n).fire().lasers.len() == m.fire().steps(n).lasers.len() + (if n > FIRE_COOLDOWN {
            1int
        } else {
            0
        }),
        !m.fire().fire().can_fire(),
{
    lemma_steps_counters(m.fire(), n);
}

/// A single enemy moved through one frame.
proof fn lemma_one_enemy_frame(e: Enemy)
    ensures
        enemies_after_frame(seq![e]) == (if visible(approached(e, ENEMY_SPEED as int)) {
            seq![approached(e, ENEMY_SPEED as int)]
        } else {
            Seq::empty()
        }),
        enemies_after_frame(Seq::empty()) == Seq::<Enemy>::empty(),
{
    reveal_with_fuel(Seq::filter, 2);
    let m1 = seq![e].map_values(|e: Enemy| approached(e, ENEMY_SPEED as int));
    assert(m1 =~= seq![approached(e, ENEMY_SPEED as int)]);
    assert(m1.drop_last() =~= Seq::empty());
    let m0 = Seq::<Enemy>::empty().map_values(|e: Enemy| approached(e, ENEMY_SPEED as int));
    assert(m0 =~= Seq::empty());
}

/// A single projectile moved through one frame.
proof fn lemma_one_laser_frame(l: Laser)
    ensures
        lasers_after_frame(seq![l]) == (if in_range(receded(l)) {
            seq![receded(l)]
        } else {
            Seq::empty()
        }),
        lasers_after_frame(Seq::empty()) == Seq::<Laser>::empty(),
{
    reveal_with_fuel(Seq::filter, 2);
    let m1 = seq![l].map_values(|l: Laser| receded(l));
    assert(m1 =~= seq![receded(l)]);
    assert(m1.drop_last() =~= Seq::empty());
    let m0 = Seq::<Laser>::empty().map_values(|l: Laser| receded(l));
    assert(m0 =~= Seq::empty());
}

/// An enemy at the spawn depth stays in the live set, `ENEMY_SPEED` nearer
/// each frame, for exactly `enemy_lifetime()` frames (67), and is gone after.
pub proof fn lemma_enemy_lifetime(e: Enemy, n: nat)
    requires
        e.z == SPAWN_DEPTH,
    ensures
        enemy_lifetime() == 67,
        enemies_after_frames(seq![e], n) == (if n < enemy_lifetime() {
            seq![approached(e, ENEMY_SPEED * n)]
        } else {
            Seq::empty()
        }),
    decreases n,
{
    if n > 0 {
        let k = (n - 1) as nat;
        lemma_enemy_lifetime(e, k);
        if k < 67 {
            let cur = approached(e, ENEMY_SPEED * k);
            lemma_one_enemy_frame(cur);
            assert(approached(cur, ENEMY_SPEED as int) == approached(e, ENEMY_SPEED * n));
        } else {
            lemma_one_enemy_frame(e);
        }
    } else {
        assert(approached(e, ENEMY_SPEED * n) == e);
    }
}

/// A projectile fired at depth zero stays in the live set, `LASER_SPEED`
/// further each frame, for exactly `laser_lifetime()` frames (50), and is
/// gone after.
pub proof fn lemma_laser_lifetime(l: Laser, n: nat)
    requires
        l.z == 0,
    ensures
        laser_lifetime() == 50,
        lasers_after_frames(seq![l], n) == (if n < laser_lifetime() {
            seq![Laser { z: (LASER_SPEED * n) as i64, ..l }]
        } else {
            Seq::empty()
        }),
    decreases n,
{
    if n > 0 {
        let k = (n - 1) as nat;
        lemma_laser_lifetime(l, k);
        if k < 50 {
            let cur = Laser { z: (LASER_SPEED * k) as i64, ..l };
            lemma_one_laser_frame(cur);
        } else {
            lemma_one_laser_frame(l);
        }
    } else {
        assert(Laser { z: (LASER_SPEED * n) as i64, ..l } == l);
    }
}

/// Moving the enemies of `a + b` through a frame moves each part on its own.
proof fn lemma_enemies_frame_split(a: Seq<Enemy>, b: Seq<Enemy>)
    ensures
        enemies_after_frame(a + b) == enemies_after_frame(a) + enemies_after_frame(b),
{
    let moved = (a + b).map_values(|e: Enemy| approached(e, ENEMY_SPEED as int));
    let ma = a.map_values(|e: Enemy| approached(e, ENEMY_SPEED as int));
    let mb = b.map_values(|e: Enemy| approached(e, ENEMY_SPEED as int));
    assert(moved =~= ma + mb);
    Seq::filter_distributes_over_add(ma, mb, |e: Enemy| visible(e));
}

/// Moving the projectiles of `a + b` through a frame moves each part on its
/// own.
proof fn lemma_lasers_frame_split(a: Seq<Laser>, b: Seq<Laser>)
    ensures
        lasers_after_frame(a + b) == lasers_after_frame(a) + lasers_after_frame(b),
{
    let moved = (a + b).map_values(|l: Laser| receded(l));
    let ma = a.map_values(|l: Laser| receded(l));
    let mb = b.map_values(|l: Laser| receded(l));
    assert(moved =~= ma + mb);
    Seq::filter_distributes_over_add(ma, mb, |l: Laser| in_range(l));
}

/// Moving the projectiles of `a + b` through `n` frames moves each part on
/// its own.
proof fn lemma_lasers_frames_split(a: Seq<Laser>, b: Seq<Laser>, n: nat)
    ensures
        lasers_after_frames(a + b, n) == lasers_after_frames(a, n) + lasers_after_frames(b, n),
    decreases n,
{
    if n > 0 {
        let k = (n - 1) as nat;
        lemma_lasers_frames_split(a, b, k);
        lemma_lasers_frame_split(lasers_after_frames(a, k), lasers_after_frames(b, k));
    }
}

/// A running game keeps running through frame ticks.
proof fn lemma_steps_keep_running(m: GameModel, n: nat)
    requires
        !m.paused,
    ensures
        !m.steps(n).paused,
    decreases n,
{
    if n > 0 {
        lemma_steps_keep_running(m, (n - 1) as nat);
    }
}

/// In a running game, the projectiles after `n` frame ticks are those of the
/// start moved through `n` frames.
proof fn lemma_steps_lasers(m: GameModel, n: nat)
    requires
        !m.paused,
    ensures
        m.steps(n).lasers == lasers_after_frames(m.lasers, n),
    decreases n,
{
    if n > 0 {
        let k = (n - 1) as nat;
        lemma_steps_lasers(m, k);
        lemma_steps_keep_running(m, k);
    }
}

/// In a running game, the enemy at position `i` keeps its place after those
/// before it: after `n` frame ticks the live enemies are those that came
/// before it, moved through `n` frames, then what became of it, then the
/// rest (later enemies and new spawns).
proof fn lemma_enemy_slot(m: GameModel, i: int, n: nat)
    requires
        !m.paused,
        0 <= i < m.enemies.len(),
    ensures
        exists|rest: Seq<Enemy>|
            m.steps(n).enemies == #[trigger] (enemies_after_frames(m.enemies.take(i), n)
                + enemies_after_frames(seq![m.enemies[i]], n) + rest),
    decreases n,
{
    let e = m.enemies[i];
    if n == 0 {
        let rest = m.enemies.skip(i + 1);
        assert(m.enemies =~= m.enemies.take(i) + seq![e] + rest);
        assert(m.steps(0).enemies == enemies_after_frames(m.enemies.take(i), 0) + enemies_after_frames(
            seq![e],
            0,
        ) + rest);
    } else {
        let k = (n - 1) as nat;
        lemma_enemy_slot(m, i, k);
        lemma_steps_keep_running(m, k);
        let prev = m.steps(k);
        let before = enemies_after_frames(m.enemies.take(i), k);
        let slot = enemies_after_frames(seq![e], k);
        let rest0 = choose|rest: Seq<Enemy>| prev.enemies == before + slot + rest;
        let frame = next_frame(prev.frame);
        let rest1 = if frame % SPAWN_PERIOD == 0 {
            rest0.push(spawned(prev.seed))
        } else {
            rest0
        };
        let grown = if frame % SPAWN_PERIOD == 0 { prev.with_spawn() } else { prev };
        assert(grown.enemies =~= before + slot + rest1);
        lemma_enemies_frame_split(before + slot, rest1);
        lemma_enemies_frame_split(before, slot);
        let rest = enemies_after_frame(rest1);
        assert(m.steps(n).enemies == enemies_after_frames(m.enemies.take(i), n) + enemies_after_frames(
            seq![e],
            n,
        ) + rest);
    }
}

/// What is left of an enemy from the spawn depth after `n` frames: itself,
/// `n` steps nearer, while `n < enemy_lifetime()`, and nothing after.
pub open spec fn enemy_while_live(e: Enemy, n: nat) -> Seq<Enemy> {
    if n < enemy_lifetime() {
        seq![approached(e, ENEMY_SPEED * n)]
    } else {
        Seq::empty()
    }
}

/// In a running game, an enemy at the spawn depth, at any position of the
/// live set, stays live for exactly `enemy_lifetime()` frame ticks (67),
/// `ENEMY_SPEED` nearer each tick and right after the enemies that came
/// before it; from then on it is gone, and only the enemies before it and
/// those after it (later ones and new spawns) remain.
pub proof fn lemma_enemy_lifetime_in_game(m: GameModel, i: int, n: nat)
    requires
        !m.paused,
        0 <= i < m.enemies.len(),
        m.enemies[i].z == SPAWN_DEPTH,
    ensures
        exists|rest: Seq<Enemy>|
            m.steps(n).enemies == #[trigger] (enemies_after_frames(m.enemies.take(i), n)
                + enemy_while_live(m.enemies[i], n) + rest),
{
    let e = m.enemies[i];
    lemma_enemy_slot(m, i, n);
    lemma_enemy_lifetime(e, n);
    let before = enemies_after_frames(m.enemies.take(i), n);
    let rest = choose|rest: Seq<Enemy>| m.steps(n).enemies == before + enemies_after_frames(seq![e], n) + rest;
    assert(m.steps(n).enemies == before + enemy_while_live(e, n) + rest);
}

/// In a running game, a projectile at depth zero, at any position of the
/// live set, stays live for exactly `laser_lifetime()` frame ticks (50),
/// `LASER_SPEED` further each tick and between the projectiles that came
/// before and after it; from then on it is gone.
pub proof fn lemma_laser_lifetime_in_game(m: GameModel, i: int, n: nat)
    requires
        !m.paused,
        0 <= i < m.lasers.len(),
        m.lasers[i].z == 0,
    ensures
        m.steps(n).lasers == lasers_after_frames(m.lasers.take(i), n) + (if n < laser_lifetime() {
            seq![Laser { z: (LASER_SPEED * n) as i64, ..m.lasers[i] }]
        } else {
            Seq::empty()
        }) + lasers_after_frames(m.lasers.skip(i + 1), n),
{
    let l = m.lasers[i];
    lemma_steps_lasers(m, n);
    assert(m.lasers =~= m.lasers.take(i) + seq![l] + m.lasers.skip(i + 1));
    lemma_lasers_frames_split(m.lasers.take(i) + seq![l], m.lasers.skip(i + 1), n);
    lemma_lasers_frames_split(m.lasers.take(i), seq![l], n);
    lemma_laser_lifetime(l, n);
}

} // verus!
