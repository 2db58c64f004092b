//! The perspective renderer: pure functions from a game state and a viewport
//! size to rows of characters. Each layer is computed afresh on every call.
//!
//! The viewpoint follows the ship: the vanishing point moves opposite the
//! ship's offset by a third of the viewport per unit of offset.
use vstd::prelude::*;

use crate::enemy::{Enemy, UNIT};
use crate::game::{enemy_ok, in_view, GameState, MAX_SHIELD};
use crate::text::{decimal, pad_left, push_padded_decimal, push_repeated, push_str, repeated};

verus! {

/// Rust's division of integers, which rounds toward zero.
pub open spec fn tdiv(a: int, b: int) -> int {
    if a >= 0 {
        a / b
    } else {
        -((-a) / b)
    }
}

/// `a / b` rounded toward zero.
fn trunc_div(a: i64, b: i64) -> (r: i64)
    requires
        b > 0,
        a > i64::MIN,
    ensures
        r == tdiv(a as int, b as int),
{
    if a >= 0 {
        a / b
    } else {
        -((-a) / b)
    }
}

/// Column of the vanishing point in a view `w` wide.
pub open spec fn vanish_x(ship_x: int, w: int) -> int {
    w / 2 - tdiv(ship_x * w, 3 * UNIT)
}

/// Row of the vanishing point in a view `h` high.
pub open spec fn vanish_y(ship_y: int, h: int) -> int {
    h / 2 - tdiv(ship_y * h, 3 * UNIT)
}

/// How near the viewer a row `dy` away from the horizon is, as a part of
/// `h`: rows `h` or more away are as near as it gets.
pub open spec fn nearness(dy: int, h: int) -> int {
    let a = if dy < 0 { -dy } else { dy };
    if a < h { a } else { h }
}

/// Column of the left trench wall on a row `dy` away from the horizon: the
/// trench is four fifths of the width where nearest and narrows toward the
/// horizon.
pub open spec fn left_wall(vx: int, w: int, h: int, dy: int) -> int {
    tdiv(vx * 5 * h - 4 * w * nearness(dy, h), 5 * h)
}

/// Column of the right trench wall on a row `dy` away from the horizon.
pub open spec fn right_wall(vx: int, w: int, h: int, dy: int) -> int {
    tdiv(vx * 5 * h + 4 * w * nearness(dy, h), 5 * h)
}

/// Depth of a row `dy` away from the horizon, in thousandths, plus the
/// scrolling phase of `frame`: half a unit per frame over a cycle of eight.
pub open spec fn scrolled_depth(frame: u64, h: int, dy: int) -> int {
    100 * UNIT * nearness(dy, h) / h + (frame % 16) * 500
}

/// Whether a row carries a rung across the trench.
pub open spec fn has_rung(frame: u64, h: int, dy: int) -> bool {
    scrolled_depth(frame, h, dy) % (10 * UNIT) < UNIT
}

/// Whether a row carries pillars outside the walls.
pub open spec fn has_pillars(frame: u64, h: int, dy: int) -> bool {
    scrolled_depth(frame, h, dy) % (20 * UNIT) < 2 * UNIT
}

/// The character at column `x` of a row `dy` away from the horizon, where the
/// vanishing point is at column `vx`: the topmost of pillars, rung, walls and
/// blank that covers the cell.
pub open spec fn trench_cell(frame: u64, vx: int, w: int, h: int, dy: int, x: int) -> char {
    let left = left_wall(vx, w, h, dy);
    let right = right_wall(vx, w, h, dy);
    let floor = dy > 0;
    if dy == 0 {
        ' '
    } else if has_pillars(frame, h, dy) && ((left > 0 && left - 10 <= x < left) || (right < w && right
        <= x < right + 10)) {
        '|'
    } else if has_rung(frame, h, dy) && left <= x < right && x % 10 != 0 {
        '-'
    } else if x == right {
        if floor { '\\' } else { '/' }
    } else if x == left {
        if floor { '/' } else { '\\' }
    } else {
        ' '
    }
}

/// The character at column `x`, row `y` of the trench view of a game.
pub open spec fn trench_at(ship_x: int, ship_y: int, frame: u64, w: int, h: int, x: int, y: int) -> char {
    trench_cell(frame, vanish_x(ship_x, w), w, h, y - vanish_y(ship_y, h), x)
}

/// One row of the trench, `dy` away from the horizon.
fn trench_row(frame: u64, vx: i64, w: u16, h: u16, dy: i64) -> (r: Vec<char>)
    requires
        h > 0,
        -1 <= vx <= (w as int) + 1,
        -2 * (h as int) <= dy <= 2 * (h as int),
    ensures
        r@.len() == w,
        forall|x: int| 0 <= x < w ==> r@[x] == trench_cell(frame, vx as int, w as int, h as int, dy as int, x),
{
    let wi = w as i64;
    let hi = h as i64;
    let near = if dy < 0 { -dy } else { dy };
    let near = if near < hi { near } else { hi };
    assert(near == nearness(dy as int, h as int));
    assert(-5 * 65535 <= vx * 5 * hi <= 65536 * 5 * 65535) by (nonlinear_arith)
        requires
            -1 <= vx <= wi + 1,
            0 <= wi <= 65535,
            0 < hi <= 65535,
    ;
    assert(0 <= 4 * wi * near <= 4 * 65535 * 65535) by (nonlinear_arith)
        requires
            0 <= wi <= 65535,
            0 <= near <= 65535,
    ;
    assert(0 <= 100 * UNIT * near <= 100 * UNIT * 65535) by (nonlinear_arith)
        requires
            0 <= near <= 65535,
    ;
    let left = trunc_div(vx * 5 * hi - 4 * wi * near, 5 * hi);
    let right = trunc_div(vx * 5 * hi + 4 * wi * near, 5 * hi);
    let depth = 100 * UNIT * near / hi + (frame % 16) as i64 * 500;
    let rung = depth % (10 * UNIT) < UNIT;
    let pillars = depth % (20 * UNIT) < 2 * UNIT;
    let floor = dy > 0;
    let mut row: Vec<char> = Vec::new();
    let mut x: i64 = 0;
    while x < wi
        invariant
            0 <= x <= wi,
            wi == w,
            hi == h,
            left == left_wall(vx as int, w as int, h as int, dy as int),
            right == right_wall(vx as int, w as int, h as int, dy as int),
            rung == has_rung(frame, h as int, dy as int),
            pillars == has_pillars(frame, h as int, dy as int),
            floor == (dy > 0),
            row@.len() == x,
            forall|i: int| 0 <= i < x ==> row@[i] == trench_cell(frame, vx as int, w as int, h as int, dy as int, i),
        decreases wi - x,
    {
        let c = if dy == 0 {
            ' '
        } else if pillars && ((left > 0 && left - 10 <= x && x < left) || (right < wi && right <= x && x < right
            + 10)) {
            '|'
        } else if rung && left <= x && x < right && x % 10 != 0 {
            '-'
        } else if x == right {
            if floor { '\\' } else { '/' }
        } else if x == left {
            if floor { '/' } else { '\\' }
        } else {
            ' '
        };
        row.push(c);
        x = x + 1;
    }
    row
}

impl GameState {
    /// The trench view, `height` rows of `width` characters: two walls
    /// converging on the vanishing point, rungs across the floor and
    /// ceiling, and pillars outside the walls, scrolling with the frame.
    pub fn trench_grid(&self, width: u16, height: u16) -> (r: Vec<Vec<char>>)
        requires
            in_view(self.ship_x as int),
            in_view(self.ship_y as int),
        ensures
            r@.len() == height,
            forall|y: int| 0 <= y < height ==> (#[trigger] r@[y])@.len() == width,
            forall|y: int, x: int|
                0 <= y < height && 0 <= x < width ==> #[trigger] r@[y]@[x] == trench_at(
                    self.ship_x as int,
                    self.ship_y as int,
                    self.frame,
                    width as int,
                    height as int,
                    x,
                    y,
                ),
    {
        let wi = width as i64;
        let hi = height as i64;
        assert(-UNIT * wi <= self.ship_x * wi <= UNIT * wi) by (nonlinear_arith)
            requires
                -UNIT <= self.ship_x <= UNIT,
                0 <= wi,
        ;
        assert(-UNIT * hi <= self.ship_y * hi <= UNIT * hi) by (nonlinear_arith)
            requires
                -UNIT <= self.ship_y <= UNIT,
                0 <= hi,
        ;
        let sx = trunc_div(self.ship_x * wi, 3 * UNIT);
        let sy = trunc_div(self.ship_y * hi, 3 * UNIT);
        assert(-wi / 3 - 1 <= sx <= wi / 3 + 1) by (nonlinear_arith)
            requires
                sx == tdiv(self.ship_x * wi, 3 * UNIT),
                -UNIT * wi <= self.ship_x * wi <= UNIT * wi,
                0 <= wi,
        ;
        assert(-hi / 3 - 1 <= sy <= hi / 3 + 1) by (nonlinear_arith)
            requires
                sy == tdiv(self.ship_y * hi, 3 * UNIT),
                -UNIT * hi <= self.ship_y * hi <= UNIT * hi,
                0 <= hi,
        ;
        let vx = wi / 2 - sx;
        let vy = hi / 2 - sy;
        let mut grid: Vec<Vec<char>> = Vec::new();
        let mut y: i64 = 0;
        while y < hi
            invariant
                0 <= y <= hi,
                wi == width,
                hi == height,
                vx == vanish_x(self.ship_x as int, width as int),
                vy == vanish_y(self.ship_y as int, height as int),
                -1 <= vx <= (wi as int) + 1,
                -1 <= vy <= (hi as int) + 1,
                grid@.len() == y,
                forall|j: int| 0 <= j < y ==> (#[trigger] grid@[j])@.len() == width,
                forall|j: int, x: int|
                    0 <= j < y && 0 <= x < width ==> #[trigger] grid@[j]@[x] == trench_at(
                        self.ship_x as int,
                        self.ship_y as int,
                        self.frame,
                        width as int,
                        height as int,
                        x,
                        j,
                    ),
            decreases hi - y,
        {
            let row = trench_row(self.frame, vx, width, height, y - vy);
            grid.push(row);
            y = y + 1;
        }
        grid
    }
}

/// An enemy drawn on the trench view: its glyph starts at column `col` of
/// row `row`.
#[derive(Clone, Copy, Debug)]
pub struct Sprite {
    pub col: u16,
    pub row: u16,
    pub glyph: &'static str,
}

/// Enemies at or nearer than this depth are not drawn.
pub const CULL_DEPTH: i64 = 1000;

/// The glyph for an enemy at depth `z`: a dot when far, a small fighter at
/// mid range, a wide one when near.
pub open spec fn glyph_for(z: int) -> Seq<char> {
    if z > 50 * UNIT {
        "."@
    } else if z > 20 * UNIT {
        "-o-"@
    } else {
        "/-\\"@
    }
}

/// Six thousand times the depth `z`, times the projected coordinate of an
/// enemy at offset `v` (thousandths) seen from ship offset `ship` on an axis
/// `size` cells long: the vanishing point is at `size / 2 - ship * size / 3`,
/// and the enemy lies `v * size * 50 / z` from it.
pub open spec fn projected(ship: int, v: int, z: int, size: int) -> int {
    3000 * size * z - 2 * ship * size * z + 300 * UNIT * v * size
}

/// Where an enemy appears on a view `w` by `h`, if it is drawn: as
/// (column, row, glyph). Enemies nearer than `CULL_DEPTH` or projected
/// outside the view are not drawn.
pub open spec fn place_enemy(e: Enemy, ship_x: int, ship_y: int, w: int, h: int) -> Option<(int, int, Seq<char>)> {
    let den = 6000 * e.z;
    let px = projected(ship_x, e.x as int, e.z as int, w);
    let py = projected(ship_y, e.y as int, e.z as int, h);
    if e.z <= CULL_DEPTH || px < 0 || px >= w * den || py < 0 || py >= h * den {
        None
    } else {
        Some((px / den, py / den, glyph_for(e.z as int)))
    }
}

/// The sprites of `enemies`, in their order.
pub open spec fn place_enemies(enemies: Seq<Enemy>, ship_x: int, ship_y: int, w: int, h: int) -> Seq<
    (int, int, Seq<char>),
>
    decreases enemies.len(),
{
    if enemies.len() == 0 {
        Seq::empty()
    } else {
        let rest = place_enemies(enemies.drop_last(), ship_x, ship_y, w, h);
        match place_enemy(enemies.last(), ship_x, ship_y, w, h) {
            Some(p) => rest.push(p),
            None => rest,
        }
    }
}

/// The sprite of one enemy, if it is drawn.
fn enemy_sprite(e: Enemy, ship_x: i64, ship_y: i64, w: u16, h: u16) -> (r: Option<Sprite>)
    requires
        enemy_ok(e),
        in_view(ship_x as int),
        in_view(ship_y as int),
    ensures
        match place_enemy(e, ship_x as int, ship_y as int, w as int, h as int) {
            Some(p) => r matches Some(s) && p == (s.col as int, s.row as int, s.glyph@),
            None => r is None,
        },
{
    if e.z <= CULL_DEPTH {
        return None;
    }
    let wi = w as i64;
    let hi = h as i64;
    let z = e.z;
    assert(0 <= 3000 * wi * z <= 3000 * 65535 * 100000) by (nonlinear_arith)
        requires 0 <= wi <= 65535, 0 < z <= 100000;
    assert(0 <= 3000 * hi * z <= 3000 * 65535 * 100000) by (nonlinear_arith)
        requires 0 <= hi <= 65535, 0 < z <= 100000;
    assert(-2000 * 65535 <= 2 * ship_x * wi <= 2000 * 65535) by (nonlinear_arith)
        requires 0 <= wi <= 65535, -1000 <= ship_x <= 1000;
    assert(-2000 * 65535 <= 2 * ship_y * hi <= 2000 * 65535) by (nonlinear_arith)
        requires 0 <= hi <= 65535, -1000 <= ship_y <= 1000;
    assert(-2000 * 65535 * 100000 <= 2 * ship_x * wi * z <= 2000 * 65535 * 100000) by (nonlinear_arith)
        requires -2000 * 65535 <= 2 * ship_x * wi <= 2000 * 65535, 0 < z <= 100000;
    assert(-2000 * 65535 * 100000 <= 2 * ship_y * hi * z <= 2000 * 65535 * 100000) by (nonlinear_arith)
        requires -2000 * 65535 <= 2 * ship_y * hi <= 2000 * 65535, 0 < z <= 100000;
    assert(-300000000 * wi <= 300 * UNIT * e.x * wi <= 300000000 * wi) by (nonlinear_arith)
        requires 0 <= wi, -1000 <= e.x <= 1000;
    assert(-300000000 * hi <= 300 * UNIT * e.y * hi <= 300000000 * hi) by (nonlinear_arith)
        requires 0 <= hi, -1000 <= e.y <= 1000;
    assert(0 <= 6000 * z * wi <= 6000 * 100000 * 65535) by (nonlinear_arith)
        requires 0 <= wi <= 65535, 0 < z <= 100000;
    assert(0 <= 6000 * z * hi <= 6000 * 100000 * 65535) by (nonlinear_arith)
        requires 0 <= hi <= 65535, 0 < z <= 100000;
    let den = 6000 * z;
    assert(0 <= wi * den <= 6000 * 100000 * 65535) by (nonlinear_arith)
        requires 0 <= wi <= 65535, den == 6000 * z, 0 < z <= 100000;
    assert(0 <= hi * den <= 6000 * 100000 * 65535) by (nonlinear_arith)
        requires 0 <= hi <= 65535, den == 6000 * z, 0 < z <= 100000;
    assert(-300000000 <= 300 * UNIT * e.x <= 300000000) by (nonlinear_arith)
        requires -1000 <= e.x <= 1000;
    assert(-300000000 <= 300 * UNIT * e.y <= 300000000) by (nonlinear_arith)
        requires -1000 <= e.y <= 1000;
    let px = 3000 * wi * z - 2 * ship_x * wi * z + 300 * UNIT * e.x * wi;
    let py = 3000 * hi * z - 2 * ship_y * hi * z + 300 * UNIT * e.y * hi;
    if px < 0 || px >= wi * den || py < 0 || py >= hi * den {
        return None;
    }
    let col = px / den;
    let row = py / den;
    assert(col < wi) by (nonlinear_arith)
        requires col == px / den, 0 <= px < wi * den, den > 0;
    assert(row < hi) by (nonlinear_arith)
        requires row == py / den, 0 <= py < hi * den, den > 0;
    let glyph: &'static str = if z > 50 * UNIT {
        "."
    } else if z > 20 * UNIT {
        "-o-"
    } else {
        "/-\\"
    };
    Some(Sprite { col: col as u16, row: row as u16, glyph })
}

impl GameState {
    /// The enemies as drawn over a trench view `width` by `height`: each one
    /// farther than `CULL_DEPTH` is projected through the vanishing point,
    /// scaled by its nearness, and given a glyph by its depth; those that
    /// fall outside the view are left out.
    pub fn enemy_sprites(&self, width: u16, height: u16) -> (r: Vec<Sprite>)
        requires
            self@.wf(),
        ensures
            r@.len() == place_enemies(self.enemies@, self.ship_x as int, self.ship_y as int, width as int, height as int).len(),
            forall|i: int|
                0 <= i < r@.len() ==> place_enemies(self.enemies@, self.ship_x as int, self.ship_y as int, width as int, height as int)[i]
                    == ((#[trigger] r@[i]).col as int, r@[i].row as int, r@[i].glyph@),
    {
        let mut out: Vec<Sprite> = Vec::new();
        let mut i: usize = 0;
        while i < self.enemies.len()
            invariant
                i <= self.enemies@.len(),
                self@.wf(),
                out@.len() == place_enemies(self.enemies@.take(i as int), self.ship_x as int, self.ship_y as int, width as int, height as int).len(),
                forall|j: int|
                    0 <= j < out@.len() ==> place_enemies(self.enemies@.take(i as int), self.ship_x as int, self.ship_y as int, width as int, height as int)[j]
                        == ((#[trigger] out@[j]).col as int, out@[j].row as int, out@[j].glyph@),
            decreases self.enemies@.len() - i,
        {
            let e = self.enemies[i];
            assert(enemy_ok(self@.enemies[i as int]));
            let placed = enemy_sprite(e, self.ship_x, self.ship_y, width, height);
            proof {
                let t = self.enemies@.take(i as int + 1);
                assert(t.drop_last() =~= self.enemies@.take(i as int));
                assert(t.last() == e);
            }
            match placed {
                Some(sp) => {
                    out.push(sp);
                },
                None => {},
            }
            i = i + 1;
        }
        assert(self.enemies@.take(self.enemies@.len() as int) =~= self.enemies@);
        out
    }
}

/// The starfield character at column `i`: stars fall on two columns out of
/// every seven, shifted by a tenth of the ship's lateral offset for parallax.
pub open spec fn star_at(ship_x: int, i: int) -> char {
    let pos = (i + tdiv(ship_x * 10, UNIT as int)) % 7;
    if pos == 0 || pos == 3 {
        '*'
    } else {
        ' '
    }
}

/// The cockpit seen from behind, one string per row.
pub open spec fn cockpit_rows() -> Seq<&'static str> {
    seq![
        r"          /\                    /\          ",
        r"         /  \                  /  \         ",
        r"        /    \                /    \        ",
        r"       /      \______________/      \       ",
        r"      /       |              |       \      ",
        r"     /________|              |________\     ",
        r"    |    _____|              |_____    |    ",
        r"    |   /     \______________/     \   |    ",
        r"    |  /                            \  |    ",
        r"    | /          ________            \ |    ",
        r"    |/          /   /\   \            \|    ",
        r"   _|__________/   /  \   \____________|_   ",
        r"  /            \__/    \__/              \  ",
        r" /                                        \ ",
    ]
}

/// The cockpit, one string per row.
pub fn cockpit_art() -> (r: &'static [&'static str])
    ensures
        r@ == cockpit_rows(),
{
    let rows: &'static [&'static str] = &[
        r"          /\                    /\          ",
        r"         /  \                  /  \         ",
        r"        /    \                /    \        ",
        r"       /      \______________/      \       ",
        r"      /       |              |       \      ",
        r"     /________|              |________\     ",
        r"    |    _____|              |_____    |    ",
        r"    |   /     \______________/     \   |    ",
        r"    |  /                            \  |    ",
        r"    | /          ________            \ |    ",
        r"    |/          /   /\   \            \|    ",
        r"   _|__________/   /  \   \____________|_   ",
        r"  /            \__/    \__/              \  ",
        r" /                                        \ ",
    ];
    assert(rows@ == cockpit_rows());
    rows
}

/// Spaces before each cockpit row in a band `w` wide: the cockpit is
/// centred, then shifted opposite the ship's lateral offset by four cells per
/// unit of offset, never past the left edge.
pub open spec fn cockpit_indent(ship_x: int, w: int) -> int {
    let p = tdiv(w - cockpit_rows()[0]@.len(), 2) - tdiv(ship_x * 4, UNIT as int);
    if p > 0 {
        p
    } else {
        0
    }
}

/// Cells in the shield gauge.
pub const GAUGE_CELLS: u8 = 8;

/// Bars shown for a shield level: the level's share of `MAX_SHIELD`, scaled
/// to the gauge's cells and rounded down (none when empty, all when full).
pub open spec fn shield_bars(shield: int) -> int {
    shield * GAUGE_CELLS / (MAX_SHIELD as int)
}

/// The shield gauge: `GAUGE_CELLS` cells, the first `shield_bars(shield)`
/// of them bars.
pub open spec fn shield_bar(shield: int) -> Seq<char> {
    Seq::new(GAUGE_CELLS as nat, |i: int| if i < shield_bars(shield) { '|' } else { ' ' })
}

/// The status line under the cockpit.
pub open spec fn hud_text(shield: int, altitude: u32, score: u32) -> Seq<char> {
    "SHIELD: "@ + shield_bar(shield) + "   LASER: READY   ALTITUDE: "@ + pad_left(decimal(altitude as nat), 4, ' ')
        + "   SCORE: "@ + pad_left(decimal(score as nat), 6, '0')
}

/// Width of the pause box.
pub const PAUSE_WIDTH: u16 = 30;

/// Height of the pause box.
pub const PAUSE_HEIGHT: u16 = 5;

/// The text of the pause box, one string per row.
pub fn pause_text() -> (r: &'static [&'static str])
    ensures
        r@ == seq!["", "[ PAUSED ]", "", "Press ENTER to resume", "Press Q to return to menu"],
{
    let rows: &'static [&'static str] = &[
        "",
        "[ PAUSED ]",
        "",
        "Press ENTER to resume",
        "Press Q to return to menu",
    ];
    assert(rows@ == seq!["", "[ PAUSED ]", "", "Press ENTER to resume", "Press Q to return to menu"]);
    rows
}

/// Offset of the top-left corner of the pause box that centres it in a
/// screen `width` by `height` (at the corner if the screen is smaller).
pub fn pause_origin(width: u16, height: u16) -> (r: (u16, u16))
    ensures
        r.0 == (if width > PAUSE_WIDTH { width - PAUSE_WIDTH } else { 0 }) / 2,
        r.1 == (if height > PAUSE_HEIGHT { height - PAUSE_HEIGHT } else { 0 }) / 2,
{
    (width.saturating_sub(PAUSE_WIDTH) / 2, height.saturating_sub(PAUSE_HEIGHT) / 2)
}

impl GameState {
    /// The starfield row, `width` characters.
    pub fn sky_row(&self, width: u16) -> (r: Vec<char>)
        requires
            in_view(self.ship_x as int),
        ensures
            r@.len() == width,
            forall|i: int| 0 <= i < width ==> r@[i] == star_at(self.ship_x as int, i),
    {
        let offset = trunc_div(self.ship_x * 10, UNIT);
        assert(-10 <= offset <= 10) by (nonlinear_arith)
            requires
                offset == tdiv(self.ship_x * 10, UNIT as int),
                -UNIT <= self.ship_x <= UNIT,
        ;
        let mut row: Vec<char> = Vec::new();
        let mut i: u16 = 0;
        while i < width
            invariant
                i <= width,
                offset == tdiv(self.ship_x * 10, UNIT as int),
                -10 <= offset <= 10,
                row@.len() == i,
                forall|j: int| 0 <= j < i ==> row@[j] == star_at(self.ship_x as int, j),
            decreases width - i,
        {
            let shifted = (i as i64 + offset + 70) as u64;
            let pos = shifted % 7;
            assert(pos == (i + offset) % 7) by (nonlinear_arith)
                requires
                    shifted == i + offset + 70,
                    pos == shifted % 7,
                    i + offset + 70 >= 0,
            ;
            row.push(if pos == 0 || pos == 3 { '*' } else { ' ' });
            i = i + 1;
        }
        row
    }

    /// The cockpit rows for a band `width` wide: each row of the art, moved
    /// right by `cockpit_indent` spaces.
    pub fn cockpit_lines(&self, width: u16) -> (r: Vec<Vec<char>>)
        requires
            in_view(self.ship_x as int),
        ensures
            r@.len() == cockpit_rows().len(),
            forall|i: int|
                0 <= i < r@.len() ==> (#[trigger] r@[i])@ == repeated(' ', cockpit_indent(self.ship_x as int, width as int))
                    + cockpit_rows()[i]@,
    {
        let art = cockpit_art();
        proof {
            reveal_strlit(r"          /\                    /\          ");
        }
        let art_width = art[0].unicode_len() as i64;
        assert(art_width == 44);
        let shift = trunc_div(self.ship_x * 4, UNIT);
        assert(-4 <= shift <= 4) by (nonlinear_arith)
            requires
                shift == tdiv(self.ship_x * 4, UNIT as int),
                -UNIT <= self.ship_x <= UNIT,
        ;
        let centred = trunc_div(width as i64 - art_width, 2) - shift;
        let indent: usize = if centred > 0 { centred as usize } else { 0 };
        let mut lines: Vec<Vec<char>> = Vec::new();
        let mut i: usize = 0;
        while i < art.len()
            invariant
                art@ == cockpit_rows(),
                i <= art@.len(),
                indent == cockpit_indent(self.ship_x as int, width as int),
                lines@.len() == i,
                forall|j: int|
                    0 <= j < i ==> (#[trigger] lines@[j])@ == repeated(' ', indent as int) + cockpit_rows()[j]@,
            decreases art@.len() - i,
        {
            let mut line: Vec<char> = Vec::new();
            push_repeated(&mut line, ' ', indent);
            push_str(&mut line, art[i]);
            lines.push(line);
            i = i + 1;
        }
        lines
    }

    /// The status line: shield gauge, laser state, altitude right-aligned
    /// in four columns, score zero-padded to six digits.
    pub fn hud_line(&self) -> (r: Vec<char>)
        ensures
            r@ == hud_text(self.shield as int, self.altitude, self.score),
    {
        let mut line: Vec<char> = Vec::new();
        push_str(&mut line, "SHIELD: ");
        let ghost head = line@;
        let bars: u32 = self.shield as u32 * GAUGE_CELLS as u32 / MAX_SHIELD as u32;
        let mut i: u8 = 0;
        while i < GAUGE_CELLS
            invariant
                i <= GAUGE_CELLS,
                bars == shield_bars(self.shield as int),
                line@ == head + shield_bar(self.shield as int).take(i as int),
            decreases GAUGE_CELLS - i,
        {
            line.push(if (i as u32) < bars { '|' } else { ' ' });
            i = i + 1;
            assert(line@ =~= head + shield_bar(self.shield as int).take(i as int));
        }
        assert(shield_bar(self.shield as int).take(GAUGE_CELLS as int) =~= shield_bar(self.shield as int));
        push_str(&mut line, "   LASER: READY   ALTITUDE: ");
        push_padded_decimal(&mut line, self.altitude, 4, ' ');
        push_str(&mut line, "   SCORE: ");
        push_padded_decimal(&mut line, self.score, 6, '0');
        line
    }
}

} // verus!
