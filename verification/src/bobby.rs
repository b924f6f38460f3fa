//! Bobby: where he stands, where he walks to, and what he does to the tiles.

use vstd::prelude::*;

use crate::tile::{
    carrots, law_switches_keep_carrots, lemma_carrots_update, leave_tile, left_behind,
    press_red_switch, press_yellow_switch, red_switch_map, yellow_switch_map, CARROT, CARROT_TAKEN, FIRST_WALKABLE, GRID_CELLS,
    GRID_HEIGHT, GRID_WIDTH, RED_SWITCH, YELLOW_SWITCH, START, FINISH,
};

verus! {

/// The direction Bobby faces or walks in.
#[derive(Debug, Clone, Copy, PartialEq, Eq, Structural)]
pub enum State {
    Idle,
    Left,
    Right,
    Up,
    Down,
}

/// Which of Bobby's sprite sheets a frame is drawn from.
#[derive(Debug, Clone, Copy, PartialEq, Eq, Structural)]
pub enum Sprite {
    Idle,
    Left,
    Right,
    Up,
    Down,
}

/// A rectangle in pixels: the left edge, the top edge, the width and the
/// height.
#[derive(Debug, Clone, Copy, PartialEq, Eq, Structural)]
pub struct Rect {
    pub x: i32,
    pub y: i32,
    pub w: u32,
    pub h: u32,
}

/// Width of one of Bobby's sprites in pixels.
pub const SPRITE_WIDTH: i32 = 36;

/// Height of one of Bobby's sprites in pixels.
pub const SPRITE_HEIGHT: i32 = 50;

/// Frames per animation step.
pub const FRAMES_PER_STEP: u32 = 2;

/// Animation steps that a walk from one cell to the next takes.
pub const STEPS_PER_CELL: u32 = 8;

/// The rabbit that the player moves across the level.
#[derive(Debug)]
pub struct Bobby {
    /// The direction he faces.
    pub state: State,
    /// A direction asked for during a walk, taken once the walk ends.
    pub next_state: Option<State>,
    /// The frame at which the current walk (or stand) began.
    pub start_frame: u32,
    /// The cell he stands on, or walks from.
    pub coord_src: (u32, u32),
    /// The cell he walks to; equal to `coord_src` when he stands.
    pub coord_dest: (u32, u32),
    /// Carrots collected so far.
    pub carrot_count: usize,
}

/// Index of a cell in the level's tiles.
pub open spec fn cell(c: (u32, u32)) -> int {
    c.0 + c.1 * 16
}

/// The cell's index fits the level's tiles and a `u32`.
pub open spec fn cell_fits(c: (u32, u32), len: int) -> bool {
    &&& cell(c) < len
    &&& cell(c) <= u32::MAX
}

/// `dest` is the cell next to `src` in the direction of `state`. An idle
/// Bobby faces no direction, so no step is one of his.
pub open spec fn one_step(state: State, src: (u32, u32), dest: (u32, u32)) -> bool {
    match state {
        State::Left => src.0 == dest.0 + 1 && src.1 == dest.1,
        State::Right => src.0 + 1 == dest.0 && src.1 == dest.1,
        State::Up => src.0 == dest.0 && src.1 == dest.1 + 1,
        State::Down => src.0 == dest.0 && src.1 + 1 == dest.1,
        State::Idle => false,
    }
}

/// A column or row taken as an `i32`, as `as i32` takes it: values past
/// `i32::MAX` wrap around to negative ones.
pub open spec fn signed(c: u32) -> int {
    if c <= i32::MAX {
        c as int
    } else {
        c - 0x1_0000_0000
    }
}

/// The pixel edge `a * 32 + 16 - offset` of a sprite on cell `a`, and the
/// sums on the way to it, fit an `i32`.
pub open spec fn edge_fits(a: int, offset: int) -> bool {
    &&& a * 32 + 16 <= i32::MAX
    &&& i32::MIN <= a * 32 + 16 - offset
}

proof fn lemma_signed(c: u32)
    ensures
        c as i32 == signed(c),
{
    assert(c <= 0x7fff_ffff ==> c as i32 == c) by (bit_vector);
    assert(c > 0x7fff_ffff ==> c as i32 == c - 0x1_0000_0000) by (bit_vector);
}

/// The cell that a step from `c` towards `state` leads to; a step off the
/// grid, or an idle one, stays on `c`.
pub open spec fn step_target(c: (u32, u32), state: State) -> (u32, u32) {
    match state {
        State::Left => if c.0 > 0 { ((c.0 - 1) as u32, c.1) } else { c },
        State::Right => if c.0 < GRID_WIDTH - 1 { ((c.0 + 1) as u32, c.1) } else { c },
        State::Up => if c.1 > 0 { (c.0, (c.1 - 1) as u32) } else { c },
        State::Down => if c.1 < GRID_HEIGHT - 1 { (c.0, (c.1 + 1) as u32) } else { c },
        State::Idle => c,
    }
}

/// The cell that a step from `c` towards `state` leads to.
pub fn step_target_of(c: (u32, u32), state: State) -> (r: (u32, u32))
    ensures
        r == step_target(c, state),
{
    match state {
        State::Left => if c.0 > 0 { (c.0 - 1, c.1) } else { c },
        State::Right => if c.0 < GRID_WIDTH - 1 { (c.0 + 1, c.1) } else { c },
        State::Up => if c.1 > 0 { (c.0, c.1 - 1) } else { c },
        State::Down => if c.1 < GRID_HEIGHT - 1 { (c.0, c.1 + 1) } else { c },
        State::Idle => c,
    }
}

/// Moving towards `state` cannot enter a tile of this kind: a wall, a corner
/// whose closed sides face the move, or a rail or one-way tile that lies
/// across the move.
pub open spec fn entry_blocked(state: State, tile: u8) -> bool {
    let horizontal = state == State::Left || state == State::Right;
    let vertical = state == State::Up || state == State::Down;
    ||| tile < FIRST_WALKABLE
    ||| tile == 24 && (state == State::Right || state == State::Down)
    ||| tile == 25 && (state == State::Left || state == State::Down)
    ||| tile == 26 && (state == State::Left || state == State::Up)
    ||| tile == 27 && (state == State::Right || state == State::Up)
    ||| (tile == 28 || tile == 40 || tile == 41) && vertical
    ||| (tile == 29 || tile == 42 || tile == 43) && horizontal
}

/// Moving towards `state` cannot leave a tile of this kind.
pub open spec fn exit_blocked(state: State, tile: u8) -> bool {
    let horizontal = state == State::Left || state == State::Right;
    let vertical = state == State::Up || state == State::Down;
    ||| tile == 24 && (state == State::Left || state == State::Up)
    ||| tile == 25 && (state == State::Right || state == State::Up)
    ||| tile == 26 && (state == State::Right || state == State::Down)
    ||| tile == 27 && (state == State::Left || state == State::Down)
    ||| (tile == 28 || tile == 40 || tile == 41) && vertical
    ||| (tile == 29 || tile == 42 || tile == 43) && horizontal
}

/// The sprite sheet for a direction.
pub open spec fn sprite_for(state: State) -> Sprite {
    match state {
        State::Idle => Sprite::Idle,
        State::Left => Sprite::Left,
        State::Right => Sprite::Right,
        State::Up => Sprite::Up,
        State::Down => Sprite::Down,
    }
}

/// A walk ends with its eighth step: sixteen frames after it began, two
/// frames to a step.
pub proof fn law_walk_ends_after_eight_steps(bobby: Bobby, frame: u32)
    requires
        bobby.walking(),
        bobby.state != State::Idle,
        frame >= bobby.start_frame,
    ensures
        bobby.arrives(frame) <==> (frame - bobby.start_frame == 16 || frame - bobby.start_frame
            == 17),
{
}

/// The direction that undoes a move towards `d`.
pub open spec fn opposite(d: State) -> State {
    match d {
        State::Left => State::Right,
        State::Right => State::Left,
        State::Up => State::Down,
        State::Down => State::Up,
        State::Idle => State::Idle,
    }
}

/// Left edge on screen of the sprite of a Bobby standing on `c`.
pub open spec fn stand_x(c: (u32, u32)) -> int {
    signed(c.0) * 32 - 2
}

/// Top edge on screen of the sprite of a Bobby standing on `c`.
pub open spec fn stand_y(c: (u32, u32)) -> int {
    signed(c.1) * 32 - 18
}

/// A tile that can be walked on lets Bobby in with a move one way exactly
/// when it lets him out with the move back.
pub proof fn law_entry_mirrors_exit(d: State, t: u8)
    requires
        t >= FIRST_WALKABLE,
    ensures
        entry_blocked(d, t) == exit_blocked(opposite(d), t),
        exit_blocked(d, t) == entry_blocked(opposite(d), t),
{
}

/// A step from a cell of the grid stays on the grid: it leads to the next
/// cell towards `d`, and stays put only at the edge it faces (or when idle).
pub proof fn law_steps_stay_on_grid(c: (u32, u32), d: State)
    requires
        c.0 < GRID_WIDTH,
        c.1 < GRID_HEIGHT,
    ensures
        step_target(c, d).0 < GRID_WIDTH,
        step_target(c, d).1 < GRID_HEIGHT,
        step_target(c, d) == c || one_step(d, c, step_target(c, d)),
        (step_target(c, d) == c) == match d {
            State::Left => c.0 == 0,
            State::Right => c.0 == GRID_WIDTH - 1,
            State::Up => c.1 == 0,
            State::Down => c.1 == GRID_HEIGHT - 1,
            State::Idle => true,
        },
{
}

/// The direction a quarter turn clockwise from `d`.
pub open spec fn clockwise(d: State) -> State {
    match d {
        State::Right => State::Down,
        State::Down => State::Left,
        State::Left => State::Up,
        State::Up => State::Right,
        State::Idle => State::Idle,
    }
}

/// Walls let nobody in; the plain walkable tiles (all but the corners, the
/// rails and the one-way tiles) let Bobby in and out in every direction.
pub proof fn law_walls_and_open_ground(d: State, t: u8)
    requires
        d != State::Idle,
    ensures
        t < FIRST_WALKABLE ==> entry_blocked(d, t),
        t >= FIRST_WALKABLE && (t < 24 || t > 29) && (t < 40 || t > 43) ==> !entry_blocked(
            d,
            t,
        ) && !exit_blocked(d, t),
{
}

/// Walking off a corner or a rail turns it a quarter clockwise, and its open
/// sides turn with it: the turned tile lets Bobby out towards `clockwise(d)`
/// exactly when the tile before let him out towards `d`, and likewise in.
pub proof fn law_turned_tiles_turn_their_sides(d: State, t: u8)
    requires
        24 <= t <= 29,
    ensures
        exit_blocked(clockwise(d), left_behind(t)) == exit_blocked(d, t),
        entry_blocked(clockwise(d), left_behind(t)) == entry_blocked(d, t),
{
}

/// Moves can be undone: when Bobby, standing on a walkable cell of the grid,
/// turns towards `d` and walks to the next cell, then on the same tiles a
/// Bobby standing on that cell and turning the opposite way walks back to
/// the cell he came from.
pub proof fn law_moves_are_reversible(bobby: Bobby, d: State, frame: u32, map: Seq<u8>)
    requires
        !bobby.walking(),
        bobby.coord_src.0 < GRID_WIDTH,
        bobby.coord_src.1 < GRID_HEIGHT,
        map[cell(bobby.coord_src)] >= FIRST_WALKABLE,
        bobby.turned(d, frame, map).walking(),
    ensures
        ({
            let there = bobby.turned(d, frame, map).coord_dest;
            let back = Bobby { coord_src: there, coord_dest: there, ..bobby };
            &&& one_step(d, bobby.coord_src, there)
            &&& back.turned(opposite(d), frame, map).coord_dest == bobby.coord_src
        }),
{
    let here = bobby.coord_src;
    let there = step_target(here, d);
    law_entry_mirrors_exit(d, map[cell(here)]);
    law_entry_mirrors_exit(d, map[cell(there)]);
    law_entry_mirrors_exit(opposite(d), map[cell(here)]);
    law_entry_mirrors_exit(opposite(d), map[cell(there)]);
}

/// The pictures of a walk follow one another, one per step, through the
/// eight pictures of the sheet, and a walk's last step shows the picture of
/// a Bobby who stands; an idle Bobby cycles through three pictures.
pub proof fn law_pictures_advance_one_per_step(bobby: Bobby, frame: u32)
    requires
        frame >= bobby.start_frame,
        frame + FRAMES_PER_STEP <= u32::MAX,
    ensures
        bobby.state != State::Idle && bobby.walking() ==> bobby.source_x(
            (frame + FRAMES_PER_STEP) as u32,
        ) == (bobby.source_x(frame) + SPRITE_WIDTH) % (8 * SPRITE_WIDTH),
        bobby.state != State::Idle && bobby.walking() && bobby.step(frame) == STEPS_PER_CELL
            ==> bobby.source_x(frame) == (STEPS_PER_CELL - 1) * SPRITE_WIDTH,
        bobby.state != State::Idle && !bobby.walking() ==> bobby.source_x(frame) == (
        STEPS_PER_CELL - 1) * SPRITE_WIDTH,
        bobby.state == State::Idle ==> bobby.source_x((frame + FRAMES_PER_STEP) as u32) == (
        bobby.source_x(frame) + SPRITE_WIDTH) % (3 * SPRITE_WIDTH),
{
    let next = (frame + FRAMES_PER_STEP) as u32;
    let k = bobby.step(frame);
    assert(bobby.step(next) == k + 1);
    lemma_next_picture(k);
}

proof fn lemma_next_picture(k: int)
    requires
        k >= 0,
    ensures
        36 * ((k + 1 + 7) % 8) == (36 * ((k + 7) % 8) + 36) % 288,
        36 * ((k + 1) % 3) == (36 * (k % 3) + 36) % 108,
{
    let m = (k + 7) % 8;
    assert((k + 1 + 7) % 8 == (m + 1) % 8);
    assert(36 * ((m + 1) % 8) == (36 * m + 36) % 288);
    let i = k % 3;
    assert((k + 1) % 3 == (i + 1) % 3);
    assert(36 * ((i + 1) % 3) == (36 * i + 36) % 108);
}

/// The end of a walk never adds or removes a start or a finish tile, keeps
/// the level's length, and leaves the cell Bobby reaches walkable.
pub proof fn law_arrival_keeps_landmarks(bobby: Bobby, map: Seq<u8>)
    requires
        bobby.wf(),
        bobby.walking(),
        0 <= cell(bobby.coord_src) < map.len(),
        0 <= cell(bobby.coord_dest) < map.len(),
    ensures
        bobby.arrival_map(map).len() == map.len(),
        forall|i: int|
            0 <= i < map.len() ==> (bobby.arrival_map(map)[i] == START) == (map[i] == START)
                && (bobby.arrival_map(map)[i] == FINISH) == (map[i] == FINISH),
        map[cell(bobby.coord_dest)] >= FIRST_WALKABLE ==> bobby.arrival_map(map)[cell(
            bobby.coord_dest,
        )] >= FIRST_WALKABLE,
{
    let old_pos = cell(bobby.coord_src);
    let new_pos = cell(bobby.coord_dest);
    assert(old_pos != new_pos);
    let left = map.update(old_pos, left_behind(map[old_pos]));
    assert(left[new_pos] == map[new_pos]);
    assert forall|i: int| 0 <= i < map.len() implies (left[i] == START) == (map[i] == START) && (
    left[i] == FINISH) == (map[i] == FINISH) by {
        if i == old_pos {
        }
    }
}

/// The sprite of a Bobby who stands is drawn on his cell.
pub proof fn law_standing_sprite_on_cell(bobby: Bobby, frame: u32)
    requires
        !bobby.walking(),
    ensures
        bobby.dest_x(frame) == stand_x(bobby.coord_src),
        bobby.dest_y(frame) == stand_y(bobby.coord_src),
{
}

/// During a walk the sprite slides in a straight line from the cell Bobby
/// leaves towards the cell he walks to, an eighth of the way per step: at
/// step `k` it lies at `(8 - k) / 8` of the way from the one and `k / 8` of
/// the way from the other, and at step 8 it stands on the cell he walks to.
pub proof fn law_walk_slides_towards_dest(bobby: Bobby, frame: u32)
    requires
        bobby.wf(),
        bobby.walking(),
        frame >= bobby.start_frame,
        bobby.coord_src.0 < i32::MAX,
        bobby.coord_src.1 < i32::MAX,
    ensures
        8 * bobby.dest_x(frame) == (8 - bobby.step(frame)) * stand_x(bobby.coord_src)
            + bobby.step(frame) * stand_x(bobby.coord_dest),
        8 * bobby.dest_y(frame) == (8 - bobby.step(frame)) * stand_y(bobby.coord_src)
            + bobby.step(frame) * stand_y(bobby.coord_dest),
        bobby.step(frame) == STEPS_PER_CELL ==> bobby.dest_x(frame) == stand_x(bobby.coord_dest)
            && bobby.dest_y(frame) == stand_y(bobby.coord_dest),
{
    let k = bobby.step(frame);
    let sx = signed(bobby.coord_src.0);
    let sy = signed(bobby.coord_src.1);
    let dx = signed(bobby.coord_dest.0);
    let dy = signed(bobby.coord_dest.1);
    lemma_interpolate(k, sx, dx, 2);
    lemma_interpolate(k, sy, dy, 18);
    match bobby.state {
        State::Left => {
            assert(dx == sx - 1 && dy == sy);
        },
        State::Right => {
            assert(dx == sx + 1 && dy == sy);
        },
        State::Up => {
            assert(dx == sx && dy == sy - 1);
        },
        State::Down => {
            assert(dx == sx && dy == sy + 1);
        },
        State::Idle => {},
    }
}

proof fn lemma_interpolate(k: int, a: int, b: int, offset: int)
    ensures
        b == a - 1 ==> (8 - k) * (a * 32 - offset) + k * (b * 32 - offset) == 8 * ((a * 8 - k) * 4
            - offset),
        b == a + 1 ==> (8 - k) * (a * 32 - offset) + k * (b * 32 - offset) == 8 * ((a * 8 + k) * 4
            - offset),
        b == a ==> (8 - k) * (a * 32 - offset) + k * (b * 32 - offset) == 8 * (a * 32 - offset),
{
    assert(b == a - 1 ==> (8 - k) * (a * 32 - offset) + k * (b * 32 - offset) == 8 * ((a * 8 - k)
        * 4 - offset)) by (nonlinear_arith);
    assert(b == a + 1 ==> (8 - k) * (a * 32 - offset) + k * (b * 32 - offset) == 8 * ((a * 8 + k)
        * 4 - offset)) by (nonlinear_arith);
    assert(b == a ==> (8 - k) * (a * 32 - offset) + k * (b * 32 - offset) == 8 * (a * 32 - offset))
        by (nonlinear_arith);
}

impl Bobby {
    /// A walk of Bobby's goes to the next cell in the direction he faces
    /// (so an idle Bobby does not walk).
    pub open spec fn wf(self) -> bool {
        self.walking() ==> one_step(self.state, self.coord_src, self.coord_dest)
    }

    /// Both cells that turning towards `state` reads lie in a level of `len`
    /// tiles: the one Bobby stands on, and the one a step would lead to.
    pub open spec fn turn_fits(self, state: State, len: int) -> bool {
        &&& cell_fits(self.coord_src, len)
        &&& cell_fits(step_target(self.coord_dest, state), len)
    }

    pub open spec fn walking(self) -> bool {
        self.coord_src != self.coord_dest
    }

    /// The animation step reached at `frame`.
    pub open spec fn step(self, frame: u32) -> int {
        (frame - self.start_frame) / (FRAMES_PER_STEP as int)
    }

    /// At `frame` the walk ends: Bobby reaches the cell he walks to.
    pub open spec fn arrives(self, frame: u32) -> bool {
        &&& self.state != State::Idle
        &&& self.walking()
        &&& self.step(frame) == STEPS_PER_CELL
    }

    /// How far along the walk Bobby stands, in eighths of a cell, on the
    /// axis of his walk.
    pub open spec fn walk_eighths(self, frame: u32) -> int {
        match self.state {
            State::Left => signed(self.coord_src.0) * 8 - self.step(frame),
            State::Right => signed(self.coord_src.0) * 8 + self.step(frame),
            State::Up => signed(self.coord_src.1) * 8 - self.step(frame),
            State::Down => signed(self.coord_src.1) * 8 + self.step(frame),
            State::Idle => 0,
        }
    }

    /// Every step of the computation of the frame's screen positions fits an
    /// `i32`: a cell's edges in pixels on the axes that do not move, and, on
    /// the axis of a walk, the cell in eighths and the position in 32nds of
    /// a cell.
    pub open spec fn frame_fits(self, frame: u32) -> bool {
        let x_fits = edge_fits(signed(self.coord_src.0), 18);
        let y_fits = edge_fits(signed(self.coord_src.1), 34);
        let walk_fits = i32::MIN <= self.walk_eighths(frame) * 32 <= i32::MAX;
        if self.state == State::Idle || !self.walking() {
            x_fits && y_fits
        } else if self.state == State::Left || self.state == State::Right {
            &&& y_fits
            &&& i32::MIN <= signed(self.coord_src.0) * 8 <= i32::MAX
            &&& walk_fits
        } else {
            &&& x_fits
            &&& i32::MIN <= signed(self.coord_src.1) * 8 <= i32::MAX
            &&& walk_fits
        }
    }

    /// Left edge, in the sprite sheet, of the sprite drawn at `frame`.
    pub open spec fn source_x(self, frame: u32) -> int {
        if self.state == State::Idle {
            SPRITE_WIDTH * (self.step(frame) % 3)
        } else if self.walking() {
            SPRITE_WIDTH * ((self.step(frame) + 7) % 8)
        } else {
            SPRITE_WIDTH * 7
        }
    }

    /// Left edge on screen of the sprite drawn at `frame`: centred on the
    /// cell, and moved by four pixels per step of a horizontal walk.
    pub open spec fn dest_x(self, frame: u32) -> int {
        if self.walking() && (self.state == State::Left || self.state == State::Right) {
            self.walk_eighths(frame) * 4 - 2
        } else {
            signed(self.coord_src.0) * 32 - 2
        }
    }

    /// Top edge on screen of the sprite drawn at `frame`: its feet on the
    /// cell, and moved by four pixels per step of a vertical walk.
    pub open spec fn dest_y(self, frame: u32) -> int {
        if self.walking() && (self.state == State::Up || self.state == State::Down) {
            self.walk_eighths(frame) * 4 - 18
        } else {
            signed(self.coord_src.1) * 32 - 18
        }
    }

    /// The cell that Bobby's walk aims at once he turns as he faces now:
    /// the next cell unless the move is blocked by the tile he stands on or
    /// by the tile ahead.
    pub open spec fn dest_after(self, map: Seq<u8>) -> (u32, u32) {
        let target = step_target(self.coord_dest, self.state);
        if entry_blocked(self.state, map[cell(target)]) || exit_blocked(
            self.state,
            map[cell(self.coord_src)],
        ) {
            self.coord_dest
        } else {
            target
        }
    }

    /// Bobby after turning towards `state` at `frame`.
    pub open spec fn turned(self, state: State, frame: u32, map: Seq<u8>) -> Bobby {
        let faced = Bobby { state: state, start_frame: frame, ..self };
        Bobby { coord_dest: faced.dest_after(map), ..faced }
    }

    /// The tiles once Bobby has reached the cell he walked to: the tile he
    /// left turns, a carrot ahead is collected, a switch ahead is pressed.
    pub open spec fn arrival_map(self, map: Seq<u8>) -> Seq<u8> {
        let old_pos = cell(self.coord_src);
        let new_pos = cell(self.coord_dest);
        let left = map.update(old_pos, left_behind(map[old_pos]));
        let reached = left[new_pos];
        if reached == CARROT {
            left.update(new_pos, CARROT_TAKEN)
        } else if reached == RED_SWITCH {
            red_switch_map(left)
        } else if reached == YELLOW_SWITCH {
            yellow_switch_map(left)
        } else {
            left
        }
    }

    /// Bobby once he has reached the cell he walked to at `frame`; a
    /// direction asked for during the walk is taken at once.
    pub open spec fn arrived(self, frame: u32, map: Seq<u8>) -> Bobby {
        let landed = Bobby {
            next_state: None,
            start_frame: frame,
            coord_src: self.coord_dest,
            carrot_count: if map[cell(self.coord_dest)] == CARROT {
                (self.carrot_count + 1) as usize
            } else {
                self.carrot_count
            },
            ..self
        };
        match self.next_state {
            Some(s) => landed.turned(s, frame, self.arrival_map(map)),
            None => landed,
        }
    }

    /// A Bobby facing down, standing on `coord_src`, with nothing collected.
    pub fn new(start_frame: u32, coord_src: (u32, u32)) -> (bobby: Bobby)
        ensures
            bobby.state == State::Down,
            bobby.next_state == None::<State>,
            bobby.start_frame == start_frame,
            bobby.coord_src == coord_src,
            bobby.coord_dest == coord_src,
            bobby.carrot_count == 0,
            !bobby.walking(),
            bobby.wf(),
    {
        Bobby {
            state: State::Down,
            next_state: None,
            start_frame,
            coord_src,
            coord_dest: coord_src,
            carrot_count: 0,
        }
    }

    pub fn is_walking(&self) -> (r: bool)
        ensures
            r == self.walking(),
    {
        self.coord_src.0 != self.coord_dest.0 || self.coord_src.1 != self.coord_dest.1
    }

    /// Whether the screen positions of the sprite at `frame` fit an `i32`.
    pub fn frame_fits_now(&self, frame: u32) -> (r: bool)
        requires
            frame >= self.start_frame,
        ensures
            r == self.frame_fits(frame),
    {
        proof {
            lemma_signed(self.coord_src.0);
            lemma_signed(self.coord_src.1);
        }
        let max: i64 = 2147483647;
        let min: i64 = -2147483648;
        let x = self.coord_src.0 as i32 as i64;
        let y = self.coord_src.1 as i32 as i64;
        let x_fits = x * 32 + 16 <= max && min <= x * 32 + 16 - 18;
        let y_fits = y * 32 + 16 <= max && min <= y * 32 + 16 - 34;
        if self.state == State::Idle || !self.is_walking() {
            return x_fits && y_fits;
        }
        let step = ((frame - self.start_frame) / FRAMES_PER_STEP) as i64;
        let eighths = match self.state {
            State::Left => x * 8 - step,
            State::Right => x * 8 + step,
            State::Up => y * 8 - step,
            _ => y * 8 + step,
        };
        let walk_fits = min <= eighths * 32 && eighths * 32 <= max;
        if self.state == State::Left || self.state == State::Right {
            y_fits && min <= x * 8 && x * 8 <= max && walk_fits
        } else {
            x_fits && min <= y * 8 && y * 8 <= max && walk_fits
        }
    }

    /// Whether the walk ends at `frame`.
    pub fn arrives_now(&self, frame: u32) -> (r: bool)
        requires
            frame >= self.start_frame,
        ensures
            r == self.arrives(frame),
    {
        self.state != State::Idle && self.is_walking() && (frame - self.start_frame)
            / FRAMES_PER_STEP == STEPS_PER_CELL
    }

    /// Remembers a direction asked for during a walk, once the walk is past
    /// its first half.
    pub fn update_next_state(&mut self, state: State, frame: u32)
        requires
            frame >= old(self).start_frame,
        ensures
            *final(self) == (if old(self).step(frame) > 3 {
                Bobby { next_state: Some(state), ..*old(self) }
            } else {
                *old(self)
            }),
    {
        if (frame - self.start_frame) / FRAMES_PER_STEP > 3 {
            self.next_state = Some(state);
        }
    }

    /// Turns Bobby towards `state` at `frame` and sets the cell he walks to.
    pub fn update_state(&mut self, state: State, frame: u32, map_data: &[u8])
        requires
            old(self).turn_fits(state, map_data@.len() as int),
        ensures
            *final(self) == old(self).turned(state, frame, map_data@),
            !old(self).walking() ==> final(self).wf(),
    {
        self.start_frame = frame;
        self.state = state;
        self.update_dest(map_data);
    }

    /// Sets the cell Bobby walks to: the next cell in the direction he
    /// faces, unless the move leaves the grid or a tile blocks it.
    pub fn update_dest(&mut self, map_data: &[u8])
        requires
            old(self).turn_fits(old(self).state, map_data@.len() as int),
        ensures
            *final(self) == (Bobby { coord_dest: old(self).dest_after(map_data@), ..*old(self) }),
            !old(self).walking() ==> final(self).wf(),
    {
        let old_dest = self.coord_dest;
        match self.state {
            State::Left => {
                if self.coord_dest.0 > 0 {
                    self.coord_dest.0 = self.coord_dest.0 - 1;
                }
            },
            State::Right => {
                if self.coord_dest.0 < GRID_WIDTH - 1 {
                    self.coord_dest.0 = self.coord_dest.0 + 1;
                }
            },
            State::Up => {
                if self.coord_dest.1 > 0 {
                    self.coord_dest.1 = self.coord_dest.1 - 1;
                }
            },
            State::Down => {
                if self.coord_dest.1 < GRID_HEIGHT - 1 {
                    self.coord_dest.1 = self.coord_dest.1 + 1;
                }
            },
            _ => {},
        }
        let old_pos = (self.coord_src.0 + self.coord_src.1 * 16) as usize;
        let new_pos = (self.coord_dest.0 + self.coord_dest.1 * 16) as usize;
        let old_item = map_data[old_pos];
        let new_item = map_data[new_pos];
        let s = self.state;
        let horizontal = s == State::Left || s == State::Right;
        let vertical = s == State::Up || s == State::Down;
        // the tile ahead does not let him in
        let blocked_ahead = new_item < FIRST_WALKABLE
            || (new_item == 24 && (s == State::Right || s == State::Down))
            || (new_item == 25 && (s == State::Left || s == State::Down))
            || (new_item == 26 && (s == State::Left || s == State::Up))
            || (new_item == 27 && (s == State::Right || s == State::Up))
            || ((new_item == 28 || new_item == 40 || new_item == 41) && vertical)
            || ((new_item == 29 || new_item == 42 || new_item == 43) && horizontal);
        // the tile he stands on does not let him out
        let blocked_here = (old_item == 24 && (s == State::Left || s == State::Up))
            || (old_item == 25 && (s == State::Right || s == State::Up))
            || (old_item == 26 && (s == State::Right || s == State::Down))
            || (old_item == 27 && (s == State::Left || s == State::Down))
            || ((old_item == 28 || old_item == 40 || old_item == 41) && vertical)
            || ((old_item == 29 || old_item == 42 || old_item == 43) && horizontal);
        if blocked_ahead || blocked_here {
            self.coord_dest = old_dest;
        }
    }

    /// The sprite for `frame`: which sheet, the part of the sheet, and where
    /// on screen. When the walk ends at `frame`, Bobby reaches the cell he
    /// walked to and the tiles change (see `arrival_map` and `arrived`).
    ///
    /// `carrot_total` and `map_end` describe the level; no decision here
    /// depends on them.
    pub fn get_texture(
        &mut self,
        frame: u32,
        map_data: &mut [u8],
        carrot_total: usize,
        map_end: usize,
    ) -> (res: (Sprite, Rect, Rect))
        requires
            old(self).state != State::Idle ==> old(self).wf(),
            frame >= old(self).start_frame,
            old(self).frame_fits(frame),
            old(self).arrives(frame) ==> cell_fits(old(self).coord_src, old(map_data)@.len() as int)
                && cell_fits(old(self).coord_dest, old(map_data)@.len() as int),
            old(self).arrives(frame) && (old(map_data)@[cell(old(self).coord_dest)] == RED_SWITCH
                || old(map_data)@[cell(old(self).coord_dest)] == YELLOW_SWITCH)
                ==> old(map_data)@.len() >= GRID_CELLS,
            old(self).arrives(frame) && old(map_data)@[cell(old(self).coord_dest)] == CARROT
                ==> old(self).carrot_count < usize::MAX,
            old(self).arrives(frame) && old(self).next_state is Some ==> cell_fits(
                step_target(old(self).coord_dest, old(self).next_state->0),
                old(map_data)@.len() as int,
            ),
        ensures
            res.0 == sprite_for(old(self).state),
            res.1.x == old(self).source_x(frame),
            res.1.y == 0,
            res.1.w == SPRITE_WIDTH,
            res.1.h == SPRITE_HEIGHT,
            res.2.x == old(self).dest_x(frame),
            res.2.y == old(self).dest_y(frame),
            res.2.w == SPRITE_WIDTH,
            res.2.h == SPRITE_HEIGHT,
            old(self).arrives(frame) ==> final(map_data)@ == old(self).arrival_map(old(map_data)@)
                && *final(self) == old(self).arrived(frame, old(map_data)@),
            !old(self).arrives(frame) ==> final(map_data)@ == old(map_data)@ && *final(self)
                == *old(self),
            old(self).wf() ==> final(self).wf(),
            carrots(final(map_data)@) + final(self).carrot_count == carrots(old(map_data)@)
                + old(self).carrot_count,
    {
        proof {
            lemma_signed(self.coord_src.0);
            lemma_signed(self.coord_src.1);
        }
        let delta_frame = frame - self.start_frame;
        let is_walking = self.is_walking();
        let step = delta_frame / FRAMES_PER_STEP;
        let (sprite, src, dest) = match self.state {
            State::Idle => {
                let step_idle = step % 3;
                let src = Rect { x: 36 * step_idle as i32, y: 0, w: 36, h: 50 };
                let dest = Rect {
                    x: self.coord_src.0 as i32 * 32 + 16 - (36 / 2),
                    y: self.coord_src.1 as i32 * 32 + 16 - (50 - 32 / 2),
                    w: 36,
                    h: 50,
                };
                return (Sprite::Idle, src, dest);
            },
            State::Left => {
                let (src_x, dest_x, dest_y) = if is_walking {
                    (
                        36 * ((step + 7) % 8) as i32,
                        (self.coord_src.0 as i32 * 8 - step as i32) * 32 / 8 + 16 - (36 / 2),
                        self.coord_src.1 as i32 * 32 + 16 - (50 - 32 / 2),
                    )
                } else {
                    (
                        36 * 7,
                        self.coord_src.0 as i32 * 32 + 16 - (36 / 2),
                        self.coord_src.1 as i32 * 32 + 16 - (50 - 32 / 2),
                    )
                };
                (
                    Sprite::Left,
                    Rect { x: src_x, y: 0, w: 36, h: 50 },
                    Rect { x: dest_x, y: dest_y, w: 36, h: 50 },
                )
            },
            State::Right => {
                let (src_x, dest_x, dest_y) = if is_walking {
                    (
                        36 * ((step + 7) % 8) as i32,
                        (self.coord_src.0 as i32 * 8 + step as i32) * 32 / 8 + 16 - (36 / 2),
                        self.coord_src.1 as i32 * 32 + 16 - (50 - 32 / 2),
                    )
                } else {
                    (
                        36 * 7,
                        self.coord_src.0 as i32 * 32 + 16 - (36 / 2),
                        self.coord_src.1 as i32 * 32 + 16 - (50 - 32 / 2),
                    )
                };
                (
                    Sprite::Right,
                    Rect { x: src_x, y: 0, w: 36, h: 50 },
                    Rect { x: dest_x, y: dest_y, w: 36, h: 50 },
                )
            },
            State::Up => {
                let (src_x, dest_x, dest_y) = if is_walking {
                    (
                        36 * ((step + 7) % 8) as i32,
                        self.coord_src.0 as i32 * 32 + 16 - (36 / 2),
                        (self.coord_src.1 as i32 * 8 - step as i32) * 32 / 8 + 16 - (50 - 32 / 2),
                    )
                } else {
                    (
                        36 * 7,
                        self.coord_src.0 as i32 * 32 + 16 - (36 / 2),
                        self.coord_src.1 as i32 * 32 + 16 - (50 - 32 / 2),
                    )
                };
                (
                    Sprite::Up,
                    Rect { x: src_x, y: 0, w: 36, h: 50 },
                    Rect { x: dest_x, y: dest_y, w: 36, h: 50 },
                )
            },
            State::Down => {
                let (src_x, dest_x, dest_y) = if is_walking {
                    (
                        36 * ((step + 7) % 8) as i32,
                        self.coord_src.0 as i32 * 32 + 16 - (36 / 2),
                        (self.coord_src.1 as i32 * 8 + step as i32) * 32 / 8 + 16 - (50 - 32 / 2),
                    )
                } else {
                    (
                        36 * 7,
                        self.coord_src.0 as i32 * 32 + 16 - (36 / 2),
                        self.coord_src.1 as i32 * 32 + 16 - (50 - 32 / 2),
                    )
                };
                (
                    Sprite::Down,
                    Rect { x: src_x, y: 0, w: 36, h: 50 },
                    Rect { x: dest_x, y: dest_y, w: 36, h: 50 },
                )
            },
        };
        if step == STEPS_PER_CELL && is_walking {
            let ghost start_map = map_data@;
            let old_pos = (self.coord_src.0 + self.coord_src.1 * 16) as usize;
            let new_pos = (self.coord_dest.0 + self.coord_dest.1 * 16) as usize;
            map_data[old_pos] = leave_tile(map_data[old_pos]);
            proof {
                lemma_carrots_update(start_map, old_pos as int, left_behind(start_map[old_pos as int]));
            }
            let ghost left_map = map_data@;
            match map_data[new_pos] {
                // a carrot: collect it
                19 => {
                    map_data[new_pos] = CARROT_TAKEN;
                    self.carrot_count = self.carrot_count + 1;
                    proof {
                        lemma_carrots_update(left_map, new_pos as int, CARROT_TAKEN);
                    }
                },
                // the red switch
                22 => {
                    press_red_switch(map_data);
                    proof {
                        law_switches_keep_carrots(left_map);
                    }
                },
                // a hole: nothing happens yet
                31 => {},
                // the yellow switch
                38 => {
                    press_yellow_switch(map_data);
                    proof {
                        law_switches_keep_carrots(left_map);
                    }
                },
                _ => {},
            }
            self.coord_src = self.coord_dest;
            self.start_frame = frame;
            let next = self.next_state;
            self.next_state = None;
            if let Some(state) = next {
                self.update_state(state, frame, map_data);
            }
        }
        (sprite, src, dest)
    }
}

} // verus!
