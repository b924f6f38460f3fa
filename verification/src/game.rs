//! One game of a level: the decisions of the game loop, frame by frame.
//!
//! The application reads the level file, turns key presses into `Key`s,
//! calls `key_down` for each and `tick` once per frame, and draws what the
//! game holds.

use vstd::prelude::*;

use crate::bobby::{cell, cell_fits, step_target, step_target_of, Bobby, Rect, Sprite, State};
use crate::level::{last_position, LevelInfo};
use crate::tile::{carrots, lemma_carrots_update, CARROT, FINISH, GRID_CELLS, GRID_HEIGHT, GRID_WIDTH, START};

verus! {

/// Size in pixels of one cell of the grid.
pub const TILE_SIZE: u32 = 32;

/// Tiles per row of the tile set.
pub const TILESET_COLUMNS: i32 = 8;

/// A key press, as the game sees it.
#[derive(Debug, Clone, Copy, PartialEq, Eq, Structural)]
pub enum Key {
    Left,
    Right,
    Up,
    Down,
    /// Start the level again.
    Restart,
    /// Leave the game.
    Quit,
    /// Any other key.
    Other,
}

/// Why a level cannot be played.
#[derive(Debug, Clone, Copy, PartialEq, Eq, Structural)]
pub enum LevelError {
    /// The level holds fewer tiles than the grid has cells.
    TooSmall,
}

/// The direction that a key turns Bobby to, if any.
pub open spec fn key_direction(key: Key) -> Option<State> {
    match key {
        Key::Left => Some(State::Left),
        Key::Right => Some(State::Right),
        Key::Up => Some(State::Up),
        Key::Down => Some(State::Down),
        _ => None,
    }
}

/// The cell where Bobby starts: the start tile's index, taken as a `u32`,
/// split into column and row.
pub open spec fn start_coord(map_start: usize) -> (u32, u32) {
    ((map_start as u32) % 16, (map_start as u32) / 16)
}

pub struct Game {
    /// The tiles as they are now.
    pub map_data: Vec<u8>,
    /// The tiles as the level file holds them.
    pub map_data_fresh: Vec<u8>,
    /// What a scan of the level file found.
    pub info: LevelInfo,
    pub bobby: Bobby,
    /// Frames drawn so far.
    pub frame: u32,
}

impl Game {
    /// Bobby as he stands at the start of the level.
    pub open spec fn start_bobby(self) -> Bobby {
        Bobby {
            state: State::Down,
            next_state: None,
            start_frame: 0,
            coord_src: start_coord(self.info.map_start),
            coord_dest: start_coord(self.info.map_start),
            carrot_count: 0,
        }
    }

    /// The state of a game between two frames. Among it: the carrots
    /// collected and the carrots left add up to the level's carrots.
    pub open spec fn wf(self) -> bool {
        let len = self.map_data@.len() as int;
        &&& self.map_data@.len() == self.map_data_fresh@.len()
        &&& self.map_data@.len() >= GRID_CELLS
        &&& self.info.carrot_total == carrots(self.map_data_fresh@)
        &&& self.info.map_start == last_position(self.map_data_fresh@, START)
        &&& self.info.map_end == last_position(self.map_data_fresh@, FINISH)
        &&& self.bobby.wf()
        &&& self.bobby.state != State::Idle
        &&& self.bobby.next_state != Some(State::Idle)
        &&& self.bobby.coord_src.0 < GRID_WIDTH
        &&& self.bobby.coord_dest.0 < GRID_WIDTH
        &&& cell_fits(self.bobby.coord_src, len)
        &&& cell_fits(self.bobby.coord_dest, len)
        &&& self.frame >= self.bobby.start_frame
        &&& self.bobby.walking() ==> self.frame - self.bobby.start_frame <= 16
        &&& carrots(self.map_data@) + self.bobby.carrot_count == self.info.carrot_total
    }

    /// A key press reads only tiles of the level: a direction that turns a
    /// standing Bobby leads to a cell within the level's tiles.
    pub open spec fn key_fits(self, key: Key) -> bool {
        !self.bobby.walking() ==> (key_direction(key) matches Some(s) ==> cell_fits(
            step_target(self.bobby.coord_dest, s),
            self.map_data@.len() as int,
        ))
    }

    /// The next frame can be drawn: the frame counter does not overflow, the
    /// screen positions fit an `i32`, and a direction taken at the end of a
    /// walk leads to a cell within the level's tiles.
    pub open spec fn tick_fits(self) -> bool {
        &&& self.frame < u32::MAX
        &&& self.bobby.frame_fits(self.frame)
        &&& self.bobby.arrives(self.frame) && self.bobby.next_state is Some ==> cell_fits(
            step_target(self.bobby.coord_dest, self.bobby.next_state->0),
            self.map_data@.len() as int,
        )
    }

    /// Starts a level from its tiles.
    pub fn new(map_data_fresh: Vec<u8>) -> (r: Result<Game, LevelError>)
        ensures
            map_data_fresh@.len() < GRID_CELLS ==> r == Err::<Game, LevelError>(
                LevelError::TooSmall,
            ),
            map_data_fresh@.len() >= GRID_CELLS ==> r is Ok,
            r matches Ok(g) ==> {
                &&& g.wf()
                &&& g.map_data@ == map_data_fresh@
                &&& g.map_data_fresh@ == map_data_fresh@
                &&& g.frame == 0
                &&& g.bobby == g.start_bobby()
            },
    {
        if map_data_fresh.len() < GRID_CELLS {
            return Err(LevelError::TooSmall);
        }
        let info = LevelInfo::scan(&map_data_fresh);
        let map_data = map_data_fresh.clone();
        let bobby = Bobby::new(0, start_cell(info.map_start));
        proof {
            lemma_carrots_bounded(map_data_fresh@);
            lemma_last_position_bounded(map_data_fresh@, START);
        }
        Ok(Game { map_data, map_data_fresh, info, bobby, frame: 0 })
    }

    /// Handles one key press; returns whether the game ends. A direction
    /// turns a standing Bobby at once, and is remembered for the end of a
    /// walk; the restart key puts the level and Bobby back as they were at
    /// the start.
    pub fn key_down(&mut self, key: Key) -> (quit: bool)
        requires
            old(self).wf(),
            old(self).key_fits(key),
        ensures
            final(self).wf(),
            quit == (key == Key::Quit),
            key == Key::Restart ==> final(self).map_data@ == old(self).map_data_fresh@
                && final(self).bobby == old(self).start_bobby(),
            key_direction(key) matches Some(s) ==> final(self).map_data@ == old(self).map_data@
                && final(self).bobby == if old(self).bobby.walking() {
                if old(self).bobby.step(old(self).frame) > 3 {
                    Bobby { next_state: Some(s), ..old(self).bobby }
                } else {
                    old(self).bobby
                }
            } else {
                old(self).bobby.turned(s, old(self).frame, old(self).map_data@)
            },
            key == Key::Quit || key == Key::Other ==> final(self).map_data@ == old(
                self,
            ).map_data@ && final(self).bobby == old(self).bobby,
            final(self).map_data_fresh@ == old(self).map_data_fresh@,
            final(self).info == old(self).info,
            final(self).frame == old(self).frame,
    {
        let state = match key {
            Key::Quit => {
                return true;
            },
            Key::Left => State::Left,
            Key::Right => State::Right,
            Key::Up => State::Up,
            Key::Down => State::Down,
            Key::Restart => {
                self.map_data = self.map_data_fresh.clone();
                self.bobby = Bobby::new(0, start_cell(self.info.map_start));
                proof {
                    lemma_last_position_bounded(self.map_data_fresh@, START);
                }
                return false;
            },
            Key::Other => {
                return false;
            },
        };
        if !self.bobby.is_walking() {
            self.bobby.update_state(state, self.frame, &self.map_data);
        } else {
            self.bobby.update_next_state(state, self.frame);
        }
        false
    }

    /// Draws one frame of Bobby and moves on to the next frame: returns the
    /// sprite sheet, the part of it and the place on screen, and applies what
    /// Bobby does to the tiles when his walk ends in this frame.
    pub fn tick(&mut self) -> (res: (Sprite, Rect, Rect))
        requires
            old(self).wf(),
            old(self).tick_fits(),
        ensures
            final(self).wf(),
            final(self).frame == old(self).frame + 1,
            final(self).map_data_fresh@ == old(self).map_data_fresh@,
            final(self).info == old(self).info,
            res.0 == crate::bobby::sprite_for(old(self).bobby.state),
            res.1.x == old(self).bobby.source_x(old(self).frame),
            res.1.y == 0,
            res.2.x == old(self).bobby.dest_x(old(self).frame),
            res.2.y == old(self).bobby.dest_y(old(self).frame),
            res.1.w == 36 && res.1.h == 50 && res.2.w == 36 && res.2.h == 50,
            old(self).bobby.arrives(old(self).frame) ==> final(self).map_data@ == old(
                self,
            ).bobby.arrival_map(old(self).map_data@) && final(self).bobby == old(
                self,
            ).bobby.arrived(old(self).frame, old(self).map_data@),
            !old(self).bobby.arrives(old(self).frame) ==> final(self).map_data@ == old(
                self,
            ).map_data@ && final(self).bobby == old(self).bobby,
    {
        let ghost before = self.map_data@;
        proof {
            if self.bobby.arrives(self.frame) && before[crate::bobby::cell(self.bobby.coord_dest)]
                == CARROT {
                lemma_carrots_update(before, crate::bobby::cell(self.bobby.coord_dest), 0);
                lemma_carrots_bounded(self.map_data_fresh@);
            }
        }
        let res = self.bobby.get_texture(
            self.frame,
            self.map_data.as_mut_slice(),
            self.info.carrot_total,
            self.info.map_end,
        );
        self.frame = self.frame + 1;
        res
    }

    /// Whether `key_down` can take `key`: see `key_fits`.
    pub fn can_take_key(&self, key: Key) -> (r: bool)
        requires
            self.wf(),
        ensures
            r == self.key_fits(key),
    {
        let state = match key {
            Key::Left => State::Left,
            Key::Right => State::Right,
            Key::Up => State::Up,
            Key::Down => State::Down,
            _ => {
                return true;
            },
        };
        if self.bobby.is_walking() {
            return true;
        }
        cell_fits_now(step_target_of(self.bobby.coord_dest, state), self.map_data.len())
    }

    /// Whether `tick` can draw the next frame: see `tick_fits`.
    pub fn can_tick(&self) -> (r: bool)
        requires
            self.wf(),
        ensures
            r == self.tick_fits(),
    {
        if self.frame == u32::MAX || !self.bobby.frame_fits_now(self.frame) {
            return false;
        }
        let arrives = self.bobby.arrives_now(self.frame);
        match self.bobby.next_state {
            Some(s) => if arrives {
                cell_fits_now(step_target_of(self.bobby.coord_dest, s), self.map_data.len())
            } else {
                true
            },
            None => true,
        }
    }

    /// Whether `key_down` with `key` turns Bobby: a direction while he
    /// stands.
    pub fn key_turns(&self, key: Key) -> (r: bool)
        ensures
            r == (key_direction(key) is Some && !self.bobby.walking()),
    {
        match key {
            Key::Left | Key::Right | Key::Up | Key::Down => !self.bobby.is_walking(),
            _ => false,
        }
    }

    /// Whether `tick` turns Bobby: his walk ends in this frame and a
    /// direction was asked for during it.
    pub fn tick_turns(&self) -> (r: bool)
        requires
            self.wf(),
        ensures
            r == (self.bobby.arrives(self.frame) && self.bobby.next_state is Some),
    {
        self.bobby.arrives_now(self.frame) && self.bobby.next_state.is_some()
    }

    /// The tile on a cell of the grid.
    pub fn tile_at(&self, x: u32, y: u32) -> (t: u8)
        requires
            self.wf(),
            x < GRID_WIDTH,
            y < GRID_HEIGHT,
        ensures
            t == self.map_data@[x + y * 16],
    {
        self.map_data[(x + y * 16) as usize]
    }
}

/// The cell where Bobby starts, from the index of the start tile.
fn start_cell(map_start: usize) -> (c: (u32, u32))
    ensures
        c == start_coord(map_start),
        c.0 < GRID_WIDTH,
        cell(c) == map_start as u32,
        cell(c) <= map_start,
{
    let start = map_start as u32;
    assert(start <= map_start) by (bit_vector)
        requires
            start == map_start as u32,
    ;
    (start % 16, start / 16)
}

/// Whether a cell's index fits a `u32` and lies within `len` tiles.
fn cell_fits_now(c: (u32, u32), len: usize) -> (r: bool)
    ensures
        r == cell_fits(c, len as int),
{
    let index = c.0 as u64 + c.1 as u64 * 16;
    index <= 0xffff_ffff && (index as usize) < len
}

/// The last position of a tile lies within a level that has tiles.
proof fn lemma_last_position_bounded(data: Seq<u8>, tile: u8)
    ensures
        0 <= last_position(data, tile),
        data.len() > 0 ==> last_position(data, tile) < data.len(),
    decreases data.len(),
{
    if data.len() > 0 {
        lemma_last_position_bounded(data.drop_last(), tile);
    }
}

/// A level holds at most as many carrots as tiles.
proof fn lemma_carrots_bounded(map: Seq<u8>)
    ensures
        carrots(map) <= map.len(),
    decreases map.len(),
{
    if map.len() > 0 {
        lemma_carrots_bounded(map.drop_last());
    }
}

/// Where a tile's picture lies in the tile set: eight tiles to a row.
pub fn tile_source_rect(tile: u8) -> (r: Rect)
    ensures
        r.x == 32 * (tile % 8),
        r.y == 32 * (tile / 8),
        r.w == TILE_SIZE,
        r.h == TILE_SIZE,
{
    let tile = tile as i32;
    Rect { x: 32 * (tile % TILESET_COLUMNS), y: 32 * (tile / TILESET_COLUMNS), w: 32, h: 32 }
}

/// Where a cell of the grid lies on screen.
pub fn cell_rect(x: u32, y: u32) -> (r: Rect)
    requires
        x < GRID_WIDTH,
        y < GRID_HEIGHT,
    ensures
        r.x == 32 * x,
        r.y == 32 * y,
        r.w == TILE_SIZE,
        r.h == TILE_SIZE,
{
    Rect { x: 32 * x as i32, y: 32 * y as i32, w: 32, h: 32 }
}

} // verus!
