//! Tile codes of a level and the ways tiles change during play.

use vstd::prelude::*;

verus! {

/// Number of columns of the level grid.
pub const GRID_WIDTH: u32 = 16;

/// Number of rows of the level grid.
pub const GRID_HEIGHT: u32 = 16;

/// Number of cells of the level grid.
pub const GRID_CELLS: usize = 256;

/// Tiles below this code are walls: Bobby cannot enter them.
pub const FIRST_WALKABLE: u8 = 18;

/// A carrot that has not been collected yet.
pub const CARROT: u8 = 19;

/// The ground left behind once a carrot is collected.
pub const CARROT_TAKEN: u8 = 20;

/// Bobby's start position.
pub const START: u8 = 21;

/// The red switch in its first position.
pub const RED_SWITCH: u8 = 22;

/// A tile that crumbles once Bobby leaves it.
pub const CRUMBLING: u8 = 30;

/// A hole: what a crumbling tile becomes.
pub const HOLE: u8 = 31;

/// The yellow switch in its first position.
pub const YELLOW_SWITCH: u8 = 38;

/// The level's exit.
pub const FINISH: u8 = 44;

/// What a tile becomes once Bobby walks off it: the corner tiles turn a
/// quarter (24 -> 25 -> 26 -> 27 -> 24), the straight rails turn
/// (28 <-> 29) and a crumbling tile falls in (30 -> 31).
pub open spec fn left_behind(tile: u8) -> u8 {
    if tile == 24 {
        25
    } else if tile == 25 {
        26
    } else if tile == 26 {
        27
    } else if tile == 27 {
        24
    } else if tile == 28 {
        29
    } else if tile == 29 {
        28
    } else if tile == 30 {
        31
    } else {
        tile
    }
}

/// What a tile becomes when the red switch is pressed: the red switch
/// toggles (22 <-> 23), the corners turn a quarter and the rails turn.
pub open spec fn red_flipped(tile: u8) -> u8 {
    if tile == 22 {
        23
    } else if tile == 23 {
        22
    } else if tile == 24 {
        25
    } else if tile == 25 {
        26
    } else if tile == 26 {
        27
    } else if tile == 27 {
        24
    } else if tile == 28 {
        29
    } else if tile == 29 {
        28
    } else {
        tile
    }
}

/// What a tile becomes when the yellow switch is pressed: the yellow
/// switch toggles (38 <-> 39), and so do the one-way tiles (40 <-> 41,
/// 42 <-> 43).
pub open spec fn yellow_flipped(tile: u8) -> u8 {
    if tile == 38 {
        39
    } else if tile == 39 {
        38
    } else if tile == 40 {
        41
    } else if tile == 41 {
        40
    } else if tile == 42 {
        43
    } else if tile == 43 {
        42
    } else {
        tile
    }
}

/// The level after the red switch is pressed: every cell of the grid is
/// flipped, the cells past the grid are kept.
pub open spec fn red_switch_map(map: Seq<u8>) -> Seq<u8> {
    Seq::new(map.len(), |i: int| if i < GRID_CELLS { red_flipped(map[i]) } else { map[i] })
}

/// The level after the yellow switch is pressed.
pub open spec fn yellow_switch_map(map: Seq<u8>) -> Seq<u8> {
    Seq::new(map.len(), |i: int| if i < GRID_CELLS { yellow_flipped(map[i]) } else { map[i] })
}

/// Number of carrots still lying in the level.
pub open spec fn carrots(map: Seq<u8>) -> nat
    decreases map.len(),
{
    if map.len() == 0 {
        0
    } else {
        carrots(map.drop_last()) + if map.last() == CARROT {
            1nat
        } else {
            0nat
        }
    }
}

/// Writing one cell changes the number of carrots only by what the old and
/// the new tile contribute.
pub proof fn lemma_carrots_update(map: Seq<u8>, i: int, v: u8)
    requires
        0 <= i < map.len(),
    ensures
        carrots(map.update(i, v)) + (if map[i] == CARROT { 1int } else { 0int }) == carrots(map)
            + (if v == CARROT { 1int } else { 0int }),
    decreases map.len(),
{
    let written = map.update(i, v);
    if i == map.len() - 1 {
        assert(written.drop_last() =~= map.drop_last());
    } else {
        lemma_carrots_update(map.drop_last(), i, v);
        assert(written.drop_last() =~= map.drop_last().update(i, v));
    }
}

/// Two levels of one length with carrots on the same cells hold equally many
/// carrots.
pub proof fn lemma_carrots_same_cells(a: Seq<u8>, b: Seq<u8>)
    requires
        a.len() == b.len(),
        forall|i: int| 0 <= i < a.len() ==> (a[i] == CARROT) == (b[i] == CARROT),
    ensures
        carrots(a) == carrots(b),
    decreases a.len(),
{
    if a.len() > 0 {
        lemma_carrots_same_cells(a.drop_last(), b.drop_last());
    }
}

/// Pressing a switch neither adds nor removes a carrot.
pub proof fn law_switches_keep_carrots(map: Seq<u8>)
    ensures
        carrots(red_switch_map(map)) == carrots(map),
        carrots(yellow_switch_map(map)) == carrots(map),
{
    lemma_carrots_same_cells(red_switch_map(map), map);
    lemma_carrots_same_cells(yellow_switch_map(map), map);
}

/// Pressing the yellow switch twice gives the level back as it was.
pub proof fn law_yellow_switch_twice(map: Seq<u8>)
    ensures
        yellow_switch_map(yellow_switch_map(map)) == map,
{
    assert(yellow_switch_map(yellow_switch_map(map)) =~= map);
}

/// Pressing the red switch four times gives the level back as it was; the
/// red switch itself is back in its position after two presses.
pub proof fn law_red_switch_four_times(map: Seq<u8>)
    ensures
        red_switch_map(red_switch_map(red_switch_map(red_switch_map(map)))) == map,
        forall|i: int|
            0 <= i < map.len() ==> (map[i] == RED_SWITCH <==> red_switch_map(
                red_switch_map(map),
            )[i] == RED_SWITCH),
{
    assert(red_switch_map(red_switch_map(red_switch_map(red_switch_map(map)))) =~= map);
}

/// Leaving a tile never puts a carrot on it nor takes one away.
pub proof fn law_leaving_keeps_carrots(tile: u8)
    ensures
        (left_behind(tile) == CARROT) == (tile == CARROT),
{
}

/// The red switch works only on the red switches, the corners and the rails
/// (tiles 22 to 29): every other tile of the level stays as it is, and each
/// of these changes into another of them.
pub proof fn law_red_switch_scope(map: Seq<u8>)
    ensures
        forall|t: u8| (t < 22 || t > 29) ==> red_flipped(t) == t,
        forall|t: u8| 22 <= t <= 29 ==> 22 <= red_flipped(t) <= 29 && red_flipped(t) != t,
        forall|i: int|
            0 <= i < map.len() && (map[i] < 22 || map[i] > 29) ==> red_switch_map(map)[i]
                == map[i],
        red_switch_map(map).len() == map.len(),
{
}

/// The yellow switch works only on the yellow switches and the one-way
/// tiles (tiles 38 to 43): every other tile stays as it is, and each of these
/// changes into another of them.
pub proof fn law_yellow_switch_scope(map: Seq<u8>)
    ensures
        forall|t: u8| (t < 38 || t > 43) ==> yellow_flipped(t) == t,
        forall|t: u8| 38 <= t <= 43 ==> 38 <= yellow_flipped(t) <= 43 && yellow_flipped(t) != t,
        forall|i: int|
            0 <= i < map.len() && (map[i] < 38 || map[i] > 43) ==> yellow_switch_map(map)[i]
                == map[i],
        yellow_switch_map(map).len() == map.len(),
{
}

/// The two switches work on different tiles: pressing one and then the other
/// gives the same level in either order.
pub proof fn law_switches_commute(map: Seq<u8>)
    ensures
        red_switch_map(yellow_switch_map(map)) == yellow_switch_map(red_switch_map(map)),
{
    assert(red_switch_map(yellow_switch_map(map)) =~= yellow_switch_map(red_switch_map(map)));
}

/// Walking off a tile changes only corners, rails and crumbling ground
/// (tiles 24 to 30): a corner or a rail turns as the red switch turns it, and
/// crumbling ground becomes a hole; every other tile stays as it is.
pub proof fn law_leaving_scope()
    ensures
        forall|t: u8| (t < 24 || t > 30) ==> left_behind(t) == t,
        forall|t: u8| 24 <= t <= 29 ==> left_behind(t) == red_flipped(t),
        left_behind(CRUMBLING) == HOLE,
{
}

/// The tile that Bobby leaves behind him.
pub fn leave_tile(tile: u8) -> (r: u8)
    ensures
        r == left_behind(tile),
{
    match tile {
        24 => 25,
        25 => 26,
        26 => 27,
        27 => 24,
        28 => 29,
        29 => 28,
        30 => 31,
        _ => tile,
    }
}

/// One tile after the red switch is pressed.
pub fn flip_red(tile: u8) -> (r: u8)
    ensures
        r == red_flipped(tile),
{
    match tile {
        22 => 23,
        23 => 22,
        24 => 25,
        25 => 26,
        26 => 27,
        27 => 24,
        28 => 29,
        29 => 28,
        _ => tile,
    }
}

/// One tile after the yellow switch is pressed.
pub fn flip_yellow(tile: u8) -> (r: u8)
    ensures
        r == yellow_flipped(tile),
{
    match tile {
        38 => 39,
        39 => 38,
        40 => 41,
        41 => 40,
        42 => 43,
        43 => 42,
        _ => tile,
    }
}

/// Presses the red switch: flips every cell of the grid.
pub fn press_red_switch(map_data: &mut [u8])
    requires
        old(map_data)@.len() >= GRID_CELLS,
    ensures
        final(map_data)@ == red_switch_map(old(map_data)@),
{
    let ghost start = map_data@;
    let mut pos: usize = 0;
    while pos < GRID_CELLS
        invariant
            pos <= GRID_CELLS,
            start.len() >= GRID_CELLS,
            map_data@.len() == start.len(),
            forall|i: int| 0 <= i < pos ==> map_data@[i] == red_flipped(start[i]),
            forall|i: int| pos <= i < start.len() ==> map_data@[i] == start[i],
        decreases GRID_CELLS - pos,
    {
        map_data[pos] = flip_red(map_data[pos]);
        pos = pos + 1;
    }
    assert(map_data@ =~= red_switch_map(start));
}

/// Presses the yellow switch: flips every cell of the grid.
pub fn press_yellow_switch(map_data: &mut [u8])
    requires
        old(map_data)@.len() >= GRID_CELLS,
    ensures
        final(map_data)@ == yellow_switch_map(old(map_data)@),
{
    let ghost start = map_data@;
    let mut pos: usize = 0;
    while pos < GRID_CELLS
        invariant
            pos <= GRID_CELLS,
            start.len() >= GRID_CELLS,
            map_data@.len() == start.len(),
            forall|i: int| 0 <= i < pos ==> map_data@[i] == yellow_flipped(start[i]),
            forall|i: int| pos <= i < start.len() ==> map_data@[i] == start[i],
        decreases GRID_CELLS - pos,
    {
        map_data[pos] = flip_yellow(map_data[pos]);
        pos = pos + 1;
    }
    assert(map_data@ =~= yellow_switch_map(start));
}

} // verus!
