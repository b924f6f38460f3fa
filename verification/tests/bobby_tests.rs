use bobby_carrot::bobby::{Bobby, Rect, Sprite, State};

fn floor() -> Vec<u8> {
    vec![18u8; 256]
}

fn idx(x: u32, y: u32) -> usize {
    (x + y * 16) as usize
}

fn walking_right_from_3_4() -> Bobby {
    let mut b = Bobby::new(0, (3, 4));
    b.update_state(State::Right, 0, &floor());
    b
}

#[test]
fn new_stands_facing_down() {
    let b = Bobby::new(5, (3, 4));
    assert_eq!(b.state, State::Down);
    assert_eq!(b.next_state, None);
    assert_eq!(b.start_frame, 5);
    assert_eq!(b.coord_src, (3, 4));
    assert_eq!(b.coord_dest, (3, 4));
    assert_eq!(b.carrot_count, 0);
    assert!(!b.is_walking());
}

#[test]
fn update_state_moves_one_cell() {
    let map = floor();
    let mut b = Bobby::new(0, (3, 4));
    b.update_state(State::Left, 7, &map);
    assert_eq!(b.state, State::Left);
    assert_eq!(b.start_frame, 7);
    assert_eq!(b.coord_src, (3, 4));
    assert_eq!(b.coord_dest, (2, 4));
    assert!(b.is_walking());

    let mut b = Bobby::new(0, (3, 4));
    b.update_state(State::Down, 1, &map);
    assert_eq!(b.coord_dest, (3, 5));
    let mut b = Bobby::new(0, (3, 4));
    b.update_state(State::Up, 1, &map);
    assert_eq!(b.coord_dest, (3, 3));
    let mut b = Bobby::new(0, (3, 4));
    b.update_state(State::Right, 1, &map);
    assert_eq!(b.coord_dest, (4, 4));
}

#[test]
fn update_dest_stops_at_grid_edges() {
    let map = floor();
    let mut b = Bobby::new(0, (0, 0));
    b.update_state(State::Left, 1, &map);
    assert_eq!(b.coord_dest, (0, 0));
    b.update_state(State::Up, 1, &map);
    assert_eq!(b.coord_dest, (0, 0));
    let mut b = Bobby::new(0, (15, 15));
    b.update_state(State::Right, 1, &map);
    assert_eq!(b.coord_dest, (15, 15));
    b.update_state(State::Down, 1, &map);
    assert_eq!(b.coord_dest, (15, 15));
}

#[test]
fn update_dest_idle_stays() {
    let mut b = Bobby::new(0, (5, 5));
    b.state = State::Idle;
    b.update_dest(&floor());
    assert_eq!(b.coord_dest, (5, 5));
}

#[test]
fn walls_block_entry() {
    let mut map = floor();
    map[idx(2, 4)] = 0;
    map[idx(4, 4)] = 17;
    let mut b = Bobby::new(0, (3, 4));
    b.update_state(State::Left, 1, &map);
    assert_eq!(b.coord_dest, (3, 4));
    b.update_state(State::Right, 1, &map);
    assert_eq!(b.coord_dest, (3, 4));
    b.update_state(State::Up, 1, &map);
    assert_eq!(b.coord_dest, (3, 3));
}

#[test]
fn corners_and_rails_block_by_direction() {
    // a corner 24 ahead blocks moves to the right and down, not to the left
    let mut map = floor();
    map[idx(4, 4)] = 24;
    map[idx(2, 4)] = 24;
    let mut b = Bobby::new(0, (3, 4));
    b.update_state(State::Right, 1, &map);
    assert_eq!(b.coord_dest, (3, 4));
    b.update_state(State::Left, 1, &map);
    assert_eq!(b.coord_dest, (2, 4));

    // standing on a vertical-blocking rail 28: up is blocked, left is not
    let mut map = floor();
    map[idx(3, 4)] = 28;
    let mut b = Bobby::new(0, (3, 4));
    b.update_state(State::Up, 1, &map);
    assert_eq!(b.coord_dest, (3, 4));
    b.update_state(State::Left, 1, &map);
    assert_eq!(b.coord_dest, (2, 4));

    // a one-way tile 42 ahead blocks horizontal moves
    let mut map = floor();
    map[idx(4, 4)] = 42;
    let mut b = Bobby::new(0, (3, 4));
    b.update_state(State::Right, 1, &map);
    assert_eq!(b.coord_dest, (3, 4));

    // standing on corner 26 blocks moving right and down
    let mut map = floor();
    map[idx(3, 4)] = 26;
    let mut b = Bobby::new(0, (3, 4));
    b.update_state(State::Down, 1, &map);
    assert_eq!(b.coord_dest, (3, 4));
    b.update_state(State::Up, 1, &map);
    assert_eq!(b.coord_dest, (3, 3));
}

#[test]
fn update_next_state_waits_for_half_a_walk() {
    let mut b = walking_right_from_3_4();
    b.update_next_state(State::Up, 7);
    assert_eq!(b.next_state, None);
    b.update_next_state(State::Up, 8);
    assert_eq!(b.next_state, Some(State::Up));
}

#[test]
fn standing_sprite() {
    let mut map = floor();
    let mut b = Bobby::new(0, (3, 4));
    let (sprite, src, dest) = b.get_texture(10, &mut map, 0, 0);
    assert_eq!(sprite, Sprite::Down);
    assert_eq!(src, Rect { x: 252, y: 0, w: 36, h: 50 });
    assert_eq!(dest, Rect { x: 94, y: 110, w: 36, h: 50 });
    assert_eq!(map, floor());
}

#[test]
fn idle_sprite_cycles_three_pictures() {
    let mut map = floor();
    let mut b = Bobby::new(0, (3, 4));
    b.state = State::Idle;
    let (sprite, src, dest) = b.get_texture(10, &mut map, 0, 0);
    assert_eq!(sprite, Sprite::Idle);
    assert_eq!(src, Rect { x: 72, y: 0, w: 36, h: 50 });
    assert_eq!(dest, Rect { x: 94, y: 110, w: 36, h: 50 });
}

#[test]
fn walking_sprites_move_four_pixels_per_step() {
    let mut map = floor();
    let mut b = walking_right_from_3_4();
    let (sprite, src, dest) = b.get_texture(6, &mut map, 0, 0);
    assert_eq!(sprite, Sprite::Right);
    assert_eq!(src, Rect { x: 72, y: 0, w: 36, h: 50 });
    assert_eq!(dest, Rect { x: 106, y: 110, w: 36, h: 50 });

    let mut b = Bobby::new(0, (3, 4));
    b.update_state(State::Left, 0, &map);
    let (sprite, src, dest) = b.get_texture(4, &mut map, 0, 0);
    assert_eq!(sprite, Sprite::Left);
    assert_eq!(src, Rect { x: 36, y: 0, w: 36, h: 50 });
    assert_eq!(dest, Rect { x: 86, y: 110, w: 36, h: 50 });

    let mut b = Bobby::new(0, (3, 4));
    b.update_state(State::Up, 0, &map);
    let (_, _, dest) = b.get_texture(2, &mut map, 0, 0);
    assert_eq!(dest, Rect { x: 94, y: 106, w: 36, h: 50 });

    let mut b = Bobby::new(0, (3, 4));
    b.update_state(State::Down, 0, &map);
    let (_, src, dest) = b.get_texture(0, &mut map, 0, 0);
    assert_eq!(src, Rect { x: 252, y: 0, w: 36, h: 50 });
    assert_eq!(dest, Rect { x: 94, y: 110, w: 36, h: 50 });
    assert_eq!(map, floor());
}

#[test]
fn arriving_on_a_carrot_collects_it() {
    let mut map = floor();
    map[idx(4, 4)] = 19;
    let mut b = walking_right_from_3_4();
    let (_, src, dest) = b.get_texture(16, &mut map, 1, 0);
    assert_eq!(src, Rect { x: 252, y: 0, w: 36, h: 50 });
    assert_eq!(dest, Rect { x: 126, y: 110, w: 36, h: 50 });
    assert_eq!(map[idx(4, 4)], 20);
    assert_eq!(b.carrot_count, 1);
    assert_eq!(b.coord_src, (4, 4));
    assert_eq!(b.coord_dest, (4, 4));
    assert_eq!(b.start_frame, 16);
    assert!(!b.is_walking());
}

#[test]
fn no_arrival_before_step_eight() {
    let mut map = floor();
    map[idx(4, 4)] = 19;
    let mut b = walking_right_from_3_4();
    b.get_texture(15, &mut map, 1, 0);
    assert_eq!(map[idx(4, 4)], 19);
    assert_eq!(b.carrot_count, 0);
    assert!(b.is_walking());
}

#[test]
fn leaving_a_tile_turns_it() {
    for (before, after) in [(24u8, 25u8), (25, 26), (26, 27), (27, 24), (28, 29), (29, 28), (30, 31), (18, 18)] {
        let mut map = floor();
        map[idx(3, 4)] = before;
        let mut b = Bobby::new(0, (3, 4));
        b.state = State::Right;
        b.coord_dest = (4, 4);
        b.get_texture(17, &mut map, 0, 0);
        assert_eq!(map[idx(3, 4)], after);
        assert_eq!(b.coord_src, (4, 4));
    }
}

#[test]
fn arriving_on_the_red_switch_flips_the_grid() {
    let mut map = floor();
    map[idx(4, 4)] = 22;
    map[0] = 24;
    map[1] = 27;
    map[2] = 28;
    map[3] = 23;
    map[255] = 40;
    let mut b = walking_right_from_3_4();
    b.get_texture(16, &mut map, 0, 0);
    assert_eq!(map[idx(4, 4)], 23);
    assert_eq!(&map[0..4], &[25, 24, 29, 22]);
    assert_eq!(map[255], 40);
}

#[test]
fn arriving_on_the_yellow_switch_flips_the_grid() {
    let mut map = floor();
    map[idx(4, 4)] = 38;
    map[0] = 40;
    map[1] = 43;
    map[2] = 39;
    map[3] = 24;
    let mut b = walking_right_from_3_4();
    b.get_texture(16, &mut map, 0, 0);
    assert_eq!(map[idx(4, 4)], 39);
    assert_eq!(&map[0..4], &[41, 42, 38, 24]);
}

#[test]
fn arriving_takes_the_remembered_direction() {
    let map0 = floor();
    let mut map = map0.clone();
    let mut b = walking_right_from_3_4();
    b.update_next_state(State::Down, 9);
    let _ = b.get_texture(16, &mut map, 0, 0);
    assert_eq!(b.next_state, None);
    assert_eq!(b.state, State::Down);
    assert_eq!(b.coord_src, (4, 4));
    assert_eq!(b.coord_dest, (4, 5));
    assert_eq!(b.start_frame, 16);
}

#[test]
fn dead_end_hole_changes_nothing_more() {
    let mut map = floor();
    map[idx(4, 4)] = 31;
    let mut b = walking_right_from_3_4();
    b.get_texture(16, &mut map, 0, 0);
    assert_eq!(map[idx(4, 4)], 31);
    assert_eq!(b.coord_src, (4, 4));
}

#[test]
fn carrots_are_conserved_along_a_walk() {
    let mut map = floor();
    map[idx(4, 4)] = 19;
    map[idx(9, 9)] = 19;
    let count = |m: &Vec<u8>| m.iter().filter(|t| **t == 19).count();
    let mut b = walking_right_from_3_4();
    let before = count(&map) + b.carrot_count;
    for frame in 0..17 {
        b.get_texture(frame, &mut map, 2, 0);
        assert_eq!(count(&map) + b.carrot_count, before);
    }
    assert_eq!(b.carrot_count, 1);
}
