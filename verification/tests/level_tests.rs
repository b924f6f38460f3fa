use bobby_carrot::level::{level_tiles, LevelInfo, MapArgError, MapId, NumberError};
use bobby_carrot::tile::{flip_red, flip_yellow, leave_tile, press_red_switch, press_yellow_switch};

#[test]
fn parse_arg_reads_kind_and_number() {
    assert_eq!(MapId::parse_arg("normal-3"), Ok(MapId::Normal(3)));
    assert_eq!(MapId::parse_arg("egg-12"), Ok(MapId::Egg(12)));
    assert_eq!(MapId::parse_arg("normal-007"), Ok(MapId::Normal(7)));
    assert_eq!(MapId::parse_arg("normal-+7"), Ok(MapId::Normal(7)));
    assert_eq!(MapId::parse_arg("egg-4294967295"), Ok(MapId::Egg(4294967295)));
}

#[test]
fn parse_arg_errors() {
    assert_eq!(MapId::parse_arg("normal3"), Err(MapArgError::MissingDash));
    assert_eq!(MapId::parse_arg(""), Err(MapArgError::MissingDash));
    assert_eq!(MapId::parse_arg("normal-x"), Err(MapArgError::BadNumber(NumberError::InvalidDigit)));
    assert_eq!(MapId::parse_arg("egg-"), Err(MapArgError::BadNumber(NumberError::Empty)));
    assert_eq!(MapId::parse_arg("egg-+"), Err(MapArgError::BadNumber(NumberError::InvalidDigit)));
    assert_eq!(MapId::parse_arg("normal--3"), Err(MapArgError::BadNumber(NumberError::InvalidDigit)));
    assert_eq!(MapId::parse_arg("normal-4294967296"), Err(MapArgError::BadNumber(NumberError::PosOverflow)));
    assert_eq!(MapId::parse_arg("normal- 3"), Err(MapArgError::BadNumber(NumberError::InvalidDigit)));
    assert_eq!(MapId::parse_arg("a-b-c"), Err(MapArgError::BadNumber(NumberError::InvalidDigit)));
    assert_eq!(MapId::parse_arg("hard-3"), Err(MapArgError::UnknownKind));
    assert_eq!(MapId::parse_arg("Normal-3"), Err(MapArgError::UnknownKind));
    assert_eq!(MapId::parse_arg("-3"), Err(MapArgError::UnknownKind));
    // a text with both faults: either reason is allowed
    let both = MapId::parse_arg("egg-99999999999x");
    assert!(
        both == Err(MapArgError::BadNumber(NumberError::InvalidDigit))
            || both == Err(MapArgError::BadNumber(NumberError::PosOverflow))
    );
}

#[test]
fn level_tiles_drop_the_header() {
    assert_eq!(level_tiles(vec![1, 2, 3, 4, 5, 6]), vec![5, 6]);
    assert_eq!(level_tiles(vec![1, 2, 3, 4]), Vec::<u8>::new());
}

#[test]
fn file_names_pad_to_two_digits() {
    assert_eq!(MapId::Normal(1).file_name(), "normal01.blm");
    assert_eq!(MapId::Normal(3).file_name(), "normal03.blm");
    assert_eq!(MapId::Egg(12).file_name(), "egg12.blm");
    assert_eq!(MapId::Normal(0).file_name(), "normal00.blm");
    assert_eq!(MapId::Egg(100).file_name(), "egg100.blm");
}

#[test]
fn scan_counts_carrots_and_finds_last_start_and_finish() {
    let mut data = vec![18u8; 256];
    data[5] = 19;
    data[40] = 19;
    data[10] = 21;
    data[20] = 21;
    data[100] = 44;
    let info = LevelInfo::scan(&data);
    assert_eq!(info, LevelInfo { carrot_total: 2, map_start: 20, map_end: 100 });
}

#[test]
fn scan_of_nothing() {
    assert_eq!(LevelInfo::scan(&[]), LevelInfo { carrot_total: 0, map_start: 0, map_end: 0 });
    assert_eq!(LevelInfo::scan(&[1, 2, 3]), LevelInfo { carrot_total: 0, map_start: 0, map_end: 0 });
}

#[test]
fn tile_changes() {
    assert_eq!(leave_tile(24), 25);
    assert_eq!(leave_tile(27), 24);
    assert_eq!(leave_tile(29), 28);
    assert_eq!(leave_tile(30), 31);
    assert_eq!(leave_tile(19), 19);
    assert_eq!(flip_red(22), 23);
    assert_eq!(flip_red(23), 22);
    assert_eq!(flip_red(26), 27);
    assert_eq!(flip_red(30), 30);
    assert_eq!(flip_yellow(38), 39);
    assert_eq!(flip_yellow(42), 43);
    assert_eq!(flip_yellow(22), 22);
}

#[test]
fn yellow_switch_twice_restores_the_level() {
    let mut map: Vec<u8> = (0..300u32).map(|i| (i % 64) as u8).collect();
    let before = map.clone();
    press_yellow_switch(&mut map);
    assert_ne!(map, before);
    press_yellow_switch(&mut map);
    assert_eq!(map, before);
}

#[test]
fn red_switch_four_times_restores_the_level() {
    let mut map: Vec<u8> = (0..300u32).map(|i| (i % 64) as u8).collect();
    let before = map.clone();
    press_red_switch(&mut map);
    assert_eq!(map[22], 23);
    assert_eq!(map[24], 25);
    press_red_switch(&mut map);
    assert_eq!(map[22], 22);
    assert_eq!(map[24], 26);
    press_red_switch(&mut map);
    press_red_switch(&mut map);
    assert_eq!(map, before);
}

#[test]
fn switches_leave_the_cells_past_the_grid() {
    let mut map = vec![24u8; 260];
    press_red_switch(&mut map);
    assert!(map[..256].iter().all(|t| *t == 25));
    assert!(map[256..].iter().all(|t| *t == 24));
}
