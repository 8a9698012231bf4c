use tile_pusher::game::{GameContext, LevelError, Player};
use tile_pusher::map::{get_maps, Event, MapData, Tile, TileType};
use tile_pusher::Direction;

fn session() -> GameContext {
    GameContext {
        player: Player { y: 5, x: 5, glyph: 'X' },
        map_data: None,
        map_list: get_maps(),
        level: 0,
    }
}

fn small_levels() -> Vec<MapData> {
    vec![
        MapData {
            tile_map: vec![
                Tile::new(1, 2, TileType::WinPad),
                Tile::new(1, 2, TileType::WinPad),
            ],
            player_spawn: (1, 1),
            flavor_text: None,
        },
        MapData {
            tile_map: vec![Tile::new(9, 9, TileType::WinPad)],
            player_spawn: (9, 8),
            flavor_text: Some("last".to_string()),
        },
    ]
}

fn active(g: &GameContext) -> &MapData {
    g.map_data.as_ref().unwrap()
}

#[test]
fn built_in_levels() {
    let maps = get_maps();
    assert_eq!(maps.len(), 3);
    assert_eq!(maps[0].player_spawn, (3, 3));
    assert_eq!(maps[1].player_spawn, (14, 6));
    assert_eq!(maps[2].player_spawn, (3, 3));
    assert_eq!(maps[0].tile_count(), 95);
    assert_eq!(maps[1].tile_count(), 137);
    assert_eq!(maps[2].tile_count(), 103);
    assert_eq!(maps[0].flavor_text, Some("Welcome".to_string()));
    assert_eq!(maps[2].tile_map[101], Tile::new(3, 10, TileType::PushBox));
}

#[test]
fn load_puts_player_on_spawn() {
    let mut g = session();
    assert_eq!(g.load_current_level(), Ok(()));
    assert_eq!((g.player.y, g.player.x), (3, 3));
    assert_eq!(g.player.glyph, 'X');
    assert_eq!(active(&g).tile_count(), 95);
}

#[test]
fn load_twice_gives_the_same_state() {
    let mut g = session();
    g.level = 2;
    assert_eq!(g.load_current_level(), Ok(()));
    let first_tiles = active(&g).tile_map.clone();
    let first_player = g.player;
    assert_eq!(g.load_current_level(), Ok(()));
    assert_eq!(active(&g).tile_map, first_tiles);
    assert_eq!(g.player, first_player);
    assert_eq!(g.level, 2);
}

#[test]
fn reload_discards_moves() {
    let mut g = session();
    g.level = 2;
    g.load_current_level().unwrap();
    for _ in 0..7 {
        g.player_movement(Direction::Right);
    }
    assert_eq!(active(&g).tile_map[101], Tile::new(3, 11, TileType::PushBox));
    g.load_current_level().unwrap();
    assert_eq!((g.player.y, g.player.x), (3, 3));
    assert_eq!(active(&g).tile_map[101], Tile::new(3, 10, TileType::PushBox));
}

#[test]
fn load_out_of_range_fails_unchanged() {
    let mut g = session();
    g.level = 3;
    assert_eq!(g.load_current_level(), Err(LevelError::LevelNotFound));
    assert!(g.map_data.is_none());
    assert_eq!((g.player.y, g.player.x), (5, 5));
    assert_eq!(g.level, 3);
}

#[test]
fn increment_and_decrement_level() {
    let mut g = session();
    g.load_current_level().unwrap();
    assert_eq!(g.increment_level(), Ok(()));
    assert_eq!(g.level, 1);
    assert_eq!((g.player.y, g.player.x), (14, 6));
    assert_eq!(g.increment_level(), Ok(()));
    assert_eq!(g.level, 2);
    assert_eq!(g.increment_level(), Err(LevelError::LevelNotFound));
    assert_eq!(g.level, 2);
    assert_eq!(g.decrement_level(), Ok(()));
    assert_eq!(g.level, 1);
    assert_eq!(g.decrement_level(), Ok(()));
    assert_eq!(g.level, 0);
    assert_eq!((g.player.y, g.player.x), (3, 3));
    assert_eq!(g.decrement_level(), Err(LevelError::LevelNotFound));
    assert_eq!(g.level, 0);
}

#[test]
fn movement_without_level_is_a_no_op() {
    let mut g = session();
    g.player_movement(Direction::Up);
    assert_eq!((g.player.y, g.player.x), (5, 5));
    assert!(g.collect_events().is_empty());
    assert_eq!(g.update_all(), Ok(()));
    assert!(g.map_data.is_none());
}

#[test]
fn push_box_right_from_spawn() {
    let mut g = session();
    g.level = 2;
    g.load_current_level().unwrap();
    assert_eq!((g.player.y, g.player.x), (3, 3));
    for _ in 0..6 {
        g.player_movement(Direction::Right);
    }
    assert_eq!((g.player.y, g.player.x), (3, 9));
    assert_eq!(active(&g).tile_map[101], Tile::new(3, 10, TileType::PushBox));
    g.player_movement(Direction::Right);
    assert_eq!((g.player.y, g.player.x), (3, 10));
    assert_eq!(active(&g).tile_map[101], Tile::new(3, 11, TileType::PushBox));
}

#[test]
fn two_buttons_hold_one_door() {
    let mut g = session();
    g.level = 2;
    g.load_current_level().unwrap();
    let door = 98;
    g.player.y = 2;
    g.player.x = 24;
    assert_eq!(g.update_all(), Ok(()));
    assert_eq!(active(&g).tile_map[door].tile_type, TileType::Door(Some(0), false));
    g.player.y = 4;
    assert_eq!(g.update_all(), Ok(()));
    assert_eq!(active(&g).tile_map[door].tile_type, TileType::Door(Some(0), false));
    g.map_data.as_mut().unwrap().tile_map[101] = Tile::new(2, 24, TileType::PushBox);
    assert_eq!(g.update_all(), Ok(()));
    assert_eq!(active(&g).tile_map[door].tile_type, TileType::Door(Some(0), true));
    g.player_movement(Direction::Right);
    assert_eq!(g.update_all(), Ok(()));
    assert_eq!(active(&g).tile_map[door].tile_type, TileType::Door(Some(0), false));
    g.map_data.as_mut().unwrap().tile_map.push(Tile::new(4, 24, TileType::PushBox));
    assert_eq!(g.update_all(), Ok(()));
    assert_eq!(active(&g).tile_map[door].tile_type, TileType::Door(Some(0), true));
}

#[test]
fn open_door_lets_the_player_through() {
    let mut g = session();
    g.level = 2;
    g.load_current_level().unwrap();
    g.player.y = 3;
    g.player.x = 27;
    g.player_movement(Direction::Right);
    assert_eq!((g.player.y, g.player.x), (3, 27));
    let m = g.map_data.as_mut().unwrap();
    m.tile_map.push(Tile::new(2, 24, TileType::PushBox));
    m.tile_map.push(Tile::new(4, 24, TileType::PushBox));
    assert_eq!(g.update_all(), Ok(()));
    g.player_movement(Direction::Right);
    assert_eq!((g.player.y, g.player.x), (3, 28));
}

#[test]
fn collect_events_reads_tiles_under_player() {
    let mut g = session();
    g.map_list = small_levels();
    g.load_current_level().unwrap();
    assert!(g.collect_events().is_empty());
    g.player_movement(Direction::Right);
    assert_eq!(g.collect_events(), vec![Event::Win, Event::Win]);
    assert_eq!((g.player.y, g.player.x), (1, 2));
}

#[test]
fn goal_pads_advance_exactly_one_level() {
    let mut g = session();
    let mut levels = small_levels();
    levels.push(MapData { tile_map: vec![], player_spawn: (0, 0), flavor_text: None });
    g.map_list = levels;
    g.load_current_level().unwrap();
    g.player_movement(Direction::Right);
    assert_eq!(g.update_all(), Ok(()));
    assert_eq!(g.level, 1);
    assert_eq!((g.player.y, g.player.x), (9, 8));
    assert_eq!(active(&g).flavor_text, Some("last".to_string()));
}

#[test]
fn win_on_last_level_is_reported() {
    let mut g = session();
    g.map_list = small_levels();
    g.level = 1;
    g.load_current_level().unwrap();
    g.player_movement(Direction::Right);
    assert_eq!(g.update_all(), Err(LevelError::LevelNotFound));
    assert_eq!(g.level, 1);
    assert_eq!((g.player.y, g.player.x), (9, 9));
}

#[test]
fn first_level_is_won_by_walking() {
    let mut g = session();
    g.load_current_level().unwrap();
    let path = [
        (Direction::Right, 23),
        (Direction::Down, 10),
    ];
    for (d, n) in path {
        for _ in 0..n {
            g.player_movement(d);
            g.update_all().unwrap();
        }
    }
    assert_eq!(g.level, 1);
    assert_eq!((g.player.y, g.player.x), (14, 6));
}

#[test]
fn built_in_level_contents() {
    let maps = get_maps();
    let first = &maps[0];
    let pad = first.immut_tiles_at(13, 26);
    assert_eq!(pad, vec![Tile::new(13, 26, TileType::WinPad)]);
    assert_eq!(first.immut_tiles_at(0, 0).len(), 2);
    assert!(first.immut_tiles_at(3, 3).is_empty());
    let third = &maps[2];
    assert_eq!(third.num_solid_or_pushable_tiles_at(3, 10), 1);
    assert_eq!(third.num_solid_or_pushable_tiles_at(3, 11), 0);
    assert_eq!(third.num_solid_or_pushable_tiles_at(0, 0), 2);
    assert_eq!(third.num_solid_or_pushable_tiles_at(3, 28), 1);
    assert_eq!(third.flavor_text, Some("You must activate both buttons at once.".to_string()));
    assert_eq!(maps[1].flavor_text, Some("Buttons? What do they do?".to_string()));
}

#[test]
fn second_level_door_opens_from_its_button() {
    let mut g = session();
    g.level = 1;
    g.load_current_level().unwrap();
    g.player.y = 10;
    g.player.x = 11;
    assert_eq!(g.update_all(), Ok(()));
    let door = active(&g).immut_tiles_at(12, 17);
    assert_eq!(door[0].tile_type, TileType::Door(Some(0), true));
    let other = active(&g).immut_tiles_at(9, 31);
    assert_eq!(other[0].tile_type, TileType::Door(Some(1), false));
}

#[test]
fn movement_without_level_far_out() {
    let mut g = session();
    g.player.y = i32::MAX;
    g.player_movement(Direction::Down);
    assert_eq!(g.player.y, i32::MAX);
}
