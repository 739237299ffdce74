//! Herder movement and orders, campaign progression, and the level
//! layout grammar.

use herdcore::agents::HerderAgent;
use herdcore::dog::{command_dog, move_dogs, ClickButton, MapClickEvent};
use herdcore::layout::{layout_size, parse_layout, tile_position, LayoutError, PlacedTile, Tiles};
use herdcore::levels::{Current, LevelId, Levels};
use herdcore::params::AnimalBehavior;
use herdcore::vec2::Vec2;

#[test]
fn dog_drives_toward_its_order() {
    let b = AnimalBehavior::default();
    let mut herders = vec![HerderAgent::spawn(Vec2 { x: 0, y: 0 })];
    herders[0].move_to = Some(herdcore::agents::MoveTo::new(Vec2 { x: 10_000, y: 0 }));
    move_dogs(&mut herders, Some(&b));
    // unit direction 999/1000 of full speed 50 units per second
    assert_eq!(herders[0].vel, Vec2 { x: 49_950, y: 0 });
    assert!(herders[0].move_to.is_some());
}

#[test]
fn dog_drops_order_on_arrival() {
    let b = AnimalBehavior::default();
    let mut herders = vec![HerderAgent::spawn(Vec2 { x: 0, y: 0 })];
    herders[0].vel = Vec2 { x: 77, y: 0 };
    herders[0].move_to = Some(herdcore::agents::MoveTo::new(Vec2 { x: 1000, y: 0 }));
    move_dogs(&mut herders, Some(&b));
    assert!(herders[0].move_to.is_none());
    assert_eq!(herders[0].vel, Vec2 { x: 77, y: 0 });
}

#[test]
fn right_click_orders_all_dogs() {
    let mut herders = vec![
        HerderAgent::spawn(Vec2 { x: 0, y: 0 }),
        HerderAgent::spawn(Vec2 { x: 9000, y: 0 }),
    ];
    let events = vec![
        MapClickEvent::new(Vec2 { x: 5, y: 5 }, ClickButton::Left),
        MapClickEvent::new(Vec2 { x: 7000, y: 0 }, ClickButton::Right),
        MapClickEvent::new(Vec2 { x: 9000, y: 100 }, ClickButton::Right),
    ];
    command_dog(&mut herders, &events);
    for h in herders.iter() {
        assert_eq!(h.move_to.unwrap().postion(), Vec2 { x: 9000, y: 100 });
    }
}

#[test]
fn left_clicks_alone_change_nothing() {
    let mut herders = vec![HerderAgent::spawn(Vec2 { x: 0, y: 0 })];
    let events = vec![MapClickEvent::new(Vec2 { x: 5, y: 5 }, ClickButton::Left)];
    command_dog(&mut herders, &events);
    assert!(herders[0].move_to.is_none());
}

#[test]
fn campaign_progression() {
    let ids = vec![LevelId(1), LevelId(2), LevelId(3)];
    let mut levels = Levels::new(ids);
    assert_eq!(levels.current(), LevelId(1));
    assert_eq!(levels.first(), LevelId(1));
    assert_eq!(levels.current_index(), 0);
    assert!(!levels.is_last());
    assert_eq!(levels.next(), Some(LevelId(2)));
    levels.set(LevelId(3));
    assert_eq!(levels.current_index(), 2);
    assert!(levels.is_last());
    assert!(levels.is_last_or_custom());
    assert_eq!(levels.next(), None);
}

#[test]
fn custom_level_selection() {
    let ids = vec![LevelId(1), LevelId(2)];
    let mut levels = Levels::new(ids);
    levels.set(LevelId(99));
    assert_eq!(levels.current(), LevelId(99));
    assert!(!levels.is_last());
    assert!(levels.is_last_or_custom());
    assert_eq!(levels.next(), None);
    assert_eq!(levels.current_index(), 0);
    assert_eq!(Current::default(), Current::Campaign(0));
}

#[test]
fn layout_parses_rows_and_columns() {
    let text = b"S-D\n#TG\nL".to_vec();
    let tiles = parse_layout(&text).expect("valid layout");
    let expected = vec![
        PlacedTile { row: 0, col: 0, tile: Tiles::Sheep },
        PlacedTile { row: 0, col: 1, tile: Tiles::Empty },
        PlacedTile { row: 0, col: 2, tile: Tiles::Dog },
        PlacedTile { row: 1, col: 0, tile: Tiles::Wall },
        PlacedTile { row: 1, col: 1, tile: Tiles::Trap },
        PlacedTile { row: 1, col: 2, tile: Tiles::Goal },
        PlacedTile { row: 2, col: 0, tile: Tiles::Llama },
    ];
    assert_eq!(tiles, expected);
}

#[test]
fn layout_rejects_unknown_characters() {
    let text = b"S-X".to_vec();
    assert_eq!(parse_layout(&text), Err(LayoutError::InvalidCharacter));
}

#[test]
fn empty_layout_parses_to_nothing() {
    let text: Vec<u8> = Vec::new();
    assert_eq!(parse_layout(&text).unwrap(), Vec::new());
}

#[test]
fn layout_size_picks_the_farthest_tile() {
    let text = b"S-D\n#TG\nL".to_vec();
    let tiles = parse_layout(&text).unwrap();
    // the last tile with the greatest row + col sum is the goal at (1, 2)
    let size = layout_size(&tiles).unwrap();
    assert_eq!(size, PlacedTile { row: 1, col: 2, tile: Tiles::Goal });
    assert_eq!(layout_size(&Vec::new()), None);
}

#[test]
fn tile_positions_scale_by_tile_size() {
    assert_eq!(tile_position(1, 2), Vec2 { x: 8000, y: 16_000 });
    assert_eq!(tile_position(0, 0), Vec2 { x: 0, y: 0 });
}
