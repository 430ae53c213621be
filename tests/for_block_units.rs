use block_units::block_units::{ForBlockUnits, CLASSIFIED_LAYER};
use block_units::grid::{ShapeCheck, UNASSIGNED_SOURCE_ID};
use block_units::keys::{BlockKeys, BlockUnitsMapType};
use block_units::tile_set::{SceneRef, SceneTile, TileSource, TileSourceKind};

fn one_source(key: BlockKeys, source_id: i32) -> Vec<TileSource> {
    vec![TileSource {
        source_id,
        kind: TileSourceKind::ScenesCollection(vec![SceneTile {
            tile_id: 0,
            scene: Some(SceneRef { id: 1, path: Some("res://s.tscn".to_string()) }),
            key: Some(key),
        }]),
    }]
}

#[test]
fn init_state() {
    let map = ForBlockUnits::init();
    assert_eq!(map.map_type(), BlockUnitsMapType::Undefined);
    assert!(map.cell_map().is_empty());
    assert!(map.cell_type_lookup().is_empty());
}

#[test]
fn ready_without_tile_set_is_skipped() {
    let mut map = ForBlockUnits::init();
    map.set_map_type(BlockUnitsMapType::PlayfieldTileMap);
    let ids = vec![vec![1, 2]];
    assert_eq!(map.ready(None, 1, 2, &ids), ShapeCheck::SkippedNoTileSet);
    assert!(map.cell_map().is_empty());
    assert!(map.cell_type_lookup().is_empty());
}

#[test]
fn ready_on_empty_map_builds_lookup_only() {
    let mut map = ForBlockUnits::init();
    map.set_map_type(BlockUnitsMapType::QueueTileMap);
    let sources = one_source(BlockKeys::Void, 3);
    assert_eq!(map.ready(Some(&sources), 0, 0, &Vec::new()), ShapeCheck::SkippedEmptyMap);
    assert!(map.cell_map().is_empty());
    assert_eq!(map.cell_type_lookup().len(), 1);
}

#[test]
fn ready_playfield_classifies_and_passes() {
    let mut map = ForBlockUnits::init();
    map.set_map_type(BlockUnitsMapType::PlayfieldTileMap);
    let sources = one_source(BlockKeys::LineBlock4All, 6);
    let ids = vec![vec![6, UNASSIGNED_SOURCE_ID, 6], vec![UNASSIGNED_SOURCE_ID, 6, 6]];
    assert_eq!(map.ready(Some(&sources), 2, 3, &ids), ShapeCheck::Passed);
    let grid = map.cell_map();
    assert_eq!(grid.len(), 2);
    assert_eq!(grid[0].len(), 3);
    assert!(grid[0][1].is_none());
    let cell = grid[1][2].unwrap();
    assert_eq!((cell.position.x, cell.position.y), (1, 2));
    assert_eq!(cell.layer, CLASSIFIED_LAYER);
    assert_eq!(cell.cell_source_id, 6);
    assert_eq!(cell.key, BlockKeys::Undefined);
    assert_eq!(
        map.cell_type_lookup().get(&BlockKeys::LineBlock4All).map(|e| e.source_id),
        Some(6)
    );
}

#[test]
fn ready_playfield_single_row_fails() {
    let mut map = ForBlockUnits::init();
    map.set_map_type(BlockUnitsMapType::PlayfieldTileMap);
    let sources = one_source(BlockKeys::Void, 0);
    let ids = vec![vec![0; 5]];
    assert_eq!(map.ready(Some(&sources), 1, 5, &ids), ShapeCheck::PlayfieldTooSmall);
    assert_eq!(map.cell_map().len(), 1);
    assert_eq!(map.cell_map()[0].len(), 5);
}

#[test]
fn ready_keeps_a_lookup_that_holds_entries() {
    let mut map = ForBlockUnits::init();
    let first = one_source(BlockKeys::Void, 1);
    let second = one_source(BlockKeys::Router, 2);
    let ids = vec![vec![1]];
    assert_eq!(map.ready(Some(&first), 1, 1, &ids), ShapeCheck::Passed);
    assert_eq!(map.ready(Some(&second), 1, 1, &ids), ShapeCheck::Passed);
    assert_eq!(map.cell_type_lookup().len(), 1);
    assert!(map.cell_type_lookup().get(&BlockKeys::Router).is_none());
    assert_eq!(map.cell_map().len(), 1);
}

#[test]
fn ready_twice_rebuilds_the_grid() {
    let mut map = ForBlockUnits::init();
    map.set_map_type(BlockUnitsMapType::QueueTileMap);
    let sources = one_source(BlockKeys::Void, 1);
    assert_eq!(map.ready(Some(&sources), 3, 1, &vec![vec![1]; 3]), ShapeCheck::Passed);
    assert_eq!(map.ready(Some(&sources), 1, 1, &vec![vec![1]]), ShapeCheck::Passed);
    assert_eq!(map.cell_map().len(), 1);
}
