use block_units::grid::{
    classify_grid, validate_map_shape, BlockUnitCell, CellPosition, ShapeCheck,
    UNASSIGNED_SOURCE_ID,
};
use block_units::keys::{BlockKeys, BlockUnitsMapType};

fn region(width: usize, height: usize, id: i32) -> Vec<Vec<i32>> {
    vec![vec![id; height]; width]
}

#[test]
fn classified_grid_has_width_rows_of_height() {
    for (w, h) in [(0usize, 0usize), (0, 4), (3, 0), (1, 1), (2, 5), (4, 3)] {
        let ids = region(w, h, 7);
        let grid = classify_grid(w as i32, h as i32, 0, &ids);
        assert_eq!(grid.len(), w);
        for row in &grid {
            assert_eq!(row.len(), h);
        }
    }
}

#[test]
fn unassigned_slots_are_empty_and_others_hold_cells() {
    let ids = vec![vec![UNASSIGNED_SOURCE_ID, 4], vec![9, UNASSIGNED_SOURCE_ID], vec![0, 2]];
    let grid = classify_grid(3, 2, 5, &ids);
    assert_eq!(grid[0][0], None);
    assert_eq!(grid[1][1], None);
    assert_eq!(
        grid[0][1],
        Some(BlockUnitCell {
            key: BlockKeys::Undefined,
            position: CellPosition { x: 0, y: 1 },
            layer: 5,
            cell_source_id: 4,
        })
    );
    assert_eq!(
        grid[1][0],
        Some(BlockUnitCell {
            key: BlockKeys::Undefined,
            position: CellPosition { x: 1, y: 0 },
            layer: 5,
            cell_source_id: 9,
        })
    );
    assert_eq!(
        grid[2][0],
        Some(BlockUnitCell {
            key: BlockKeys::Undefined,
            position: CellPosition { x: 2, y: 0 },
            layer: 5,
            cell_source_id: 0,
        })
    );
    assert_eq!(grid[2][1].map(|c| c.cell_source_id), Some(2));
}

#[test]
fn fully_unassigned_region_gives_empty_slots() {
    let ids = region(2, 3, UNASSIGNED_SOURCE_ID);
    let grid = classify_grid(2, 3, 0, &ids);
    assert!(grid.iter().all(|row| row.iter().all(|slot| slot.is_none())));
}

#[test]
fn playfield_two_by_one_passes() {
    let grid = classify_grid(2, 1, 0, &region(2, 1, 1));
    assert_eq!(
        validate_map_shape(BlockUnitsMapType::PlayfieldTileMap, true, &grid),
        ShapeCheck::Passed
    );
}

#[test]
fn playfield_one_by_five_fails() {
    let grid = classify_grid(1, 5, 0, &region(1, 5, 1));
    let verdict = validate_map_shape(BlockUnitsMapType::PlayfieldTileMap, true, &grid);
    assert_eq!(verdict, ShapeCheck::PlayfieldTooSmall);
    assert!(!verdict.is_skipped());
}

#[test]
fn queue_one_by_one_passes() {
    let grid = classify_grid(1, 1, 0, &region(1, 1, 3));
    assert_eq!(
        validate_map_shape(BlockUnitsMapType::QueueTileMap, true, &grid),
        ShapeCheck::Passed
    );
}

#[test]
fn queue_zero_by_zero_is_skipped() {
    let grid = classify_grid(0, 0, 0, &Vec::new());
    let verdict = validate_map_shape(BlockUnitsMapType::QueueTileMap, true, &grid);
    assert_eq!(verdict, ShapeCheck::SkippedEmptyMap);
    assert!(verdict.is_skipped());
}

#[test]
fn rows_without_columns_are_skipped() {
    let grid = classify_grid(3, 0, 0, &region(3, 0, 1));
    assert_eq!(
        validate_map_shape(BlockUnitsMapType::PlayfieldTileMap, true, &grid),
        ShapeCheck::SkippedEmptyMap
    );
}

#[test]
fn missing_tile_set_skips_validation() {
    let grid = classify_grid(1, 5, 0, &region(1, 5, 1));
    let verdict = validate_map_shape(BlockUnitsMapType::PlayfieldTileMap, false, &grid);
    assert_eq!(verdict, ShapeCheck::SkippedNoTileSet);
    assert!(verdict.is_skipped());
}

#[test]
fn undefined_role_passes_any_nonempty_map() {
    let grid = classify_grid(1, 1, 0, &region(1, 1, 1));
    assert_eq!(
        validate_map_shape(BlockUnitsMapType::Undefined, true, &grid),
        ShapeCheck::Passed
    );
}

#[test]
fn verdict_messages() {
    assert_eq!(
        ShapeCheck::SkippedNoTileSet.message(),
        "TileSet is not set, so no further checks will be done"
    );
    assert_eq!(
        ShapeCheck::SkippedEmptyMap.message(),
        "TileMap is not set, so no further checks will be done"
    );
    assert_eq!(ShapeCheck::Passed.message(), "map shape checks passed");
    assert_eq!(
        ShapeCheck::PlayfieldTooSmall.message(),
        "PlayfieldTileMap should have at least 2 rows and 1 column"
    );
    assert_eq!(
        ShapeCheck::QueueTooSmall.message(),
        "QueueTileMap should have at least 1 row and 1 column"
    );
}
