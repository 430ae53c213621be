//! The grid classifier and the map-shape validator.
use vstd::prelude::*;
use crate::keys::{BlockKeys, BlockUnitsMapType};

verus! {

/// The source id the host reports for a coordinate that holds no tile.
pub const UNASSIGNED_SOURCE_ID: i32 = -1;

/// A coordinate on the tile map.
#[derive(Clone, Copy, Debug, PartialEq, Eq, Structural)]
pub struct CellPosition {
    pub x: i32,
    pub y: i32,
}

/// One occupied position of the map.
#[derive(Clone, Copy, Debug, PartialEq, Eq, Structural)]
pub struct BlockUnitCell {
    pub key: BlockKeys,
    pub position: CellPosition,
    pub layer: i32,
    pub cell_source_id: i32,
}

/// What the classifier puts at `(x, y)` when the host reports `source_id` there.
pub open spec fn classified_slot(x: int, y: int, layer: i32, source_id: i32) -> Option<
    BlockUnitCell,
> {
    if source_id == UNASSIGNED_SOURCE_ID {
        None
    } else {
        Some(
            BlockUnitCell {
                key: BlockKeys::Undefined,
                position: CellPosition { x: x as i32, y: y as i32 },
                layer,
                cell_source_id: source_id,
            },
        )
    }
}

/// `source_ids` samples the host's source ids on a `width` by `height`
/// region: one row per `x`, one entry per `y`.
pub open spec fn is_region(source_ids: Seq<Vec<i32>>, width: int, height: int) -> bool {
    &&& source_ids.len() == width
    &&& forall|x: int| 0 <= x < width ==> (#[trigger] source_ids[x])@.len() == height
}

/// `grid` is the classification of the region sampled by `source_ids`, on
/// `layer`.
pub open spec fn is_classification(
    grid: Seq<Vec<Option<BlockUnitCell>>>,
    source_ids: Seq<Vec<i32>>,
    layer: i32,
) -> bool {
    &&& grid.len() == source_ids.len()
    &&& forall|x: int|
        0 <= x < grid.len() ==> (#[trigger] grid[x])@.len() == source_ids[x]@.len()
    &&& forall|x: int, y: int|
        0 <= x < grid.len() && 0 <= y < grid[x]@.len() ==> (#[trigger] grid[x]@[y])
            == classified_slot(x, y, layer, source_ids[x]@[y])
}

/// Walks a `width` by `height` region column by column and builds the grid:
/// an empty slot where no tile is placed, else a cell with its position,
/// layer and source id. The shape of a freshly classified cell is always
/// `Undefined`.
pub fn classify_grid(width: i32, height: i32, layer: i32, source_ids: &Vec<Vec<i32>>) -> (grid: Vec<
    Vec<Option<BlockUnitCell>>,
>)
    requires
        width >= 0,
        height >= 0,
        is_region(source_ids@, width as int, height as int),
    ensures
        grid@.len() == width,
        forall|x: int| 0 <= x < width ==> (#[trigger] grid@[x])@.len() == height,
        is_classification(grid@, source_ids@, layer),
{
    let mut grid: Vec<Vec<Option<BlockUnitCell>>> = Vec::new();
    let mut x: i32 = 0;
    while x < width
        invariant
            0 <= x <= width,
            is_region(source_ids@, width as int, height as int),
            grid@.len() == x,
            forall|i: int| 0 <= i < x ==> (#[trigger] grid@[i])@.len() == height,
            forall|i: int, j: int|
                0 <= i < x && 0 <= j < height ==> (#[trigger] grid@[i]@[j]) == classified_slot(
                    i,
                    j,
                    layer,
                    source_ids@[i]@[j],
                ),
        decreases width - x,
    {
        let column = &source_ids[x as usize];
        let mut row: Vec<Option<BlockUnitCell>> = Vec::new();
        let mut y: i32 = 0;
        while y < height
            invariant
                0 <= x < width,
                0 <= y <= height,
                column@.len() == height,
                row@.len() == y,
                forall|j: int|
                    0 <= j < y ==> (#[trigger] row@[j]) == classified_slot(
                        x as int,
                        j,
                        layer,
                        column@[j],
                    ),
            decreases height - y,
        {
            let source_id = column[y as usize];
            if source_id == UNASSIGNED_SOURCE_ID {
                row.push(None);
            } else {
                row.push(
                    Some(
                        BlockUnitCell {
                            key: BlockKeys::Undefined,
                            position: CellPosition { x, y },
                            layer,
                            cell_source_id: source_id,
                        },
                    ),
                );
            }
            y = y + 1;
        }
        grid.push(row);
        x = x + 1;
    }
    grid
}

/// The outcome of checking a map's shape against its role.
#[derive(Clone, Copy, Debug, PartialEq, Eq, Structural)]
pub enum ShapeCheck {
    /// No tile set is attached: nothing was checked.
    SkippedNoTileSet,
    /// The map has no rows or no columns: nothing was checked.
    SkippedEmptyMap,
    /// The map meets what its role asks.
    Passed,
    /// A playfield needs at least two rows and one column.
    PlayfieldTooSmall,
    /// A queue needs at least one row and one column.
    QueueTooSmall,
}

/// The number of columns of a grid: the length of its first row.
pub open spec fn column_count(grid: Seq<Vec<Option<BlockUnitCell>>>) -> int {
    if grid.len() == 0 {
        0
    } else {
        grid[0]@.len() as int
    }
}

/// The verdict on a map of `rows` rows and `cols` columns in role `role`.
pub open spec fn shape_verdict(
    role: BlockUnitsMapType,
    tileset_attached: bool,
    rows: int,
    cols: int,
) -> ShapeCheck {
    if !tileset_attached {
        ShapeCheck::SkippedNoTileSet
    } else if rows == 0 || cols == 0 {
        ShapeCheck::SkippedEmptyMap
    } else {
        match role {
            BlockUnitsMapType::Undefined => ShapeCheck::Passed,
            BlockUnitsMapType::PlayfieldTileMap => if rows >= 2 && cols >= 1 {
                ShapeCheck::Passed
            } else {
                ShapeCheck::PlayfieldTooSmall
            },
            BlockUnitsMapType::QueueTileMap => if rows >= 1 && cols >= 1 {
                ShapeCheck::Passed
            } else {
                ShapeCheck::QueueTooSmall
            },
        }
    }
}

/// Checks the structural preconditions of a map in role `role`. Without a
/// tile set, or on an empty map, the check is skipped.
pub fn validate_map_shape(
    role: BlockUnitsMapType,
    tileset_attached: bool,
    grid: &Vec<Vec<Option<BlockUnitCell>>>,
) -> (r: ShapeCheck)
    ensures
        r == shape_verdict(role, tileset_attached, grid@.len() as int, column_count(grid@)),
{
    if !tileset_attached {
        return ShapeCheck::SkippedNoTileSet;
    }
    let rows = grid.len();
    if rows == 0 || grid[0].len() == 0 {
        return ShapeCheck::SkippedEmptyMap;
    }
    let cols = grid[0].len();
    match role {
        BlockUnitsMapType::Undefined => ShapeCheck::Passed,
        BlockUnitsMapType::PlayfieldTileMap => {
            if rows < 2 || cols < 1 {
                ShapeCheck::PlayfieldTooSmall
            } else {
                ShapeCheck::Passed
            }
        },
        BlockUnitsMapType::QueueTileMap => {
            if rows < 1 || cols < 1 {
                ShapeCheck::QueueTooSmall
            } else {
                ShapeCheck::Passed
            }
        },
    }
}

/// The diagnostic text of a verdict.
pub open spec fn shape_check_message(c: ShapeCheck) -> Seq<char> {
    match c {
        ShapeCheck::SkippedNoTileSet => "TileSet is not set, so no further checks will be done"@,
        ShapeCheck::SkippedEmptyMap => "TileMap is not set, so no further checks will be done"@,
        ShapeCheck::Passed => "map shape checks passed"@,
        ShapeCheck::PlayfieldTooSmall => "PlayfieldTileMap should have at least 2 rows and 1 column"@,
        ShapeCheck::QueueTooSmall => "QueueTileMap should have at least 1 row and 1 column"@,
    }
}

impl ShapeCheck {
    /// The checks were skipped rather than run.
    pub open spec fn is_skipped_spec(self) -> bool {
        self is SkippedNoTileSet || self is SkippedEmptyMap
    }

    /// Whether the checks were skipped rather than run.
    pub fn is_skipped(self) -> (r: bool)
        ensures
            r == self.is_skipped_spec(),
    {
        match self {
            ShapeCheck::SkippedNoTileSet | ShapeCheck::SkippedEmptyMap => true,
            _ => false,
        }
    }

    /// The human-readable reason for this verdict.
    pub fn message(self) -> (r: &'static str)
        ensures
            r@ == shape_check_message(self),
    {
        match self {
            ShapeCheck::SkippedNoTileSet => "TileSet is not set, so no further checks will be done",
            ShapeCheck::SkippedEmptyMap => "TileMap is not set, so no further checks will be done",
            ShapeCheck::Passed => "map shape checks passed",
            ShapeCheck::PlayfieldTooSmall => "PlayfieldTileMap should have at least 2 rows and 1 column",
            ShapeCheck::QueueTooSmall => "QueueTileMap should have at least 1 row and 1 column",
        }
    }
}

} // verus!
