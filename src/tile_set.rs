//! A snapshot of the tile sources attached to a map, and the builder that
//! turns it into the block-shape lookup table.
use vstd::prelude::*;
use crate::keys::BlockKeys;
use crate::lookup::{BlockUnitCellDictionaryType, BlockUnitCellKVPValue};

verus! {

/// The scene behind a scene tile.
#[derive(Clone, Debug, PartialEq, Eq)]
pub struct SceneRef {
    /// The host's handle of the scene.
    pub id: i64,
    /// Its resource path, if the host reports one.
    pub path: Option<String>,
}

/// One tile of a scene-collection source.
#[derive(Clone, Debug, PartialEq, Eq)]
pub struct SceneTile {
    pub tile_id: i32,
    /// The scene the tile instantiates, if any.
    pub scene: Option<SceneRef>,
    /// The block shape its scene is tagged with, if it carries a valid tag.
    pub key: Option<BlockKeys>,
}

/// What the host returned for one source id of the tile set.
#[derive(Clone, Debug, PartialEq, Eq)]
pub enum TileSourceKind {
    /// The host had no source under that id.
    Missing,
    /// A source of another kind, such as a texture atlas.
    Other,
    /// A scene-collection source with its scene tiles, in the host's order.
    ScenesCollection(Vec<SceneTile>),
}

/// One source of the tile set, in the host's order.
#[derive(Clone, Debug, PartialEq, Eq)]
pub struct TileSource {
    pub source_id: i32,
    pub kind: TileSourceKind,
}

/// The lookup entry for a scene tile of source `source_id`.
pub open spec fn scene_tile_entry(source_id: i32, tile: SceneTile) -> BlockUnitCellKVPValue {
    BlockUnitCellKVPValue {
        source_id,
        scene: match tile.scene {
            Some(s) => Some(s.id),
            None => None,
        },
        resource_path: match tile.scene {
            Some(s) => s.path,
            None => None,
        },
    }
}

/// `m` after upserting, in order, every tagged tile of `tiles`; a tile
/// without a tag is skipped.
pub open spec fn with_scene_tiles(
    m: Map<BlockKeys, BlockUnitCellKVPValue>,
    source_id: i32,
    tiles: Seq<SceneTile>,
) -> Map<BlockKeys, BlockUnitCellKVPValue>
    decreases tiles.len(),
{
    if tiles.len() == 0 {
        m
    } else {
        let before = with_scene_tiles(m, source_id, tiles.drop_last());
        match tiles.last().key {
            Some(k) => before.insert(k, scene_tile_entry(source_id, tiles.last())),
            None => before,
        }
    }
}

/// The lookup table of a tile set: every tagged tile of every
/// scene-collection source, in order, the last one of a shape winning.
/// Missing sources and sources of other kinds are skipped.
pub open spec fn lookup_of_sources(sources: Seq<TileSource>) -> Map<
    BlockKeys,
    BlockUnitCellKVPValue,
>
    decreases sources.len(),
{
    if sources.len() == 0 {
        Map::empty()
    } else {
        let before = lookup_of_sources(sources.drop_last());
        match sources.last().kind {
            TileSourceKind::ScenesCollection(tiles) => with_scene_tiles(
                before,
                sources.last().source_id,
                tiles@,
            ),
            _ => before,
        }
    }
}

/// The lookup table of an optional tile set: empty when none is attached.
pub open spec fn lookup_of_tile_set(tile_set: Option<Seq<TileSource>>) -> Map<
    BlockKeys,
    BlockUnitCellKVPValue,
> {
    match tile_set {
        Some(sources) => lookup_of_sources(sources),
        None => Map::empty(),
    }
}

/// The lookup entry of one scene tile.
fn entry_for_tile(source_id: i32, tile: &SceneTile) -> (r: BlockUnitCellKVPValue)
    ensures
        r == scene_tile_entry(source_id, *tile),
{
    match &tile.scene {
        Some(scene) => BlockUnitCellKVPValue {
            source_id,
            scene: Some(scene.id),
            resource_path: match &scene.path {
                Some(p) => Some(p.clone()),
                None => None,
            },
        },
        None => BlockUnitCellKVPValue { source_id, scene: None, resource_path: None },
    }
}

/// Upserts every tagged tile of one scene-collection source into `table`.
fn add_scene_tiles(table: &mut BlockUnitCellDictionaryType, source_id: i32, tiles: &Vec<SceneTile>)
    requires
        old(table).wf(),
    ensures
        final(table).wf(),
        final(table)@ == with_scene_tiles(old(table)@, source_id, tiles@),
{
    let ghost start = table@;
    let mut i: usize = 0;
    while i < tiles.len()
        invariant
            i <= tiles@.len(),
            table.wf(),
            table@ == with_scene_tiles(start, source_id, tiles@.take(i as int)),
        decreases tiles@.len() - i,
    {
        let tile = &tiles[i];
        assert(tiles@.take(i as int + 1).drop_last() =~= tiles@.take(i as int));
        if let Some(key) = tile.key {
            let entry = entry_for_tile(source_id, tile);
            table.insert(key, entry);
        }
        i = i + 1;
    }
    assert(tiles@.take(i as int) =~= tiles@);
}

/// Builds the lookup table from the tile set attached to a map: every
/// tagged scene tile of every scene-collection source, keyed by its shape,
/// the last one of a shape winning. Without a tile set the table is empty.
pub fn build_cell_type_lookup(tile_set: Option<&Vec<TileSource>>) -> (r:
    BlockUnitCellDictionaryType)
    ensures
        r.wf(),
        r@ == lookup_of_tile_set(
            match tile_set {
                Some(s) => Some(s@),
                None => None,
            },
        ),
{
    let mut table = BlockUnitCellDictionaryType::new();
    match tile_set {
        None => table,
        Some(sources) => {
            let mut i: usize = 0;
            while i < sources.len()
                invariant
                    i <= sources@.len(),
                    table.wf(),
                    table@ == lookup_of_sources(sources@.take(i as int)),
                decreases sources@.len() - i,
            {
                let source = &sources[i];
                assert(sources@.take(i as int + 1).drop_last() =~= sources@.take(i as int));
                match &source.kind {
                    TileSourceKind::ScenesCollection(tiles) => {
                        add_scene_tiles(&mut table, source.source_id, tiles);
                    },
                    _ => {},
                }
                i = i + 1;
            }
            assert(sources@.take(i as int) =~= sources@);
            table
        },
    }
}

} // verus!
