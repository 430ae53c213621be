//! The state of one tile map of the game, and what it does when the map
//! becomes ready: build the lookup table, classify the grid, check its shape.
use vstd::prelude::*;
use crate::grid::{
    classify_grid, is_classification, is_region, shape_verdict, validate_map_shape, BlockUnitCell,
    ShapeCheck,
};
use crate::keys::{BlockKeys, BlockUnitsMapType};
use crate::lookup::{BlockUnitCellDictionaryType, BlockUnitCellKVPValue};
use crate::tile_set::{build_cell_type_lookup, lookup_of_sources, TileSource};

verus! {

/// The layer whose cells the map classifies.
pub const CLASSIFIED_LAYER: i32 = 0;

/// One tile map: its role, its classified grid and its lookup table. Both
/// are owned by this map alone.
pub struct ForBlockUnits {
    map_type_internal: BlockUnitsMapType,
    cell_map: Vec<Vec<Option<BlockUnitCell>>>,
    cell_type_lookup: BlockUnitCellDictionaryType,
}

impl ForBlockUnits {
    /// The map's role.
    pub closed spec fn role(&self) -> BlockUnitsMapType {
        self.map_type_internal
    }

    /// The map's classified grid.
    pub closed spec fn cells(&self) -> Seq<Vec<Option<BlockUnitCell>>> {
        self.cell_map@
    }

    /// The map's lookup table.
    pub closed spec fn lookup(&self) -> BlockUnitCellDictionaryType {
        self.cell_type_lookup
    }

    /// The lookup table keeps one entry per key.
    pub closed spec fn wf(&self) -> bool {
        self.cell_type_lookup.wf()
    }

    /// A map with no role yet, an empty grid and an empty lookup table.
    pub fn init() -> (r: Self)
        ensures
            r.wf(),
            r.role() == BlockUnitsMapType::Undefined,
            r.cells().len() == 0,
            r.lookup()@ == Map::<BlockKeys, BlockUnitCellKVPValue>::empty(),
    {
        ForBlockUnits {
            map_type_internal: BlockUnitsMapType::Undefined,
            cell_map: Vec::new(),
            cell_type_lookup: BlockUnitCellDictionaryType::new(),
        }
    }

    /// Declares the map's role.
    pub fn set_map_type(&mut self, role: BlockUnitsMapType)
        ensures
            final(self).role() == role,
            final(self).cells() == old(self).cells(),
            final(self).lookup() == old(self).lookup(),
            final(self).wf() == old(self).wf(),
    {
        self.map_type_internal = role;
    }

    /// The map's role.
    pub fn map_type(&self) -> (r: BlockUnitsMapType)
        ensures
            r == self.role(),
    {
        self.map_type_internal
    }

    /// The map's classified grid.
    pub fn cell_map(&self) -> (r: &Vec<Vec<Option<BlockUnitCell>>>)
        ensures
            r@ == self.cells(),
    {
        &self.cell_map
    }

    /// The map's lookup table.
    pub fn cell_type_lookup(&self) -> (r: &BlockUnitCellDictionaryType)
        ensures
            *r == self.lookup(),
            self.wf() ==> r.wf(),
    {
        &self.cell_type_lookup
    }

    /// Runs when the map becomes ready. With a tile set attached, the lookup
    /// table is built from it unless it already holds entries. Then, unless
    /// the check is skipped (no tile set, or a `width` by `height` region
    /// with no rows or no columns), the grid is rebuilt by classifying the
    /// region's source ids on layer `CLASSIFIED_LAYER`, and its shape is
    /// checked against the map's role. Returns the verdict.
    pub fn ready(
        &mut self,
        tile_set: Option<&Vec<TileSource>>,
        width: i32,
        height: i32,
        source_ids: &Vec<Vec<i32>>,
    ) -> (r: ShapeCheck)
        requires
            old(self).wf(),
            width >= 0,
            height >= 0,
            is_region(source_ids@, width as int, height as int),
        ensures
            final(self).wf(),
            final(self).role() == old(self).role(),
            final(self).lookup()@ == (match tile_set {
                Some(sources) => if old(self).lookup()@.len() == 0 {
                    lookup_of_sources(sources@)
                } else {
                    old(self).lookup()@
                },
                None => old(self).lookup()@,
            }),
            r == shape_verdict(old(self).role(), tile_set is Some, width as int, height as int),
            r.is_skipped_spec() ==> final(self).cells() == old(self).cells(),
            !r.is_skipped_spec() ==> {
                &&& final(self).cells().len() == width
                &&& forall|x: int| 0 <= x < width ==> (#[trigger] final(self).cells()[x])@.len() == height
                &&& is_classification(final(self).cells(), source_ids@, CLASSIFIED_LAYER)
            },
    {
        if tile_set.is_some() && self.cell_type_lookup.is_empty() {
            self.cell_type_lookup = build_cell_type_lookup(tile_set);
        }
        if tile_set.is_none() {
            return ShapeCheck::SkippedNoTileSet;
        }
        if width == 0 || height == 0 {
            return ShapeCheck::SkippedEmptyMap;
        }
        self.cell_map = classify_grid(width, height, CLASSIFIED_LAYER, source_ids);
        validate_map_shape(self.map_type_internal, true, &self.cell_map)
    }
}

} // verus!
