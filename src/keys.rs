//! The closed enumerations of the game: block shapes and map roles, with
//! their stable names and small integer codes.
use vstd::prelude::*;

verus! {

/// The role a tile map plays in the game.
#[derive(Clone, Copy, Debug, PartialEq, Eq, Structural)]
pub enum BlockUnitsMapType {
    Undefined,
    /// The grid the player interacts with.
    PlayfieldTileMap,
    /// The strip that shows the upcoming pieces.
    QueueTileMap,
}

/// The shape or connector carried by a placed block; tile scenes are tagged
/// with one of these.
#[derive(Clone, Copy, Debug, PartialEq, Eq, Hash, Structural)]
pub enum BlockKeys {
    Undefined,
    Void,
    LineBlock1Edge,
    LineBlock2Corner,
    LineBlock3T,
    LineBlock4All,
    Router1Cross,
    Router1Straight,
    Router1Corner,
    Router1Tee,
    Router,
    RouteJoin2To1,
    RouteJoin3To1,
}

/// The display name of a map role.
pub open spec fn map_type_name(t: BlockUnitsMapType) -> Seq<char> {
    match t {
        BlockUnitsMapType::Undefined => "Undefined"@,
        BlockUnitsMapType::PlayfieldTileMap => "PlayfieldTileMap"@,
        BlockUnitsMapType::QueueTileMap => "QueueTileMap"@,
    }
}

/// The integer code of a map role: its position in the declaration.
pub open spec fn map_type_code(t: BlockUnitsMapType) -> int {
    match t {
        BlockUnitsMapType::Undefined => 0,
        BlockUnitsMapType::PlayfieldTileMap => 1,
        BlockUnitsMapType::QueueTileMap => 2,
    }
}

/// The role whose display name is `s`, if any.
pub open spec fn map_type_of_name(s: Seq<char>) -> Option<BlockUnitsMapType> {
    if s == "Undefined"@ {
        Some(BlockUnitsMapType::Undefined)
    } else if s == "PlayfieldTileMap"@ {
        Some(BlockUnitsMapType::PlayfieldTileMap)
    } else if s == "QueueTileMap"@ {
        Some(BlockUnitsMapType::QueueTileMap)
    } else {
        None
    }
}

/// The role whose integer code is `i`, if any.
pub open spec fn map_type_of_code(i: int) -> Option<BlockUnitsMapType> {
    if i == 0 {
        Some(BlockUnitsMapType::Undefined)
    } else if i == 1 {
        Some(BlockUnitsMapType::PlayfieldTileMap)
    } else if i == 2 {
        Some(BlockUnitsMapType::QueueTileMap)
    } else {
        None
    }
}

/// `Some(v)` becomes `Ok(v)`, `None` becomes `Err(())`.
pub open spec fn ok_or_unit<T>(o: Option<T>) -> Result<T, ()> {
    match o {
        Some(v) => Ok(v),
        None => Err(()),
    }
}

/// Text equality of two string slices.
fn same_text(a: &str, b: &str) -> (r: bool)
    ensures
        r == (a@ == b@),
{
    a.to_owned() == b.to_owned()
}

impl BlockUnitsMapType {
    /// The display name of this role.
    pub fn name(self) -> (r: &'static str)
        ensures
            r@ == map_type_name(self),
    {
        match self {
            BlockUnitsMapType::Undefined => "Undefined",
            BlockUnitsMapType::PlayfieldTileMap => "PlayfieldTileMap",
            BlockUnitsMapType::QueueTileMap => "QueueTileMap",
        }
    }

    /// The role named `s`; any other text is refused.
    pub fn try_from_name(s: &str) -> (r: Result<BlockUnitsMapType, ()>)
        ensures
            r == ok_or_unit(map_type_of_name(s@)),
    {
        if same_text(s, "Undefined") {
            Ok(BlockUnitsMapType::Undefined)
        } else if same_text(s, "PlayfieldTileMap") {
            Ok(BlockUnitsMapType::PlayfieldTileMap)
        } else if same_text(s, "QueueTileMap") {
            Ok(BlockUnitsMapType::QueueTileMap)
        } else {
            Err(())
        }
    }

    /// The integer code of this role.
    pub fn to_i64(self) -> (r: i64)
        ensures
            r == map_type_code(self),
    {
        match self {
            BlockUnitsMapType::Undefined => 0,
            BlockUnitsMapType::PlayfieldTileMap => 1,
            BlockUnitsMapType::QueueTileMap => 2,
        }
    }

    /// The role whose code is `i`; any other integer is refused.
    pub fn try_from_i64(i: i64) -> (r: Result<BlockUnitsMapType, ()>)
        ensures
            r == ok_or_unit(map_type_of_code(i as int)),
    {
        if i == 0 {
            Ok(BlockUnitsMapType::Undefined)
        } else if i == 1 {
            Ok(BlockUnitsMapType::PlayfieldTileMap)
        } else if i == 2 {
            Ok(BlockUnitsMapType::QueueTileMap)
        } else {
            Err(())
        }
    }
}

/// The block shape whose integer code is `i`: its position in the declaration.
pub open spec fn block_key_of_code(i: i64) -> Option<BlockKeys> {
    match i {
        0 => Some(BlockKeys::Undefined),
        1 => Some(BlockKeys::Void),
        2 => Some(BlockKeys::LineBlock1Edge),
        3 => Some(BlockKeys::LineBlock2Corner),
        4 => Some(BlockKeys::LineBlock3T),
        5 => Some(BlockKeys::LineBlock4All),
        6 => Some(BlockKeys::Router1Cross),
        7 => Some(BlockKeys::Router1Straight),
        8 => Some(BlockKeys::Router1Corner),
        9 => Some(BlockKeys::Router1Tee),
        10 => Some(BlockKeys::Router),
        11 => Some(BlockKeys::RouteJoin2To1),
        12 => Some(BlockKeys::RouteJoin3To1),
        _ => None,
    }
}

impl BlockKeys {
    /// The block shape whose code is `i`, as scene tags carry it; any other
    /// integer is refused.
    pub fn try_from_i64(i: i64) -> (r: Result<BlockKeys, ()>)
        ensures
            r == ok_or_unit(block_key_of_code(i)),
    {
        match i {
            0 => Ok(BlockKeys::Undefined),
            1 => Ok(BlockKeys::Void),
            2 => Ok(BlockKeys::LineBlock1Edge),
            3 => Ok(BlockKeys::LineBlock2Corner),
            4 => Ok(BlockKeys::LineBlock3T),
            5 => Ok(BlockKeys::LineBlock4All),
            6 => Ok(BlockKeys::Router1Cross),
            7 => Ok(BlockKeys::Router1Straight),
            8 => Ok(BlockKeys::Router1Corner),
            9 => Ok(BlockKeys::Router1Tee),
            10 => Ok(BlockKeys::Router),
            11 => Ok(BlockKeys::RouteJoin2To1),
            12 => Ok(BlockKeys::RouteJoin3To1),
            _ => Err(()),
        }
    }
}

/// Converting a role to its name and back, or to its code and back, gives
/// the same role.
pub proof fn map_type_round_trip(t: BlockUnitsMapType)
    ensures
        map_type_of_name(map_type_name(t)) == Some(t),
        map_type_of_code(map_type_code(t)) == Some(t),
{
    reveal_strlit("Undefined");
    reveal_strlit("PlayfieldTileMap");
    reveal_strlit("QueueTileMap");
    assert("Undefined"@.len() == 9);
    assert("PlayfieldTileMap"@.len() == 16);
    assert("QueueTileMap"@.len() == 12);
}

/// Names and codes outside the three roles are refused: a name or code is
/// accepted exactly when it is that of some role.
pub proof fn map_type_unknown_refused(s: Seq<char>, i: int)
    ensures
        map_type_of_name(s) is None <==> (forall|t: BlockUnitsMapType| map_type_name(t) != s),
        map_type_of_code(i) is None <==> (forall|t: BlockUnitsMapType| map_type_code(t) != i),
{
    map_type_round_trip(BlockUnitsMapType::Undefined);
    map_type_round_trip(BlockUnitsMapType::PlayfieldTileMap);
    map_type_round_trip(BlockUnitsMapType::QueueTileMap);
}

} // verus!
