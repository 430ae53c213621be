use block_units::keys::{BlockKeys, BlockUnitsMapType};

const ROLES: [BlockUnitsMapType; 3] = [
    BlockUnitsMapType::Undefined,
    BlockUnitsMapType::PlayfieldTileMap,
    BlockUnitsMapType::QueueTileMap,
];

#[test]
fn role_names_are_stable() {
    assert_eq!(BlockUnitsMapType::Undefined.name(), "Undefined");
    assert_eq!(BlockUnitsMapType::PlayfieldTileMap.name(), "PlayfieldTileMap");
    assert_eq!(BlockUnitsMapType::QueueTileMap.name(), "QueueTileMap");
}

#[test]
fn role_codes_are_stable() {
    assert_eq!(BlockUnitsMapType::Undefined.to_i64(), 0);
    assert_eq!(BlockUnitsMapType::PlayfieldTileMap.to_i64(), 1);
    assert_eq!(BlockUnitsMapType::QueueTileMap.to_i64(), 2);
}

#[test]
fn role_round_trips_through_name() {
    for role in ROLES {
        assert_eq!(BlockUnitsMapType::try_from_name(role.name()), Ok(role));
    }
}

#[test]
fn role_round_trips_through_code() {
    for role in ROLES {
        assert_eq!(BlockUnitsMapType::try_from_i64(role.to_i64()), Ok(role));
    }
}

#[test]
fn unknown_role_names_are_refused() {
    assert_eq!(BlockUnitsMapType::try_from_name(""), Err(()));
    assert_eq!(BlockUnitsMapType::try_from_name("Playfield"), Err(()));
    assert_eq!(BlockUnitsMapType::try_from_name("queuetilemap"), Err(()));
    assert_eq!(BlockUnitsMapType::try_from_name(" QueueTileMap"), Err(()));
}

#[test]
fn unknown_role_codes_are_refused() {
    assert_eq!(BlockUnitsMapType::try_from_i64(-1), Err(()));
    assert_eq!(BlockUnitsMapType::try_from_i64(3), Err(()));
    assert_eq!(BlockUnitsMapType::try_from_i64(i64::MAX), Err(()));
}

#[test]
fn block_key_codes_follow_declaration_order() {
    assert_eq!(BlockKeys::try_from_i64(0), Ok(BlockKeys::Undefined));
    assert_eq!(BlockKeys::try_from_i64(1), Ok(BlockKeys::Void));
    assert_eq!(BlockKeys::try_from_i64(2), Ok(BlockKeys::LineBlock1Edge));
    assert_eq!(BlockKeys::try_from_i64(10), Ok(BlockKeys::Router));
    assert_eq!(BlockKeys::try_from_i64(12), Ok(BlockKeys::RouteJoin3To1));
    assert_eq!(BlockKeys::try_from_i64(13), Err(()));
    assert_eq!(BlockKeys::try_from_i64(-1), Err(()));
}
