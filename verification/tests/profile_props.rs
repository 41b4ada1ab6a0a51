use flywheel::data::{BlockPos, ChunkPos, SoundCategory};
use flywheel::profile::PlayerProfile;

#[test]
fn profile_keeps_name_and_uuid() {
    let raw: u128 = 0x0011_2233_4455_6677_8899_aabb_ccdd_eeff;
    let profile = PlayerProfile::from_raw(raw, "steve".to_string());
    assert_eq!(profile.name, "steve");
    assert_eq!(profile.uuid, uuid::Uuid::from_u128_le(raw));
    // little-endian order: the low byte of the value is the first uuid byte
    assert_eq!(profile.uuid.as_bytes()[0], 0xff);
    assert_ne!(profile.uuid, uuid::Uuid::from_u128(raw));
}

#[test]
fn data_helpers() {
    let c = ChunkPos::new(2, -3);
    assert_eq!(ChunkPos::splat(4), ChunkPos::new(4, 4));
    assert_eq!(c.south(2), ChunkPos::new(2, -1));
    assert_eq!(c.north(1), ChunkPos::new(2, -4));
    assert_eq!(c.east(3), ChunkPos::new(5, -3));
    assert_eq!(c.west(3), ChunkPos::new(-1, -3));
    assert_eq!(c.min_block(), BlockPos::new(32, 0, -48));

    let b = BlockPos::new(1, 2, 3);
    assert_eq!(BlockPos::splat(7), BlockPos::new(7, 7, 7));
    assert_eq!(b.south(1), BlockPos::new(1, 2, 4));
    assert_eq!(b.north(1), BlockPos::new(1, 2, 2));
    assert_eq!(b.up(5), BlockPos::new(1, 7, 3));
    assert_eq!(b.down(5), BlockPos::new(1, -3, 3));
    assert_eq!(b.east(1), BlockPos::new(2, 2, 3));
    assert_eq!(b.west(1), BlockPos::new(0, 2, 3));
    assert_eq!(BlockPos::new(17, 0, -17).chunk(), ChunkPos::new(1, -1));
    assert_eq!(BlockPos::new(-16, 0, 16).chunk(), ChunkPos::new(-1, 1));

    assert_eq!(SoundCategory::Master.code(), 0);
    assert_eq!(SoundCategory::Records.code(), 2);
    assert_eq!(SoundCategory::Voice.code(), 9);
}
