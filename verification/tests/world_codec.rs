use flywheel::data::{Block, BlockPos};
use flywheel::world::BatchSet;

fn le32(x: u32) -> Vec<u8> {
    x.to_le_bytes().to_vec()
}

fn le64(x: i64) -> Vec<u8> {
    x.to_le_bytes().to_vec()
}

fn str_field(s: &str) -> Vec<u8> {
    let mut v = le32(s.len() as u32);
    v.extend_from_slice(s.as_bytes());
    v
}

#[test]
fn empty_batch_encodes_to_nothing() {
    let batch = BatchSet::new(1);
    assert!(batch.encode().is_none());
}

#[test]
fn single_block_exact_bytes() {
    let mut batch = BatchSet::new(9);
    batch.put(BlockPos::new(1, 2, 3), Block::new("stone"));
    let bytes = batch.encode().unwrap();
    let mut expected = le32(1);
    expected.extend(le64(1));
    expected.extend(le64(2));
    expected.extend(le64(3));
    expected.extend(str_field("stone"));
    expected.push(0u8);
    assert_eq!(bytes, expected);
}

#[test]
fn negative_coordinates_two_complement() {
    let mut batch = BatchSet::new(0);
    batch.put(BlockPos::new(-1, -16, i64::MIN), Block::new("x"));
    let bytes = batch.encode().unwrap();
    let mut expected = le32(1);
    expected.extend(le64(-1));
    expected.extend(le64(-16));
    expected.extend(le64(i64::MIN));
    expected.extend(str_field("x"));
    expected.push(0u8);
    assert_eq!(bytes, expected);
}

#[test]
fn states_encode_in_set_order() {
    let block = Block::new("lamp").with("lit", "true").with("axis", "y");
    let mut batch = BatchSet::new(0);
    batch.put(BlockPos::new(0, 0, 0), block);
    let bytes = batch.encode().unwrap();
    let mut expected = le32(1);
    expected.extend(le64(0));
    expected.extend(le64(0));
    expected.extend(le64(0));
    expected.extend(str_field("lamp"));
    expected.push(2u8);
    expected.extend(str_field("lit"));
    expected.extend(str_field("true"));
    expected.extend(str_field("axis"));
    expected.extend(str_field("y"));
    assert_eq!(bytes, expected);
}

#[test]
fn duplicate_coordinate_keeps_last_descriptor() {
    let pos = BlockPos::new(4, 5, 6);
    let mut batch = BatchSet::new(0);
    batch.put(pos, Block::new("dirt"));
    batch.put(pos, Block::new("glass"));
    let bytes = batch.encode().unwrap();
    let mut expected = le32(1);
    expected.extend(le64(4));
    expected.extend(le64(5));
    expected.extend(le64(6));
    expected.extend(str_field("glass"));
    expected.push(0u8);
    assert_eq!(bytes, expected);
}

#[test]
fn construction_order_does_not_change_bytes() {
    let a_pos = BlockPos::new(-2, 0, 7);
    let b_pos = BlockPos::new(3, -1, 0);
    let one = BatchSet::new(0)
        .with(a_pos, Block::new("oak_log"))
        .with(b_pos, Block::new("air"))
        .with(a_pos, Block::new("stone"));
    let two = BatchSet::new(0)
        .with(b_pos, Block::new("dirt"))
        .with(b_pos, Block::new("air"))
        .with(a_pos, Block::new("stone"));
    assert_eq!(one.encode().unwrap(), two.encode().unwrap());
}

#[test]
fn entries_encode_in_coordinate_order() {
    let mut batch = BatchSet::new(0);
    batch.put(BlockPos::new(5, 0, 0), Block::new("b"));
    batch.put(BlockPos::new(-5, 0, 0), Block::new("a"));
    let bytes = batch.encode().unwrap();
    let mut expected = le32(2);
    expected.extend(le64(-5));
    expected.extend(le64(0));
    expected.extend(le64(0));
    expected.extend(str_field("a"));
    expected.push(0u8);
    expected.extend(le64(5));
    expected.extend(le64(0));
    expected.extend(le64(0));
    expected.extend(str_field("b"));
    expected.push(0u8);
    assert_eq!(bytes, expected);
}

#[test]
fn batch_len_and_session() {
    let mut batch = BatchSet::new(77);
    assert_eq!(batch.session_id(), 77);
    assert_eq!(batch.len(), 0);
    batch.put(BlockPos::splat(1), Block::new("a"));
    batch.put(BlockPos::splat(1), Block::new("b"));
    batch.put(BlockPos::splat(2), Block::new("c"));
    assert_eq!(batch.len(), 2);
}

#[test]
fn block_set_and_get() {
    let mut block = Block::new("furnace");
    assert_eq!(block.id(), "furnace");
    assert_eq!(block.states_len(), 0);
    assert!(block.get("facing").is_none());
    block.set("facing", "north");
    block.set("lit", "false");
    block.set("facing", "south");
    assert_eq!(block.get("facing"), Some("south"));
    assert_eq!(block.get("lit"), Some("false"));
    assert_eq!(block.states_len(), 2);
    let states = block.states();
    assert_eq!(states[0], ("facing".to_string(), "south".to_string()));
    assert_eq!(states[1], ("lit".to_string(), "false".to_string()));
}

#[test]
fn block_holds_fifteen_states() {
    let mut block = Block::new("multi");
    let keys: Vec<String> = (0..15).map(|i| format!("k{}", i)).collect();
    for k in &keys {
        block.set(k, "v");
    }
    assert_eq!(block.states_len(), 15);
    // replacing an existing key is still allowed at the cap
    block.set("k0", "w");
    assert_eq!(block.states_len(), 15);
    assert_eq!(block.get("k0"), Some("w"));
}
