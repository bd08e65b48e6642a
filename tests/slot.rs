use facet::shape::{shape_of, Facet, ShapeDesc};
use facet::slot::{
    Destination, DropRecord, Memory, Partial, PartialStorage, Slot, SlotError, Value,
};

fn dropping() -> ShapeDesc {
    ShapeDesc { id: 77, size: 4, has_drop: true }
}

fn plain_shape() -> ShapeDesc {
    ShapeDesc { id: 5, size: 4, has_drop: false }
}

fn value(shape: ShapeDesc, bytes: Vec<u8>) -> Value {
    Value { shape, bytes }
}

#[test]
fn fill_fresh_location_sets_mark_without_drop() {
    let mut mem = Memory::new(8);
    let mark = mem.new_mark();
    let slot = Slot::for_ptr(2, dropping(), mark);
    assert_eq!(slot.fill(&mut mem, value(dropping(), vec![1, 2, 3, 4])), Ok(()));
    assert!(mem.is_marked(mark));
    assert!(mem.drops.is_empty());
    assert_eq!(mem.bytes, vec![0, 0, 1, 2, 3, 4, 0, 0]);
}

#[test]
fn fill_twice_drops_first_value_once() {
    let mut mem = Memory::new(4);
    let mark = mem.new_mark();
    Slot::for_ptr(0, dropping(), mark).fill(&mut mem, value(dropping(), vec![1, 1, 1, 1])).unwrap();
    Slot::for_ptr(0, dropping(), mark).fill(&mut mem, value(dropping(), vec![2, 2, 2, 2])).unwrap();
    assert_eq!(mem.drops, vec![DropRecord { addr: 0, shape: 77 }]);
    assert!(mem.is_marked(mark));
    assert_eq!(mem.bytes, vec![2, 2, 2, 2]);
}

#[test]
fn fill_twice_without_drop_hook_records_nothing() {
    let mut mem = Memory::new(4);
    let mark = mem.new_mark();
    Slot::for_ptr(0, plain_shape(), mark).fill(&mut mem, value(plain_shape(), vec![1, 1, 1, 1])).unwrap();
    Slot::for_ptr(0, plain_shape(), mark).fill(&mut mem, value(plain_shape(), vec![3, 3, 3, 3])).unwrap();
    assert!(mem.drops.is_empty());
    assert_eq!(mem.bytes, vec![3, 3, 3, 3]);
}

#[test]
fn fill_with_other_shape_is_refused_and_writes_nothing() {
    let mut mem = Memory::new(4);
    let mark = mem.new_mark();
    let r = Slot::for_ptr(0, dropping(), mark).fill(&mut mem, value(plain_shape(), vec![9, 9, 9, 9]));
    assert_eq!(r, Err(SlotError::ShapeMismatch { expected: dropping(), actual: plain_shape() }));
    assert_eq!(mem.bytes, vec![0, 0, 0, 0]);
    assert!(!mem.is_marked(mark));
    assert!(mem.drops.is_empty());
}

#[test]
fn fill_map_entry_inserts_and_replaces() {
    let mut mem = Memory::new(0);
    let m = mem.new_map();
    let other = mem.new_map();
    Slot::for_hash_map(m, "k".to_string(), plain_shape())
        .fill(&mut mem, value(plain_shape(), vec![1, 2, 3, 4]))
        .unwrap();
    assert_eq!(mem.map_get(m, &"k".to_string()).unwrap().bytes, vec![1, 2, 3, 4]);
    Slot::for_hash_map(m, "k".to_string(), plain_shape())
        .fill(&mut mem, value(plain_shape(), vec![5, 6, 7, 8]))
        .unwrap();
    assert_eq!(mem.map_get(m, &"k".to_string()).unwrap().bytes, vec![5, 6, 7, 8]);
    assert!(mem.map_get(m, &"z".to_string()).is_none());
    assert!(mem.map_get(other, &"k".to_string()).is_none());
}

#[test]
fn fill_map_entry_with_other_shape_is_refused() {
    let mut mem = Memory::new(0);
    let m = mem.new_map();
    let r = Slot::for_hash_map(m, "k".to_string(), plain_shape())
        .fill(&mut mem, value(dropping(), vec![1, 2, 3, 4]));
    assert_eq!(r, Err(SlotError::ShapeMismatch { expected: plain_shape(), actual: dropping() }));
    assert!(mem.map_get(m, &"k".to_string()).is_none());
}

#[test]
fn mark_as_initialized_on_pointer_and_map() {
    let mut mem = Memory::new(4);
    let mark = mem.new_mark();
    let mut slot = Slot::for_ptr(0, plain_shape(), mark);
    assert_eq!(slot.mark_as_initialized(&mut mem), Ok(()));
    assert!(mem.is_marked(mark));
    let m = mem.new_map();
    let mut entry = Slot::for_hash_map(m, "k".to_string(), plain_shape());
    assert_eq!(entry.mark_as_initialized(&mut mem), Err(SlotError::MarkMapEntry));
    let mut dest = Destination::HashMap { map: m, key: "k".to_string() };
    assert_eq!(dest.mark_as_initialized(&mut mem), Err(SlotError::MarkMapEntry));
}

#[test]
fn fill_from_partial_moves_bytes_and_drops_old() {
    let mut mem = Memory::new(6);
    let mark = mem.new_mark();
    Slot::for_ptr(1, dropping(), mark).fill(&mut mem, value(dropping(), vec![1, 1, 1, 1])).unwrap();
    let mut partial = Partial::new_owned(dropping());
    partial.write(&mut mem, 2, &vec![7, 8]);
    let r = Slot::for_ptr(1, dropping(), mark).fill_from_partial(&mut mem, partial);
    assert_eq!(r, Ok(()));
    assert_eq!(mem.bytes, vec![0, 0, 0, 7, 8, 0]);
    assert_eq!(mem.drops, vec![DropRecord { addr: 1, shape: 77 }]);
    assert!(mem.is_marked(mark));
}

#[test]
fn fill_from_partial_checks_shape_and_map_entries() {
    let mut mem = Memory::new(4);
    let mark = mem.new_mark();
    let p = Partial::from_value(value(plain_shape(), vec![1, 2, 3, 4]));
    let r = Slot::for_ptr(0, dropping(), mark).fill_from_partial(&mut mem, p);
    assert_eq!(r, Err(SlotError::ShapeMismatch { expected: dropping(), actual: plain_shape() }));
    assert_eq!(mem.bytes, vec![0, 0, 0, 0]);
    let m = mem.new_map();
    let p = Partial::from_value(value(plain_shape(), vec![1, 2, 3, 4]));
    let r = Slot::for_hash_map(m, "k".to_string(), plain_shape()).fill_from_partial(&mut mem, p);
    assert_eq!(r, Err(SlotError::PartialIntoMapEntry));
    let mut dest = Destination::Ptr { ptr: 0, init_mark: mark };
    let p = Partial::from_value(value(plain_shape(), vec![4, 3, 2, 1]));
    assert_eq!(dest.fill_from_partial(&mut mem, p, plain_shape()), Ok(()));
    assert_eq!(mem.bytes, vec![4, 3, 2, 1]);
}

#[test]
fn into_partial_releases_and_builds_in_place() {
    let mut mem = Memory::new(4);
    let mark = mem.new_mark();
    Slot::for_ptr(0, dropping(), mark).fill(&mut mem, value(dropping(), vec![1, 1, 1, 1])).unwrap();
    let mut partial = Slot::for_ptr(0, dropping(), mark).into_partial(&mut mem);
    assert_eq!(mem.drops, vec![DropRecord { addr: 0, shape: 77 }]);
    assert!(!mem.is_marked(mark));
    assert!(matches!(partial.storage, PartialStorage::Borrowed { addr: 0 }));
    partial.write(&mut mem, 0, &vec![5, 6]);
    assert_eq!(mem.bytes, vec![5, 6, 1, 1]);
    let mut dest = partial.dest.take().unwrap();
    dest.fill_from_partial(&mut mem, partial, dropping()).unwrap();
    assert!(mem.is_marked(mark));
    assert_eq!(mem.drops.len(), 1);
    assert_eq!(mem.bytes, vec![5, 6, 1, 1]);
}

#[test]
fn into_partial_for_map_entry_has_own_storage() {
    let mut mem = Memory::new(0);
    let m = mem.new_map();
    let slot = Slot::for_hash_map(m, "k".to_string(), plain_shape());
    assert_eq!(slot.shape(), plain_shape());
    let p = slot.into_partial(&mut mem);
    assert_eq!(p.shape(), plain_shape());
    assert_eq!(p.read(&mem), vec![0, 0, 0, 0]);
    assert!(matches!(p.dest, Some(Destination::HashMap { map, .. }) if map == m));
    let built = p.build(&mem);
    assert_eq!(built.bytes, vec![0, 0, 0, 0]);
}

struct Pair {
    _a: u32,
    b: String,
}

#[test]
fn shape_of_field_accessor() {
    assert_eq!(shape_of(&|p: Pair| p.b), String::shape());
    assert_eq!(shape_of(&|p: Pair| p._a), ShapeDesc { id: 4, size: 4, has_drop: false });
    assert_eq!(u8::shape().size, 1);
    assert!(!bool::shape().has_drop);
    assert_eq!(u64::shape().size, 8);
}
