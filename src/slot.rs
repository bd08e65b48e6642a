//! The generic write path: destinations, initialization marks, slots and
//! partially built values, over an explicit model of the memory they write.
use vstd::prelude::*;

use crate::shape::ShapeDesc;

verus! {

/// Refers to one initialization flag held by a `Memory`: true when the
/// location it guards holds a live value that must be dropped before reuse.
#[derive(Clone, Copy, Debug, PartialEq, Eq, Structural)]
pub struct InitMark {
    pub index: usize,
}

/// One invocation of a shape's drop hook on the value at `addr`.
#[derive(Clone, Copy, Debug, PartialEq, Eq, Structural)]
pub struct DropRecord {
    pub addr: usize,
    pub shape: u64,
}

/// A type-erased value: its shape and its bytes.
pub struct Value {
    pub shape: ShapeDesc,
    pub bytes: Vec<u8>,
}

impl Value {
    pub open spec fn wf(&self) -> bool {
        self.bytes@.len() == self.shape.size
    }
}

/// One insertion into a keyed map held by a `Memory`.
pub struct MapEntry {
    pub map: usize,
    pub key: String,
    pub value: Value,
}

/// Contents of map `m` after the insertions `log`, later ones replacing
/// earlier ones under the same key.
pub open spec fn map_view(log: Seq<MapEntry>, m: usize) -> Map<Seq<char>, Value>
    decreases log.len(),
{
    if log.len() == 0 {
        Map::empty()
    } else if log.last().map == m {
        map_view(log.drop_last(), m).insert(log.last().key@, log.last().value)
    } else {
        map_view(log.drop_last(), m)
    }
}

/// `b` with the bytes from `at` on replaced by `d`.
pub open spec fn splice(b: Seq<u8>, at: int, d: Seq<u8>) -> Seq<u8> {
    b.subrange(0, at) + d + b.subrange(at + d.len(), b.len() as int)
}

/// The drop log after releasing the location `addr`: one record more when the
/// location was marked live and its shape has a drop hook.
pub open spec fn release_log(
    drops: Seq<DropRecord>,
    live: bool,
    addr: usize,
    shape: ShapeDesc,
) -> Seq<DropRecord> {
    if live && shape.has_drop {
        drops.push(DropRecord { addr, shape: shape.id })
    } else {
        drops
    }
}

/// The memory the write path works on: raw bytes addressed by offset, the
/// initialization flags, the log of drop hook invocations, and the keyed maps.
pub struct Memory {
    pub bytes: Vec<u8>,
    pub marks: Vec<bool>,
    pub drops: Vec<DropRecord>,
    pub map_count: usize,
    pub map_log: Vec<MapEntry>,
}

impl Memory {
    /// Every map insertion refers to a map that was created.
    pub open spec fn wf(&self) -> bool {
        forall|i: int| 0 <= i < self.map_log@.len() ==> (#[trigger] self.map_log@[i]).map < self.map_count
    }

    /// Contents of the map with handle `m`.
    pub open spec fn map(&self, m: usize) -> Map<Seq<char>, Value> {
        map_view(self.map_log@, m)
    }

    /// Memory of `size` zero bytes, with no marks and no maps.
    pub fn new(size: usize) -> (r: Memory)
        ensures
            r.bytes@ == Seq::new(size as nat, |i: int| 0u8),
            r.marks@.len() == 0,
            r.drops@.len() == 0,
            r.map_count == 0,
            r.map_log@.len() == 0,
            r.wf(),
    {
        let mut bytes: Vec<u8> = Vec::new();
        let mut i: usize = 0;
        while i < size
            invariant
                i <= size,
                bytes@ == Seq::new(i as nat, |k: int| 0u8),
            decreases size - i,
        {
            bytes.push(0);
            i = i + 1;
            assert(bytes@ =~= Seq::new(i as nat, |k: int| 0u8));
        }
        Memory { bytes, marks: Vec::new(), drops: Vec::new(), map_count: 0, map_log: Vec::new() }
    }

    /// Reserves a new initialization flag, initially false.
    pub fn new_mark(&mut self) -> (r: InitMark)
        ensures
            r.index == old(self).marks@.len(),
            final(self).marks@ == old(self).marks@.push(false),
            final(self).bytes == old(self).bytes,
            final(self).drops == old(self).drops,
            final(self).map_count == old(self).map_count,
            final(self).map_log == old(self).map_log,
    {
        let r = InitMark { index: self.marks.len() };
        self.marks.push(false);
        r
    }

    /// Creates a new empty map and returns its handle.
    pub fn new_map(&mut self) -> (r: usize)
        requires
            old(self).map_count < usize::MAX,
            old(self).wf(),
        ensures
            final(self).wf(),
            r == old(self).map_count,
            final(self).map_count == r + 1,
            final(self).map(r) == Map::<Seq<char>, Value>::empty(),
            final(self).bytes == old(self).bytes,
            final(self).marks == old(self).marks,
            final(self).drops == old(self).drops,
            final(self).map_log == old(self).map_log,
    {
        proof {
            lemma_fresh_map_empty(self.map_log@, self.map_count);
        }
        let r = self.map_count;
        self.map_count = r + 1;
        r
    }

    /// Whether the flag `mark` is set.
    pub fn is_marked(&self, mark: InitMark) -> (r: bool)
        requires
            mark.index < self.marks@.len(),
        ensures
            r == self.marks@[mark.index as int],
    {
        self.marks[mark.index]
    }

    /// Copies `len` bytes starting at `addr`.
    pub fn read(&self, addr: usize, len: usize) -> (r: Vec<u8>)
        requires
            addr + len <= self.bytes@.len(),
        ensures
            r@ == self.bytes@.subrange(addr as int, addr + len),
    {
        let mut r: Vec<u8> = Vec::new();
        let mut i: usize = 0;
        proof {
            vstd::std_specs::vec::axiom_spec_len(&self.bytes);
        }
        while i < len
            invariant
                i <= len,
                self.bytes@.len() <= usize::MAX,
                addr + len <= self.bytes@.len(),
                r@ == self.bytes@.subrange(addr as int, addr + i),
            decreases len - i,
        {
            r.push(self.bytes[addr + i]);
            i = i + 1;
            assert(r@ =~= self.bytes@.subrange(addr as int, addr + i));
        }
        r
    }

    /// Overwrites the bytes from `addr` on with `data`.
    fn write(&mut self, addr: usize, data: &Vec<u8>)
        requires
            addr + data@.len() <= old(self).bytes@.len(),
        ensures
            final(self).bytes@ == splice(old(self).bytes@, addr as int, data@),
            final(self).marks == old(self).marks,
            final(self).drops == old(self).drops,
            final(self).map_count == old(self).map_count,
            final(self).map_log == old(self).map_log,
    {
        let mut i: usize = 0;
        proof {
            vstd::std_specs::vec::axiom_spec_len(&self.bytes);
        }
        while i < data.len()
            invariant
                i <= data@.len(),
                old(self).bytes@.len() <= usize::MAX,
                addr + data@.len() <= old(self).bytes@.len(),
                self.bytes@.len() == old(self).bytes@.len(),
                self.bytes@ == splice(old(self).bytes@, addr as int, data@.subrange(0, i as int)),
                self.marks == old(self).marks,
                self.drops == old(self).drops,
                self.map_count == old(self).map_count,
                self.map_log == old(self).map_log,
            decreases data@.len() - i,
        {
            self.bytes.set(addr + i, data[i]);
            i = i + 1;
            assert(self.bytes@ =~= splice(old(self).bytes@, addr as int, data@.subrange(0, i as int)));
        }
        assert(data@.subrange(0, data@.len() as int) =~= data@);
    }

    /// Invokes the drop hook on a live value at `addr`, if the shape has one,
    /// and leaves the flag as it was.
    fn release(&mut self, addr: usize, mark: InitMark, shape: ShapeDesc)
        requires
            mark.index < old(self).marks@.len(),
        ensures
            final(self).drops@ == release_log(
                old(self).drops@,
                old(self).marks@[mark.index as int],
                addr,
                shape,
            ),
            final(self).bytes == old(self).bytes,
            final(self).marks == old(self).marks,
            final(self).map_count == old(self).map_count,
            final(self).map_log == old(self).map_log,
    {
        if self.marks[mark.index] && shape.has_drop {
            self.drops.push(DropRecord { addr, shape: shape.id });
        }
    }

    /// Sets or clears the flag `mark`.
    fn set_mark(&mut self, mark: InitMark, value: bool)
        requires
            mark.index < old(self).marks@.len(),
        ensures
            final(self).marks@ == old(self).marks@.update(mark.index as int, value),
            final(self).bytes == old(self).bytes,
            final(self).drops == old(self).drops,
            final(self).map_count == old(self).map_count,
            final(self).map_log == old(self).map_log,
    {
        self.marks.set(mark.index, value);
    }

    /// Inserts `value` under `key` into map `m`, replacing any earlier value.
    fn map_insert(&mut self, m: usize, key: String, value: Value)
        ensures
            old(self).wf() && m < old(self).map_count ==> final(self).wf(),
            final(self).map(m) == old(self).map(m).insert(key@, value),
            forall|o: usize| o != m ==> #[trigger] final(self).map(o) == old(self).map(o),
            final(self).map_log@.len() == old(self).map_log@.len() + 1,
            final(self).bytes == old(self).bytes,
            final(self).marks == old(self).marks,
            final(self).drops == old(self).drops,
            final(self).map_count == old(self).map_count,
    {
        let ghost old_log = self.map_log@;
        let entry = MapEntry { map: m, key, value };
        self.map_log.push(entry);
        assert(self.map_log@.drop_last() =~= old_log);
    }

    /// The value stored under `key` in map `m`, if any.
    pub fn map_get(&self, m: usize, key: &String) -> (r: Option<&Value>)
        ensures
            match r {
                Some(v) => self.map(m).contains_key(key@) && self.map(m)[key@] == *v,
                None => !self.map(m).contains_key(key@),
            },
    {
        let mut i = self.map_log.len();
        assert(self.map_log@.take(i as int) =~= self.map_log@);
        while i > 0
            invariant
                i <= self.map_log@.len(),
                self.map(m).contains_key(key@) == map_view(self.map_log@.take(i as int), m).contains_key(key@),
                self.map(m).contains_key(key@) ==> self.map(m)[key@] == map_view(
                    self.map_log@.take(i as int),
                    m,
                )[key@],
            decreases i,
        {
            let e = &self.map_log[i - 1];
            assert(self.map_log@.take(i as int).drop_last() =~= self.map_log@.take(i - 1));
            if e.map == m && e.key == *key {
                return Some(&e.value);
            }
            i = i - 1;
        }
        None
    }
}

proof fn lemma_fresh_map_empty(log: Seq<MapEntry>, m: usize)
    requires
        forall|i: int| 0 <= i < log.len() ==> (#[trigger] log[i]).map < m,
    ensures
        map_view(log, m) == Map::<Seq<char>, Value>::empty(),
    decreases log.len(),
{
    if log.len() > 0 {
        assert(log.last() == log[log.len() - 1]);
        lemma_fresh_map_empty(log.drop_last(), m);
    }
}

/// Why a write was refused.
#[derive(Clone, Copy, Debug, PartialEq, Eq, Structural)]
pub enum SlotError {
    /// The value's shape differs from the shape the destination expects.
    ShapeMismatch { expected: ShapeDesc, actual: ShapeDesc },
    /// A map entry cannot be marked initialized without inserting a value.
    MarkMapEntry,
    /// Moving a partially built value into a map entry is not supported.
    PartialIntoMapEntry,
}

/// Where a value must end up.
pub enum Destination {
    /// A location in memory guarded by an initialization flag; a live value
    /// there is dropped before it is overwritten.
    Ptr { ptr: usize, init_mark: InitMark },
    /// An entry of a keyed map; inserting is the only way to initialize it.
    HashMap { map: usize, key: String },
}

impl Memory {
    /// `d` refers to storage of this memory that can hold a value of `shape`.
    pub open spec fn holds(&self, d: Destination, shape: ShapeDesc) -> bool {
        match d {
            Destination::Ptr { ptr, init_mark } => ptr + shape.size <= self.bytes@.len()
                && init_mark.index < self.marks@.len(),
            Destination::HashMap { map, .. } => map < self.map_count,
        }
    }
}

/// `new` is `old` after a value with bytes `data` was written at `ptr`: the
/// live value there was released, the bytes replaced and the flag set.
pub open spec fn ptr_filled(
    old: Memory,
    new: Memory,
    ptr: usize,
    mark: InitMark,
    shape: ShapeDesc,
    data: Seq<u8>,
) -> bool {
    &&& new.bytes@ == splice(old.bytes@, ptr as int, data)
    &&& new.marks@ == old.marks@.update(mark.index as int, true)
    &&& new.drops@ == release_log(old.drops@, old.marks@[mark.index as int], ptr, shape)
    &&& new.map_count == old.map_count
    &&& new.map_log == old.map_log
}

/// Backing storage of a partially built value.
pub enum PartialStorage {
    /// Storage the value owns.
    Owned { bytes: Vec<u8> },
    /// A region of memory the value is built in place in.
    Borrowed { addr: usize },
}

/// A value under construction, with the destination it is meant for.
pub struct Partial {
    pub shape: ShapeDesc,
    pub storage: PartialStorage,
    pub dest: Option<Destination>,
}

impl Partial {
    /// The storage can hold a value of the partial's shape.
    pub open spec fn wf_in(&self, mem: &Memory) -> bool {
        match self.storage {
            PartialStorage::Owned { bytes } => bytes@.len() == self.shape.size,
            PartialStorage::Borrowed { addr } => addr + self.shape.size <= mem.bytes@.len(),
        }
    }

    /// The bytes built so far.
    pub open spec fn data(&self, mem: &Memory) -> Seq<u8> {
        match self.storage {
            PartialStorage::Owned { bytes } => bytes@,
            PartialStorage::Borrowed { addr } => mem.bytes@.subrange(
                addr as int,
                addr + self.shape.size,
            ),
        }
    }

    /// A value of `shape` in storage of its own, all bytes zero.
    pub fn new_owned(shape: ShapeDesc) -> (r: Partial)
        ensures
            r.shape == shape,
            r.storage is Owned,
            r.storage->bytes@ == Seq::new(shape.size as nat, |i: int| 0u8),
            r.dest is None,
    {
        let mut bytes: Vec<u8> = Vec::new();
        let mut i: usize = 0;
        while i < shape.size
            invariant
                i <= shape.size,
                bytes@ == Seq::new(i as nat, |k: int| 0u8),
            decreases shape.size - i,
        {
            bytes.push(0);
            i = i + 1;
            assert(bytes@ =~= Seq::new(i as nat, |k: int| 0u8));
        }
        Partial { shape, storage: PartialStorage::Owned { bytes }, dest: None }
    }

    /// A value of `shape` built in place at `addr`, bound for `dest`.
    pub fn new_borrowed(addr: usize, shape: ShapeDesc, dest: Option<Destination>) -> (r: Partial)
        ensures
            r.shape == shape,
            r.storage == (PartialStorage::Borrowed { addr }),
            r.dest == dest,
    {
        Partial { shape, storage: PartialStorage::Borrowed { addr }, dest }
    }

    /// A finished value, held as a partial.
    pub fn from_value(v: Value) -> (r: Partial)
        ensures
            r.shape == v.shape,
            r.storage == (PartialStorage::Owned { bytes: v.bytes }),
            r.dest is None,
    {
        Partial { shape: v.shape, storage: PartialStorage::Owned { bytes: v.bytes }, dest: None }
    }

    pub fn shape(&self) -> (r: ShapeDesc)
        ensures
            r == self.shape,
    {
        self.shape
    }

    pub fn set_dest(&mut self, dest: Option<Destination>)
        ensures
            final(self).shape == old(self).shape,
            final(self).storage == old(self).storage,
            final(self).dest == dest,
    {
        self.dest = dest;
    }

    /// Copies out the bytes built so far.
    pub fn read(&self, mem: &Memory) -> (r: Vec<u8>)
        requires
            self.wf_in(mem),
        ensures
            r@ == self.data(mem),
    {
        match &self.storage {
            PartialStorage::Owned { bytes } => bytes.clone(),
            PartialStorage::Borrowed { addr } => mem.read(*addr, self.shape.size),
        }
    }

    /// Writes `data` at `offset` within the value, in whichever storage backs it.
    pub fn write(&mut self, mem: &mut Memory, offset: usize, data: &Vec<u8>)
        requires
            old(self).wf_in(old(mem)),
            offset + data@.len() <= old(self).shape.size,
        ensures
            final(self).shape == old(self).shape,
            final(self).dest == old(self).dest,
            final(self).wf_in(final(mem)),
            final(self).data(final(mem)) == splice(old(self).data(old(mem)), offset as int, data@),
            final(mem).marks == old(mem).marks,
            final(mem).drops == old(mem).drops,
            final(mem).map_count == old(mem).map_count,
            final(mem).map_log == old(mem).map_log,
    {
        match &mut self.storage {
            PartialStorage::Owned { bytes } => {
                let ghost before = bytes@;
                let mut i: usize = 0;
                proof {
                    vstd::std_specs::vec::axiom_spec_len(bytes);
                }
                while i < data.len()
                    invariant
                        i <= data@.len(),
                        before.len() <= usize::MAX,
                        offset + data@.len() <= before.len(),
                        bytes@ == splice(before, offset as int, data@.subrange(0, i as int)),
                    decreases data@.len() - i,
                {
                    bytes.set(offset + i, data[i]);
                    i = i + 1;
                    assert(bytes@ =~= splice(before, offset as int, data@.subrange(0, i as int)));
                }
                assert(data@.subrange(0, data@.len() as int) =~= data@);
            },
            PartialStorage::Borrowed { addr } => {
                let a = *addr;
                proof {
                    vstd::std_specs::vec::axiom_spec_len(&mem.bytes);
                }
                mem.write(a + offset, data);
                assert(self.data(mem) =~= splice(old(self).data(old(mem)), offset as int, data@));
            },
        }
    }

    /// Finishes construction, returning the value.
    pub fn build(self, mem: &Memory) -> (r: Value)
        requires
            self.wf_in(mem),
        ensures
            r.shape == self.shape,
            r.bytes@ == self.data(mem),
            r.wf(),
    {
        let bytes = self.read(mem);
        Value { shape: self.shape, bytes }
    }
}

impl Destination {
    /// Marks the location as holding a live value without writing one.
    pub fn mark_as_initialized(&mut self, mem: &mut Memory) -> (r: Result<(), SlotError>)
        requires
            match *old(self) {
                Destination::Ptr { init_mark, .. } => init_mark.index < old(mem).marks@.len(),
                Destination::HashMap { .. } => true,
            },
        ensures
            *final(self) == *old(self),
            match *old(self) {
                Destination::Ptr { init_mark, .. } => r is Ok && final(mem).marks@ == old(
                    mem,
                ).marks@.update(init_mark.index as int, true) && final(mem).bytes == old(mem).bytes
                    && final(mem).drops == old(mem).drops && final(mem).map_count == old(
                    mem,
                ).map_count && final(mem).map_log == old(mem).map_log,
                Destination::HashMap { .. } => r == Err::<(), SlotError>(SlotError::MarkMapEntry)
                    && *final(mem) == *old(mem),
            },
    {
        match self {
            Destination::Ptr { init_mark, .. } => {
                mem.set_mark(*init_mark, true);
                Ok(())
            },
            Destination::HashMap { .. } => Err(SlotError::MarkMapEntry),
        }
    }

    /// Moves a partially built value of `shape` into this destination,
    /// releasing the live value there first.
    pub fn fill_from_partial(&mut self, mem: &mut Memory, partial: Partial, shape: ShapeDesc) -> (r:
        Result<(), SlotError>)
        requires
            old(mem).holds(*old(self), shape),
            partial.wf_in(old(mem)),
        ensures
            *final(self) == *old(self),
            partial.shape != shape ==> r == Err::<(), SlotError>(
                SlotError::ShapeMismatch { expected: shape, actual: partial.shape },
            ) && *final(mem) == *old(mem),
            partial.shape == shape ==> match *old(self) {
                Destination::Ptr { ptr, init_mark } => r is Ok && ptr_filled(
                    *old(mem),
                    *final(mem),
                    ptr,
                    init_mark,
                    shape,
                    partial.data(old(mem)),
                ),
                Destination::HashMap { .. } => r == Err::<(), SlotError>(
                    SlotError::PartialIntoMapEntry,
                ) && *final(mem) == *old(mem),
            },
    {
        if partial.shape != shape {
            return Err(SlotError::ShapeMismatch { expected: shape, actual: partial.shape });
        }
        match self {
            Destination::Ptr { ptr, init_mark } => {
                let data = partial.read(mem);
                mem.release(*ptr, *init_mark, shape);
                mem.write(*ptr, &data);
                mem.set_mark(*init_mark, true);
                Ok(())
            },
            Destination::HashMap { .. } => Err(SlotError::PartialIntoMapEntry),
        }
    }
}

/// A one-shot capability to write a value of an expected shape into a
/// destination.
pub struct Slot {
    /// Where the value is written.
    pub dest: Destination,
    /// The shape a value must have to be written.
    pub shape: ShapeDesc,
}

impl Slot {
    /// A slot for the memory location `ptr`, guarded by `init_mark`.
    pub fn for_ptr(ptr: usize, shape: ShapeDesc, init_mark: InitMark) -> (r: Slot)
        ensures
            r.dest == (Destination::Ptr { ptr, init_mark }),
            r.shape == shape,
    {
        Slot { dest: Destination::Ptr { ptr, init_mark }, shape }
    }

    /// A slot for the entry `key` of the map with handle `map`.
    pub fn for_hash_map(map: usize, key: String, shape: ShapeDesc) -> (r: Slot)
        ensures
            r.dest == (Destination::HashMap { map, key }),
            r.shape == shape,
    {
        Slot { dest: Destination::HashMap { map, key }, shape }
    }

    /// Writes `value`, after checking that its shape is the expected one.
    /// A live value at a memory location is released first; a map entry is
    /// inserted, replacing any earlier value under the key.
    pub fn fill(self, mem: &mut Memory, value: Value) -> (r: Result<(), SlotError>)
        requires
            old(mem).holds(self.dest, self.shape),
            value.wf(),
        ensures
            old(mem).wf() ==> final(mem).wf(),
            value.shape != self.shape ==> r == Err::<(), SlotError>(
                SlotError::ShapeMismatch { expected: self.shape, actual: value.shape },
            ) && *final(mem) == *old(mem),
            value.shape == self.shape ==> r is Ok && match self.dest {
                Destination::Ptr { ptr, init_mark } => ptr_filled(
                    *old(mem),
                    *final(mem),
                    ptr,
                    init_mark,
                    self.shape,
                    value.bytes@,
                ),
                Destination::HashMap { map, key } => {
                    &&& final(mem).map(map) == old(mem).map(map).insert(key@, value)
                    &&& forall|o: usize| o != map ==> #[trigger] final(mem).map(o) == old(mem).map(o)
                    &&& final(mem).bytes == old(mem).bytes
                    &&& final(mem).marks == old(mem).marks
                    &&& final(mem).drops == old(mem).drops
                    &&& final(mem).map_count == old(mem).map_count
                },
            },
    {
        if self.shape != value.shape {
            return Err(SlotError::ShapeMismatch { expected: self.shape, actual: value.shape });
        }
        match self.dest {
            Destination::Ptr { ptr, init_mark } => {
                mem.release(ptr, init_mark, self.shape);
                mem.write(ptr, &value.bytes);
                mem.set_mark(init_mark, true);
                Ok(())
            },
            Destination::HashMap { map, key } => {
                mem.map_insert(map, key, value);
                Ok(())
            },
        }
    }

    /// Moves a partially built value into the slot, after checking that its
    /// shape is the expected one.
    pub fn fill_from_partial(self, mem: &mut Memory, partial: Partial) -> (r: Result<
        (),
        SlotError,
    >)
        requires
            old(mem).holds(self.dest, self.shape),
            partial.wf_in(old(mem)),
        ensures
            partial.shape != self.shape ==> r == Err::<(), SlotError>(
                SlotError::ShapeMismatch { expected: self.shape, actual: partial.shape },
            ) && *final(mem) == *old(mem),
            partial.shape == self.shape ==> match self.dest {
                Destination::Ptr { ptr, init_mark } => r is Ok && ptr_filled(
                    *old(mem),
                    *final(mem),
                    ptr,
                    init_mark,
                    self.shape,
                    partial.data(old(mem)),
                ),
                Destination::HashMap { .. } => r == Err::<(), SlotError>(
                    SlotError::PartialIntoMapEntry,
                ) && *final(mem) == *old(mem),
            },
    {
        let shape = self.shape;
        let mut dest = self.dest;
        dest.fill_from_partial(mem, partial, shape)
    }

    /// Marks the slot's location as holding a live value without writing one,
    /// for a value that was built in place.
    pub fn mark_as_initialized(&mut self, mem: &mut Memory) -> (r: Result<(), SlotError>)
        requires
            old(mem).holds(old(self).dest, old(self).shape),
        ensures
            final(self).shape == old(self).shape,
            final(self).dest == old(self).dest,
            match old(self).dest {
                Destination::Ptr { init_mark, .. } => r is Ok && final(mem).marks@ == old(
                    mem,
                ).marks@.update(init_mark.index as int, true) && final(mem).bytes == old(mem).bytes
                    && final(mem).drops == old(mem).drops && final(mem).map_count == old(
                    mem,
                ).map_count && final(mem).map_log == old(mem).map_log,
                Destination::HashMap { .. } => r == Err::<(), SlotError>(SlotError::MarkMapEntry)
                    && *final(mem) == *old(mem),
            },
    {
        self.dest.mark_as_initialized(mem)
    }

    /// Turns the slot into a partial value built directly in the slot's
    /// location. A live value there is released and its flag cleared first,
    /// since the partial now owns the duty of initializing it. A map entry
    /// gets a partial with storage of its own.
    pub fn into_partial(self, mem: &mut Memory) -> (r: Partial)
        requires
            old(mem).holds(self.dest, self.shape),
        ensures
            r.shape == self.shape,
            r.dest == Some(self.dest),
            r.wf_in(final(mem)),
            match self.dest {
                Destination::Ptr { ptr, init_mark } => {
                    &&& r.storage == (PartialStorage::Borrowed { addr: ptr })
                    &&& final(mem).drops@ == release_log(
                        old(mem).drops@,
                        old(mem).marks@[init_mark.index as int],
                        ptr,
                        self.shape,
                    )
                    &&& final(mem).marks@ == old(mem).marks@.update(init_mark.index as int, false)
                    &&& final(mem).bytes == old(mem).bytes
                    &&& final(mem).map_count == old(mem).map_count
                    &&& final(mem).map_log == old(mem).map_log
                },
                Destination::HashMap { .. } => {
                    &&& r.storage is Owned
                    &&& r.data(final(mem)) == Seq::new(self.shape.size as nat, |i: int| 0u8)
                    &&& *final(mem) == *old(mem)
                },
            },
    {
        let shape = self.shape;
        match self.dest {
            Destination::Ptr { ptr, init_mark } => {
                if mem.is_marked(init_mark) {
                    mem.release(ptr, init_mark, shape);
                    mem.set_mark(init_mark, false);
                } else {
                    assert(mem.marks@ =~= mem.marks@.update(init_mark.index as int, false));
                }
                Partial::new_borrowed(ptr, shape, Some(Destination::Ptr { ptr, init_mark }))
            },
            Destination::HashMap { map, key } => {
                let mut partial = Partial::new_owned(shape);
                partial.set_dest(Some(Destination::HashMap { map, key }));
                partial
            },
        }
    }

    /// The shape a value must have to be written here.
    pub fn shape(&self) -> (r: ShapeDesc)
        ensures
            r == self.shape,
    {
        self.shape
    }
}

/// Filling a location whose flag is clear sets the flag and invokes no drop
/// hook.
pub proof fn lemma_fill_fresh(
    old: Memory,
    new: Memory,
    ptr: usize,
    mark: InitMark,
    shape: ShapeDesc,
    data: Seq<u8>,
)
    requires
        mark.index < old.marks@.len(),
        !old.marks@[mark.index as int],
        ptr_filled(old, new, ptr, mark, shape, data),
    ensures
        new.marks@[mark.index as int],
        new.drops@ == old.drops@,
{
}

/// Filling a fresh location twice invokes the drop hook exactly once, on the
/// first value and at that location, leaves the second value's bytes in
/// place, and leaves the flag set.
pub proof fn lemma_fill_twice(
    m0: Memory,
    m1: Memory,
    m2: Memory,
    ptr: usize,
    mark: InitMark,
    shape: ShapeDesc,
    first: Seq<u8>,
    second: Seq<u8>,
)
    requires
        mark.index < m0.marks@.len(),
        !m0.marks@[mark.index as int],
        ptr + shape.size <= m0.bytes@.len(),
        first.len() == shape.size,
        second.len() == shape.size,
        ptr_filled(m0, m1, ptr, mark, shape, first),
        ptr_filled(m1, m2, ptr, mark, shape, second),
    ensures
        m2.marks@[mark.index as int],
        m2.drops@ == if shape.has_drop {
            m0.drops@.push(DropRecord { addr: ptr, shape: shape.id })
        } else {
            m0.drops@
        },
        m2.bytes@ == splice(m0.bytes@, ptr as int, second),
{
    assert(m2.bytes@ =~= splice(m0.bytes@, ptr as int, second));
}

} // verus!
