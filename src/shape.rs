//! Shape descriptors: what the write path knows of a type.
use vstd::prelude::*;

verus! {

/// Immutable descriptor of one concrete type: its identity, its size in
/// bytes, and whether it has a drop hook.
#[derive(Clone, Copy, Debug, PartialEq, Eq, Structural)]
pub struct ShapeDesc {
    pub id: u64,
    pub size: usize,
    pub has_drop: bool,
}

/// Types that carry a shape descriptor.
pub trait Facet {
    spec fn spec_shape() -> ShapeDesc;

    fn shape() -> (r: ShapeDesc)
        ensures
            r == Self::spec_shape(),
    ;
}

impl Facet for u8 {
    open spec fn spec_shape() -> ShapeDesc {
        ShapeDesc { id: 1, size: 1, has_drop: false }
    }

    fn shape() -> (r: ShapeDesc) {
        ShapeDesc { id: 1, size: 1, has_drop: false }
    }
}

impl Facet for u32 {
    open spec fn spec_shape() -> ShapeDesc {
        ShapeDesc { id: 4, size: 4, has_drop: false }
    }

    fn shape() -> (r: ShapeDesc) {
        ShapeDesc { id: 4, size: 4, has_drop: false }
    }
}

impl Facet for u64 {
    open spec fn spec_shape() -> ShapeDesc {
        ShapeDesc { id: 8, size: 8, has_drop: false }
    }

    fn shape() -> (r: ShapeDesc) {
        ShapeDesc { id: 8, size: 8, has_drop: false }
    }
}

impl Facet for bool {
    open spec fn spec_shape() -> ShapeDesc {
        ShapeDesc { id: 2, size: 1, has_drop: false }
    }

    fn shape() -> (r: ShapeDesc) {
        ShapeDesc { id: 2, size: 1, has_drop: false }
    }
}

impl Facet for String {
    open spec fn spec_shape() -> ShapeDesc {
        ShapeDesc { id: 24, size: 24, has_drop: true }
    }

    fn shape() -> (r: ShapeDesc) {
        ShapeDesc { id: 24, size: 24, has_drop: true }
    }
}

/// The shape of the field that the accessor `_f` projects out of a struct.
pub fn shape_of<TStruct, TField: Facet, F: Fn(TStruct) -> TField>(_f: &F) -> (r: ShapeDesc)
    ensures
        r == TField::spec_shape(),
{
    TField::shape()
}

} // verus!
