//! A lighter form of change list: each changed field of an object carried
//! as a field tag and the raw bytes of its new value.

use vstd::prelude::*;
use crate::bytes::{bytes_of_u32, bytes_of_u32x3, native_bytes, u32x3_bytes};
use crate::float_bits::{f32_bits_eq, f32_eq, f32x3_bits_eq, f32x3_eq};
use crate::objects::Camera;

verus! {

/// The kinds of object a change list is about.
#[derive(PartialEq, Eq, Structural, Debug, Clone, Copy)]
pub enum ObjectType {
    Camera,
    Entity,
}

/// The fields a change list can carry.
#[derive(PartialEq, Eq, Structural, Debug, Clone, Copy)]
pub enum ObjectField {
    Origin,
    Angles,
    Fov,
}

/// A changed field and the bytes of its new value.
pub struct Change {
    pub field: ObjectField,
    pub bytes: Vec<u8>,
}

/// An object that appeared, or the changes of one.
pub enum Message {
    NewObject(ObjectType, Vec<Change>),
    UpdateObject(ObjectType, Vec<Change>),
}

/// A change as a field and its bytes.
pub open spec fn change_view(c: Change) -> (ObjectField, Seq<u8>) {
    (c.field, c.bytes@)
}

/// The views of a list of changes.
pub open spec fn change_views(cs: Seq<Change>) -> Seq<(ObjectField, Seq<u8>)> {
    cs.map_values(|c: Change| change_view(c))
}

/// The changes from `last` to `current`: the origin, the angles and the
/// field of view, each when it differs by `f32` comparison, with the bytes
/// of its new value.
pub open spec fn camera_change_list(last: Camera, current: Camera) -> Seq<(ObjectField, Seq<u8>)> {
    (if !f32x3_eq(last.origin, current.origin) {
        seq![(ObjectField::Origin, u32x3_bytes(current.origin))]
    } else {
        seq![]
    }) + (if !f32x3_eq(last.angles, current.angles) {
        seq![(ObjectField::Angles, u32x3_bytes(current.angles))]
    } else {
        seq![]
    }) + (if !f32_eq(last.fov, current.fov) {
        seq![(ObjectField::Fov, native_bytes(current.fov as int, 4))]
    } else {
        seq![]
    })
}

impl Camera {
    /// Appends to `changes` the fields of `current` that differ from
    /// `self`, each with the bytes of its new value.
    pub fn get_changes(&self, current: &Camera, changes: &mut Vec<Change>)
        ensures
            change_views(final(changes)@) == change_views(old(changes)@) + camera_change_list(*self, *current),
    {
        let ghost start = change_views(changes@);
        if !f32x3_bits_eq(self.origin, current.origin) {
            changes.push(Change { field: ObjectField::Origin, bytes: bytes_of_u32x3(current.origin) });
        }
        let ghost after_origin = change_views(changes@);
        if !f32x3_bits_eq(self.angles, current.angles) {
            changes.push(Change { field: ObjectField::Angles, bytes: bytes_of_u32x3(current.angles) });
        }
        let ghost after_angles = change_views(changes@);
        if !f32_bits_eq(self.fov, current.fov) {
            changes.push(Change { field: ObjectField::Fov, bytes: bytes_of_u32(current.fov) });
        }
        assert(change_views(changes@) =~= start + camera_change_list(*self, *current));
    }
}

} // verus!
