//! Decals and light styles: world state that a recording sends as lists of
//! whole records rather than field by field.

use vstd::prelude::*;
use crate::bytes::{append_bytes, bytes_of_i16, bytes_of_u16, bytes_of_u32, cast_i8_slice, i8s_as_u8s, native_bytes};
use crate::float_bits::{f32_bits_eq, f32_eq};
use crate::snapshot::{DecalState, LightstyleState};

verus! {

/// A decal as last recorded.
#[derive(Clone, Copy, Debug)]
pub struct Decal {
    /// Slot of the decal in the engine's decal pool.
    pub index: u16,
    /// Address of the surface the decal is on.
    pub surface: usize,
    /// Index of that surface among the world model's surfaces.
    pub face: u16,
    pub dx: u32,
    pub dy: u32,
    pub scale: u32,
    /// The engine's texture number for the decal.
    pub texture: i16,
    /// Index of the decal's name in the recording's list of decal names.
    pub decal_index: u16,
    pub flags: i16,
}

/// The decal in slot `index`, on face `face`, with name `decal_index`.
pub open spec fn decal_from(decal: DecalState, index: u16, face: u16, decal_index: u16) -> Decal {
    Decal {
        index: index,
        surface: decal.psurface,
        face: face,
        dx: decal.dx,
        dy: decal.dy,
        scale: decal.scale,
        texture: decal.texture,
        decal_index: decal_index,
        flags: decal.flags,
    }
}

/// The engine's decal differs from the one recorded: in its surface, its
/// position or scale (as floats), its texture or its flags.
pub open spec fn decal_changed(old: Decal, decal: DecalState) -> bool {
    ||| old.surface != decal.psurface
    ||| !f32_eq(old.dx, decal.dx)
    ||| !f32_eq(old.dy, decal.dy)
    ||| !f32_eq(old.scale, decal.scale)
    ||| old.texture != decal.texture
    ||| old.flags != decal.flags
}

/// The encoding of a decal: slot, face, position, scale, name and flags.
pub open spec fn decal_bytes(d: Decal) -> Seq<u8> {
    native_bytes(d.index as int, 2) + native_bytes(d.face as int, 2) + native_bytes(d.dx as int, 4)
        + native_bytes(d.dy as int, 4) + native_bytes(d.scale as int, 4) + native_bytes(
        d.decal_index as int,
        2,
    ) + native_bytes((d.flags as u16) as int, 2)
}

impl Decal {
    /// The decal in slot `index`, on face `face`, with name `decal_index`.
    pub fn new(decal: &DecalState, index: u16, face: u16, decal_index: u16) -> (r: Decal)
        ensures
            r == decal_from(*decal, index, face, decal_index),
    {
        Decal {
            index,
            surface: decal.psurface,
            face,
            dx: decal.dx,
            dy: decal.dy,
            scale: decal.scale,
            texture: decal.texture,
            decal_index,
            flags: decal.flags,
        }
    }

    /// Records the engine's decal; returns whether it changed. On a change
    /// the surface, position, scale, texture and flags are taken over; slot,
    /// face and name are left to the caller.
    pub fn update(&mut self, decal: &DecalState) -> (changed: bool)
        ensures
            changed == decal_changed(*old(self), *decal),
            *final(self) == if changed {
                Decal {
                    surface: decal.psurface,
                    dx: decal.dx,
                    dy: decal.dy,
                    scale: decal.scale,
                    texture: decal.texture,
                    flags: decal.flags,
                    ..*old(self)
                }
            } else {
                *old(self)
            },
    {
        if self.surface != decal.psurface || !f32_bits_eq(self.dx, decal.dx) || !f32_bits_eq(
            self.dy,
            decal.dy,
        ) || !f32_bits_eq(self.scale, decal.scale) || self.texture != decal.texture || self.flags
            != decal.flags {
            self.surface = decal.psurface;
            self.dx = decal.dx;
            self.dy = decal.dy;
            self.scale = decal.scale;
            self.texture = decal.texture;
            self.flags = decal.flags;
            return true;
        }
        return false;
    }

    /// Appends the encoding of the decal to `writer`.
    pub fn write(&self, writer: &mut Vec<u8>)
        ensures
            final(writer)@ == old(writer)@ + decal_bytes(*self),
            final(writer)@.len() == old(writer)@.len() + 20,
    {
        append_bytes(writer, bytes_of_u16(self.index));
        append_bytes(writer, bytes_of_u16(self.face));
        append_bytes(writer, bytes_of_u32(self.dx));
        append_bytes(writer, bytes_of_u32(self.dy));
        append_bytes(writer, bytes_of_u32(self.scale));
        append_bytes(writer, bytes_of_u16(self.decal_index));
        append_bytes(writer, bytes_of_i16(self.flags));
        assert(writer@ =~= old(writer)@ + decal_bytes(*self));
    }
}

/// A light style as last recorded.
#[derive(Clone, Debug)]
pub struct Lightstyle {
    /// Slot of the light style.
    pub index: u8,
    /// The brightness pattern.
    pub map: Vec<u8>,
}

/// The length of an engine light style is one its pattern can hold.
pub open spec fn lightstyle_length_ok(lightstyle: LightstyleState) -> bool {
    0 <= lightstyle.length <= 64
}

/// The pattern of an engine light style: the first `length` bytes of its map.
pub open spec fn lightstyle_pattern(lightstyle: LightstyleState) -> Seq<u8> {
    i8s_as_u8s(lightstyle.map@.take(lightstyle.length as int))
}

/// The encoding of a light style: its slot, the length of its pattern in
/// one byte, then the pattern.
pub open spec fn lightstyle_bytes(index: u8, map: Seq<u8>) -> Seq<u8> {
    seq![index, map.len() as u8] + map
}

/// The pattern of an engine light style.
fn pattern_of(lightstyle: &LightstyleState) -> (r: Vec<u8>)
    requires
        lightstyle_length_ok(*lightstyle),
    ensures
        r@ == lightstyle_pattern(*lightstyle),
{
    let len = lightstyle.length as usize;
    let map = &lightstyle.map[0..len];
    assert(map@ =~= lightstyle.map@.take(len as int));
    cast_i8_slice(map)
}

/// `a` and `b` hold the same bytes.
fn bytes_eq(a: &Vec<u8>, b: &Vec<u8>) -> (r: bool)
    ensures
        r == (a@ == b@),
{
    if a.len() != b.len() {
        return false;
    }
    let mut i: usize = 0;
    while i < a.len()
        invariant
            i <= a.len(),
            a.len() == b.len(),
            forall|j: int| 0 <= j < i ==> a@[j] == b@[j],
        decreases a.len() - i,
    {
        if a[i] != b[i] {
            return false;
        }
        i += 1;
    }
    assert(a@ =~= b@);
    true
}

impl Lightstyle {
    /// The light style in slot `index` with the engine's pattern.
    pub fn new(lightstyle: &LightstyleState, index: u8) -> (r: Lightstyle)
        requires
            lightstyle_length_ok(*lightstyle),
        ensures
            r.index == index,
            r.map@ == lightstyle_pattern(*lightstyle),
    {
        Lightstyle { index, map: pattern_of(lightstyle) }
    }

    /// Records the engine's pattern; returns whether it differs from the one
    /// recorded.
    pub fn update(&mut self, lightstyle: &LightstyleState) -> (changed: bool)
        requires
            lightstyle_length_ok(*lightstyle),
        ensures
            changed == (old(self).map@ != lightstyle_pattern(*lightstyle)),
            final(self).index == old(self).index,
            final(self).map@ == lightstyle_pattern(*lightstyle),
    {
        let map = pattern_of(lightstyle);
        if !bytes_eq(&self.map, &map) {
            self.map.clear();
            let mut map = map;
            self.map.append(&mut map);
            return true;
        }
        return false;
    }

    /// Appends the encoding of the light style to `writer`.
    pub fn write(&self, writer: &mut Vec<u8>)
        ensures
            final(writer)@ == old(writer)@ + lightstyle_bytes(self.index, self.map@),
    {
        writer.push(self.index);
        writer.push(self.map.len() as u8);
        let mut i: usize = 0;
        while i < self.map.len()
            invariant
                i <= self.map.len(),
                writer@ == old(writer)@ + seq![self.index, self.map@.len() as u8] + self.map@.take(i as int),
            decreases self.map.len() - i,
        {
            writer.push(self.map[i]);
            assert(self.map@.take(i + 1) =~= self.map@.take(i as int).push(self.map@[i as int]));
            i += 1;
        }
        assert(self.map@.take(self.map.len() as int) =~= self.map@);
    }
}

} // verus!
