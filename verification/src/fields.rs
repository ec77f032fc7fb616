//! The fields that the recording format sends for objects and players, and
//! their encoding.

use vstd::prelude::*;
use crate::bytes::{
    append_bytes, bool_byte, bytes_of_bool, bytes_of_i32, bytes_of_u32, bytes_of_u32x3, bytes_of_u8x2,
    bytes_of_u8x3, native_bytes, u32x3_bytes,
};

verus! {

/// A changed (or initial) value of one field of a recorded object.
///
/// Floats are held as their bit patterns (see `float_bits`).
#[derive(Clone, Copy, Debug)]
pub enum ObjectField {
    /// Position.
    Origin([u32; 3]),
    /// Orientation.
    Angles([u32; 3]),
    /// Field of view of the camera.
    Fov(u32),
    /// Whether the object is drawn.
    Draw(bool),
    /// Animation sequence.
    Sequence(i32),
    /// Animation time.
    AnimTime(u32),
    /// Animation frame rate.
    Framerate(u32),
    /// Body group.
    Body(i32),
    /// Animation frame.
    Frame(u32),
    /// Scale.
    Scale(u32),
    /// Render mode.
    RenderMode(i32),
    /// Render amount.
    RenderAmt(i32),
    /// Render colour.
    RenderColor([u8; 3]),
    /// Render effect.
    RenderFx(i32),
    /// Gait sequence of a player model.
    GaitSequence(i32),
    /// Movement type.
    MoveType(i32),
    /// Index of the weapon model in the recorded model list, if any.
    WeaponModel(Option<u32>),
    /// Beam flags.
    Flags(i32),
    /// Beam direction and length.
    Delta([u32; 3]),
    /// Beam noise frequency.
    Freq(u32),
    /// Beam width.
    Width(u32),
    /// Beam noise amplitude.
    Amplitude(u32),
    /// Beam scroll speed.
    Speed(u32),
    /// Number of beam segments.
    Segments(i32),
    /// Beam colour.
    RGB([u32; 3]),
    /// Beam brightness.
    Brightness(u32),
    /// Previous animation sequence.
    PrevSequence(i32),
    /// Time the sequence started.
    SequenceTime(u32),
    /// Previous sequence blending.
    PrevSeqBlending([u8; 2]),
    /// Previous animation time.
    PrevAnimTime(u32),
    /// Previous position.
    PrevOrigin([u32; 3]),
    /// Previous orientation.
    PrevAngles([u32; 3]),
    /// Index of the model in the recorded model list.
    ModelIndex(u32),
}

impl ObjectField {
    /// The number that identifies the field in the recording format.
    pub open spec fn tag(self) -> u8 {
        match self {
            ObjectField::Origin(_) => 0,
            ObjectField::Angles(_) => 1,
            ObjectField::Fov(_) => 2,
            ObjectField::Draw(_) => 3,
            ObjectField::Sequence(_) => 4,
            ObjectField::AnimTime(_) => 5,
            ObjectField::Framerate(_) => 6,
            ObjectField::Body(_) => 7,
            ObjectField::Frame(_) => 8,
            ObjectField::Scale(_) => 9,
            ObjectField::RenderMode(_) => 10,
            ObjectField::RenderAmt(_) => 11,
            ObjectField::RenderColor(_) => 12,
            ObjectField::RenderFx(_) => 13,
            ObjectField::GaitSequence(_) => 14,
            ObjectField::MoveType(_) => 15,
            ObjectField::WeaponModel(_) => 16,
            ObjectField::Flags(_) => 17,
            ObjectField::Delta(_) => 18,
            ObjectField::Freq(_) => 19,
            ObjectField::Width(_) => 20,
            ObjectField::Amplitude(_) => 21,
            ObjectField::Speed(_) => 22,
            ObjectField::Segments(_) => 23,
            ObjectField::RGB(_) => 24,
            ObjectField::Brightness(_) => 25,
            ObjectField::PrevSequence(_) => 26,
            ObjectField::SequenceTime(_) => 27,
            ObjectField::PrevSeqBlending(_) => 28,
            ObjectField::PrevAnimTime(_) => 29,
            ObjectField::PrevOrigin(_) => 30,
            ObjectField::PrevAngles(_) => 31,
            ObjectField::ModelIndex(_) => 32,
        }
    }

    /// The bytes that follow the tag: the field's value.
    pub open spec fn payload(self) -> Seq<u8> {
        match self {
            ObjectField::Origin(v) => u32x3_bytes(v),
            ObjectField::Angles(v) => u32x3_bytes(v),
            ObjectField::Fov(v) => native_bytes(v as int, 4),
            ObjectField::Draw(v) => seq![bool_byte(v)],
            ObjectField::Sequence(v) => native_bytes((v as u32) as int, 4),
            ObjectField::AnimTime(v) => native_bytes(v as int, 4),
            ObjectField::Framerate(v) => native_bytes(v as int, 4),
            ObjectField::Body(v) => native_bytes((v as u32) as int, 4),
            ObjectField::Frame(v) => native_bytes(v as int, 4),
            ObjectField::Scale(v) => native_bytes(v as int, 4),
            ObjectField::RenderMode(v) => native_bytes((v as u32) as int, 4),
            ObjectField::RenderAmt(v) => native_bytes((v as u32) as int, 4),
            ObjectField::RenderColor(v) => v@,
            ObjectField::RenderFx(v) => native_bytes((v as u32) as int, 4),
            ObjectField::GaitSequence(v) => native_bytes((v as u32) as int, 4),
            ObjectField::MoveType(v) => native_bytes((v as u32) as int, 4),
            ObjectField::WeaponModel(v) => match v {
                Some(index) => seq![1u8] + native_bytes(index as int, 4),
                None => seq![0u8],
            },
            ObjectField::Flags(v) => native_bytes((v as u32) as int, 4),
            ObjectField::Delta(v) => u32x3_bytes(v),
            ObjectField::Freq(v) => native_bytes(v as int, 4),
            ObjectField::Width(v) => native_bytes(v as int, 4),
            ObjectField::Amplitude(v) => native_bytes(v as int, 4),
            ObjectField::Speed(v) => native_bytes(v as int, 4),
            ObjectField::Segments(v) => native_bytes((v as u32) as int, 4),
            ObjectField::RGB(v) => u32x3_bytes(v),
            ObjectField::Brightness(v) => native_bytes(v as int, 4),
            ObjectField::PrevSequence(v) => native_bytes((v as u32) as int, 4),
            ObjectField::SequenceTime(v) => native_bytes(v as int, 4),
            ObjectField::PrevSeqBlending(v) => v@,
            ObjectField::PrevAnimTime(v) => native_bytes(v as int, 4),
            ObjectField::PrevOrigin(v) => u32x3_bytes(v),
            ObjectField::PrevAngles(v) => u32x3_bytes(v),
            ObjectField::ModelIndex(v) => native_bytes(v as int, 4),
        }
    }

    /// The encoding of the field: its tag, then its value.
    pub open spec fn encoded(self) -> Seq<u8> {
        seq![self.tag()] + self.payload()
    }

    /// The number of bytes the field takes when encoded: its tag, then the
    /// size of its value (a weapon model takes a presence byte and, when
    /// present, its index).
    pub open spec fn encoded_len(self) -> nat {
        1 + match self {
            ObjectField::Origin(_) | ObjectField::Angles(_) | ObjectField::Delta(_)
            | ObjectField::RGB(_) | ObjectField::PrevOrigin(_) | ObjectField::PrevAngles(_) => 12nat,
            ObjectField::Draw(_) => 1nat,
            ObjectField::RenderColor(_) => 3nat,
            ObjectField::PrevSeqBlending(_) => 2nat,
            ObjectField::WeaponModel(m) => if m is Some { 5nat } else { 1nat },
            _ => 4nat,
        }
    }

    /// The number that identifies the field in the recording format.
    pub fn discriminant(&self) -> (r: u8)
        ensures
            r == self.tag(),
    {
        match self {
            ObjectField::Origin(_) => 0,
            ObjectField::Angles(_) => 1,
            ObjectField::Fov(_) => 2,
            ObjectField::Draw(_) => 3,
            ObjectField::Sequence(_) => 4,
            ObjectField::AnimTime(_) => 5,
            ObjectField::Framerate(_) => 6,
            ObjectField::Body(_) => 7,
            ObjectField::Frame(_) => 8,
            ObjectField::Scale(_) => 9,
            ObjectField::RenderMode(_) => 10,
            ObjectField::RenderAmt(_) => 11,
            ObjectField::RenderColor(_) => 12,
            ObjectField::RenderFx(_) => 13,
            ObjectField::GaitSequence(_) => 14,
            ObjectField::MoveType(_) => 15,
            ObjectField::WeaponModel(_) => 16,
            ObjectField::Flags(_) => 17,
            ObjectField::Delta(_) => 18,
            ObjectField::Freq(_) => 19,
            ObjectField::Width(_) => 20,
            ObjectField::Amplitude(_) => 21,
            ObjectField::Speed(_) => 22,
            ObjectField::Segments(_) => 23,
            ObjectField::RGB(_) => 24,
            ObjectField::Brightness(_) => 25,
            ObjectField::PrevSequence(_) => 26,
            ObjectField::SequenceTime(_) => 27,
            ObjectField::PrevSeqBlending(_) => 28,
            ObjectField::PrevAnimTime(_) => 29,
            ObjectField::PrevOrigin(_) => 30,
            ObjectField::PrevAngles(_) => 31,
            ObjectField::ModelIndex(_) => 32,
        }
    }

    /// Appends the encoding of the field to `writer`.
    pub fn write(&self, writer: &mut Vec<u8>)
        ensures
            final(writer)@ == old(writer)@ + self.encoded(),
            final(writer)@.len() == old(writer)@.len() + self.encoded_len(),
    {
        let tag = self.discriminant();
        writer.push(tag);
        match self {
            ObjectField::Origin(v) => {
                append_bytes(writer, bytes_of_u32x3(*v));
            },
            ObjectField::Angles(v) => {
                append_bytes(writer, bytes_of_u32x3(*v));
            },
            ObjectField::Fov(v) => {
                append_bytes(writer, bytes_of_u32(*v));
            },
            ObjectField::Draw(v) => {
                append_bytes(writer, bytes_of_bool(*v));
            },
            ObjectField::Sequence(v) => {
                append_bytes(writer, bytes_of_i32(*v));
            },
            ObjectField::AnimTime(v) => {
                append_bytes(writer, bytes_of_u32(*v));
            },
            ObjectField::Framerate(v) => {
                append_bytes(writer, bytes_of_u32(*v));
            },
            ObjectField::Body(v) => {
                append_bytes(writer, bytes_of_i32(*v));
            },
            ObjectField::Frame(v) => {
                append_bytes(writer, bytes_of_u32(*v));
            },
            ObjectField::Scale(v) => {
                append_bytes(writer, bytes_of_u32(*v));
            },
            ObjectField::RenderMode(v) => {
                append_bytes(writer, bytes_of_i32(*v));
            },
            ObjectField::RenderAmt(v) => {
                append_bytes(writer, bytes_of_i32(*v));
            },
            ObjectField::RenderColor(v) => {
                append_bytes(writer, bytes_of_u8x3(*v));
            },
            ObjectField::RenderFx(v) => {
                append_bytes(writer, bytes_of_i32(*v));
            },
            ObjectField::GaitSequence(v) => {
                append_bytes(writer, bytes_of_i32(*v));
            },
            ObjectField::MoveType(v) => {
                append_bytes(writer, bytes_of_i32(*v));
            },
            ObjectField::WeaponModel(weaponmodel_index) => {
                if let Some(index) = weaponmodel_index {
                    writer.push(1);
                    append_bytes(writer, bytes_of_u32(*index));
                } else {
                    writer.push(0);
                }
            },
            ObjectField::Flags(v) => {
                append_bytes(writer, bytes_of_i32(*v));
            },
            ObjectField::Delta(v) => {
                append_bytes(writer, bytes_of_u32x3(*v));
            },
            ObjectField::Freq(v) => {
                append_bytes(writer, bytes_of_u32(*v));
            },
            ObjectField::Width(v) => {
                append_bytes(writer, bytes_of_u32(*v));
            },
            ObjectField::Amplitude(v) => {
                append_bytes(writer, bytes_of_u32(*v));
            },
            ObjectField::Speed(v) => {
                append_bytes(writer, bytes_of_u32(*v));
            },
            ObjectField::Segments(v) => {
                append_bytes(writer, bytes_of_i32(*v));
            },
            ObjectField::RGB(v) => {
                append_bytes(writer, bytes_of_u32x3(*v));
            },
            ObjectField::Brightness(v) => {
                append_bytes(writer, bytes_of_u32(*v));
            },
            ObjectField::PrevSequence(v) => {
                append_bytes(writer, bytes_of_i32(*v));
            },
            ObjectField::SequenceTime(v) => {
                append_bytes(writer, bytes_of_u32(*v));
            },
            ObjectField::PrevSeqBlending(v) => {
                append_bytes(writer, bytes_of_u8x2(*v));
            },
            ObjectField::PrevAnimTime(v) => {
                append_bytes(writer, bytes_of_u32(*v));
            },
            ObjectField::PrevOrigin(v) => {
                append_bytes(writer, bytes_of_u32x3(*v));
            },
            ObjectField::PrevAngles(v) => {
                append_bytes(writer, bytes_of_u32x3(*v));
            },
            ObjectField::ModelIndex(v) => {
                append_bytes(writer, bytes_of_u32(*v));
            },
        }
        assert(writer@ =~= old(writer)@ + self.encoded());
    }
}

/// The encodings of `fields`, one after the other.
pub open spec fn fields_bytes(fields: Seq<ObjectField>) -> Seq<u8>
    decreases fields.len(),
{
    if fields.len() == 0 {
        seq![]
    } else {
        fields_bytes(fields.drop_last()) + fields.last().encoded()
    }
}

/// The number of bytes the encodings of `fields` take together.
pub open spec fn fields_len(fields: Seq<ObjectField>) -> int
    decreases fields.len(),
{
    if fields.len() == 0 {
        0
    } else {
        fields_len(fields.drop_last()) + fields.last().encoded_len()
    }
}

/// Appends the encodings of `fields`, in order, to `writer`.
pub fn write_fields(fields: &Vec<ObjectField>, writer: &mut Vec<u8>)
    ensures
        final(writer)@ == old(writer)@ + fields_bytes(fields@),
        final(writer)@.len() == old(writer)@.len() + fields_len(fields@),
{
    let mut i: usize = 0;
    while i < fields.len()
        invariant
            i <= fields.len(),
            writer@ == old(writer)@ + fields_bytes(fields@.take(i as int)),
            writer@.len() == old(writer)@.len() + fields_len(fields@.take(i as int)),
        decreases fields.len() - i,
    {
        fields[i].write(writer);
        assert(fields@.take(i + 1).drop_last() =~= fields@.take(i as int));
        i += 1;
    }
    assert(fields@.take(fields.len() as int) =~= fields@);
}

} // verus!
