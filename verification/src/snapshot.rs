//! Plain copies of the engine state that a recorded frame reads.
//!
//! Addresses of engine objects are kept as `usize`, with 0 for a null
//! pointer; floats as their bit patterns (see `float_bits`).

use vstd::prelude::*;

verus! {

/// The part of a player's info (`player_info_s`) that is recorded.
#[derive(Clone, Copy, Debug)]
pub struct PlayerInfoState {
    pub model: [i8; 64],
    pub topcolor: i32,
    pub bottomcolor: i32,
}

/// The part of an engine entity (`cl_entity_t`) that is recorded.
#[derive(Clone, Copy, Debug)]
pub struct EntityState {
    /// Address of the entity's model; 0 when it has none.
    pub model: usize,
    /// The model is a sprite.
    pub model_is_sprite: bool,
    /// Non-zero for a player entity.
    pub player: i32,
    /// Entity number (`curstate.number`).
    pub number: i32,
    pub origin: [u32; 3],
    /// The attachment point the engine gives for `curstate.skin` and
    /// `curstate.body`; read only for a sprite with a non-zero body.
    pub attachment_origin: [u32; 3],
    pub angles: [u32; 3],
    pub sequence: i32,
    pub animtime: u32,
    pub framerate: u32,
    pub body: i32,
    pub frame: u32,
    pub scale: u32,
    pub rendermode: i32,
    pub renderamt: i32,
    pub rendercolor: [u8; 3],
    pub renderfx: i32,
    pub gaitsequence: i32,
    pub movetype: i32,
    /// Index of the weapon model in the model precache; 0 for none.
    pub weaponmodel: i32,
    pub prevsequence: i32,
    pub sequencetime: u32,
    pub prevseqblending: [u8; 2],
    pub prevanimtime: u32,
    pub prevorigin: [u32; 3],
    pub prevangles: [u32; 3],
}

/// The part of an engine beam (`BEAM`) that is recorded.
#[derive(Clone, Copy, Debug)]
pub struct BeamState {
    pub type_: i32,
    /// The bits of the beam's `FBEAM` flags.
    pub flags: i32,
    pub frame_rate: u32,
    pub frame: u32,
    pub source: [u32; 3],
    pub delta: [u32; 3],
    pub freq: u32,
    pub width: u32,
    pub amplitude: u32,
    pub speed: u32,
    pub segments: i32,
    pub r: u32,
    pub g: u32,
    pub b: u32,
    pub brightness: u32,
    /// Index of the beam's model in the model precache.
    pub model_index: i32,
}

/// The part of an engine decal (`decal_t`) that is recorded.
#[derive(Clone, Copy, Debug)]
pub struct DecalState {
    /// Address of the surface the decal is on; 0 for a free decal slot.
    pub psurface: usize,
    /// Index of that surface among the world model's surfaces.
    pub face: usize,
    pub dx: u32,
    pub dy: u32,
    pub scale: u32,
    pub texture: i16,
    pub flags: i16,
}

/// An engine light style (`lightstyle_t`).
#[derive(Clone, Copy, Debug)]
pub struct LightstyleState {
    pub length: i32,
    pub map: [i8; 64],
}

/// A model the engine knows (an entry of `mod_known`).
#[derive(Clone, Copy, Debug)]
pub struct ModelState {
    /// Address of the model.
    pub address: usize,
    /// The model's name, NUL-terminated.
    pub name: [i8; 64],
}

} // verus!
