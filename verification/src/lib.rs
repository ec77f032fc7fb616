//! State recording for the GoldSrc engine: the recording file format, the
//! change tracking that decides what each frame records, and the small state
//! machines that start, stop and drive a recording.

pub mod float_bits;
pub mod bytes;
pub mod c_str;
pub mod fields;
pub mod snapshot;
pub mod players;
pub mod objects;
pub mod decals;
pub mod message;
pub mod recorder;
pub mod gsr;
pub mod force_emit;
pub mod change_list;
pub mod beam_links;
pub mod settle;
pub mod entity_settle;
pub mod beam_settle;
pub mod frame_settle;
pub mod draw_seen;
pub mod numbering;
pub mod frame_messages;
pub mod hiding;
pub mod reported_fields;
pub mod lightstyle_messages;
pub mod decal_messages;
