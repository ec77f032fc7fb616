//! What a beam entity is attached to, and whether it draws a beam given
//! what the engine says of the entities it is attached to.
//!
//! A beam entity keeps its beam type in the low four bits of its render
//! mode (1: from a point to an entity, 2: between two entities) and the
//! beam's flag bits 0x10 to 0x80 in the next four; the start entity is its
//! sequence and the end entity its skin.

use vstd::prelude::*;

verus! {

/// The beam starts at an entity.
pub const FBEAM_STARTENTITY: i32 = 0x0000_0001;

/// The beam ends at an entity.
pub const FBEAM_ENDENTITY: i32 = 0x0000_0002;

/// The start entity is drawn, so the beam starts at its attachment point.
pub const FBEAM_STARTVISIBLE: i32 = 0x1000_0000;

/// The end entity is drawn, so the beam ends at its attachment point.
pub const FBEAM_ENDVISIBLE: i32 = 0x2000_0000;

/// The beam lasts forever (the sign bit).
pub const FBEAM_FOREVER: i32 = -0x8000_0000;

/// The flags and attachments a beam entity's state gives its beam.
#[derive(PartialEq, Eq, Structural, Debug, Clone, Copy)]
pub struct BeamLinks {
    pub flags: i32,
    pub start_entity: i32,
    pub end_entity: i32,
}

/// The flags and attachments of the beam of a beam entity with this render
/// mode, skin and sequence: the attachment flags its beam type calls for,
/// with the flag bits 0x10 to 0x80 of the render mode.
pub open spec fn beam_links(rendermode: i32, skin: i32, sequence: i32) -> BeamLinks {
    let beam_type = rendermode & 0xF;
    let attached = if beam_type == 1 {
        FBEAM_ENDENTITY
    } else if beam_type == 2 {
        FBEAM_ENDENTITY | FBEAM_STARTENTITY
    } else {
        0
    };
    BeamLinks {
        flags: attached | (rendermode & 0xF0),
        start_entity: if beam_type == 2 { sequence } else { 0 },
        end_entity: if beam_type == 1 || beam_type == 2 { skin } else { 0 },
    }
}

/// The flags and attachments of the beam of a beam entity (see
/// `beam_links`).
pub fn beam_entity_links(rendermode: i32, skin: i32, sequence: i32) -> (r: BeamLinks)
    ensures
        r == beam_links(rendermode, skin, sequence),
{
    let beam_type = rendermode & 0xF;
    let mut flags: i32 = 0;
    let mut start_entity: i32 = 0;
    let mut end_entity: i32 = 0;
    if beam_type == 1 {
        flags = FBEAM_ENDENTITY;
        end_entity = skin;
    } else if beam_type == 2 {
        flags = FBEAM_ENDENTITY | FBEAM_STARTENTITY;
        start_entity = sequence;
        end_entity = skin;
    }
    BeamLinks { flags: flags | (rendermode & 0xF0), start_entity, end_entity }
}

/// The flags of the beam once its attachments are resolved, or `None` when
/// it draws nothing this frame. `start` and `end` say of the start and end
/// entity whether the engine has one (`None` when it has not) and whether
/// it has a model; each is read only when the beam is attached there.
///
/// A start entity with a model makes the start visible; one without makes
/// a beam that lasts forever let go of it. An end entity must exist and
/// have a model, and makes the end visible. A beam still attached to a
/// start entity that is not visible draws nothing.
pub open spec fn beam_visibility(flags: i32, start: Option<bool>, end: Option<bool>) -> Option<i32> {
    if flags & (FBEAM_STARTENTITY | FBEAM_ENDENTITY) == 0 {
        Some(flags)
    } else {
        let after_start = if flags & FBEAM_STARTENTITY != 0 {
            match start {
                None => None,
                Some(true) => Some(flags | FBEAM_STARTVISIBLE),
                Some(false) => Some(
                    if flags & FBEAM_FOREVER != 0 {
                        flags & !FBEAM_STARTENTITY
                    } else {
                        flags
                    },
                ),
            }
        } else {
            Some(flags)
        };
        match after_start {
            None => None,
            Some(f1) => {
                let after_end = if f1 & FBEAM_ENDENTITY != 0 {
                    match end {
                        Some(true) => Some(f1 | FBEAM_ENDVISIBLE),
                        _ => None,
                    }
                } else {
                    Some(f1)
                };
                match after_end {
                    None => None,
                    Some(f2) => if f2 & FBEAM_STARTENTITY != 0 && f2 & FBEAM_STARTVISIBLE == 0 {
                        None
                    } else {
                        Some(f2)
                    },
                }
            },
        }
    }
}

/// The flags of the beam once its attachments are resolved, or `None` when
/// it draws nothing this frame (see `beam_visibility`).
pub fn resolve_beam_attachments(flags: i32, start: Option<bool>, end: Option<bool>) -> (r: Option<i32>)
    ensures
        r == beam_visibility(flags, start, end),
{
    if flags & (FBEAM_STARTENTITY | FBEAM_ENDENTITY) == 0 {
        return Some(flags);
    }
    let mut f1 = flags;
    if flags & FBEAM_STARTENTITY != 0 {
        match start {
            None => return None,
            Some(true) => {
                f1 = flags | FBEAM_STARTVISIBLE;
            },
            Some(false) => {
                if flags & FBEAM_FOREVER != 0 {
                    f1 = flags & !FBEAM_STARTENTITY;
                }
            },
        }
    }
    let mut f2 = f1;
    if f1 & FBEAM_ENDENTITY != 0 {
        match end {
            Some(true) => {
                f2 = f1 | FBEAM_ENDVISIBLE;
            },
            _ => return None,
        }
    }
    if f2 & FBEAM_STARTENTITY != 0 && f2 & FBEAM_STARTVISIBLE == 0 {
        return None;
    }
    Some(f2)
}

} // verus!
