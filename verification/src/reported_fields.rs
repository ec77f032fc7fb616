//! What an entity, a beam or the view model reports as changed: each
//! reported field is one of the object's fields as updated, carrying the
//! value taken from the engine, and every field the update changed is
//! reported.

use vstd::prelude::*;
use crate::fields::ObjectField;
use crate::float_bits::{f32_eq, f32_is_nan, f32x3_eq};
use crate::objects::{
    camera_changes, Camera,
    beam_candidates, beam_candidates_part_0, beam_candidates_part_1, beam_candidates_part_2, beam_changes,
    beam_updated, entity_candidates, entity_candidates_part_0, entity_candidates_part_1, entity_candidates_part_2,
    entity_candidates_part_3, entity_changes, entity_origin, entity_updated, keep_changed, rgb_changed,
    viewent_candidates, viewent_candidates_part_0, viewent_candidates_part_1, viewent_candidates_part_2,
    viewent_candidates_part_3, viewent_changes, viewent_updated, Beam, Entity, TrackedObject, ViewEnt,
};
use crate::snapshot::{BeamState, EntityState};

verus! {

/// `new` is the engine's float `s`, or the recorded `old` where `s`
/// compares equal to it.
pub open spec fn took_f32(new: u32, old: u32, s: u32) -> bool {
    new == s || (new == old && f32_eq(old, s))
}

/// `new` is the engine's triple of floats `s`, or the recorded `old` where
/// `s` compares equal to it.
pub open spec fn took_f32x3(new: [u32; 3], old: [u32; 3], s: [u32; 3]) -> bool {
    new == s || (new == old && f32x3_eq(old, s))
}

/// `f` holds a NaN: a float that compares unequal to itself.
pub open spec fn field_has_nan(f: ObjectField) -> bool {
    match f {
        ObjectField::AnimTime(v) | ObjectField::Framerate(v) | ObjectField::Frame(v) | ObjectField::Scale(v)
        | ObjectField::SequenceTime(v) | ObjectField::PrevAnimTime(v) | ObjectField::Freq(v) | ObjectField::Width(v)
        | ObjectField::Amplitude(v) | ObjectField::Speed(v) | ObjectField::Brightness(v) | ObjectField::Fov(v) => f32_is_nan(v),
        ObjectField::Origin(v) | ObjectField::Angles(v) | ObjectField::PrevOrigin(v) | ObjectField::PrevAngles(v)
        | ObjectField::Delta(v) | ObjectField::RGB(v) => f32_is_nan(v[0]) || f32_is_nan(v[1]) || f32_is_nan(v[2]),
        _ => false,
    }
}

/// The fields `keep_changed` yields are those of candidates marked as
/// changed, and each such candidate's field is among them.
proof fn lemma_keep_changed_fields(c: Seq<(bool, ObjectField)>)
    ensures
        forall|i: int|
            0 <= i < keep_changed(c).len() ==> exists|j: int|
                #![trigger c[j]]
                0 <= j < c.len() && c[j].0 && c[j].1 == #[trigger] keep_changed(c)[i],
        forall|j: int| 0 <= j < c.len() && (#[trigger] c[j]).0 ==> keep_changed(c).contains(c[j].1),
    decreases c.len(),
{
    if c.len() > 0 {
        let d = c.drop_last();
        lemma_keep_changed_fields(d);
        let rest = keep_changed(d);
        let kc = keep_changed(c);
        if c.last().0 {
            assert(kc == rest.push(c.last().1));
        } else {
            assert(kc == rest);
        }
        assert forall|i: int| 0 <= i < kc.len() implies exists|j: int|
            #![trigger c[j]]
            0 <= j < c.len() && c[j].0 && c[j].1 == #[trigger] kc[i] by {
            if i < rest.len() {
                assert(kc[i] == rest[i]);
                let j = choose|j: int| #![trigger d[j]] 0 <= j < d.len() && d[j].0 && d[j].1 == rest[i];
                assert(c[j] == d[j]);
            } else {
                assert(c[c.len() - 1].0 && c[c.len() - 1].1 == kc[i]);
            }
        }
        assert forall|j: int| 0 <= j < c.len() && (#[trigger] c[j]).0 implies kc.contains(c[j].1) by {
            if j < d.len() {
                assert(c[j] == d[j]);
                let k = choose|k: int| 0 <= k < rest.len() && rest[k] == d[j].1;
                assert(kc[k] == rest[k]);
            } else {
                assert(kc[rest.len() as int] == c[j].1);
            }
        }
    }
}

/// Each field `new` compares is the engine's value in `s` (or, for a float
/// that compares equal, the one recorded in `old`); the others are kept.
pub open spec fn entity_follows(new: Entity, old: Entity, s: EntityState) -> bool {
    &&& new.seen == old.seen && new.id == old.id && new.model == old.model && new.model_index == old.model_index && new.player_index == old.player_index && new.draw == old.draw && new.weaponmodel == old.weaponmodel && new.weaponmodel_index == old.weaponmodel_index
    &&& took_f32x3(new.origin, old.origin, entity_origin(s))
    &&& took_f32x3(new.angles, old.angles, s.angles)
    &&& new.sequence == s.sequence
    &&& took_f32(new.animtime, old.animtime, s.animtime)
    &&& took_f32(new.framerate, old.framerate, s.framerate)
    &&& new.body == s.body
    &&& took_f32(new.frame, old.frame, s.frame)
    &&& took_f32(new.scale, old.scale, s.scale)
    &&& new.rendermode == s.rendermode
    &&& new.renderamt == s.renderamt
    &&& new.rendercolor@ == s.rendercolor@
    &&& new.renderfx == s.renderfx
    &&& new.gaitsequence == s.gaitsequence
    &&& new.movetype == s.movetype
    &&& new.prevsequence == s.prevsequence
    &&& took_f32(new.sequencetime, old.sequencetime, s.sequencetime)
    &&& new.prevseqblending@ == s.prevseqblending@
    &&& took_f32(new.prevanimtime, old.prevanimtime, s.prevanimtime)
    &&& took_f32x3(new.prevorigin, old.prevorigin, s.prevorigin)
    &&& took_f32x3(new.prevangles, old.prevangles, s.prevangles)
}

/// The field of `o` of the same kind as `f` (`f` itself for a kind a
/// entity does not compare).
pub open spec fn entity_field_of_kind(o: Entity, f: ObjectField) -> ObjectField {
    match f {
        ObjectField::Origin(_) => ObjectField::Origin(o.origin),
        ObjectField::Angles(_) => ObjectField::Angles(o.angles),
        ObjectField::Sequence(_) => ObjectField::Sequence(o.sequence),
        ObjectField::AnimTime(_) => ObjectField::AnimTime(o.animtime),
        ObjectField::Framerate(_) => ObjectField::Framerate(o.framerate),
        ObjectField::Body(_) => ObjectField::Body(o.body),
        ObjectField::Frame(_) => ObjectField::Frame(o.frame),
        ObjectField::Scale(_) => ObjectField::Scale(o.scale),
        ObjectField::RenderMode(_) => ObjectField::RenderMode(o.rendermode),
        ObjectField::RenderAmt(_) => ObjectField::RenderAmt(o.renderamt),
        ObjectField::RenderColor(_) => ObjectField::RenderColor(o.rendercolor),
        ObjectField::RenderFx(_) => ObjectField::RenderFx(o.renderfx),
        ObjectField::GaitSequence(_) => ObjectField::GaitSequence(o.gaitsequence),
        ObjectField::MoveType(_) => ObjectField::MoveType(o.movetype),
        ObjectField::PrevSequence(_) => ObjectField::PrevSequence(o.prevsequence),
        ObjectField::SequenceTime(_) => ObjectField::SequenceTime(o.sequencetime),
        ObjectField::PrevSeqBlending(_) => ObjectField::PrevSeqBlending(o.prevseqblending),
        ObjectField::PrevAnimTime(_) => ObjectField::PrevAnimTime(o.prevanimtime),
        ObjectField::PrevOrigin(_) => ObjectField::PrevOrigin(o.prevorigin),
        ObjectField::PrevAngles(_) => ObjectField::PrevAngles(o.prevangles),
        _ => f,
    }
}

/// The fields a entity reports as changed are fields of the entity as it is
/// once updated: each carries the value the entity now holds, which
/// `entity_follows` ties to the engine's state. Every field whose value the
/// update changed is reported, and a field whose value is the recorded one
/// is reported only when it is a NaN, which compares unequal to itself.
pub proof fn lemma_entity_reports_new_values(old: Entity, s: EntityState)
    ensures
        forall|i: int|
            0 <= i < entity_changes(old, s).len() ==> entity_updated(old, s).tracked_fields().contains(
                #[trigger] entity_changes(old, s)[i],
            ),
        forall|k: int|
            0 <= k < entity_updated(old, s).tracked_fields().len() && #[trigger] entity_updated(old, s).tracked_fields()[k]
                != old.tracked_fields()[k] ==> entity_changes(old, s).contains(entity_updated(old, s).tracked_fields()[k]),
        entity_follows(entity_updated(old, s), old, s),
        forall|i: int|
            0 <= i < entity_changes(old, s).len() && #[trigger] entity_changes(old, s)[i] == entity_field_of_kind(old, entity_changes(old, s)[i])
                ==> field_has_nan(entity_changes(old, s)[i]),
{
    let c = entity_candidates(old, s);
    let ch = entity_changes(old, s);
    let new = entity_updated(old, s);
    let tf = new.tracked_fields();
    let to = old.tracked_fields();
    lemma_keep_changed_fields(c);
    let p0 = entity_candidates_part_0(old, s);
    let p1 = entity_candidates_part_1(old, s);
    let p2 = entity_candidates_part_2(old, s);
    let p3 = entity_candidates_part_3(old, s);
    assert(c == p0 + p1 + p2 + p3);
    assert forall|j: int| 0 <= j < c.len() && (#[trigger] c[j]).0 implies tf.contains(c[j].1) by {
        if j == 0 {
            assert(c[0] == p0[0]);
            assert(tf[0] == c[0].1);
        } else if j == 1 {
            assert(c[1] == p0[1]);
            assert(tf[1] == c[1].1);
        } else if j == 2 {
            assert(c[2] == p0[2]);
            assert(tf[3] == c[2].1);
        } else if j == 3 {
            assert(c[3] == p0[3]);
            assert(tf[4] == c[3].1);
        } else if j == 4 {
            assert(c[4] == p0[4]);
            assert(tf[5] == c[4].1);
        } else if j == 5 {
            assert(c[5] == p1[0]);
            assert(tf[6] == c[5].1);
        } else if j == 6 {
            assert(c[6] == p1[1]);
            assert(tf[7] == c[6].1);
        } else if j == 7 {
            assert(c[7] == p1[2]);
            assert(tf[8] == c[7].1);
        } else if j == 8 {
            assert(c[8] == p1[3]);
            assert(tf[9] == c[8].1);
        } else if j == 9 {
            assert(c[9] == p1[4]);
            assert(tf[10] == c[9].1);
        } else if j == 10 {
            assert(c[10] == p2[0]);
            assert(tf[11] == c[10].1);
        } else if j == 11 {
            assert(c[11] == p2[1]);
            assert(tf[12] == c[11].1);
        } else if j == 12 {
            assert(c[12] == p2[2]);
            assert(tf[13] == c[12].1);
        } else if j == 13 {
            assert(c[13] == p2[3]);
            assert(tf[14] == c[13].1);
        } else if j == 14 {
            assert(c[14] == p2[4]);
            assert(tf[16] == c[14].1);
        } else if j == 15 {
            assert(c[15] == p3[0]);
            assert(tf[17] == c[15].1);
        } else if j == 16 {
            assert(c[16] == p3[1]);
            assert(tf[18] == c[16].1);
        } else if j == 17 {
            assert(c[17] == p3[2]);
            assert(tf[19] == c[17].1);
        } else if j == 18 {
            assert(c[18] == p3[3]);
            assert(tf[20] == c[18].1);
        } else if j == 19 {
            assert(c[19] == p3[4]);
            assert(tf[21] == c[19].1);
        }
    }
    assert forall|j: int| 0 <= j < c.len() && (#[trigger] c[j]).0 && c[j].1 == entity_field_of_kind(old, c[j].1) implies field_has_nan(c[j].1) by {
        reveal(f32_eq);
        if j == 0 {
            assert(c[0] == p0[0]);
        } else if j == 1 {
            assert(c[1] == p0[1]);
        } else if j == 2 {
            assert(c[2] == p0[2]);
        } else if j == 3 {
            assert(c[3] == p0[3]);
        } else if j == 4 {
            assert(c[4] == p0[4]);
        } else if j == 5 {
            assert(c[5] == p1[0]);
        } else if j == 6 {
            assert(c[6] == p1[1]);
        } else if j == 7 {
            assert(c[7] == p1[2]);
        } else if j == 8 {
            assert(c[8] == p1[3]);
        } else if j == 9 {
            assert(c[9] == p1[4]);
        } else if j == 10 {
            assert(c[10] == p2[0]);
        } else if j == 11 {
            assert(c[11] == p2[1]);
        } else if j == 12 {
            assert(c[12] == p2[2]);
        } else if j == 13 {
            assert(c[13] == p2[3]);
        } else if j == 14 {
            assert(c[14] == p2[4]);
        } else if j == 15 {
            assert(c[15] == p3[0]);
        } else if j == 16 {
            assert(c[16] == p3[1]);
        } else if j == 17 {
            assert(c[17] == p3[2]);
        } else if j == 18 {
            assert(c[18] == p3[3]);
        } else if j == 19 {
            assert(c[19] == p3[4]);
        }
    }
    assert forall|i: int| 0 <= i < ch.len() && #[trigger] ch[i] == entity_field_of_kind(old, ch[i]) implies field_has_nan(ch[i]) by {
        let j = choose|j: int| #![trigger c[j]] 0 <= j < c.len() && c[j].0 && c[j].1 == ch[i];
    }
    assert forall|i: int| 0 <= i < ch.len() implies tf.contains(#[trigger] ch[i]) by {
        let j = choose|j: int| #![trigger c[j]] 0 <= j < c.len() && c[j].0 && c[j].1 == ch[i];
    }
    assert forall|k: int| 0 <= k < tf.len() && #[trigger] tf[k] != to[k] implies ch.contains(tf[k]) by {
        if k == 0 {
            assert(c[0] == p0[0]);
            assert(c[0].0 && c[0].1 == tf[0]);
        } else if k == 1 {
            assert(c[1] == p0[1]);
            assert(c[1].0 && c[1].1 == tf[1]);
        } else if k == 2 {
            assert(tf[2] == to[2]);
        } else if k == 3 {
            assert(c[2] == p0[2]);
            assert(c[2].0 && c[2].1 == tf[3]);
        } else if k == 4 {
            assert(c[3] == p0[3]);
            assert(c[3].0 && c[3].1 == tf[4]);
        } else if k == 5 {
            assert(c[4] == p0[4]);
            assert(c[4].0 && c[4].1 == tf[5]);
        } else if k == 6 {
            assert(c[5] == p1[0]);
            assert(c[5].0 && c[5].1 == tf[6]);
        } else if k == 7 {
            assert(c[6] == p1[1]);
            assert(c[6].0 && c[6].1 == tf[7]);
        } else if k == 8 {
            assert(c[7] == p1[2]);
            assert(c[7].0 && c[7].1 == tf[8]);
        } else if k == 9 {
            assert(c[8] == p1[3]);
            assert(c[8].0 && c[8].1 == tf[9]);
        } else if k == 10 {
            assert(c[9] == p1[4]);
            assert(c[9].0 && c[9].1 == tf[10]);
        } else if k == 11 {
            assert(c[10] == p2[0]);
            assert(c[10].0 && c[10].1 == tf[11]);
        } else if k == 12 {
            assert(c[11] == p2[1]);
            assert(c[11].0 && c[11].1 == tf[12]);
        } else if k == 13 {
            assert(c[12] == p2[2]);
            assert(c[12].0 && c[12].1 == tf[13]);
        } else if k == 14 {
            assert(c[13] == p2[3]);
            assert(c[13].0 && c[13].1 == tf[14]);
        } else if k == 15 {
            assert(tf[15] == to[15]);
        } else if k == 16 {
            assert(c[14] == p2[4]);
            assert(c[14].0 && c[14].1 == tf[16]);
        } else if k == 17 {
            assert(c[15] == p3[0]);
            assert(c[15].0 && c[15].1 == tf[17]);
        } else if k == 18 {
            assert(c[16] == p3[1]);
            assert(c[16].0 && c[16].1 == tf[18]);
        } else if k == 19 {
            assert(c[17] == p3[2]);
            assert(c[17].0 && c[17].1 == tf[19]);
        } else if k == 20 {
            assert(c[18] == p3[3]);
            assert(c[18].0 && c[18].1 == tf[20]);
        } else if k == 21 {
            assert(c[19] == p3[4]);
            assert(c[19].0 && c[19].1 == tf[21]);
        }
    }
}

/// Each field `new` compares is the engine's value in `s` (or, for floats
/// that compare equal, the ones recorded in `old`); the others are kept.
pub open spec fn beam_follows(new: Beam, old: Beam, s: BeamState) -> bool {
    &&& new.seen == old.seen && new.id == old.id && new.draw == old.draw && new.type_ == old.type_ && new.model_index == old.model_index
    &&& new.flags == s.flags
    &&& took_f32(new.framerate, old.framerate, s.frame_rate)
    &&& took_f32(new.frame, old.frame, s.frame)
    &&& took_f32x3(new.source, old.source, s.source)
    &&& took_f32x3(new.delta, old.delta, s.delta)
    &&& took_f32(new.freq, old.freq, s.freq)
    &&& took_f32(new.width, old.width, s.width)
    &&& took_f32(new.amplitude, old.amplitude, s.amplitude)
    &&& took_f32(new.speed, old.speed, s.speed)
    &&& new.segments == s.segments
    &&& (new.color == [s.r, s.g, s.b] || (new.color == old.color && !rgb_changed(old.color, s)))
    &&& took_f32(new.brightness, old.brightness, s.brightness)
}

/// The field of `o` of the same kind as `f` (`f` itself for a kind a
/// beam does not compare).
pub open spec fn beam_field_of_kind(o: Beam, f: ObjectField) -> ObjectField {
    match f {
        ObjectField::Flags(_) => ObjectField::Flags(o.flags),
        ObjectField::Framerate(_) => ObjectField::Framerate(o.framerate),
        ObjectField::Frame(_) => ObjectField::Frame(o.frame),
        ObjectField::Origin(_) => ObjectField::Origin(o.source),
        ObjectField::Delta(_) => ObjectField::Delta(o.delta),
        ObjectField::Freq(_) => ObjectField::Freq(o.freq),
        ObjectField::Width(_) => ObjectField::Width(o.width),
        ObjectField::Amplitude(_) => ObjectField::Amplitude(o.amplitude),
        ObjectField::Speed(_) => ObjectField::Speed(o.speed),
        ObjectField::Segments(_) => ObjectField::Segments(o.segments),
        ObjectField::RGB(_) => ObjectField::RGB(o.color),
        ObjectField::Brightness(_) => ObjectField::Brightness(o.brightness),
        _ => f,
    }
}

/// The fields a beam reports as changed are fields of the beam as it is
/// once updated: each carries the value the beam now holds, which
/// `beam_follows` ties to the engine's state. Every field whose value the
/// update changed is reported, and a field whose value is the recorded one
/// is reported only when it is a NaN, which compares unequal to itself.
pub proof fn lemma_beam_reports_new_values(old: Beam, s: BeamState)
    ensures
        forall|i: int|
            0 <= i < beam_changes(old, s).len() ==> beam_updated(old, s).tracked_fields().contains(
                #[trigger] beam_changes(old, s)[i],
            ),
        forall|k: int|
            0 <= k < beam_updated(old, s).tracked_fields().len() && #[trigger] beam_updated(old, s).tracked_fields()[k]
                != old.tracked_fields()[k] ==> beam_changes(old, s).contains(beam_updated(old, s).tracked_fields()[k]),
        beam_follows(beam_updated(old, s), old, s),
        forall|i: int|
            0 <= i < beam_changes(old, s).len() && #[trigger] beam_changes(old, s)[i] == beam_field_of_kind(old, beam_changes(old, s)[i])
                ==> field_has_nan(beam_changes(old, s)[i]),
{
    let c = beam_candidates(old, s);
    let ch = beam_changes(old, s);
    let new = beam_updated(old, s);
    let tf = new.tracked_fields();
    let to = old.tracked_fields();
    lemma_keep_changed_fields(c);
    let p0 = beam_candidates_part_0(old, s);
    let p1 = beam_candidates_part_1(old, s);
    let p2 = beam_candidates_part_2(old, s);
    assert(c == p0 + p1 + p2);
    assert forall|j: int| 0 <= j < c.len() && (#[trigger] c[j]).0 implies tf.contains(c[j].1) by {
        if j == 0 {
            assert(c[0] == p0[0]);
            assert(tf[1] == c[0].1);
        } else if j == 1 {
            assert(c[1] == p0[1]);
            assert(tf[2] == c[1].1);
        } else if j == 2 {
            assert(c[2] == p0[2]);
            assert(tf[3] == c[2].1);
        } else if j == 3 {
            assert(c[3] == p0[3]);
            assert(tf[4] == c[3].1);
        } else if j == 4 {
            assert(c[4] == p0[4]);
            assert(tf[5] == c[4].1);
        } else if j == 5 {
            assert(c[5] == p1[0]);
            assert(tf[6] == c[5].1);
        } else if j == 6 {
            assert(c[6] == p1[1]);
            assert(tf[7] == c[6].1);
        } else if j == 7 {
            assert(c[7] == p1[2]);
            assert(tf[8] == c[7].1);
        } else if j == 8 {
            assert(c[8] == p1[3]);
            assert(tf[9] == c[8].1);
        } else if j == 9 {
            assert(c[9] == p1[4]);
            assert(tf[10] == c[9].1);
        } else if j == 10 {
            assert(c[10] == p2[0]);
            assert(tf[11] == c[10].1);
        } else if j == 11 {
            assert(c[11] == p2[1]);
            assert(tf[12] == c[11].1);
        }
    }
    assert forall|j: int| 0 <= j < c.len() && (#[trigger] c[j]).0 && c[j].1 == beam_field_of_kind(old, c[j].1) implies field_has_nan(c[j].1) by {
        reveal(f32_eq);
        if j == 0 {
            assert(c[0] == p0[0]);
        } else if j == 1 {
            assert(c[1] == p0[1]);
        } else if j == 2 {
            assert(c[2] == p0[2]);
        } else if j == 3 {
            assert(c[3] == p0[3]);
        } else if j == 4 {
            assert(c[4] == p0[4]);
        } else if j == 5 {
            assert(c[5] == p1[0]);
        } else if j == 6 {
            assert(c[6] == p1[1]);
        } else if j == 7 {
            assert(c[7] == p1[2]);
        } else if j == 8 {
            assert(c[8] == p1[3]);
        } else if j == 9 {
            assert(c[9] == p1[4]);
        } else if j == 10 {
            assert(c[10] == p2[0]);
        } else if j == 11 {
            assert(c[11] == p2[1]);
        }
    }
    assert forall|i: int| 0 <= i < ch.len() && #[trigger] ch[i] == beam_field_of_kind(old, ch[i]) implies field_has_nan(ch[i]) by {
        let j = choose|j: int| #![trigger c[j]] 0 <= j < c.len() && c[j].0 && c[j].1 == ch[i];
    }
    assert forall|i: int| 0 <= i < ch.len() implies tf.contains(#[trigger] ch[i]) by {
        let j = choose|j: int| #![trigger c[j]] 0 <= j < c.len() && c[j].0 && c[j].1 == ch[i];
    }
    assert forall|k: int| 0 <= k < tf.len() && #[trigger] tf[k] != to[k] implies ch.contains(tf[k]) by {
        if k == 0 {
            assert(tf[0] == to[0]);
        } else if k == 1 {
            assert(c[0] == p0[0]);
            assert(c[0].0 && c[0].1 == tf[1]);
        } else if k == 2 {
            assert(c[1] == p0[1]);
            assert(c[1].0 && c[1].1 == tf[2]);
        } else if k == 3 {
            assert(c[2] == p0[2]);
            assert(c[2].0 && c[2].1 == tf[3]);
        } else if k == 4 {
            assert(c[3] == p0[3]);
            assert(c[3].0 && c[3].1 == tf[4]);
        } else if k == 5 {
            assert(c[4] == p0[4]);
            assert(c[4].0 && c[4].1 == tf[5]);
        } else if k == 6 {
            assert(c[5] == p1[0]);
            assert(c[5].0 && c[5].1 == tf[6]);
        } else if k == 7 {
            assert(c[6] == p1[1]);
            assert(c[6].0 && c[6].1 == tf[7]);
        } else if k == 8 {
            assert(c[7] == p1[2]);
            assert(c[7].0 && c[7].1 == tf[8]);
        } else if k == 9 {
            assert(c[8] == p1[3]);
            assert(c[8].0 && c[8].1 == tf[9]);
        } else if k == 10 {
            assert(c[9] == p1[4]);
            assert(c[9].0 && c[9].1 == tf[10]);
        } else if k == 11 {
            assert(c[10] == p2[0]);
            assert(c[10].0 && c[10].1 == tf[11]);
        } else if k == 12 {
            assert(c[11] == p2[1]);
            assert(c[11].0 && c[11].1 == tf[12]);
        }
    }
}

/// Each field `new` compares is the engine's value in `s` (or, for a float
/// that compares equal, the one recorded in `old`); the others are kept.
pub open spec fn viewent_follows(new: ViewEnt, old: ViewEnt, s: EntityState) -> bool {
    &&& new.model == old.model && new.model_index == old.model_index && new.draw == old.draw
    &&& took_f32x3(new.origin, old.origin, s.origin)
    &&& took_f32x3(new.angles, old.angles, s.angles)
    &&& new.sequence == s.sequence
    &&& took_f32(new.animtime, old.animtime, s.animtime)
    &&& new.body == s.body
    &&& new.rendermode == s.rendermode
    &&& new.renderamt == s.renderamt
    &&& new.rendercolor@ == s.rendercolor@
    &&& new.renderfx == s.renderfx
    &&& new.movetype == s.movetype
    &&& new.prevsequence == s.prevsequence
    &&& took_f32(new.sequencetime, old.sequencetime, s.sequencetime)
    &&& new.prevseqblending@ == s.prevseqblending@
    &&& took_f32(new.prevanimtime, old.prevanimtime, s.prevanimtime)
    &&& took_f32x3(new.prevorigin, old.prevorigin, s.prevorigin)
    &&& took_f32x3(new.prevangles, old.prevangles, s.prevangles)
}

/// The field of `o` of the same kind as `f` (`f` itself for a kind a
/// view model does not compare).
pub open spec fn viewent_field_of_kind(o: ViewEnt, f: ObjectField) -> ObjectField {
    match f {
        ObjectField::Origin(_) => ObjectField::Origin(o.origin),
        ObjectField::Angles(_) => ObjectField::Angles(o.angles),
        ObjectField::Sequence(_) => ObjectField::Sequence(o.sequence),
        ObjectField::AnimTime(_) => ObjectField::AnimTime(o.animtime),
        ObjectField::Body(_) => ObjectField::Body(o.body),
        ObjectField::RenderMode(_) => ObjectField::RenderMode(o.rendermode),
        ObjectField::RenderAmt(_) => ObjectField::RenderAmt(o.renderamt),
        ObjectField::RenderColor(_) => ObjectField::RenderColor(o.rendercolor),
        ObjectField::RenderFx(_) => ObjectField::RenderFx(o.renderfx),
        ObjectField::MoveType(_) => ObjectField::MoveType(o.movetype),
        ObjectField::PrevSequence(_) => ObjectField::PrevSequence(o.prevsequence),
        ObjectField::SequenceTime(_) => ObjectField::SequenceTime(o.sequencetime),
        ObjectField::PrevSeqBlending(_) => ObjectField::PrevSeqBlending(o.prevseqblending),
        ObjectField::PrevAnimTime(_) => ObjectField::PrevAnimTime(o.prevanimtime),
        ObjectField::PrevOrigin(_) => ObjectField::PrevOrigin(o.prevorigin),
        ObjectField::PrevAngles(_) => ObjectField::PrevAngles(o.prevangles),
        _ => f,
    }
}

/// The fields a view model reports as changed are fields of the view model as it is
/// once updated: each carries the value the view model now holds, which
/// `viewent_follows` ties to the engine's state. Every field whose value the
/// update changed is reported, and a field whose value is the recorded one
/// is reported only when it is a NaN, which compares unequal to itself.
pub proof fn lemma_viewent_reports_new_values(old: ViewEnt, s: EntityState)
    ensures
        forall|i: int|
            0 <= i < viewent_changes(old, s).len() ==> viewent_updated(old, s).tracked_fields().contains(
                #[trigger] viewent_changes(old, s)[i],
            ),
        forall|k: int|
            0 <= k < viewent_updated(old, s).tracked_fields().len() && #[trigger] viewent_updated(old, s).tracked_fields()[k]
                != old.tracked_fields()[k] ==> viewent_changes(old, s).contains(viewent_updated(old, s).tracked_fields()[k]),
        viewent_follows(viewent_updated(old, s), old, s),
        forall|i: int|
            0 <= i < viewent_changes(old, s).len() && #[trigger] viewent_changes(old, s)[i] == viewent_field_of_kind(old, viewent_changes(old, s)[i])
                ==> field_has_nan(viewent_changes(old, s)[i]),
{
    let c = viewent_candidates(old, s);
    let ch = viewent_changes(old, s);
    let new = viewent_updated(old, s);
    let tf = new.tracked_fields();
    let to = old.tracked_fields();
    lemma_keep_changed_fields(c);
    let p0 = viewent_candidates_part_0(old, s);
    let p1 = viewent_candidates_part_1(old, s);
    let p2 = viewent_candidates_part_2(old, s);
    let p3 = viewent_candidates_part_3(old, s);
    assert(c == p0 + p1 + p2 + p3);
    assert forall|j: int| 0 <= j < c.len() && (#[trigger] c[j]).0 implies tf.contains(c[j].1) by {
        if j == 0 {
            assert(c[0] == p0[0]);
            assert(tf[0] == c[0].1);
        } else if j == 1 {
            assert(c[1] == p0[1]);
            assert(tf[1] == c[1].1);
        } else if j == 2 {
            assert(c[2] == p0[2]);
            assert(tf[4] == c[2].1);
        } else if j == 3 {
            assert(c[3] == p0[3]);
            assert(tf[5] == c[3].1);
        } else if j == 4 {
            assert(c[4] == p0[4]);
            assert(tf[6] == c[4].1);
        } else if j == 5 {
            assert(c[5] == p1[0]);
            assert(tf[7] == c[5].1);
        } else if j == 6 {
            assert(c[6] == p1[1]);
            assert(tf[8] == c[6].1);
        } else if j == 7 {
            assert(c[7] == p1[2]);
            assert(tf[9] == c[7].1);
        } else if j == 8 {
            assert(c[8] == p1[3]);
            assert(tf[10] == c[8].1);
        } else if j == 9 {
            assert(c[9] == p1[4]);
            assert(tf[11] == c[9].1);
        } else if j == 10 {
            assert(c[10] == p2[0]);
            assert(tf[12] == c[10].1);
        } else if j == 11 {
            assert(c[11] == p2[1]);
            assert(tf[13] == c[11].1);
        } else if j == 12 {
            assert(c[12] == p2[2]);
            assert(tf[14] == c[12].1);
        } else if j == 13 {
            assert(c[13] == p2[3]);
            assert(tf[15] == c[13].1);
        } else if j == 14 {
            assert(c[14] == p2[4]);
            assert(tf[16] == c[14].1);
        } else if j == 15 {
            assert(c[15] == p3[0]);
            assert(tf[17] == c[15].1);
        }
    }
    assert forall|j: int| 0 <= j < c.len() && (#[trigger] c[j]).0 && c[j].1 == viewent_field_of_kind(old, c[j].1) implies field_has_nan(c[j].1) by {
        reveal(f32_eq);
        if j == 0 {
            assert(c[0] == p0[0]);
        } else if j == 1 {
            assert(c[1] == p0[1]);
        } else if j == 2 {
            assert(c[2] == p0[2]);
        } else if j == 3 {
            assert(c[3] == p0[3]);
        } else if j == 4 {
            assert(c[4] == p0[4]);
        } else if j == 5 {
            assert(c[5] == p1[0]);
        } else if j == 6 {
            assert(c[6] == p1[1]);
        } else if j == 7 {
            assert(c[7] == p1[2]);
        } else if j == 8 {
            assert(c[8] == p1[3]);
        } else if j == 9 {
            assert(c[9] == p1[4]);
        } else if j == 10 {
            assert(c[10] == p2[0]);
        } else if j == 11 {
            assert(c[11] == p2[1]);
        } else if j == 12 {
            assert(c[12] == p2[2]);
        } else if j == 13 {
            assert(c[13] == p2[3]);
        } else if j == 14 {
            assert(c[14] == p2[4]);
        } else if j == 15 {
            assert(c[15] == p3[0]);
        }
    }
    assert forall|i: int| 0 <= i < ch.len() && #[trigger] ch[i] == viewent_field_of_kind(old, ch[i]) implies field_has_nan(ch[i]) by {
        let j = choose|j: int| #![trigger c[j]] 0 <= j < c.len() && c[j].0 && c[j].1 == ch[i];
    }
    assert forall|i: int| 0 <= i < ch.len() implies tf.contains(#[trigger] ch[i]) by {
        let j = choose|j: int| #![trigger c[j]] 0 <= j < c.len() && c[j].0 && c[j].1 == ch[i];
    }
    assert forall|k: int| 0 <= k < tf.len() && #[trigger] tf[k] != to[k] implies ch.contains(tf[k]) by {
        if k == 0 {
            assert(c[0] == p0[0]);
            assert(c[0].0 && c[0].1 == tf[0]);
        } else if k == 1 {
            assert(c[1] == p0[1]);
            assert(c[1].0 && c[1].1 == tf[1]);
        } else if k == 2 {
            assert(tf[2] == to[2]);
        } else if k == 3 {
            assert(tf[3] == to[3]);
        } else if k == 4 {
            assert(c[2] == p0[2]);
            assert(c[2].0 && c[2].1 == tf[4]);
        } else if k == 5 {
            assert(c[3] == p0[3]);
            assert(c[3].0 && c[3].1 == tf[5]);
        } else if k == 6 {
            assert(c[4] == p0[4]);
            assert(c[4].0 && c[4].1 == tf[6]);
        } else if k == 7 {
            assert(c[5] == p1[0]);
            assert(c[5].0 && c[5].1 == tf[7]);
        } else if k == 8 {
            assert(c[6] == p1[1]);
            assert(c[6].0 && c[6].1 == tf[8]);
        } else if k == 9 {
            assert(c[7] == p1[2]);
            assert(c[7].0 && c[7].1 == tf[9]);
        } else if k == 10 {
            assert(c[8] == p1[3]);
            assert(c[8].0 && c[8].1 == tf[10]);
        } else if k == 11 {
            assert(c[9] == p1[4]);
            assert(c[9].0 && c[9].1 == tf[11]);
        } else if k == 12 {
            assert(c[10] == p2[0]);
            assert(c[10].0 && c[10].1 == tf[12]);
        } else if k == 13 {
            assert(c[11] == p2[1]);
            assert(c[11].0 && c[11].1 == tf[13]);
        } else if k == 14 {
            assert(c[12] == p2[2]);
            assert(c[12].0 && c[12].1 == tf[14]);
        } else if k == 15 {
            assert(c[13] == p2[3]);
            assert(c[13].0 && c[13].1 == tf[15]);
        } else if k == 16 {
            assert(c[14] == p2[4]);
            assert(c[14].0 && c[14].1 == tf[16]);
        } else if k == 17 {
            assert(c[15] == p3[0]);
            assert(c[15].0 && c[15].1 == tf[17]);
        }
    }
}

/// The fields reported of the camera are fields of the current camera,
/// and each of its fields that differs from the last one, as the engine's
/// floats compare, is reported.
pub proof fn lemma_camera_reports_current_values(last: Camera, current: Camera)
    ensures
        forall|i: int|
            0 <= i < camera_changes(last, current).len() ==> current.tracked_fields().contains(
                #[trigger] camera_changes(last, current)[i],
            ),
        !f32x3_eq(last.origin, current.origin) ==> camera_changes(last, current).contains(
            ObjectField::Origin(current.origin),
        ),
        !f32x3_eq(last.angles, current.angles) ==> camera_changes(last, current).contains(
            ObjectField::Angles(current.angles),
        ),
        !f32_eq(last.fov, current.fov) ==> camera_changes(last, current).contains(ObjectField::Fov(current.fov)),
{
    let c = seq![
        (!f32x3_eq(last.origin, current.origin), ObjectField::Origin(current.origin)),
        (!f32x3_eq(last.angles, current.angles), ObjectField::Angles(current.angles)),
        (!f32_eq(last.fov, current.fov), ObjectField::Fov(current.fov)),
    ];
    let tf = current.tracked_fields();
    lemma_keep_changed_fields(c);
    assert forall|j: int| 0 <= j < c.len() && (#[trigger] c[j]).0 implies tf.contains(c[j].1) by {
        assert(tf[j] == c[j].1);
    }
    let ch = camera_changes(last, current);
    assert forall|i: int| 0 <= i < ch.len() implies tf.contains(#[trigger] ch[i]) by {
        let j = choose|j: int| #![trigger c[j]] 0 <= j < c.len() && c[j].0 && c[j].1 == ch[i];
    }
    assert(c[0].1 == ObjectField::Origin(current.origin));
    assert(c[1].1 == ObjectField::Angles(current.angles));
    assert(c[2].1 == ObjectField::Fov(current.fov));
}


} // verus!
