//! Change tracking settles: once an object has taken over the engine's
//! state, checking it against that same state reports no change. This holds
//! wherever no float the check compares is a NaN, since a NaN equals
//! nothing, itself included, and so is sent again every frame.

use vstd::prelude::*;
use crate::decals::{decal_changed, Decal};
use crate::fields::ObjectField;
use crate::float_bits::{f32_eq, f32_is_nan, f32x3_eq};
use crate::objects::{
    beam_changes, beam_candidates, beam_candidates_part_0, beam_candidates_part_1, beam_candidates_part_2,
    beam_updated, camera_changes, entity_candidates, entity_candidates_part_0, entity_candidates_part_1,
    entity_candidates_part_2, entity_candidates_part_3, entity_changes, entity_origin, entity_updated,
    keep_changed, rgb_changed, viewent_candidates, viewent_candidates_part_0, viewent_candidates_part_1,
    viewent_candidates_part_2, viewent_candidates_part_3, viewent_changes, viewent_updated, Beam, Camera,
    Entity, ViewEnt,
};
use crate::snapshot::{BeamState, DecalState, EntityState};

verus! {

/// No element of a float triple is a NaN.
pub open spec fn no_nan3(v: [u32; 3]) -> bool {
    !f32_is_nan(v[0]) && !f32_is_nan(v[1]) && !f32_is_nan(v[2])
}

/// No float the view model check compares is a NaN in `s`.
pub open spec fn viewent_floats_ok(s: EntityState) -> bool {
    &&& no_nan3(s.origin)
    &&& no_nan3(s.angles)
    &&& !f32_is_nan(s.animtime)
    &&& !f32_is_nan(s.sequencetime)
    &&& !f32_is_nan(s.prevanimtime)
    &&& no_nan3(s.prevorigin)
    &&& no_nan3(s.prevangles)
}

/// No float the entity check compares is a NaN in `s`.
pub open spec fn entity_floats_ok(s: EntityState) -> bool {
    &&& no_nan3(entity_origin(s))
    &&& no_nan3(s.angles)
    &&& !f32_is_nan(s.animtime)
    &&& !f32_is_nan(s.framerate)
    &&& !f32_is_nan(s.frame)
    &&& !f32_is_nan(s.scale)
    &&& !f32_is_nan(s.sequencetime)
    &&& !f32_is_nan(s.prevanimtime)
    &&& no_nan3(s.prevorigin)
    &&& no_nan3(s.prevangles)
}

/// No float the beam check compares is a NaN in `s`.
pub open spec fn beam_floats_ok(s: BeamState) -> bool {
    &&& !f32_is_nan(s.frame_rate)
    &&& !f32_is_nan(s.frame)
    &&& no_nan3(s.source)
    &&& no_nan3(s.delta)
    &&& !f32_is_nan(s.freq)
    &&& !f32_is_nan(s.width)
    &&& !f32_is_nan(s.amplitude)
    &&& !f32_is_nan(s.speed)
    &&& no_nan3([s.r, s.g, s.b])
    &&& !f32_is_nan(s.brightness)
}

/// No float of the camera is a NaN.
pub open spec fn camera_floats_ok(c: Camera) -> bool {
    no_nan3(c.origin) && no_nan3(c.angles) && !f32_is_nan(c.fov)
}

/// A list of candidates none of which is marked as changed yields no field.
pub proof fn lemma_keep_changed_none(candidates: Seq<(bool, ObjectField)>)
    requires
        forall|i: int| 0 <= i < candidates.len() ==> !(#[trigger] candidates[i]).0,
    ensures
        keep_changed(candidates) == Seq::<ObjectField>::empty(),
    decreases candidates.len(),
{
    if candidates.len() > 0 {
        lemma_keep_changed_none(candidates.drop_last());
    }
}

/// A float that took over `b` where it differed from it equals `b`, unless
/// `b` is a NaN.
pub proof fn lemma_f32_taken_over(a: u32, b: u32)
    requires
        !f32_is_nan(b),
    ensures
        f32_eq(if !f32_eq(a, b) { b } else { a }, b),
{
    reveal(f32_eq);
}

/// A float triple that took over `b` where it differed from it equals `b`,
/// unless an element of `b` is a NaN.
pub proof fn lemma_f32x3_taken_over(a: [u32; 3], b: [u32; 3])
    requires
        no_nan3(b),
    ensures
        f32x3_eq(if !f32x3_eq(a, b) { b } else { a }, b),
{
    reveal(f32_eq);
}

/// Once the view model took over the engine's state `s`, checking it
/// against `s` again reports no change.
pub proof fn lemma_viewent_changes_settle(old: ViewEnt, s: EntityState)
    requires
        viewent_floats_ok(s),
    ensures
        viewent_changes(viewent_updated(old, s), s) == Seq::<ObjectField>::empty(),
{
    let u = viewent_updated(old, s);
    lemma_f32x3_taken_over(old.origin, s.origin);
    lemma_f32x3_taken_over(old.angles, s.angles);
    lemma_f32_taken_over(old.animtime, s.animtime);
    lemma_f32_taken_over(old.sequencetime, s.sequencetime);
    lemma_f32_taken_over(old.prevanimtime, s.prevanimtime);
    lemma_f32x3_taken_over(old.prevorigin, s.prevorigin);
    lemma_f32x3_taken_over(old.prevangles, s.prevangles);
    let c = viewent_candidates(u, s);
    assert(c =~= viewent_candidates_part_0(u, s) + viewent_candidates_part_1(u, s) + viewent_candidates_part_2(u, s)
        + viewent_candidates_part_3(u, s));
    assert forall|i: int| 0 <= i < c.len() implies !(#[trigger] c[i]).0 by {
        assert(u.rendercolor@ == s.rendercolor@);
        assert(u.prevseqblending@ == s.prevseqblending@);
    }
    lemma_keep_changed_none(c);
}

/// Once an entity took over the engine's state `s`, checking it against
/// `s` again reports no change.
pub proof fn lemma_entity_changes_settle(old: Entity, s: EntityState)
    requires
        entity_floats_ok(s),
    ensures
        entity_changes(entity_updated(old, s), s) == Seq::<ObjectField>::empty(),
{
    let u = entity_updated(old, s);
    lemma_f32x3_taken_over(old.origin, entity_origin(s));
    lemma_f32x3_taken_over(old.angles, s.angles);
    lemma_f32_taken_over(old.animtime, s.animtime);
    lemma_f32_taken_over(old.framerate, s.framerate);
    lemma_f32_taken_over(old.frame, s.frame);
    lemma_f32_taken_over(old.scale, s.scale);
    lemma_f32_taken_over(old.sequencetime, s.sequencetime);
    lemma_f32_taken_over(old.prevanimtime, s.prevanimtime);
    lemma_f32x3_taken_over(old.prevorigin, s.prevorigin);
    lemma_f32x3_taken_over(old.prevangles, s.prevangles);
    let c = entity_candidates(u, s);
    assert(c =~= entity_candidates_part_0(u, s) + entity_candidates_part_1(u, s) + entity_candidates_part_2(u, s)
        + entity_candidates_part_3(u, s));
    assert forall|i: int| 0 <= i < c.len() implies !(#[trigger] c[i]).0 by {
        assert(u.rendercolor@ == s.rendercolor@);
        assert(u.prevseqblending@ == s.prevseqblending@);
    }
    lemma_keep_changed_none(c);
}

/// Once a beam took over the engine's state `s`, checking it against `s`
/// again reports no change.
pub proof fn lemma_beam_changes_settle(old: Beam, s: BeamState)
    requires
        beam_floats_ok(s),
    ensures
        beam_changes(beam_updated(old, s), s) == Seq::<ObjectField>::empty(),
{
    let u = beam_updated(old, s);
    lemma_f32_taken_over(old.framerate, s.frame_rate);
    lemma_f32_taken_over(old.frame, s.frame);
    lemma_f32x3_taken_over(old.source, s.source);
    lemma_f32x3_taken_over(old.delta, s.delta);
    lemma_f32_taken_over(old.freq, s.freq);
    lemma_f32_taken_over(old.width, s.width);
    lemma_f32_taken_over(old.amplitude, s.amplitude);
    lemma_f32_taken_over(old.speed, s.speed);
    lemma_f32_taken_over(old.brightness, s.brightness);
    assert(!rgb_changed(u.color, s)) by {
        reveal(f32_eq);
    }
    let c = beam_candidates(u, s);
    assert(c =~= beam_candidates_part_0(u, s) + beam_candidates_part_1(u, s) + beam_candidates_part_2(u, s));
    lemma_keep_changed_none(c);
}

/// The camera a frame recorded shows no change against itself: the next
/// frame with the same camera sends nothing for it.
pub proof fn lemma_camera_changes_settle(c: Camera)
    requires
        camera_floats_ok(c),
    ensures
        camera_changes(c, c) == Seq::<ObjectField>::empty(),
{
    reveal(f32_eq);
    reveal_with_fuel(keep_changed, 4);
}

/// Once a decal took over the engine's decal, it no longer differs from it,
/// unless its position or scale is a NaN.
pub proof fn lemma_decal_settles(old: Decal, d: DecalState)
    requires
        !f32_is_nan(d.dx),
        !f32_is_nan(d.dy),
        !f32_is_nan(d.scale),
    ensures
        !decal_changed(
            Decal { surface: d.psurface, dx: d.dx, dy: d.dy, scale: d.scale, texture: d.texture, flags: d.flags, ..old },
            d,
        ),
{
    reveal(f32_eq);
}

} // verus!
