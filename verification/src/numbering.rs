//! How the objects of a recording are numbered: the lists of entities,
//! beams and beam entities only grow, an entity's or a beam's number is its
//! position in its list, and a beam entity's number is at most its position
//! (a new beam entity takes the count of tracked beam entities as its
//! number, which falls behind its position once one of them changed model).

use vstd::prelude::*;
use crate::beam_settle::lemma_hide_unseen_beams_at;
use crate::entity_settle::lemma_hide_unseen_entities_at;
use crate::objects::{beam_updated, entity_updated, Beam, Entity};
use crate::recorder::{
    beam_entities_fold, beam_entity_step, beam_step, beams_fold, entities_fold, entity_step, fresh_recorder,
    frame_step, hide_unseen_beams, hide_unseen_entities, indices_below, unmark_referenced, unseen_beams,
    unseen_entities, FrameSnapshot, RecorderView,
};
use crate::snapshot::{BeamState, EntityState};

verus! {

/// Each entity's number is its position.
pub open spec fn entities_numbered(es: Seq<Entity>) -> bool {
    forall|x: int| 0 <= x < es.len() ==> (#[trigger] es[x]).id == x as u32
}

/// Each beam's number is its position.
pub open spec fn beams_numbered(bs: Seq<Beam>) -> bool {
    forall|x: int| 0 <= x < bs.len() ==> (#[trigger] bs[x]).id == x as u32
}

/// Each beam entity's number is at most its position.
pub open spec fn beam_entities_numbered(bs: Seq<Beam>) -> bool {
    forall|x: int| 0 <= x < bs.len() ==> (#[trigger] bs[x]).id <= x
}

/// The numbering of a recorder's objects.
pub open spec fn numbered(r: RecorderView) -> bool {
    &&& entities_numbered(r.entities)
    &&& beams_numbered(r.beams)
    &&& beam_entities_numbered(r.beam_entities)
}

/// Recording visible entities keeps the numbering and only appends.
proof fn lemma_entities_fold_numbered(
    es: Seq<Entity>,
    en: Map<usize, usize>,
    map: Map<usize, usize>,
    precache: Seq<usize>,
    edicts: Seq<(usize, EntityState)>,
)
    requires
        entities_numbered(es),
        indices_below(en, es.len()),
    ensures
        ({
            let f = entities_fold(es, en, map, precache, edicts);
            &&& entities_numbered(f.0)
            &&& f.0.len() >= es.len()
            &&& indices_below(f.1, f.0.len())
        }),
    decreases edicts.len(),
{
    if edicts.len() > 0 {
        lemma_entities_fold_numbered(es, en, map, precache, edicts.drop_last());
        let prev = entities_fold(es, en, map, precache, edicts.drop_last());
        let a = edicts.last().0;
        let st = edicts.last().1;
        crate::recorder::lemma_entity_step_indices(prev.0, prev.1, map, precache, a, st);
        let step = entity_step(prev.0, prev.1, map, precache, a, st);
        assert forall|x: int| 0 <= x < step.0.len() implies (#[trigger] step.0[x]).id == x as u32 by {
            if prev.1.contains_key(a) {
                let idx = prev.1[a] as int;
                let existing = prev.0[idx];
                if !existing.seen && existing.model == st.model {
                    let u = entity_updated(Entity { seen: true, ..existing }, st);
                    let u2 = if !u.draw { Entity { draw: true, ..u } } else { u };
                    assert(step.0 == prev.0.update(idx, u2));
                    if x != idx {
                        assert(step.0[x] == prev.0[x]);
                    }
                } else if !existing.seen {
                    if x < prev.0.len() {
                        assert(step.0[x] == prev.0[x]);
                    }
                }
            } else if st.model != 0 {
                if x < prev.0.len() {
                    assert(step.0[x] == prev.0[x]);
                }
            }
        }
    }
}

/// Recording active beams keeps the numbering and only appends.
proof fn lemma_beams_fold_numbered(
    bs: Seq<Beam>,
    en: Map<usize, usize>,
    map: Map<usize, usize>,
    precache: Seq<usize>,
    beams: Seq<(usize, BeamState)>,
)
    requires
        beams_numbered(bs),
        indices_below(en, bs.len()),
    ensures
        ({
            let f = beams_fold(bs, en, map, precache, beams);
            &&& beams_numbered(f.0)
            &&& f.0.len() >= bs.len()
            &&& indices_below(f.1, f.0.len())
        }),
    decreases beams.len(),
{
    if beams.len() > 0 {
        lemma_beams_fold_numbered(bs, en, map, precache, beams.drop_last());
        let prev = beams_fold(bs, en, map, precache, beams.drop_last());
        let a = beams.last().0;
        let st = beams.last().1;
        let mi = crate::recorder::beam_model_index(map, precache, st);
        let step = beam_step(prev.0, prev.1, map, precache, a, st);
        if prev.1.contains_key(a) && prev.0[prev.1[a] as int].model_index == mi {
            let idx = prev.1[a] as int;
            let u = beam_updated(Beam { seen: true, ..prev.0[idx] }, st);
            assert(step.0 == prev.0.update(idx, u));
            assert forall|x: int| 0 <= x < step.0.len() implies (#[trigger] step.0[x]).id == x as u32 by {
                if x != idx {
                    assert(step.0[x] == prev.0[x]);
                }
            }
        } else {
            assert forall|x: int| 0 <= x < step.0.len() implies (#[trigger] step.0[x]).id == x as u32 by {
                if x < prev.0.len() {
                    assert(step.0[x] == prev.0[x]);
                }
            }
        }
    }
}

/// Recording beam entities keeps their numbering and only appends.
proof fn lemma_beam_entities_fold_numbered(
    bs: Seq<Beam>,
    en: Map<usize, usize>,
    map: Map<usize, usize>,
    precache: Seq<usize>,
    beams: Seq<(usize, Option<BeamState>)>,
)
    requires
        beam_entities_numbered(bs),
        indices_below(en, bs.len()),
        en.dom().finite(),
        en.dom().len() <= bs.len(),
        bs.len() + beams.len() <= u32::MAX,
    ensures
        ({
            let f = beam_entities_fold(bs, en, map, precache, beams);
            &&& beam_entities_numbered(f.0)
            &&& bs.len() <= f.0.len() <= bs.len() + beams.len()
            &&& indices_below(f.1, f.0.len())
            &&& f.1.dom().finite()
            &&& f.1.dom().len() <= f.0.len()
        }),
    decreases beams.len(),
{
    if beams.len() > 0 {
        lemma_beam_entities_fold_numbered(bs, en, map, precache, beams.drop_last());
        let prev = beam_entities_fold(bs, en, map, precache, beams.drop_last());
        let a = beams.last().0;
        let step = beam_entity_step(prev.0, prev.1, map, precache, a, beams.last().1);
        match beams.last().1 {
            None => {},
            Some(st) => {
                let mi = crate::recorder::beam_model_index(map, precache, st);
                if prev.1.contains_key(a) {
                    let idx = prev.1[a] as int;
                    let existing = prev.0[idx];
                    assert(prev.1.insert(a, prev.0.len() as usize).dom() =~= prev.1.dom());
                    if existing.model_index == mi {
                        let u = beam_updated(Beam { seen: true, ..existing }, st);
                        let u2 = if !u.draw { Beam { draw: true, ..u } } else { u };
                        assert(step.0 == prev.0.update(idx, u2));
                        assert forall|x: int| 0 <= x < step.0.len() implies (#[trigger] step.0[x]).id <= x by {
                            if x != idx {
                                assert(step.0[x] == prev.0[x]);
                            }
                        }
                    } else {
                        assert forall|x: int| 0 <= x < step.0.len() implies (#[trigger] step.0[x]).id <= x by {
                            if x < prev.0.len() {
                                assert(step.0[x] == prev.0[x]);
                            }
                        }
                    }
                } else {
                    assert(prev.1.insert(a, prev.1.dom().len() as usize).dom() =~= prev.1.dom().insert(a));
                    assert forall|x: int| 0 <= x < step.0.len() implies (#[trigger] step.0[x]).id <= x by {
                        if x < prev.0.len() {
                            assert(step.0[x] == prev.0[x]);
                        }
                    }
                }
            },
        }
    }
}

/// A fresh recorder has no object to number.
pub proof fn lemma_fresh_recorder_numbered(r: RecorderView, cache: Map<i16, u16>)
    requires
        fresh_recorder(r, cache),
    ensures
        numbered(r),
{
}

/// Every frame keeps the entities numbered by their positions, and only
/// appends to them.
pub proof fn lemma_frame_keeps_entity_numbering(r: RecorderView, f: FrameSnapshot)
    requires
        r.wf(),
        entities_numbered(r.entities),
    ensures
        entities_numbered(frame_step(r, f).0.entities),
        frame_step(r, f).0.entities.len() >= r.entities.len(),
{
    let r1 = frame_step(r, f).0;
    let precache = f.model_precache@;
    let map = crate::recorder::models_step(r, f.known_models@).0.model_index_map;
    let es0 = unseen_entities(r.entities);
    lemma_entities_fold_numbered(es0, r.engine_entities, map, precache, f.visible_edicts@);
    let fe = entities_fold(es0, r.engine_entities, map, precache, f.visible_edicts@);
    lemma_hide_unseen_entities_at(fe.0, fe.0.len());
    assert(r1.entities == hide_unseen_entities(fe.0, fe.0.len()).0);
}

/// Every frame keeps the active beams numbered by their positions, and
/// only appends to them.
pub proof fn lemma_frame_keeps_beam_numbering(r: RecorderView, f: FrameSnapshot)
    requires
        r.wf(),
        beams_numbered(r.beams),
    ensures
        beams_numbered(frame_step(r, f).0.beams),
        frame_step(r, f).0.beams.len() >= r.beams.len(),
{
    let r1 = frame_step(r, f).0;
    let precache = f.model_precache@;
    let map = crate::recorder::models_step(r, f.known_models@).0.model_index_map;
    let b0 = unmark_referenced(r.beams, r.engine_beams);
    lemma_beams_fold_numbered(b0, r.engine_beams, map, precache, f.beams@);
    let fb = beams_fold(b0, r.engine_beams, map, precache, f.beams@);
    lemma_hide_unseen_beams_at(fb.0, fb.0.len());
    assert(r1.beams == hide_unseen_beams(fb.0, fb.0.len()).0);
}

/// Every frame keeps each beam entity's number at most its position, and
/// only appends to the beam entities, as long as their numbers fit in 32
/// bits.
pub proof fn lemma_frame_keeps_beam_entity_numbering(r: RecorderView, f: FrameSnapshot)
    requires
        r.wf(),
        r.beam_entities.len() + f.beam_entities@.len() <= u32::MAX,
        beam_entities_numbered(r.beam_entities),
    ensures
        beam_entities_numbered(frame_step(r, f).0.beam_entities),
        frame_step(r, f).0.beam_entities.len() >= r.beam_entities.len(),
{
    let r1 = frame_step(r, f).0;
    let precache = f.model_precache@;
    let map = crate::recorder::models_step(r, f.known_models@).0.model_index_map;
    let be0 = unseen_beams(r.beam_entities);
    lemma_beam_entities_fold_numbered(be0, r.engine_beam_entities, map, precache, f.beam_entities@);
    let fbe = beam_entities_fold(be0, r.engine_beam_entities, map, precache, f.beam_entities@);
    lemma_hide_unseen_beams_at(fbe.0, fbe.0.len());
    assert(r1.beam_entities == hide_unseen_beams(fbe.0, fbe.0.len()).0);
}

/// Every frame keeps the numbering of all the recorder's objects, and the
/// lists of entities, beams and beam entities only grow: an object, once
/// numbered, keeps its place.
pub proof fn lemma_frame_keeps_numbering(r: RecorderView, f: FrameSnapshot)
    requires
        r.wf(),
        r.beam_entities.len() + f.beam_entities@.len() <= u32::MAX,
        numbered(r),
    ensures
        numbered(frame_step(r, f).0),
        frame_step(r, f).0.entities.len() >= r.entities.len(),
        frame_step(r, f).0.beams.len() >= r.beams.len(),
        frame_step(r, f).0.beam_entities.len() >= r.beam_entities.len(),
{
    lemma_frame_keeps_entity_numbering(r, f);
    lemma_frame_keeps_beam_numbering(r, f);
    lemma_frame_keeps_beam_entity_numbering(r, f);
}

} // verus!
