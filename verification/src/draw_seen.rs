//! After every frame, an object of the recording is drawn exactly when it
//! was seen in that frame: what the engine no longer shows is hidden, and
//! what it shows again is drawn again.

use vstd::prelude::*;
use crate::beam_settle::lemma_hide_unseen_beams_at;
use crate::entity_settle::lemma_hide_unseen_entities_at;
use crate::objects::{beam_updated, entity_updated, Beam, Entity};
use crate::recorder::{
    beam_entities_fold, beam_entity_step, beam_step, beams_fold, entities_fold, entity_step, fresh_recorder,
    frame_step, hide_unseen_beams, hide_unseen_entities, indices_below, keep_seen, referenced, unmark_referenced,
    unseen_beams, unseen_entities, viewent_hidden, FrameSnapshot, RecorderView,
};
use crate::snapshot::{BeamState, EntityState};

verus! {

/// Every entity, beam and beam entity is drawn exactly when it was seen, and
/// every beam an engine beam refers to was seen.
pub open spec fn drawn_iff_seen(r: RecorderView) -> bool {
    &&& forall|x: int| 0 <= x < r.entities.len() ==> (#[trigger] r.entities[x]).draw == r.entities[x].seen
    &&& forall|x: int| 0 <= x < r.beams.len() ==> (#[trigger] r.beams[x]).draw == r.beams[x].seen
    &&& forall|x: int| 0 <= x < r.beam_entities.len() ==> (#[trigger] r.beam_entities[x]).draw == r.beam_entities[x].seen
    &&& forall|a: usize| #[trigger] r.engine_beams.contains_key(a) ==> r.beams[r.engine_beams[a] as int].seen
}

/// Every seen entity of `es` is drawn.
pub open spec fn seen_entities_drawn(es: Seq<Entity>) -> bool {
    forall|x: int| 0 <= x < es.len() && (#[trigger] es[x]).seen ==> es[x].draw
}

/// Every seen beam of `bs` is drawn.
pub open spec fn seen_beams_drawn(bs: Seq<Beam>) -> bool {
    forall|x: int| 0 <= x < bs.len() && (#[trigger] bs[x]).seen ==> bs[x].draw
}

/// Recording visible entities draws every entity it marks as seen.
proof fn lemma_entities_fold_drawn(
    es: Seq<Entity>,
    en: Map<usize, usize>,
    map: Map<usize, usize>,
    precache: Seq<usize>,
    edicts: Seq<(usize, EntityState)>,
)
    requires
        seen_entities_drawn(es),
        indices_below(en, es.len()),
    ensures
        seen_entities_drawn(entities_fold(es, en, map, precache, edicts).0),
        indices_below(entities_fold(es, en, map, precache, edicts).1, entities_fold(es, en, map, precache, edicts).0.len()),
    decreases edicts.len(),
{
    if edicts.len() > 0 {
        lemma_entities_fold_drawn(es, en, map, precache, edicts.drop_last());
        let prev = entities_fold(es, en, map, precache, edicts.drop_last());
        crate::recorder::lemma_entity_step_indices(prev.0, prev.1, map, precache, edicts.last().0, edicts.last().1);
        let a = edicts.last().0;
        let st = edicts.last().1;
        let step = entity_step(prev.0, prev.1, map, precache, a, st);
        assert forall|x: int| 0 <= x < step.0.len() && (#[trigger] step.0[x]).seen implies step.0[x].draw by {
            if prev.1.contains_key(a) {
                let idx = prev.1[a] as int;
                let existing = prev.0[idx];
                if !existing.seen && existing.model == st.model {
                    let u = entity_updated(Entity { seen: true, ..existing }, st);
                    let u2 = if !u.draw { Entity { draw: true, ..u } } else { u };
                    assert(step.0 == prev.0.update(idx, u2));
                    if x != idx {
                        assert(step.0[x] == prev.0[x]);
                    }
                } else if !existing.seen {
                    if x < prev.0.len() {
                        assert(step.0[x] == prev.0[x]);
                    }
                }
            } else if st.model != 0 {
                if x < prev.0.len() {
                    assert(step.0[x] == prev.0[x]);
                }
            }
        }
    }
}

/// Recording beam entities draws every beam it marks as seen.
proof fn lemma_beam_entities_fold_drawn(
    bs: Seq<Beam>,
    en: Map<usize, usize>,
    map: Map<usize, usize>,
    precache: Seq<usize>,
    beams: Seq<(usize, Option<BeamState>)>,
)
    requires
        seen_beams_drawn(bs),
        indices_below(en, bs.len()),
        en.dom().finite(),
        en.dom().len() <= bs.len(),
    ensures
        ({
            let f = beam_entities_fold(bs, en, map, precache, beams);
            &&& seen_beams_drawn(f.0)
            &&& indices_below(f.1, f.0.len())
            &&& f.1.dom().finite()
            &&& f.1.dom().len() <= f.0.len()
        }),
    decreases beams.len(),
{
    if beams.len() > 0 {
        lemma_beam_entities_fold_drawn(bs, en, map, precache, beams.drop_last());
        let prev = beam_entities_fold(bs, en, map, precache, beams.drop_last());
        if beams.last().1 is Some && !prev.1.contains_key(beams.last().0) {
            assert(prev.1.insert(beams.last().0, prev.1.dom().len() as usize).dom() =~= prev.1.dom().insert(beams.last().0));
        }
        if beams.last().1 is Some && prev.1.contains_key(beams.last().0) {
            assert(prev.1.insert(beams.last().0, prev.0.len() as usize).dom() =~= prev.1.dom());
        }
        let a = beams.last().0;
        let step = beam_entity_step(prev.0, prev.1, map, precache, a, beams.last().1);
        assert forall|x: int| 0 <= x < step.0.len() && (#[trigger] step.0[x]).seen implies step.0[x].draw by {
            match beams.last().1 {
                None => {},
                Some(st) => {
                    let mi = crate::recorder::beam_model_index(map, precache, st);
                    if prev.1.contains_key(a) {
                        let idx = prev.1[a] as int;
                        let existing = prev.0[idx];
                        if existing.model_index == mi {
                            let u = beam_updated(Beam { seen: true, ..existing }, st);
                            let u2 = if !u.draw { Beam { draw: true, ..u } } else { u };
                            assert(step.0 == prev.0.update(idx, u2));
                            if x != idx {
                                assert(step.0[x] == prev.0[x]);
                            }
                        } else if x < prev.0.len() {
                            assert(step.0[x] == prev.0[x]);
                        }
                    } else if x < prev.0.len() {
                        assert(step.0[x] == prev.0[x]);
                    }
                },
            }
        }
    }
}

/// Recording active beams draws every beam it marks as seen, and keeps
/// every beam an engine beam refers to drawn.
proof fn lemma_beams_fold_drawn(
    bs: Seq<Beam>,
    en: Map<usize, usize>,
    map: Map<usize, usize>,
    precache: Seq<usize>,
    beams: Seq<(usize, BeamState)>,
)
    requires
        seen_beams_drawn(bs),
        indices_below(en, bs.len()),
        bs.len() + beams.len() <= usize::MAX,
        forall|a: usize| #[trigger] en.contains_key(a) && en[a] < bs.len() ==> bs[en[a] as int].draw,
    ensures
        ({
            let f = beams_fold(bs, en, map, precache, beams);
            &&& f.0.len() <= bs.len() + beams.len()
            &&& seen_beams_drawn(f.0)
            &&& indices_below(f.1, f.0.len())
            &&& forall|a: usize| #[trigger] f.1.contains_key(a) && f.1[a] < f.0.len() ==> f.0[f.1[a] as int].draw
        }),
    decreases beams.len(),
{
    if beams.len() > 0 {
        lemma_beams_fold_drawn(bs, en, map, precache, beams.drop_last());
        let prev = beams_fold(bs, en, map, precache, beams.drop_last());
        let a = beams.last().0;
        let st = beams.last().1;
        let mi = crate::recorder::beam_model_index(map, precache, st);
        let step = beam_step(prev.0, prev.1, map, precache, a, st);
        if prev.1.contains_key(a) && prev.0[prev.1[a] as int].model_index == mi {
            let idx = prev.1[a] as int;
            let u = beam_updated(Beam { seen: true, ..prev.0[idx] }, st);
            assert(step.0 == prev.0.update(idx, u));
            assert(step.1 == prev.1);
            assert forall|x: int| 0 <= x < step.0.len() && (#[trigger] step.0[x]).seen implies step.0[x].draw by {
                if x != idx {
                    assert(step.0[x] == prev.0[x]);
                } else {
                    assert(prev.1.contains_key(a) && prev.1[a] < prev.0.len());
                }
            }
            assert forall|b: usize| #[trigger] step.1.contains_key(b) && step.1[b] < step.0.len() implies step.0[step.1[b] as int].draw by {
                if step.1[b] as int != idx {
                    assert(step.0[step.1[b] as int] == prev.0[step.1[b] as int]);
                } else {
                    assert(prev.1.contains_key(a) && prev.1[a] < prev.0.len());
                }
            }
        } else {
            assert forall|x: int| 0 <= x < step.0.len() && (#[trigger] step.0[x]).seen implies step.0[x].draw by {
                if x < prev.0.len() {
                    assert(step.0[x] == prev.0[x]);
                }
            }
            assert forall|b: usize| #[trigger] step.1.contains_key(b) && step.1[b] < step.0.len() implies step.0[step.1[b] as int].draw by {
                if b != a {
                    assert(prev.1.contains_key(b));
                    if prev.1[b] < prev.0.len() {
                        assert(step.0[step.1[b] as int] == prev.0[prev.1[b] as int]);
                    }
                } else {
                    assert(step.1[b] == prev.0.len());
                }
            }
        }
    }
}

/// A fresh recorder draws nothing and has seen nothing.
pub proof fn lemma_fresh_recorder_drawn_iff_seen(r: RecorderView, cache: Map<i16, u16>)
    requires
        fresh_recorder(r, cache),
    ensures
        drawn_iff_seen(r),
{
}

/// After every frame, each entity, beam and beam entity is drawn exactly
/// when it was seen in that frame (so an object the engine stopped showing
/// was hidden), every beam an engine beam refers to was seen, and the view
/// model is drawn exactly when the player is alive and it has a model.
pub proof fn lemma_frame_drawn_iff_seen(r: RecorderView, f: FrameSnapshot)
    requires
        r.wf(),
        r.beams.len() + f.beams@.len() <= usize::MAX,
        drawn_iff_seen(r),
    ensures
        drawn_iff_seen(frame_step(r, f).0),
        viewent_hidden(f.health, f.viewent) ==> (frame_step(r, f).0.last_viewent matches Some(v) ==> !v.draw),
        !viewent_hidden(f.health, f.viewent) ==> (frame_step(r, f).0.last_viewent matches Some(v) && v.draw),
{
    let r1 = frame_step(r, f).0;
    let precache = f.model_precache@;
    let map = crate::recorder::models_step(r, f.known_models@).0.model_index_map;

    // Entities.
    let es0 = unseen_entities(r.entities);
    let fe = entities_fold(es0, r.engine_entities, map, precache, f.visible_edicts@);
    lemma_entities_fold_drawn(es0, r.engine_entities, map, precache, f.visible_edicts@);
    lemma_hide_unseen_entities_at(fe.0, fe.0.len());
    assert(r1.entities == hide_unseen_entities(fe.0, fe.0.len()).0);

    // Active beams.
    let b0 = unmark_referenced(r.beams, r.engine_beams);
    assert forall|x: int| 0 <= x < b0.len() && (#[trigger] b0[x]).seen implies b0[x].draw by {
        assert(r.beams[x].draw == r.beams[x].seen);
    }
    assert forall|a: usize| #[trigger] r.engine_beams.contains_key(a) && r.engine_beams[a] < b0.len() implies b0[r.engine_beams[a] as int].draw by {
        assert(r.beams[r.engine_beams[a] as int].seen);
    }
    let fb = beams_fold(b0, r.engine_beams, map, precache, f.beams@);
    lemma_beams_fold_drawn(b0, r.engine_beams, map, precache, f.beams@);
    lemma_hide_unseen_beams_at(fb.0, fb.0.len());
    let hb = hide_unseen_beams(fb.0, fb.0.len()).0;
    assert(r1.beams == hb);
    assert(r1.engine_beams == keep_seen(fb.1, hb));

    // Beam entities.
    let be0 = unseen_beams(r.beam_entities);
    let fbe = beam_entities_fold(be0, r.engine_beam_entities, map, precache, f.beam_entities@);
    lemma_beam_entities_fold_drawn(be0, r.engine_beam_entities, map, precache, f.beam_entities@);
    lemma_hide_unseen_beams_at(fbe.0, fbe.0.len());
    assert(r1.beam_entities == hide_unseen_beams(fbe.0, fbe.0.len()).0);
}

} // verus!
