//! What the messages of a recorded frame say of the recorder's objects: an
//! entity sent as new is kept where its number says, and tracked by an
//! engine entity.

use vstd::prelude::*;
use crate::entity_settle::lemma_hide_unseen_entities_at;
use crate::message::MessageView;
use crate::objects::{Entity, Object};
use crate::recorder::{
    beam_entities_fold, beams_fold, entities_fold, entity_step, frame_step, hide_unseen_beams,
    hide_unseen_entities, indices_below, players_fold, unseen_entities, FrameSnapshot, RecorderView,
};
use crate::snapshot::{BeamState, EntityState, PlayerInfoState};
use crate::players::PlayerInfo;
use crate::objects::Beam;

verus! {

/// `m` sends an entity, new or changed.
pub open spec fn about_entity(m: MessageView) -> bool {
    match m {
        MessageView::NewObject(Object::Entity(_)) => true,
        MessageView::UpdateObject(Object::Entity(_), _) => true,
        _ => false,
    }
}

/// None of `ms` sends an entity.
pub open spec fn no_entity_messages(ms: Seq<MessageView>) -> bool {
    forall|i: int| 0 <= i < ms.len() ==> !about_entity(#[trigger] ms[i])
}

/// `e` is the entity at some position of `es` from `base` on, carries that
/// position as its number, and an engine entity of `en` is tracked by it.
pub open spec fn entity_stored(es: Seq<Entity>, en: Map<usize, usize>, base: int, e: Entity) -> bool {
    exists|x: int, p: usize|
        #![trigger es[x], en[p]]
        base <= x < es.len() && es[x] == e && e.id == x as u32 && en.contains_key(p) && en[p] == x
}

/// An entity that `m` sends as new is stored (see `entity_stored`).
pub open spec fn new_entity_stored(m: MessageView, es: Seq<Entity>, en: Map<usize, usize>, base: int) -> bool {
    match m {
        MessageView::NewObject(Object::Entity(e)) => entity_stored(es, en, base, e),
        _ => true,
    }
}

/// Each entity that `ms` sends as new is stored (see `entity_stored`).
pub open spec fn new_entities_stored(ms: Seq<MessageView>, es: Seq<Entity>, en: Map<usize, usize>, base: int) -> bool {
    forall|i: int| 0 <= i < ms.len() ==> new_entity_stored(#[trigger] ms[i], es, en, base)
}

/// Each entity that `ms` sends as new is marked seen.
pub open spec fn new_entities_seen(ms: Seq<MessageView>) -> bool {
    forall|i: int|
        0 <= i < ms.len() ==> match #[trigger] ms[i] {
            MessageView::NewObject(Object::Entity(e)) => e.seen,
            _ => true,
        }
}

proof fn lemma_no_entity_messages_add(a: Seq<MessageView>, b: Seq<MessageView>)
    requires
        no_entity_messages(a),
        no_entity_messages(b),
    ensures
        no_entity_messages(a + b),
{
    assert forall|i: int| 0 <= i < (a + b).len() implies !about_entity(#[trigger] (a + b)[i]) by {
        if i < a.len() {
            assert((a + b)[i] == a[i]);
        } else {
            assert((a + b)[i] == b[i - a.len()]);
        }
    }
}

proof fn lemma_stored_add(a: Seq<MessageView>, b: Seq<MessageView>, es: Seq<Entity>, en: Map<usize, usize>, base: int)
    requires
        new_entities_stored(a, es, en, base),
        new_entities_stored(b, es, en, base),
    ensures
        new_entities_stored(a + b, es, en, base),
{
    assert forall|i: int| 0 <= i < (a + b).len() implies new_entity_stored(#[trigger] (a + b)[i], es, en, base) by {
        if i < a.len() {
            assert((a + b)[i] == a[i]);
        } else {
            assert((a + b)[i] == b[i - a.len()]);
        }
    }
}

proof fn lemma_no_entity_stored(ms: Seq<MessageView>, es: Seq<Entity>, en: Map<usize, usize>, base: int)
    requires
        no_entity_messages(ms),
    ensures
        new_entities_stored(ms, es, en, base),
{
    assert forall|i: int| 0 <= i < ms.len() implies new_entity_stored(#[trigger] ms[i], es, en, base) by {
        assert(!about_entity(ms[i]));
    }
}

proof fn lemma_players_fold_no_entity(players: Seq<PlayerInfo>, states: Seq<PlayerInfoState>, n: nat)
    ensures
        no_entity_messages(players_fold(players, states, n).1),
    decreases n,
{
    if n > 0 {
        lemma_players_fold_no_entity(players, states, (n - 1) as nat);
    }
}

proof fn lemma_beams_fold_no_entity(
    bs: Seq<Beam>,
    en: Map<usize, usize>,
    map: Map<usize, usize>,
    precache: Seq<usize>,
    beams: Seq<(usize, BeamState)>,
)
    ensures
        no_entity_messages(beams_fold(bs, en, map, precache, beams).2),
    decreases beams.len(),
{
    if beams.len() > 0 {
        lemma_beams_fold_no_entity(bs, en, map, precache, beams.drop_last());
        let prev = beams_fold(bs, en, map, precache, beams.drop_last());
        let step = crate::recorder::beam_step(prev.0, prev.1, map, precache, beams.last().0, beams.last().1);
        assert(no_entity_messages(step.2));
        lemma_no_entity_messages_add(prev.2, step.2);
    }
}

proof fn lemma_beam_entities_fold_no_entity(
    bs: Seq<Beam>,
    en: Map<usize, usize>,
    map: Map<usize, usize>,
    precache: Seq<usize>,
    beams: Seq<(usize, Option<BeamState>)>,
)
    ensures
        no_entity_messages(beam_entities_fold(bs, en, map, precache, beams).2),
    decreases beams.len(),
{
    if beams.len() > 0 {
        lemma_beam_entities_fold_no_entity(bs, en, map, precache, beams.drop_last());
        let prev = beam_entities_fold(bs, en, map, precache, beams.drop_last());
        let step = crate::recorder::beam_entity_step(prev.0, prev.1, map, precache, beams.last().0, beams.last().1);
        assert(no_entity_messages(step.2));
        lemma_no_entity_messages_add(prev.2, step.2);
    }
}

proof fn lemma_hide_beams_no_entity(bs: Seq<Beam>, n: nat)
    ensures
        no_entity_messages(hide_unseen_beams(bs, n).1),
    decreases n,
{
    if n > 0 {
        lemma_hide_beams_no_entity(bs, (n - 1) as nat);
    }
}

/// Hiding entities sends only updates.
proof fn lemma_hide_entities_updates(es: Seq<Entity>, n: nat)
    ensures
        forall|i: int|
            0 <= i < hide_unseen_entities(es, n).1.len() ==> (#[trigger] hide_unseen_entities(es, n).1[i]) is UpdateObject,
    decreases n,
{
    if n > 0 {
        lemma_hide_entities_updates(es, (n - 1) as nat);
    }
}

/// Recording edicts stores each entity it sends as new, past the entities
/// there were before.
proof fn lemma_entities_fold_stored(
    es: Seq<Entity>,
    en: Map<usize, usize>,
    map: Map<usize, usize>,
    precache: Seq<usize>,
    edicts: Seq<(usize, EntityState)>,
)
    requires
        indices_below(en, es.len()),
        es.len() + edicts.len() <= usize::MAX,
    ensures
        ({
            let f = entities_fold(es, en, map, precache, edicts);
            &&& new_entities_stored(f.2, f.0, f.1, es.len() as int)
            &&& new_entities_seen(f.2)
            &&& indices_below(f.1, f.0.len())
            &&& es.len() <= f.0.len() <= es.len() + edicts.len()
        }),
    decreases edicts.len(),
{
    if edicts.len() > 0 {
        let base = es.len() as int;
        lemma_entities_fold_stored(es, en, map, precache, edicts.drop_last());
        let prev = entities_fold(es, en, map, precache, edicts.drop_last());
        let a = edicts.last().0;
        let st = edicts.last().1;
        crate::recorder::lemma_entity_step_indices(prev.0, prev.1, map, precache, a, st);
        let step = entity_step(prev.0, prev.1, map, precache, a, st);
        let f = entities_fold(es, en, map, precache, edicts);
        assert(f.0 == step.0 && f.1 == step.1 && f.2 == prev.2 + step.2);
        assert forall|i: int| 0 <= i < f.2.len() implies new_entity_stored(#[trigger] f.2[i], f.0, f.1, base) && match f.2[i] {
            MessageView::NewObject(Object::Entity(e)) => e.seen,
            _ => true,
        } by {
            if i < prev.2.len() {
                assert(f.2[i] == prev.2[i]);
                assert(new_entity_stored(prev.2[i], prev.0, prev.1, base));
                match prev.2[i] {
                    MessageView::NewObject(Object::Entity(e)) => {
                        let (x, p) = choose|x: int, p: usize|
                            #![trigger prev.0[x], prev.1[p]]
                            base <= x < prev.0.len() && prev.0[x] == e && e.id == x as u32 && prev.1.contains_key(p)
                                && prev.1[p] == x;
                        assert(e.seen);
                        if prev.1.contains_key(a) {
                            let idx = prev.1[a] as int;
                            if !prev.0[idx].seen {
                                assert(idx != x);
                                assert(a != p);
                            }
                        }
                        assert(f.0[x] == e);
                        assert(f.1.contains_key(p) && f.1[p] == x);
                    },
                    _ => {},
                }
            } else {
                assert(f.2[i] == step.2[i - prev.2.len()]);
                if prev.1.contains_key(a) {
                    let idx = prev.1[a] as int;
                    if !prev.0[idx].seen && prev.0[idx].model != st.model {
                        let x = prev.0.len() as int;
                        assert(f.0[x] == f.0.last());
                        assert(f.1.contains_key(a) && f.1[a] == x);
                    }
                } else if st.model != 0 {
                    let x = prev.0.len() as int;
                    assert(f.0[x] == f.0.last());
                    assert(f.1.contains_key(a) && f.1[a] == x);
                }
            }
        }
    }
}

/// Each entity a frame sends as new is stored in the recorder the frame
/// leaves: at a position past the entities there were before, whose number
/// it carries, and some engine entity is tracked by that position.
pub proof fn lemma_frame_new_entities_stored(r: RecorderView, f: FrameSnapshot)
    requires
        r.wf(),
        r.entities.len() + f.visible_edicts@.len() <= usize::MAX,
    ensures
        new_entities_stored(
            frame_step(r, f).1,
            frame_step(r, f).0.entities,
            frame_step(r, f).0.engine_entities,
            r.entities.len() as int,
        ),
{
    let s1 = crate::recorder::models_step(r, f.known_models@);
    let s2 = crate::recorder::viewentity_step(s1.0, f.viewentity);
    let s3 = crate::recorder::camera_step(s2.0, f.camera);
    let s4 = crate::recorder::players_step(s3.0, f.players@);
    let s5 = crate::recorder::viewent_step(s4.0, f.health, f.viewent);
    let s6 = crate::recorder::entities_step(s5.0, f.visible_edicts@, f.model_precache@);
    let s7 = crate::recorder::beams_step(s6.0, f.beams@, f.model_precache@);
    let s8 = crate::recorder::beam_entities_step(s7.0, f.beam_entities@, f.model_precache@);
    let s9 = crate::recorder::decals_step(s8.0, f.decals@);
    let s10 = crate::recorder::lightstyles_step(s9.0, f.lightstyles@);
    let r1 = frame_step(r, f).0;
    let es = r1.entities;
    let en = r1.engine_entities;
    let base = r.entities.len() as int;

    let map = s5.0.model_index_map;
    let precache = f.model_precache@;
    let es0 = unseen_entities(r.entities);
    lemma_entities_fold_stored(es0, r.engine_entities, map, precache, f.visible_edicts@);
    let fe = entities_fold(es0, r.engine_entities, map, precache, f.visible_edicts@);
    lemma_hide_unseen_entities_at(fe.0, fe.0.len());
    lemma_hide_entities_updates(fe.0, fe.0.len());
    let h = hide_unseen_entities(fe.0, fe.0.len());
    assert(es == h.0 && en == fe.1);
    assert(s6.1 == fe.2 + h.1);
    assert forall|i: int| 0 <= i < fe.2.len() implies new_entity_stored(#[trigger] fe.2[i], es, en, base) by {
        assert(new_entity_stored(fe.2[i], fe.0, fe.1, base));
        match fe.2[i] {
            MessageView::NewObject(Object::Entity(e)) => {
                let (x, p) = choose|x: int, p: usize|
                    #![trigger fe.0[x], fe.1[p]]
                    base <= x < fe.0.len() && fe.0[x] == e && e.id == x as u32 && fe.1.contains_key(p) && fe.1[p] == x;
                assert(es[x] == e);
            },
            _ => {},
        }
    }
    assert forall|i: int| 0 <= i < h.1.len() implies new_entity_stored(#[trigger] h.1[i], es, en, base) by {
        assert(h.1[i] is UpdateObject);
    }
    lemma_stored_add(fe.2, h.1, es, en, base);

    assert(no_entity_messages(s1.1));
    assert(no_entity_messages(s2.1));
    assert(no_entity_messages(s3.1));
    lemma_players_fold_no_entity(s3.0.players, f.players@, crate::recorder::player_count(s3.0, f.players@));
    assert(no_entity_messages(s5.1));
    let b0 = crate::recorder::unmark_referenced(s6.0.beams, s6.0.engine_beams);
    lemma_beams_fold_no_entity(b0, s6.0.engine_beams, s6.0.model_index_map, precache, f.beams@);
    let fb = beams_fold(b0, s6.0.engine_beams, s6.0.model_index_map, precache, f.beams@);
    lemma_hide_beams_no_entity(fb.0, fb.0.len());
    lemma_no_entity_messages_add(fb.2, hide_unseen_beams(fb.0, fb.0.len()).1);
    let be0 = crate::recorder::unseen_beams(s7.0.beam_entities);
    lemma_beam_entities_fold_no_entity(be0, s7.0.engine_beam_entities, s7.0.model_index_map, precache, f.beam_entities@);
    let fbe = beam_entities_fold(be0, s7.0.engine_beam_entities, s7.0.model_index_map, precache, f.beam_entities@);
    lemma_hide_beams_no_entity(fbe.0, fbe.0.len());
    lemma_no_entity_messages_add(fbe.2, hide_unseen_beams(fbe.0, fbe.0.len()).1);
    assert(no_entity_messages(s9.1));
    assert(no_entity_messages(s10.1));

    lemma_no_entity_stored(s1.1, es, en, base);
    lemma_no_entity_stored(s2.1, es, en, base);
    lemma_no_entity_stored(s3.1, es, en, base);
    lemma_no_entity_stored(s4.1, es, en, base);
    lemma_no_entity_stored(s5.1, es, en, base);
    lemma_no_entity_stored(s7.1, es, en, base);
    lemma_no_entity_stored(s8.1, es, en, base);
    lemma_no_entity_stored(s9.1, es, en, base);
    lemma_no_entity_stored(s10.1, es, en, base);
    lemma_stored_add(s1.1, s2.1, es, en, base);
    lemma_stored_add(s1.1 + s2.1, s3.1, es, en, base);
    lemma_stored_add(s1.1 + s2.1 + s3.1, s4.1, es, en, base);
    lemma_stored_add(s1.1 + s2.1 + s3.1 + s4.1, s5.1, es, en, base);
    lemma_stored_add(s1.1 + s2.1 + s3.1 + s4.1 + s5.1, s6.1, es, en, base);
    lemma_stored_add(s1.1 + s2.1 + s3.1 + s4.1 + s5.1 + s6.1, s7.1, es, en, base);
    lemma_stored_add(s1.1 + s2.1 + s3.1 + s4.1 + s5.1 + s6.1 + s7.1, s8.1, es, en, base);
    lemma_stored_add(s1.1 + s2.1 + s3.1 + s4.1 + s5.1 + s6.1 + s7.1 + s8.1, s9.1, es, en, base);
    lemma_stored_add(s1.1 + s2.1 + s3.1 + s4.1 + s5.1 + s6.1 + s7.1 + s8.1 + s9.1, s10.1, es, en, base);
}

} // verus!
