//! The messages that stop drawing an object: a frame sends one for each
//! object whose drawing it turned off, and no other.

use vstd::prelude::*;
use crate::beam_settle::lemma_hide_unseen_beams_at;
use crate::entity_settle::lemma_hide_unseen_entities_at;
use crate::fields::ObjectField;
use crate::message::MessageView;
use crate::objects::{
    beam_candidates, beam_candidates_part_0, beam_candidates_part_1, beam_candidates_part_2, beam_changes,
    entity_candidates, entity_candidates_part_0, entity_candidates_part_1, entity_candidates_part_2,
    entity_candidates_part_3, entity_changes, keep_changed, viewent_candidates, viewent_candidates_part_0,
    viewent_candidates_part_1, viewent_candidates_part_2, viewent_candidates_part_3, viewent_changes, Beam, Entity,
    Object, ViewEnt,
};
use crate::recorder::{
    beam_entities_fold, beam_entity_step, beam_step, beams_fold, entities_fold, entity_step, frame_step,
    hide_unseen_beams, hide_unseen_entities, indices_below, players_fold, unmark_referenced, unseen_beams,
    unseen_entities, FrameSnapshot, RecorderView,
};
use crate::players::PlayerInfo;
use crate::snapshot::{BeamState, EntityState, PlayerInfoState};

verus! {

/// `m` stops drawing an object: an update whose one change is `Draw(false)`.
pub open spec fn is_hide(m: MessageView) -> bool {
    match m {
        MessageView::UpdateObject(_, ch) => ch == seq![ObjectField::Draw(false)],
        _ => false,
    }
}

/// The messages of `ms` that stop drawing an object, in order.
pub open spec fn hide_messages(ms: Seq<MessageView>) -> Seq<MessageView>
    decreases ms.len(),
{
    if ms.len() == 0 {
        seq![]
    } else if is_hide(ms.last()) {
        hide_messages(ms.drop_last()).push(ms.last())
    } else {
        hide_messages(ms.drop_last())
    }
}

/// No message of `ms` stops drawing an object.
pub open spec fn no_hides(ms: Seq<MessageView>) -> bool {
    forall|i: int| 0 <= i < ms.len() ==> !is_hide(#[trigger] ms[i])
}

proof fn lemma_hide_messages_add(a: Seq<MessageView>, b: Seq<MessageView>)
    ensures
        hide_messages(a + b) == hide_messages(a) + hide_messages(b),
    decreases b.len(),
{
    if b.len() == 0 {
        assert(a + b =~= a);
        assert(hide_messages(a) + hide_messages(b) =~= hide_messages(a));
    } else {
        lemma_hide_messages_add(a, b.drop_last());
        assert((a + b).drop_last() =~= a + b.drop_last());
        assert((a + b).last() == b.last());
        if is_hide(b.last()) {
            assert(hide_messages(a) + hide_messages(b.drop_last()).push(b.last()) =~= (hide_messages(a)
                + hide_messages(b.drop_last())).push(b.last()));
        }
    }
}

proof fn lemma_no_hides(ms: Seq<MessageView>)
    requires
        no_hides(ms),
    ensures
        hide_messages(ms) == Seq::<MessageView>::empty(),
    decreases ms.len(),
{
    if ms.len() > 0 {
        assert(!is_hide(ms[ms.len() - 1]));
        assert(no_hides(ms.drop_last())) by {
            assert forall|i: int| 0 <= i < ms.drop_last().len() implies !is_hide(#[trigger] ms.drop_last()[i]) by {
                assert(ms.drop_last()[i] == ms[i]);
            }
        }
        lemma_no_hides(ms.drop_last());
    }
}

proof fn lemma_no_hides_add(a: Seq<MessageView>, b: Seq<MessageView>)
    requires
        no_hides(a),
        no_hides(b),
    ensures
        no_hides(a + b),
{
    assert forall|i: int| 0 <= i < (a + b).len() implies !is_hide(#[trigger] (a + b)[i]) by {
        if i < a.len() {
            assert((a + b)[i] == a[i]);
        } else {
            assert((a + b)[i] == b[i - a.len()]);
        }
    }
}

/// No candidate of `c` is a change of drawing.
pub open spec fn no_draw_candidate(c: Seq<(bool, ObjectField)>) -> bool {
    forall|j: int| 0 <= j < c.len() ==> !((#[trigger] c[j]).1 is Draw)
}

/// No field of `ch` is a change of drawing.
pub open spec fn no_draw_field(ch: Seq<ObjectField>) -> bool {
    forall|j: int| 0 <= j < ch.len() ==> !((#[trigger] ch[j]) is Draw)
}

proof fn lemma_no_draw_candidate_add(a: Seq<(bool, ObjectField)>, b: Seq<(bool, ObjectField)>)
    requires
        no_draw_candidate(a),
        no_draw_candidate(b),
    ensures
        no_draw_candidate(a + b),
{
    assert forall|j: int| 0 <= j < (a + b).len() implies !((#[trigger] (a + b)[j]).1 is Draw) by {
        if j < a.len() {
            assert((a + b)[j] == a[j]);
        } else {
            assert((a + b)[j] == b[j - a.len()]);
        }
    }
}

proof fn lemma_keep_changed_no_draw(c: Seq<(bool, ObjectField)>)
    requires
        no_draw_candidate(c),
    ensures
        no_draw_field(keep_changed(c)),
    decreases c.len(),
{
    if c.len() > 0 {
        assert(no_draw_candidate(c.drop_last())) by {
            assert forall|j: int| 0 <= j < c.drop_last().len() implies !((#[trigger] c.drop_last()[j]).1 is Draw) by {
                assert(c.drop_last()[j] == c[j]);
            }
        }
        lemma_keep_changed_no_draw(c.drop_last());
        assert(!(c[c.len() - 1].1 is Draw));
    }
}

proof fn lemma_entity_changes_no_draw(old: Entity, s: EntityState)
    ensures
        no_draw_field(entity_changes(old, s)),
{
    assert(no_draw_candidate(entity_candidates_part_0(old, s)));
    assert(no_draw_candidate(entity_candidates_part_1(old, s)));
    assert(no_draw_candidate(entity_candidates_part_2(old, s)));
    assert(no_draw_candidate(entity_candidates_part_3(old, s)));
    lemma_no_draw_candidate_add(entity_candidates_part_0(old, s), entity_candidates_part_1(old, s));
    lemma_no_draw_candidate_add(
        entity_candidates_part_0(old, s) + entity_candidates_part_1(old, s),
        entity_candidates_part_2(old, s),
    );
    lemma_no_draw_candidate_add(
        entity_candidates_part_0(old, s) + entity_candidates_part_1(old, s) + entity_candidates_part_2(old, s),
        entity_candidates_part_3(old, s),
    );
    lemma_keep_changed_no_draw(entity_candidates(old, s));
}

proof fn lemma_viewent_changes_no_draw(old: ViewEnt, s: EntityState)
    ensures
        no_draw_field(viewent_changes(old, s)),
{
    assert(no_draw_candidate(viewent_candidates_part_0(old, s)));
    assert(no_draw_candidate(viewent_candidates_part_1(old, s)));
    assert(no_draw_candidate(viewent_candidates_part_2(old, s)));
    assert(no_draw_candidate(viewent_candidates_part_3(old, s)));
    lemma_no_draw_candidate_add(viewent_candidates_part_0(old, s), viewent_candidates_part_1(old, s));
    lemma_no_draw_candidate_add(
        viewent_candidates_part_0(old, s) + viewent_candidates_part_1(old, s),
        viewent_candidates_part_2(old, s),
    );
    lemma_no_draw_candidate_add(
        viewent_candidates_part_0(old, s) + viewent_candidates_part_1(old, s) + viewent_candidates_part_2(old, s),
        viewent_candidates_part_3(old, s),
    );
    lemma_keep_changed_no_draw(viewent_candidates(old, s));
}

proof fn lemma_beam_changes_no_draw(old: Beam, s: BeamState)
    ensures
        no_draw_field(beam_changes(old, s)),
{
    assert(no_draw_candidate(beam_candidates_part_0(old, s)));
    assert(no_draw_candidate(beam_candidates_part_1(old, s)));
    assert(no_draw_candidate(beam_candidates_part_2(old, s)));
    lemma_no_draw_candidate_add(beam_candidates_part_0(old, s), beam_candidates_part_1(old, s));
    lemma_no_draw_candidate_add(
        beam_candidates_part_0(old, s) + beam_candidates_part_1(old, s),
        beam_candidates_part_2(old, s),
    );
    lemma_keep_changed_no_draw(beam_candidates(old, s));
}

/// A list of changes made of fields that are no changes of drawing, then
/// perhaps `Draw(true)`, then perhaps one more field that is none, is not
/// the list that hides an object.
proof fn lemma_not_hide_list(ch: Seq<ObjectField>, drawn: bool, extra: Option<ObjectField>)
    requires
        no_draw_field(ch),
        extra matches Some(x) ==> !(x is Draw),
    ensures
        ({
            let ch2 = if drawn { ch.push(ObjectField::Draw(true)) } else { ch };
            let ch3 = match extra {
                Some(x) => ch2.push(x),
                None => ch2,
            };
            ch3 != seq![ObjectField::Draw(false)]
        }),
{
    let ch2 = if drawn { ch.push(ObjectField::Draw(true)) } else { ch };
    let ch3 = match extra {
        Some(x) => ch2.push(x),
        None => ch2,
    };
    if ch3 == seq![ObjectField::Draw(false)] {
        assert(ch3[ch3.len() - 1] == ObjectField::Draw(false));
        if extra is None && !drawn {
            assert(ch[0] is Draw);
        }
    }
}

// ============================
// Entities
// ============================

/// Each entity of `g` either draws as the one at its position in `before`
/// did, or is seen and drawn; every entity past `before` is seen and drawn.
pub open spec fn entity_draws_kept(before: Seq<Entity>, g: Seq<Entity>) -> bool {
    &&& before.len() <= g.len()
    &&& forall|x: int|
        0 <= x < g.len() ==> (x < before.len() && (#[trigger] g[x]).draw == before[x].draw) || (g[x].seen
            && g[x].draw)
}

/// The messages that hide, in order of position, each entity drawn in
/// `before` and not in `after`, among the first `n`.
pub open spec fn entity_hides(before: Seq<Entity>, after: Seq<Entity>, n: nat) -> Seq<MessageView>
    decreases n,
{
    if n == 0 {
        seq![]
    } else {
        let x = n - 1;
        let rest = entity_hides(before, after, (n - 1) as nat);
        if x < before.len() && before[x].draw && !after[x].draw {
            rest.push(MessageView::UpdateObject(Object::Entity(after[x]), seq![ObjectField::Draw(false)]))
        } else {
            rest
        }
    }
}

/// Recording edicts hides nothing, and keeps the drawing of every entity
/// it does not mark seen and drawn.
proof fn lemma_entities_fold_hides(
    es: Seq<Entity>,
    en: Map<usize, usize>,
    map: Map<usize, usize>,
    precache: Seq<usize>,
    edicts: Seq<(usize, EntityState)>,
    before: Seq<Entity>,
)
    requires
        indices_below(en, es.len()),
        entity_draws_kept(before, es),
    ensures
        ({
            let f = entities_fold(es, en, map, precache, edicts);
            &&& entity_draws_kept(before, f.0)
            &&& indices_below(f.1, f.0.len())
            &&& no_hides(f.2)
        }),
    decreases edicts.len(),
{
    if edicts.len() > 0 {
        lemma_entities_fold_hides(es, en, map, precache, edicts.drop_last(), before);
        let prev = entities_fold(es, en, map, precache, edicts.drop_last());
        let a = edicts.last().0;
        let st = edicts.last().1;
        crate::recorder::lemma_entity_step_indices(prev.0, prev.1, map, precache, a, st);
        let step = entity_step(prev.0, prev.1, map, precache, a, st);
        if prev.1.contains_key(a) {
            let idx = prev.1[a] as int;
            let existing = prev.0[idx];
            if !existing.seen && existing.model == st.model {
                let seen = Entity { seen: true, ..existing };
                let u = crate::objects::entity_updated(seen, st);
                let ch = entity_changes(seen, st);
                lemma_entity_changes_no_draw(seen, st);
                let u2 = if !u.draw { Entity { draw: true, ..u } } else { u };
                let ch2 = if !u.draw { ch.push(ObjectField::Draw(true)) } else { ch };
                let weapon_changed = u2.weaponmodel != st.weaponmodel;
                let extra = if weapon_changed {
                    Some(ObjectField::WeaponModel(crate::recorder::weapon_model_index(map, precache, st)))
                } else {
                    None
                };
                lemma_not_hide_list(ch, !u.draw, extra);
                assert(step.0 == prev.0.update(idx, u2));
                assert forall|x: int| 0 <= x < step.0.len() implies (x < before.len() && (#[trigger] step.0[x]).draw
                    == before[x].draw) || (step.0[x].seen && step.0[x].draw) by {
                    if x != idx {
                        assert(step.0[x] == prev.0[x]);
                    }
                }
            } else if !existing.seen {
                assert forall|x: int| 0 <= x < step.0.len() implies (x < before.len() && (#[trigger] step.0[x]).draw
                    == before[x].draw) || (step.0[x].seen && step.0[x].draw) by {
                    if x < prev.0.len() {
                        assert(step.0[x] == prev.0[x]);
                    }
                }
            }
        } else if st.model != 0 {
            assert forall|x: int| 0 <= x < step.0.len() implies (x < before.len() && (#[trigger] step.0[x]).draw
                == before[x].draw) || (step.0[x].seen && step.0[x].draw) by {
                if x < prev.0.len() {
                    assert(step.0[x] == prev.0[x]);
                }
            }
        }
        assert(no_hides(step.2));
        lemma_no_hides_add(prev.2, step.2);
    }
}

/// Hiding the unseen drawn entities among the first `n` sends exactly the
/// messages that hide each entity drawn before the frame and not after it.
proof fn lemma_hide_entities_list(before: Seq<Entity>, g: Seq<Entity>, n: nat)
    requires
        entity_draws_kept(before, g),
        n <= g.len(),
    ensures
        hide_unseen_entities(g, n).1 == entity_hides(before, hide_unseen_entities(g, g.len()).0, n),
        hide_messages(hide_unseen_entities(g, n).1) == hide_unseen_entities(g, n).1,
    decreases n,
{
    lemma_hide_unseen_entities_at(g, g.len());
    if n > 0 {
        lemma_hide_entities_list(before, g, (n - 1) as nat);
        lemma_hide_unseen_entities_at(g, (n - 1) as nat);
        let x = n - 1;
        let after = hide_unseen_entities(g, g.len()).0;
        let prev = hide_unseen_entities(g, (n - 1) as nat);
        assert(prev.0[x] == g[x]);
        assert(g[x].draw == before[x].draw || (g[x].seen && g[x].draw));
        if !g[x].seen && g[x].draw {
            let m = MessageView::UpdateObject(Object::Entity(Entity { draw: false, ..g[x] }), seq![ObjectField::Draw(false)]);
            assert(prev.1.push(m).drop_last() =~= prev.1);
        }
    }
}

// ============================
// Beams and beam entities
// ============================

/// Each beam of `g` either draws as the one at its position in `before`
/// did, or is seen and drawn; every beam past `before` is seen and drawn.
pub open spec fn beam_draws_kept(before: Seq<Beam>, g: Seq<Beam>) -> bool {
    &&& before.len() <= g.len()
    &&& forall|x: int|
        0 <= x < g.len() ==> (x < before.len() && (#[trigger] g[x]).draw == before[x].draw) || (g[x].seen
            && g[x].draw)
}

/// The messages that hide, in order of position, each beam drawn in
/// `before` and not in `after`, among the first `n`.
pub open spec fn beam_hides(before: Seq<Beam>, after: Seq<Beam>, n: nat) -> Seq<MessageView>
    decreases n,
{
    if n == 0 {
        seq![]
    } else {
        let x = n - 1;
        let rest = beam_hides(before, after, (n - 1) as nat);
        if x < before.len() && before[x].draw && !after[x].draw {
            rest.push(MessageView::UpdateObject(Object::Beam(after[x]), seq![ObjectField::Draw(false)]))
        } else {
            rest
        }
    }
}

/// Recording active beams hides nothing, and keeps the drawing of every
/// beam it does not mark seen.
proof fn lemma_beams_fold_hides(
    bs: Seq<Beam>,
    en: Map<usize, usize>,
    map: Map<usize, usize>,
    precache: Seq<usize>,
    beams: Seq<(usize, BeamState)>,
    before: Seq<Beam>,
)
    requires
        indices_below(en, bs.len()),
        beam_draws_kept(before, bs),
    ensures
        ({
            let f = beams_fold(bs, en, map, precache, beams);
            &&& beam_draws_kept(before, f.0)
            &&& indices_below(f.1, f.0.len())
            &&& no_hides(f.2)
        }),
    decreases beams.len(),
{
    if beams.len() > 0 {
        lemma_beams_fold_hides(bs, en, map, precache, beams.drop_last(), before);
        let prev = beams_fold(bs, en, map, precache, beams.drop_last());
        let a = beams.last().0;
        let st = beams.last().1;
        let mi = crate::recorder::beam_model_index(map, precache, st);
        let step = beam_step(prev.0, prev.1, map, precache, a, st);
        if prev.1.contains_key(a) && prev.0[prev.1[a] as int].model_index == mi {
            let idx = prev.1[a] as int;
            let seen = Beam { seen: true, ..prev.0[idx] };
            let u = crate::objects::beam_updated(seen, st);
            lemma_beam_changes_no_draw(seen, st);
            lemma_not_hide_list(beam_changes(seen, st), false, None);
            assert(step.0 == prev.0.update(idx, u));
            assert forall|x: int| 0 <= x < step.0.len() implies (x < before.len() && (#[trigger] step.0[x]).draw
                == before[x].draw) || (step.0[x].seen && step.0[x].draw) by {
                if x != idx {
                    assert(step.0[x] == prev.0[x]);
                } else {
                    assert(prev.0[x].draw == before[x].draw || (prev.0[x].seen && prev.0[x].draw));
                }
            }
        } else {
            assert forall|x: int| 0 <= x < step.0.len() implies (x < before.len() && (#[trigger] step.0[x]).draw
                == before[x].draw) || (step.0[x].seen && step.0[x].draw) by {
                if x < prev.0.len() {
                    assert(step.0[x] == prev.0[x]);
                }
            }
        }
        assert(no_hides(step.2));
        lemma_no_hides_add(prev.2, step.2);
    }
}

/// Recording beam entities hides nothing, and keeps the drawing of every
/// beam it does not mark seen and drawn.
proof fn lemma_beam_entities_fold_hides(
    bs: Seq<Beam>,
    en: Map<usize, usize>,
    map: Map<usize, usize>,
    precache: Seq<usize>,
    beams: Seq<(usize, Option<BeamState>)>,
    before: Seq<Beam>,
)
    requires
        indices_below(en, bs.len()),
        en.dom().finite(),
        en.dom().len() <= bs.len(),
        beam_draws_kept(before, bs),
    ensures
        ({
            let f = beam_entities_fold(bs, en, map, precache, beams);
            &&& beam_draws_kept(before, f.0)
            &&& indices_below(f.1, f.0.len())
            &&& f.1.dom().finite()
            &&& f.1.dom().len() <= f.0.len()
            &&& no_hides(f.2)
        }),
    decreases beams.len(),
{
    if beams.len() > 0 {
        lemma_beam_entities_fold_hides(bs, en, map, precache, beams.drop_last(), before);
        let prev = beam_entities_fold(bs, en, map, precache, beams.drop_last());
        let a = beams.last().0;
        let step = beam_entity_step(prev.0, prev.1, map, precache, a, beams.last().1);
        match beams.last().1 {
            None => {},
            Some(st) => {
                let mi = crate::recorder::beam_model_index(map, precache, st);
                if prev.1.contains_key(a) {
                    let idx = prev.1[a] as int;
                    let existing = prev.0[idx];
                    assert(prev.1.insert(a, prev.0.len() as usize).dom() =~= prev.1.dom());
                    if existing.model_index == mi {
                        let seen = Beam { seen: true, ..existing };
                        let u = crate::objects::beam_updated(seen, st);
                        let u2 = if !u.draw { Beam { draw: true, ..u } } else { u };
                        lemma_beam_changes_no_draw(seen, st);
                        lemma_not_hide_list(beam_changes(seen, st), !u.draw, None);
                        assert(step.0 == prev.0.update(idx, u2));
                        assert forall|x: int| 0 <= x < step.0.len() implies (x < before.len() && (
                        #[trigger] step.0[x]).draw == before[x].draw) || (step.0[x].seen && step.0[x].draw) by {
                            if x != idx {
                                assert(step.0[x] == prev.0[x]);
                            }
                        }
                    } else {
                        assert forall|x: int| 0 <= x < step.0.len() implies (x < before.len() && (
                        #[trigger] step.0[x]).draw == before[x].draw) || (step.0[x].seen && step.0[x].draw) by {
                            if x < prev.0.len() {
                                assert(step.0[x] == prev.0[x]);
                            }
                        }
                    }
                } else {
                    assert(prev.1.insert(a, prev.1.dom().len() as usize).dom() =~= prev.1.dom().insert(a));
                    assert forall|x: int| 0 <= x < step.0.len() implies (x < before.len() && (
                    #[trigger] step.0[x]).draw == before[x].draw) || (step.0[x].seen && step.0[x].draw) by {
                        if x < prev.0.len() {
                            assert(step.0[x] == prev.0[x]);
                        }
                    }
                }
            },
        }
        assert(no_hides(step.2));
        lemma_no_hides_add(prev.2, step.2);
    }
}

/// Hiding the unseen drawn beams among the first `n` sends exactly the
/// messages that hide each beam drawn before the frame and not after it.
proof fn lemma_hide_beams_list(before: Seq<Beam>, g: Seq<Beam>, n: nat)
    requires
        beam_draws_kept(before, g),
        n <= g.len(),
    ensures
        hide_unseen_beams(g, n).1 == beam_hides(before, hide_unseen_beams(g, g.len()).0, n),
        hide_messages(hide_unseen_beams(g, n).1) == hide_unseen_beams(g, n).1,
    decreases n,
{
    lemma_hide_unseen_beams_at(g, g.len());
    if n > 0 {
        lemma_hide_beams_list(before, g, (n - 1) as nat);
        lemma_hide_unseen_beams_at(g, (n - 1) as nat);
        let x = n - 1;
        let prev = hide_unseen_beams(g, (n - 1) as nat);
        assert(prev.0[x] == g[x]);
        assert(g[x].draw == before[x].draw || (g[x].seen && g[x].draw));
        if !g[x].seen && g[x].draw {
            let m = MessageView::UpdateObject(Object::Beam(Beam { draw: false, ..g[x] }), seq![ObjectField::Draw(false)]);
            assert(prev.1.push(m).drop_last() =~= prev.1);
        }
    }
}

// ============================
// A whole frame
// ============================

/// The message that hides the view model, where it was drawn before the
/// frame and is not after it.
pub open spec fn viewent_hides(before: Option<ViewEnt>, after: Option<ViewEnt>) -> Seq<MessageView> {
    match (before, after) {
        (Some(l), Some(v)) => if l.draw && !v.draw {
            seq![MessageView::UpdateObject(Object::ViewEnt(v), seq![ObjectField::Draw(false)])]
        } else {
            seq![]
        },
        _ => seq![],
    }
}

proof fn lemma_players_fold_no_hides(players: Seq<PlayerInfo>, states: Seq<PlayerInfoState>, n: nat)
    ensures
        no_hides(players_fold(players, states, n).1),
    decreases n,
{
    if n > 0 {
        lemma_players_fold_no_hides(players, states, (n - 1) as nat);
    }
}

/// The messages of a frame that stop drawing an object are exactly one for
/// each object whose drawing the frame turned off, in this order: the view
/// model, then the entities, the active beams and the beam entities, each
/// list by position. Each such message carries the object as the frame
/// leaves it.
#[verifier::rlimit(50)]
#[verifier::spinoff_prover]
pub proof fn lemma_frame_hides(r: RecorderView, f: FrameSnapshot)
    requires
        r.wf(),
    ensures
        ({
            let r1 = frame_step(r, f).0;
            hide_messages(frame_step(r, f).1) == viewent_hides(r.last_viewent, r1.last_viewent) + entity_hides(
                r.entities,
                r1.entities,
                r1.entities.len(),
            ) + beam_hides(r.beams, r1.beams, r1.beams.len()) + beam_hides(
                r.beam_entities,
                r1.beam_entities,
                r1.beam_entities.len(),
            )
        }),
{
    let s1 = crate::recorder::models_step(r, f.known_models@);
    let s2 = crate::recorder::viewentity_step(s1.0, f.viewentity);
    let s3 = crate::recorder::camera_step(s2.0, f.camera);
    let s4 = crate::recorder::players_step(s3.0, f.players@);
    let s5 = crate::recorder::viewent_step(s4.0, f.health, f.viewent);
    let s6 = crate::recorder::entities_step(s5.0, f.visible_edicts@, f.model_precache@);
    let s7 = crate::recorder::beams_step(s6.0, f.beams@, f.model_precache@);
    let s8 = crate::recorder::beam_entities_step(s7.0, f.beam_entities@, f.model_precache@);
    let s9 = crate::recorder::decals_step(s8.0, f.decals@);
    let s10 = crate::recorder::lightstyles_step(s9.0, f.lightstyles@);
    let r1 = frame_step(r, f).0;
    let precache = f.model_precache@;
    let empty = Seq::<MessageView>::empty();

    // Messages that hide nothing.
    assert(no_hides(s1.1));
    lemma_no_hides(s1.1);
    assert(no_hides(s2.1));
    lemma_no_hides(s2.1);
    match s2.0.last_camera {
        Some(last) => {
            let c = seq![
                (!crate::float_bits::f32x3_eq(last.origin, f.camera.origin), ObjectField::Origin(f.camera.origin)),
                (!crate::float_bits::f32x3_eq(last.angles, f.camera.angles), ObjectField::Angles(f.camera.angles)),
                (!crate::float_bits::f32_eq(last.fov, f.camera.fov), ObjectField::Fov(f.camera.fov)),
            ];
            assert(no_draw_candidate(c));
            lemma_keep_changed_no_draw(c);
            lemma_not_hide_list(keep_changed(c), false, None);
        },
        None => {},
    }
    assert(no_hides(s3.1));
    lemma_no_hides(s3.1);
    lemma_players_fold_no_hides(s3.0.players, f.players@, crate::recorder::player_count(s3.0, f.players@));
    lemma_no_hides(s4.1);
    assert(no_hides(s9.1));
    lemma_no_hides(s9.1);
    assert(no_hides(s10.1));
    lemma_no_hides(s10.1);

    // The view model.
    let v = viewent_hides(r.last_viewent, r1.last_viewent);
    assert(r1.last_viewent == s5.0.last_viewent);
    assert(r.last_viewent == s4.0.last_viewent);
    match s4.0.last_viewent {
        Some(last) => {
            if !crate::recorder::viewent_hidden(f.health, f.viewent) {
                let u = crate::objects::viewent_updated(last, f.viewent);
                let ch = viewent_changes(last, f.viewent);
                lemma_viewent_changes_no_draw(last, f.viewent);
                let u2 = if !u.draw { ViewEnt { draw: true, ..u } } else { u };
                let extra = if u2.model != f.viewent.model {
                    Some(ObjectField::ModelIndex(s4.0.model_index_map[f.viewent.model] as u32))
                } else {
                    None
                };
                lemma_not_hide_list(ch, !u.draw, extra);
                assert(no_hides(s5.1));
                lemma_no_hides(s5.1);
            } else if last.draw {
                let l2 = ViewEnt { draw: false, ..last };
                let m = MessageView::UpdateObject(Object::ViewEnt(l2), seq![ObjectField::Draw(false)]);
                assert(s5.1 == seq![m]);
                assert(is_hide(m));
                assert(seq![m].drop_last() =~= empty);
                assert(hide_messages(seq![m]) == hide_messages(empty).push(m));
                assert(hide_messages(empty).push(m) =~= seq![m]);
                assert(r1.last_viewent == Some(l2));
                assert(v == seq![m]);
            } else {
                assert(no_hides(s5.1));
                lemma_no_hides(s5.1);
            }
        },
        None => {
            assert(no_hides(s5.1));
            lemma_no_hides(s5.1);
        },
    }
    assert(hide_messages(s5.1) == v);

    // Entities.
    let es0 = unseen_entities(r.entities);
    assert(entity_draws_kept(r.entities, es0));
    lemma_entities_fold_hides(es0, r.engine_entities, s5.0.model_index_map, precache, f.visible_edicts@, r.entities);
    let fe = entities_fold(es0, r.engine_entities, s5.0.model_index_map, precache, f.visible_edicts@);
    lemma_hide_entities_list(r.entities, fe.0, fe.0.len());
    lemma_hide_unseen_entities_at(fe.0, fe.0.len());
    let he = hide_unseen_entities(fe.0, fe.0.len());
    assert(s6.1 == fe.2 + he.1);
    assert(r1.entities == he.0);
    lemma_no_hides(fe.2);
    lemma_hide_messages_add(fe.2, he.1);
    assert(hide_messages(s6.1) == entity_hides(r.entities, r1.entities, r1.entities.len()));

    // Active beams.
    let b0 = unmark_referenced(r.beams, r.engine_beams);
    assert(beam_draws_kept(r.beams, b0));
    lemma_beams_fold_hides(b0, r.engine_beams, s6.0.model_index_map, precache, f.beams@, r.beams);
    let fb = beams_fold(b0, r.engine_beams, s6.0.model_index_map, precache, f.beams@);
    lemma_hide_beams_list(r.beams, fb.0, fb.0.len());
    lemma_hide_unseen_beams_at(fb.0, fb.0.len());
    let hb = hide_unseen_beams(fb.0, fb.0.len());
    assert(s7.1 == fb.2 + hb.1);
    assert(r1.beams == hb.0);
    lemma_no_hides(fb.2);
    lemma_hide_messages_add(fb.2, hb.1);
    assert(hide_messages(s7.1) == beam_hides(r.beams, r1.beams, r1.beams.len()));

    // Beam entities.
    let be0 = unseen_beams(r.beam_entities);
    assert(beam_draws_kept(r.beam_entities, be0));
    lemma_beam_entities_fold_hides(
        be0,
        r.engine_beam_entities,
        s7.0.model_index_map,
        precache,
        f.beam_entities@,
        r.beam_entities,
    );
    let fbe = beam_entities_fold(be0, r.engine_beam_entities, s7.0.model_index_map, precache, f.beam_entities@);
    lemma_hide_beams_list(r.beam_entities, fbe.0, fbe.0.len());
    lemma_hide_unseen_beams_at(fbe.0, fbe.0.len());
    let hbe = hide_unseen_beams(fbe.0, fbe.0.len());
    assert(s8.1 == fbe.2 + hbe.1);
    assert(r1.beam_entities == hbe.0);
    lemma_no_hides(fbe.2);
    lemma_hide_messages_add(fbe.2, hbe.1);
    assert(hide_messages(s8.1) == beam_hides(r.beam_entities, r1.beam_entities, r1.beam_entities.len()));

    // The whole frame.
    lemma_hide_messages_add(s1.1, s2.1);
    lemma_hide_messages_add(s1.1 + s2.1, s3.1);
    lemma_hide_messages_add(s1.1 + s2.1 + s3.1, s4.1);
    lemma_hide_messages_add(s1.1 + s2.1 + s3.1 + s4.1, s5.1);
    lemma_hide_messages_add(s1.1 + s2.1 + s3.1 + s4.1 + s5.1, s6.1);
    lemma_hide_messages_add(s1.1 + s2.1 + s3.1 + s4.1 + s5.1 + s6.1, s7.1);
    lemma_hide_messages_add(s1.1 + s2.1 + s3.1 + s4.1 + s5.1 + s6.1 + s7.1, s8.1);
    lemma_hide_messages_add(s1.1 + s2.1 + s3.1 + s4.1 + s5.1 + s6.1 + s7.1 + s8.1, s9.1);
    lemma_hide_messages_add(s1.1 + s2.1 + s3.1 + s4.1 + s5.1 + s6.1 + s7.1 + s8.1 + s9.1, s10.1);
    assert(frame_step(r, f).1 == s1.1 + s2.1 + s3.1 + s4.1 + s5.1 + s6.1 + s7.1 + s8.1 + s9.1 + s10.1);
    assert(empty + empty + empty + empty + hide_messages(s5.1) + hide_messages(s6.1) + hide_messages(s7.1)
        + hide_messages(s8.1) + empty + empty =~= hide_messages(s5.1) + hide_messages(s6.1) + hide_messages(s7.1)
        + hide_messages(s8.1));
}

} // verus!
