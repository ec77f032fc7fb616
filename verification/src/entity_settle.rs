//! Recording the same visible entities twice: the second time sends
//! nothing.
//!
//! This holds where each engine entity appears with one state, no float the
//! check compares is a NaN, no two engine entities share a tracked object,
//! and a tracked entity that keeps its model keeps the weapon model it was
//! first recorded with (the weapon model is compared with that first one on
//! every frame, so a later change is sent again every frame).

use vstd::prelude::*;
use crate::fields::ObjectField;
use crate::float_bits::{f32_eq, f32x3_eq};
use crate::message::MessageView;
use crate::objects::{entity_candidates, entity_changes, entity_from, entity_origin, entity_updated, Entity};
use crate::recorder::{
    entities_fold, entities_step, entity_step, hide_unseen_entities, indices_below, unseen_entities,
    unseen_entity, weapon_model_index, RecorderView,
};
use crate::settle::{entity_floats_ok, lemma_f32_taken_over, lemma_f32x3_taken_over, lemma_keep_changed_none};
use crate::snapshot::EntityState;

verus! {

/// No two keys of `m` map to the same value.
pub open spec fn injective(m: Map<usize, usize>) -> bool {
    forall|a: usize, b: usize| m.contains_key(a) && m.contains_key(b) && a != b ==> m[a] != m[b]
}

/// Each address of `edicts` comes with one state.
pub open spec fn consistent_edicts(edicts: Seq<(usize, EntityState)>) -> bool {
    forall|i: int, j: int|
        0 <= i < edicts.len() && 0 <= j < edicts.len() && (#[trigger] edicts[i]).0 == (#[trigger] edicts[j]).0
            ==> edicts[i].1 == edicts[j].1
}

/// Every field the entity check compares is equal between `e` and `s`.
pub open spec fn entity_quiet(e: Entity, s: EntityState) -> bool {
    &&& f32x3_eq(e.origin, entity_origin(s))
    &&& f32x3_eq(e.angles, s.angles)
    &&& e.sequence == s.sequence
    &&& f32_eq(e.animtime, s.animtime)
    &&& f32_eq(e.framerate, s.framerate)
    &&& e.body == s.body
    &&& f32_eq(e.frame, s.frame)
    &&& f32_eq(e.scale, s.scale)
    &&& e.rendermode == s.rendermode
    &&& e.renderamt == s.renderamt
    &&& e.rendercolor@ == s.rendercolor@
    &&& e.renderfx == s.renderfx
    &&& e.gaitsequence == s.gaitsequence
    &&& e.movetype == s.movetype
    &&& e.prevsequence == s.prevsequence
    &&& f32_eq(e.sequencetime, s.sequencetime)
    &&& e.prevseqblending@ == s.prevseqblending@
    &&& f32_eq(e.prevanimtime, s.prevanimtime)
    &&& f32x3_eq(e.prevorigin, s.prevorigin)
    &&& f32x3_eq(e.prevangles, s.prevangles)
}

/// An entity that was recorded this frame with the state `s` and would
/// send nothing more for it.
pub open spec fn entity_settled(e: Entity, s: EntityState) -> bool {
    &&& e.seen
    &&& e.draw
    &&& e.model == s.model
    &&& e.weaponmodel == s.weaponmodel
    &&& entity_quiet(e, s)
}

/// A quiet entity reports no change and takes over nothing.
proof fn lemma_quiet_entity(e: Entity, s: EntityState)
    requires
        entity_quiet(e, s),
    ensures
        entity_changes(e, s) == Seq::<ObjectField>::empty(),
        entity_updated(e, s) == e,
{
    let c = entity_candidates(e, s);
    assert forall|i: int| 0 <= i < c.len() implies !(#[trigger] c[i]).0 by {}
    lemma_keep_changed_none(c);
    let u = entity_updated(e, s);
    assert(u.rendercolor@ =~= e.rendercolor@);
    assert(u.prevseqblending@ =~= e.prevseqblending@);
    assert(u == e);
}

/// An entity that took over `s` is quiet against it, unless a float of `s`
/// is a NaN.
proof fn lemma_updated_entity_quiet(e: Entity, s: EntityState)
    requires
        entity_floats_ok(s),
    ensures
        entity_quiet(entity_updated(e, s), s),
{
    lemma_f32x3_taken_over(e.origin, entity_origin(s));
    lemma_f32x3_taken_over(e.angles, s.angles);
    lemma_f32_taken_over(e.animtime, s.animtime);
    lemma_f32_taken_over(e.framerate, s.framerate);
    lemma_f32_taken_over(e.frame, s.frame);
    lemma_f32_taken_over(e.scale, s.scale);
    lemma_f32_taken_over(e.sequencetime, s.sequencetime);
    lemma_f32_taken_over(e.prevanimtime, s.prevanimtime);
    lemma_f32x3_taken_over(e.prevorigin, s.prevorigin);
    lemma_f32x3_taken_over(e.prevangles, s.prevangles);
}

/// An entity made of `s` is settled for it, unless a float of `s` is a NaN.
proof fn lemma_new_entity_settled(s: EntityState, id: u32, model_index: usize, weapon: Option<u32>)
    requires
        entity_floats_ok(s),
    ensures
        entity_settled(entity_from(s, id, model_index, weapon), s),
{
    reveal(f32_eq);
}

/// `a` is the address of one of the first `k` edicts.
pub open spec fn processed(edicts: Seq<(usize, EntityState)>, k: int, a: usize) -> bool {
    exists|j: int| 0 <= j < k && (#[trigger] edicts[j]).0 == a
}

/// What holds of the entities after the first `k` edicts of a frame are
/// recorded, starting from `es0` and `en0`.
pub open spec fn first_pass_inv(
    es0: Seq<Entity>,
    en0: Map<usize, usize>,
    edicts: Seq<(usize, EntityState)>,
    k: int,
    es: Seq<Entity>,
    en: Map<usize, usize>,
) -> bool {
    &&& indices_below(en, es.len())
    &&& es0.len() <= es.len() <= es0.len() + k
    &&& injective(en)
    &&& forall|j: int|
        0 <= j < k ==> (en.contains_key((#[trigger] edicts[j]).0) ==> entity_settled(es[en[edicts[j].0] as int], edicts[j].1))
            && (!en.contains_key(edicts[j].0) ==> edicts[j].1.model == 0)
    &&& forall|x: int|
        0 <= x < es.len() && (#[trigger] es[x]).seen ==> exists|j: int|
            0 <= j < k && en.contains_key((#[trigger] edicts[j]).0) && en[edicts[j].0] == x
    &&& forall|a: usize|
        #[trigger] en.contains_key(a) && !processed(edicts, k, a) ==> en0.contains_key(a) && en[a] == en0[a] && es[en[a] as int]
            == es0[en0[a] as int]
}

/// The conditions on the recorder and the frame under which recording the
/// same edicts twice sends nothing the second time.
pub open spec fn entities_settle_ok(r: RecorderView, edicts: Seq<(usize, EntityState)>) -> bool {
    &&& indices_below(r.engine_entities, r.entities.len())
    &&& r.entities.len() + edicts.len() < usize::MAX
    &&& injective(r.engine_entities)
    &&& consistent_edicts(edicts)
    &&& forall|i: int| 0 <= i < edicts.len() ==> entity_floats_ok(#[trigger] edicts[i].1)
    &&& forall|i: int|
        0 <= i < edicts.len() && r.engine_entities.contains_key((#[trigger] edicts[i]).0) && r.entities[r.engine_entities[edicts[i].0] as int].model
            == edicts[i].1.model ==> r.entities[r.engine_entities[edicts[i].0] as int].weaponmodel == edicts[i].1.weaponmodel
}

/// One edict of the first recording keeps the invariant.
#[verifier::spinoff_prover]
proof fn lemma_first_pass_step(
    r: RecorderView,
    map: Map<usize, usize>,
    precache: Seq<usize>,
    edicts: Seq<(usize, EntityState)>,
    k: int,
)
    requires
        entities_settle_ok(r, edicts),
        0 <= k < edicts.len(),
        ({
            let f = entities_fold(unseen_entities(r.entities), r.engine_entities, map, precache, edicts.take(k));
            first_pass_inv(unseen_entities(r.entities), r.engine_entities, edicts, k, f.0, f.1)
        }),
    ensures
        ({
            let f = entities_fold(unseen_entities(r.entities), r.engine_entities, map, precache, edicts.take(k + 1));
            first_pass_inv(unseen_entities(r.entities), r.engine_entities, edicts, k + 1, f.0, f.1)
        }),
{
    let es0 = unseen_entities(r.entities);
    let en0 = r.engine_entities;
    let f = entities_fold(es0, en0, map, precache, edicts.take(k));
    let es = f.0;
    let en = f.1;
    assert(edicts.take(k + 1).drop_last() =~= edicts.take(k));
    assert(edicts.take(k + 1).last() == edicts[k]);
    let a = edicts[k].0;
    let s = edicts[k].1;
    let step = entity_step(es, en, map, precache, a, s);
    let es2 = step.0;
    let en2 = step.1;
    assert(entity_floats_ok(edicts[k].1));
    assert forall|b: usize| processed(edicts, k + 1, b) <==> (processed(edicts, k, b) || b == a) by {
        if processed(edicts, k + 1, b) {
            let j = choose|j: int| 0 <= j < k + 1 && (#[trigger] edicts[j]).0 == b;
            if j < k {
                assert(processed(edicts, k, b));
            }
        }
        if b == a {
            assert(edicts[k].0 == b);
        }
        if processed(edicts, k, b) {
            let j = choose|j: int| 0 <= j < k && (#[trigger] edicts[j]).0 == b;
            assert(0 <= j < k + 1 && edicts[j].0 == b);
        }
    }
    if en.contains_key(a) {
        let idx = en[a] as int;
        let e = es[idx];
        if e.seen {
            let j = choose|j: int| 0 <= j < k && en.contains_key((#[trigger] edicts[j]).0) && en[edicts[j].0] == idx;
            assert(edicts[j].0 == a);
            assert(edicts[j].1 == s);
            assert(es2 == es && en2 == en);
            assert(first_pass_inv(es0, en0, edicts, k + 1, es2, en2)) by {
                assert forall|jj: int|
                    0 <= jj < k + 1 implies (en2.contains_key((#[trigger] edicts[jj]).0) ==> entity_settled(
                    es2[en2[edicts[jj].0] as int],
                    edicts[jj].1,
                )) && (!en2.contains_key(edicts[jj].0) ==> edicts[jj].1.model == 0) by {
                    if jj == k {
                        assert(edicts[jj] == edicts[j] || edicts[jj].0 == edicts[j].0);
                    }
                }
                assert forall|x: int| 0 <= x < es2.len() && (#[trigger] es2[x]).seen implies exists|jj: int|
                    0 <= jj < k + 1 && en2.contains_key((#[trigger] edicts[jj]).0) && en2[edicts[jj].0] == x by {
                    let w = choose|w: int| 0 <= w < k && en.contains_key((#[trigger] edicts[w]).0) && en[edicts[w].0] == x;
                    assert(0 <= w < k + 1);
                }
            }
        } else {
            assert(!processed(edicts, k, a)) by {
                if processed(edicts, k, a) {
                    let j = choose|j: int| 0 <= j < k && (#[trigger] edicts[j]).0 == a;
                    assert(entity_settled(es[en[edicts[j].0] as int], edicts[j].1));
                }
            }
            assert(en0.contains_key(a) && en[a] == en0[a] && es[idx] == es0[en0[a] as int]);
            if e.model != s.model {
                let n = entity_from(s, es.len() as u32, map[s.model], weapon_model_index(map, precache, s));
                lemma_new_entity_settled(s, es.len() as u32, map[s.model], weapon_model_index(map, precache, s));
                assert(es2 == es.push(n));
                assert(en2 == en.insert(a, es.len() as usize));
                assert(first_pass_inv(es0, en0, edicts, k + 1, es2, en2)) by {
                    assert forall|jj: int|
                        0 <= jj < k + 1 implies (en2.contains_key((#[trigger] edicts[jj]).0) ==> entity_settled(
                        es2[en2[edicts[jj].0] as int],
                        edicts[jj].1,
                    )) && (!en2.contains_key(edicts[jj].0) ==> edicts[jj].1.model == 0) by {
                        if jj < k {
                            if edicts[jj].0 == a {
                                assert(processed(edicts, k, a));
                            }
                            if en.contains_key(edicts[jj].0) {
                                assert(en[edicts[jj].0] < es.len());
                            }
                        } else {
                            assert(jj == k);
                        }
                    }
                    assert forall|x: int| 0 <= x < es2.len() && (#[trigger] es2[x]).seen implies exists|jj: int|
                        0 <= jj < k + 1 && en2.contains_key((#[trigger] edicts[jj]).0) && en2[edicts[jj].0] == x by {
                        if x < es.len() {
                            assert(es2[x] == es[x]);
                            let w = choose|w: int| 0 <= w < k && en.contains_key((#[trigger] edicts[w]).0) && en[edicts[w].0] == x;
                            if edicts[w].0 == a {
                                assert(processed(edicts, k, a));
                            }
                            assert(0 <= w < k + 1 && en2.contains_key(edicts[w].0) && en2[edicts[w].0] == x);
                        } else {
                            assert(0 <= k < k + 1 && en2.contains_key(edicts[k].0) && en2[edicts[k].0] == x);
                        }
                    }
                    assert forall|b: usize| #[trigger] en2.contains_key(b) && !processed(edicts, k + 1, b) implies en0.contains_key(b)
                        && en2[b] == en0[b] && es2[en2[b] as int] == es0[en0[b] as int] by {
                        assert(en.contains_key(b));
                        assert(en[b] < es.len());
                    }
                    assert forall|b1: usize, b2: usize|
                        en2.contains_key(b1) && en2.contains_key(b2) && b1 != b2 implies en2[b1] != en2[b2] by {
                        if b1 != a && b2 != a {
                        } else if b1 == a {
                            assert(en[b2] < es.len());
                        } else {
                            assert(en[b1] < es.len());
                        }
                    }
                }
            } else {
                let seen = Entity { seen: true, ..e };
                let u = entity_updated(seen, s);
                let u2 = if !u.draw { Entity { draw: true, ..u } } else { u };
                assert(r.entities[en0[a] as int].model == s.model);
                assert(r.entities[en0[a] as int].weaponmodel == s.weaponmodel);
                assert(e.weaponmodel == s.weaponmodel);
                lemma_updated_entity_quiet(seen, s);
                assert(entity_settled(u2, s));
                assert(es2 == es.update(idx, u2));
                assert(en2 == en);
                assert(first_pass_inv(es0, en0, edicts, k + 1, es2, en2)) by {
                    assert forall|jj: int|
                        0 <= jj < k + 1 implies (en2.contains_key((#[trigger] edicts[jj]).0) ==> entity_settled(
                        es2[en2[edicts[jj].0] as int],
                        edicts[jj].1,
                    )) && (!en2.contains_key(edicts[jj].0) ==> edicts[jj].1.model == 0) by {
                        if jj < k {
                            if edicts[jj].0 == a {
                                assert(processed(edicts, k, a));
                            }
                            if en.contains_key(edicts[jj].0) {
                                assert(en[edicts[jj].0] != en[a]);
                            }
                        }
                    }
                    assert forall|x: int| 0 <= x < es2.len() && (#[trigger] es2[x]).seen implies exists|jj: int|
                        0 <= jj < k + 1 && en2.contains_key((#[trigger] edicts[jj]).0) && en2[edicts[jj].0] == x by {
                        if x != idx {
                            assert(es2[x] == es[x]);
                            let w = choose|w: int| 0 <= w < k && en.contains_key((#[trigger] edicts[w]).0) && en[edicts[w].0] == x;
                            assert(0 <= w < k + 1);
                        } else {
                            assert(0 <= k < k + 1 && en2.contains_key(edicts[k].0) && en2[edicts[k].0] == x);
                        }
                    }
                    assert forall|b: usize| #[trigger] en2.contains_key(b) && !processed(edicts, k + 1, b) implies en0.contains_key(b)
                        && en2[b] == en0[b] && es2[en2[b] as int] == es0[en0[b] as int] by {
                        assert(b != a);
                        assert(en[b] != en[a]);
                    }
                }
            }
        }
    } else {
        if s.model != 0 {
            assert(!processed(edicts, k, a)) by {
                if processed(edicts, k, a) {
                    let j = choose|j: int| 0 <= j < k && (#[trigger] edicts[j]).0 == a;
                    assert(edicts[j].1 == s);
                }
            }
            let n = entity_from(s, es.len() as u32, map[s.model], weapon_model_index(map, precache, s));
            lemma_new_entity_settled(s, es.len() as u32, map[s.model], weapon_model_index(map, precache, s));
            assert(es2 == es.push(n));
            assert(en2 == en.insert(a, es.len() as usize));
            assert(first_pass_inv(es0, en0, edicts, k + 1, es2, en2)) by {
                assert forall|jj: int|
                    0 <= jj < k + 1 implies (en2.contains_key((#[trigger] edicts[jj]).0) ==> entity_settled(
                    es2[en2[edicts[jj].0] as int],
                    edicts[jj].1,
                )) && (!en2.contains_key(edicts[jj].0) ==> edicts[jj].1.model == 0) by {
                    if jj < k {
                        if edicts[jj].0 == a {
                            assert(processed(edicts, k, a));
                        }
                        if en.contains_key(edicts[jj].0) {
                            assert(en[edicts[jj].0] < es.len());
                        }
                    }
                }
                assert forall|x: int| 0 <= x < es2.len() && (#[trigger] es2[x]).seen implies exists|jj: int|
                    0 <= jj < k + 1 && en2.contains_key((#[trigger] edicts[jj]).0) && en2[edicts[jj].0] == x by {
                    if x < es.len() {
                        assert(es2[x] == es[x]);
                        let w = choose|w: int| 0 <= w < k && en.contains_key((#[trigger] edicts[w]).0) && en[edicts[w].0] == x;
                        assert(edicts[w].0 != a);
                        assert(0 <= w < k + 1 && en2.contains_key(edicts[w].0) && en2[edicts[w].0] == x);
                    } else {
                        assert(0 <= k < k + 1 && en2.contains_key(edicts[k].0) && en2[edicts[k].0] == x);
                    }
                }
                assert forall|b: usize| #[trigger] en2.contains_key(b) && !processed(edicts, k + 1, b) implies en0.contains_key(b)
                    && en2[b] == en0[b] && es2[en2[b] as int] == es0[en0[b] as int] by {
                    assert(en.contains_key(b));
                    assert(en[b] < es.len());
                }
                assert forall|b1: usize, b2: usize|
                    en2.contains_key(b1) && en2.contains_key(b2) && b1 != b2 implies en2[b1] != en2[b2] by {
                    if b1 != a && b2 != a {
                    } else if b1 == a {
                        assert(en[b2] < es.len());
                    } else {
                        assert(en[b1] < es.len());
                    }
                }
            }
        } else {
            assert(es2 == es && en2 == en);
            assert(first_pass_inv(es0, en0, edicts, k + 1, es2, en2)) by {
                assert forall|x: int| 0 <= x < es2.len() && (#[trigger] es2[x]).seen implies exists|jj: int|
                    0 <= jj < k + 1 && en2.contains_key((#[trigger] edicts[jj]).0) && en2[edicts[jj].0] == x by {
                    let w = choose|w: int| 0 <= w < k && en.contains_key((#[trigger] edicts[w]).0) && en[edicts[w].0] == x;
                    assert(0 <= w < k + 1);
                }
            }
        }
    }
}

/// The first recording of the edicts keeps the invariant throughout.
proof fn lemma_first_pass(
    r: RecorderView,
    map: Map<usize, usize>,
    precache: Seq<usize>,
    edicts: Seq<(usize, EntityState)>,
    k: int,
)
    requires
        entities_settle_ok(r, edicts),
        0 <= k <= edicts.len(),
    ensures
        ({
            let f = entities_fold(unseen_entities(r.entities), r.engine_entities, map, precache, edicts.take(k));
            first_pass_inv(unseen_entities(r.entities), r.engine_entities, edicts, k, f.0, f.1)
        }),
    decreases k,
{
    if k == 0 {
        assert(edicts.take(0) =~= Seq::<(usize, EntityState)>::empty());
        let es0 = unseen_entities(r.entities);
        assert forall|a: usize| #[trigger] r.engine_entities.contains_key(a) && !processed(edicts, 0, a) implies r.engine_entities.contains_key(a)
            && r.engine_entities[a] == r.engine_entities[a] && es0[r.engine_entities[a] as int] == es0[r.engine_entities[a] as int] by {}
    } else {
        lemma_first_pass(r, map, precache, edicts, k - 1);
        lemma_first_pass_step(r, map, precache, edicts, k - 1);
    }
}

/// Where hiding the unseen entities leaves each of the first `n`.
pub proof fn lemma_hide_unseen_entities_at(es: Seq<Entity>, n: nat)
    requires
        n <= es.len(),
    ensures
        hide_unseen_entities(es, n).0.len() == es.len(),
        forall|x: int|
            0 <= x < n ==> #[trigger] hide_unseen_entities(es, n).0[x] == if !es[x].seen && es[x].draw {
                Entity { draw: false, ..es[x] }
            } else {
                es[x]
            },
        forall|x: int| n <= x < es.len() ==> #[trigger] hide_unseen_entities(es, n).0[x] == es[x],
        (forall|x: int| 0 <= x < n ==> !(!(#[trigger] es[x]).seen && es[x].draw)) ==> hide_unseen_entities(es, n).1
            == Seq::<MessageView>::empty(),
    decreases n,
{
    if n > 0 {
        lemma_hide_unseen_entities_at(es, (n - 1) as nat);
    }
}

/// What holds of the entities after the first `k` edicts are recorded a
/// second time: nothing was sent, no engine entity changed its object, and
/// each object differs from what the first time left only in being seen.
pub open spec fn second_pass_inv(
    base: Seq<Entity>,
    es1: Seq<Entity>,
    en1: Map<usize, usize>,
    edicts: Seq<(usize, EntityState)>,
    k: int,
    g: (Seq<Entity>, Map<usize, usize>, Seq<MessageView>, bool),
) -> bool {
    &&& g.1 == en1
    &&& g.2 == Seq::<MessageView>::empty()
    &&& g.0.len() == base.len()
    &&& forall|x: int| 0 <= x < g.0.len() ==> unseen_entity(#[trigger] g.0[x]) == base[x]
    &&& forall|j: int| 0 <= j < k && en1.contains_key((#[trigger] edicts[j]).0) ==> g.0[en1[edicts[j].0] as int].seen
    &&& forall|x: int| 0 <= x < g.0.len() && (#[trigger] g.0[x]).seen ==> es1[x].seen
}

/// One edict of the second recording keeps the invariant.
#[verifier::spinoff_prover]
proof fn lemma_second_pass_step(
    r: RecorderView,
    map: Map<usize, usize>,
    precache: Seq<usize>,
    edicts: Seq<(usize, EntityState)>,
    k: int,
)
    requires
        entities_settle_ok(r, edicts),
        0 <= k < edicts.len(),
        ({
            let f = entities_fold(unseen_entities(r.entities), r.engine_entities, map, precache, edicts);
            let h = hide_unseen_entities(f.0, f.0.len()).0;
            let g = entities_fold(unseen_entities(h), f.1, map, precache, edicts.take(k));
            &&& first_pass_inv(unseen_entities(r.entities), r.engine_entities, edicts, edicts.len() as int, f.0, f.1)
            &&& second_pass_inv(unseen_entities(h), f.0, f.1, edicts, k, g)
        }),
    ensures
        ({
            let f = entities_fold(unseen_entities(r.entities), r.engine_entities, map, precache, edicts);
            let h = hide_unseen_entities(f.0, f.0.len()).0;
            let g = entities_fold(unseen_entities(h), f.1, map, precache, edicts.take(k + 1));
            second_pass_inv(unseen_entities(h), f.0, f.1, edicts, k + 1, g)
        }),
{
    let f = entities_fold(unseen_entities(r.entities), r.engine_entities, map, precache, edicts);
    let es1 = f.0;
    let en1 = f.1;
    lemma_hide_unseen_entities_at(es1, es1.len());
    let h = hide_unseen_entities(es1, es1.len()).0;
    let base = unseen_entities(h);
    let g = entities_fold(base, en1, map, precache, edicts.take(k));
    assert(edicts.take(k + 1).drop_last() =~= edicts.take(k));
    assert(edicts.take(k + 1).last() == edicts[k]);
    let a = edicts[k].0;
    let s = edicts[k].1;
    let step = entity_step(g.0, g.1, map, precache, a, s);
    let g2 = entities_fold(base, en1, map, precache, edicts.take(k + 1));
    assert(g2.0 == step.0 && g2.1 == step.1 && g2.2 == g.2 + step.2);
    if en1.contains_key(a) {
        let idx = en1[a] as int;
        assert(entity_settled(es1[idx], s));
        assert(h[idx] == es1[idx]);
        assert(unseen_entity(g.0[idx]) == base[idx]);
        let cur = g.0[idx];
        if cur.seen {
            assert(step.0 == g.0 && step.2 == Seq::<MessageView>::empty());
            assert(g2.2 =~= Seq::<MessageView>::empty());
        } else {
            let seen = Entity { seen: true, ..cur };
            assert(seen == es1[idx]);
            lemma_quiet_entity(es1[idx], s);
            assert(step.2 == Seq::<MessageView>::empty());
            assert(g2.2 =~= Seq::<MessageView>::empty());
            assert(step.0 == g.0.update(idx, es1[idx]));
            assert forall|x: int| 0 <= x < g2.0.len() implies unseen_entity(#[trigger] g2.0[x]) == base[x] by {
                if x != idx {
                    assert(g2.0[x] == g.0[x]);
                }
            }
            assert forall|j: int| 0 <= j < k + 1 && en1.contains_key((#[trigger] edicts[j]).0) implies g2.0[en1[edicts[j].0] as int].seen by {
                if en1[edicts[j].0] as int != idx {
                    assert(j < k);
                }
            }
            assert forall|x: int| 0 <= x < g2.0.len() && (#[trigger] g2.0[x]).seen implies es1[x].seen by {
                if x != idx {
                    assert(g2.0[x] == g.0[x]);
                }
            }
        }
    } else {
        assert(edicts[k].1.model == 0);
        assert(step.0 == g.0 && step.1 == g.1 && step.2 == Seq::<MessageView>::empty());
        assert(g2.2 =~= Seq::<MessageView>::empty());
    }
}

/// The second recording of the edicts keeps the invariant throughout.
proof fn lemma_second_pass(
    r: RecorderView,
    map: Map<usize, usize>,
    precache: Seq<usize>,
    edicts: Seq<(usize, EntityState)>,
    k: int,
)
    requires
        entities_settle_ok(r, edicts),
        0 <= k <= edicts.len(),
    ensures
        ({
            let f = entities_fold(unseen_entities(r.entities), r.engine_entities, map, precache, edicts);
            let h = hide_unseen_entities(f.0, f.0.len()).0;
            let g = entities_fold(unseen_entities(h), f.1, map, precache, edicts.take(k));
            second_pass_inv(unseen_entities(h), f.0, f.1, edicts, k, g)
        }),
    decreases k,
{
    let f = entities_fold(unseen_entities(r.entities), r.engine_entities, map, precache, edicts);
    lemma_first_pass(r, map, precache, edicts, edicts.len() as int);
    assert(edicts.take(edicts.len() as int) =~= edicts);
    lemma_hide_unseen_entities_at(f.0, f.0.len());
    if k == 0 {
        assert(edicts.take(0) =~= Seq::<(usize, EntityState)>::empty());
    } else {
        lemma_second_pass(r, map, precache, edicts, k - 1);
        lemma_second_pass_step(r, map, precache, edicts, k - 1);
    }
}

/// Recording the same visible entities twice sends nothing the second time,
/// wherever each engine entity appears with one state, no compared float is
/// a NaN, no two engine entities share a tracked object, and a tracked
/// entity that keeps its model keeps its weapon model.
#[verifier::spinoff_prover]
pub proof fn lemma_entities_step_settles(r: RecorderView, edicts: Seq<(usize, EntityState)>, precache: Seq<usize>)
    requires
        entities_settle_ok(r, edicts),
    ensures
        entities_step(entities_step(r, edicts, precache).0, edicts, precache).1 == Seq::<MessageView>::empty(),
        entities_step(entities_step(r, edicts, precache).0, edicts, precache).0 == entities_step(r, edicts, precache).0,
{
    let map = r.model_index_map;
    let f = entities_fold(unseen_entities(r.entities), r.engine_entities, map, precache, edicts);
    lemma_first_pass(r, map, precache, edicts, edicts.len() as int);
    lemma_second_pass(r, map, precache, edicts, edicts.len() as int);
    assert(edicts.take(edicts.len() as int) =~= edicts);
    lemma_hide_unseen_entities_at(f.0, f.0.len());
    let h = hide_unseen_entities(f.0, f.0.len()).0;
    let r1 = entities_step(r, edicts, precache).0;
    assert(r1.entities == h && r1.engine_entities == f.1 && r1.model_index_map == map);
    let g = entities_fold(unseen_entities(h), f.1, map, precache, edicts);
    lemma_hide_unseen_entities_at(g.0, g.0.len());
    assert forall|x: int| 0 <= x < g.0.len() implies !(!(#[trigger] g.0[x]).seen && g.0[x].draw) by {
        assert(unseen_entity(g.0[x]) == unseen_entities(h)[x]);
        if g.0[x].draw {
            assert(h[x].draw);
            assert(f.0[x].seen);
            let j = choose|j: int| 0 <= j < edicts.len() && f.1.contains_key((#[trigger] edicts[j]).0) && f.1[edicts[j].0] == x;
            assert(g.0[f.1[edicts[j].0] as int].seen);
        }
    }
    assert forall|x: int| 0 <= x < g.0.len() implies #[trigger] g.0[x] == h[x] by {
        assert(unseen_entity(g.0[x]) == unseen_entities(h)[x]);
        if f.0[x].seen {
            let j = choose|j: int| 0 <= j < edicts.len() && f.1.contains_key((#[trigger] edicts[j]).0) && f.1[edicts[j].0] == x;
            assert(g.0[f.1[edicts[j].0] as int].seen);
        }
        if g.0[x].seen {
            assert(f.0[x].seen);
        }
    }
    assert(g.0 =~= h);
    let h2 = hide_unseen_entities(g.0, g.0.len()).0;
    assert(h2 =~= g.0);
}

} // verus!
