//! Recording the same engine state twice: the parts of a frame that, once
//! recorded, send nothing more while the engine state stays the same.

use vstd::prelude::*;
use crate::decals::{decal_changed, lightstyle_pattern};
use crate::fields::ObjectField;
use crate::float_bits::{f32_eq, f32_is_nan, f32x3_eq};
use crate::objects::{viewent_candidates, viewent_changes, viewent_from, viewent_updated, Camera, ViewEnt};
use crate::message::MessageView;
use crate::players::{player_changes, PlayerInfo};
use crate::beam_settle::{
    beam_entities_settle_ok, beams_settle_ok, lemma_beam_entities_step_settles, lemma_beams_step_settles,
};
use crate::entity_settle::{entities_settle_ok, lemma_entities_step_settles};
use crate::recorder::{
    beam_entities_step, beams_step, camera_step, decals_fold, decals_step, entities_step, frame_step,
    lightstyles_fold, lightstyles_step, models_step, player_count, player_recorded, players_fold, players_step,
    viewent_hidden, viewent_step, viewentity_step, FrameSnapshot, RecorderView,
};
use crate::settle::{
    camera_floats_ok, lemma_camera_changes_settle, lemma_decal_settles, lemma_f32_taken_over,
    lemma_f32x3_taken_over, lemma_keep_changed_none, viewent_floats_ok,
};
use crate::snapshot::{DecalState, EntityState, LightstyleState, ModelState, PlayerInfoState};

verus! {

/// Once the models the engine knows are recorded, the same models send
/// nothing and change nothing.
pub proof fn lemma_models_step_settles(r: RecorderView, known: Seq<ModelState>)
    requires
        known.len() <= usize::MAX,
    ensures
        models_step(models_step(r, known).0, known).1 == Seq::<MessageView>::empty(),
        models_step(models_step(r, known).0, known).0 == models_step(r, known).0,
{
}

/// Once the view entity is recorded, the same view entity sends nothing and
/// changes nothing.
pub proof fn lemma_viewentity_step_settles(r: RecorderView, viewentity: i32)
    ensures
        viewentity_step(viewentity_step(r, viewentity).0, viewentity).1 == Seq::<MessageView>::empty(),
        viewentity_step(viewentity_step(r, viewentity).0, viewentity).0 == viewentity_step(r, viewentity).0,
{
}

/// Once the camera is recorded, the same camera sends nothing, unless one
/// of its floats is a NaN, and changes nothing.
pub proof fn lemma_camera_step_settles(r: RecorderView, camera: Camera)
    requires
        camera_floats_ok(camera),
    ensures
        camera_step(camera_step(r, camera).0, camera).1 == Seq::<MessageView>::empty(),
        camera_step(camera_step(r, camera).0, camera).0 == camera_step(r, camera).0,
{
    lemma_camera_changes_settle(camera);
}

/// After the first `n` player slots are recorded, each of them holds the
/// engine's info, and the others are as they were.
proof fn lemma_players_fold_records(players: Seq<PlayerInfo>, states: Seq<PlayerInfoState>, n: nat)
    requires
        n <= players.len(),
        n <= states.len(),
    ensures
        players_fold(players, states, n).0.len() == players.len(),
        forall|i: int| 0 <= i < n ==> #[trigger] players_fold(players, states, n).0[i] == player_recorded(states[i]),
        forall|i: int| n <= i < players.len() ==> #[trigger] players_fold(players, states, n).0[i] == players[i],
    decreases n,
{
    if n > 0 {
        lemma_players_fold_records(players, states, (n - 1) as nat);
    }
}

/// Recording player slots that already hold the engine's info changes
/// nothing and sends nothing.
proof fn lemma_players_fold_quiet(players: Seq<PlayerInfo>, states: Seq<PlayerInfoState>, n: nat)
    requires
        n <= players.len(),
        n <= states.len(),
        forall|i: int| 0 <= i < n ==> #[trigger] players[i] == player_recorded(states[i]),
    ensures
        players_fold(players, states, n).0 == players,
        players_fold(players, states, n).1 == Seq::<MessageView>::empty(),
    decreases n,
{
    if n > 0 {
        lemma_players_fold_quiet(players, states, (n - 1) as nat);
        let i = n - 1;
        assert(player_changes(players[i], states[i]) =~= Seq::<crate::players::PlayerField>::empty());
        assert(players.update(i, player_recorded(states[i])) =~= players);
    }
}

/// Once the player slots are recorded, the same player info sends nothing
/// and changes nothing.
pub proof fn lemma_players_step_settles(r: RecorderView, states: Seq<PlayerInfoState>)
    ensures
        players_step(players_step(r, states).0, states).1 == Seq::<MessageView>::empty(),
        players_step(players_step(r, states).0, states).0 == players_step(r, states).0,
{
    let n = player_count(r, states);
    lemma_players_fold_records(r.players, states, n);
    let r1 = players_step(r, states).0;
    assert(player_count(r1, states) == n);
    lemma_players_fold_quiet(r1.players, states, n);
}

/// Every field the view model check compares is equal between `v` and `s`.
pub open spec fn viewent_quiet(v: ViewEnt, s: EntityState) -> bool {
    &&& f32x3_eq(v.origin, s.origin)
    &&& f32x3_eq(v.angles, s.angles)
    &&& v.sequence == s.sequence
    &&& f32_eq(v.animtime, s.animtime)
    &&& v.body == s.body
    &&& v.rendermode == s.rendermode
    &&& v.renderamt == s.renderamt
    &&& v.rendercolor@ == s.rendercolor@
    &&& v.renderfx == s.renderfx
    &&& v.movetype == s.movetype
    &&& v.prevsequence == s.prevsequence
    &&& f32_eq(v.sequencetime, s.sequencetime)
    &&& v.prevseqblending@ == s.prevseqblending@
    &&& f32_eq(v.prevanimtime, s.prevanimtime)
    &&& f32x3_eq(v.prevorigin, s.prevorigin)
    &&& f32x3_eq(v.prevangles, s.prevangles)
}

/// A quiet view model reports no change and takes over nothing.
proof fn lemma_quiet_viewent(v: ViewEnt, s: EntityState)
    requires
        viewent_quiet(v, s),
    ensures
        viewent_changes(v, s) == Seq::<ObjectField>::empty(),
        viewent_updated(v, s) == v,
{
    let c = viewent_candidates(v, s);
    assert forall|i: int| 0 <= i < c.len() implies !(#[trigger] c[i]).0 by {}
    lemma_keep_changed_none(c);
    let u = viewent_updated(v, s);
    assert(u.rendercolor@ =~= v.rendercolor@);
    assert(u.prevseqblending@ =~= v.prevseqblending@);
    assert(u == v);
}

/// A view model that took over `s` is quiet against it, unless a float of
/// `s` is a NaN.
proof fn lemma_updated_viewent_quiet(v: ViewEnt, s: EntityState)
    requires
        viewent_floats_ok(s),
    ensures
        viewent_quiet(viewent_updated(v, s), s),
{
    lemma_f32x3_taken_over(v.origin, s.origin);
    lemma_f32x3_taken_over(v.angles, s.angles);
    lemma_f32_taken_over(v.animtime, s.animtime);
    lemma_f32_taken_over(v.sequencetime, s.sequencetime);
    lemma_f32_taken_over(v.prevanimtime, s.prevanimtime);
    lemma_f32x3_taken_over(v.prevorigin, s.prevorigin);
    lemma_f32x3_taken_over(v.prevangles, s.prevangles);
}

/// The view model as it first appears is quiet against the state it was
/// made of, unless one of that state's floats is a NaN.
proof fn lemma_viewent_from_quiet(s: EntityState, model_index: u32)
    requires
        viewent_floats_ok(s),
    ensures
        viewent_quiet(viewent_from(s, model_index), s),
{
    reveal(f32_eq);
}

/// Once the view model is recorded, the same view model state sends
/// nothing, unless one of its floats is a NaN, and changes nothing.
pub proof fn lemma_viewent_step_settles(r: RecorderView, health: i32, s: EntityState)
    requires
        viewent_floats_ok(s),
    ensures
        viewent_step(viewent_step(r, health, s).0, health, s).1 == Seq::<MessageView>::empty(),
        viewent_step(viewent_step(r, health, s).0, health, s).0 == viewent_step(r, health, s).0,
{
    let r1 = viewent_step(r, health, s).0;
    match r.last_viewent {
        Some(last) => {
            if !viewent_hidden(health, s) {
                lemma_updated_viewent_quiet(last, s);
                let u3 = r1.last_viewent->0;
                assert(viewent_quiet(u3, s));
                lemma_quiet_viewent(u3, s);
            }
        },
        None => {
            if !viewent_hidden(health, s) {
                lemma_viewent_from_quiet(s, r.model_index_map[s.model] as u32);
                let n = r1.last_viewent->0;
                lemma_quiet_viewent(n, s);
            }
        },
    }
}

/// No position or scale of a decal in use is a NaN.
pub open spec fn decals_floats_ok(decals: Seq<DecalState>) -> bool {
    forall|i: int|
        0 <= i < decals.len() && (#[trigger] decals[i]).psurface != 0 ==> !f32_is_nan(decals[i].dx)
            && !f32_is_nan(decals[i].dy) && !f32_is_nan(decals[i].scale)
}

/// After the first `n` slots of the decal pool are recorded, each slot in
/// use among them holds a decal that no longer differs from the engine's.
proof fn lemma_decals_fold_records(
    dm: Map<usize, crate::decals::Decal>,
    cache: Map<i16, u16>,
    decals: Seq<DecalState>,
    n: nat,
)
    requires
        n <= decals.len(),
        decals.len() <= usize::MAX,
        decals_floats_ok(decals),
    ensures
        forall|i: int|
            0 <= i < n && (#[trigger] decals[i]).psurface != 0 ==> decals_fold(dm, cache, decals, n).0.contains_key(
                i as usize,
            ) && !decal_changed(decals_fold(dm, cache, decals, n).0[i as usize], decals[i]),
    decreases n,
{
    if n > 0 {
        lemma_decals_fold_records(dm, cache, decals, (n - 1) as nat);
        let prev = decals_fold(dm, cache, decals, (n - 1) as nat);
        let j = n - 1;
        let d = decals[j];
        if d.psurface != 0 {
            if prev.0.contains_key(j as usize) {
                lemma_decal_settles(prev.0[j as usize], d);
            }
            reveal(f32_eq);
        }
    }
}

/// Recording decal slots whose decals no longer differ from the engine's
/// changes nothing and sends nothing.
proof fn lemma_decals_fold_quiet(
    dm: Map<usize, crate::decals::Decal>,
    cache: Map<i16, u16>,
    decals: Seq<DecalState>,
    n: nat,
)
    requires
        n <= decals.len(),
        decals.len() <= usize::MAX,
        forall|i: int|
            0 <= i < decals.len() && (#[trigger] decals[i]).psurface != 0 ==> dm.contains_key(i as usize)
                && !decal_changed(dm[i as usize], decals[i]),
    ensures
        decals_fold(dm, cache, decals, n).0 == dm,
        decals_fold(dm, cache, decals, n).1 == Seq::<crate::decals::Decal>::empty(),
    decreases n,
{
    if n > 0 {
        lemma_decals_fold_quiet(dm, cache, decals, (n - 1) as nat);
        let j = (n - 1) as int;
        if decals[j].psurface != 0 {
            assert(dm.contains_key(j as usize));
        }
    }
}

/// Once the decal pool is recorded, the same pool sends nothing, unless the
/// position or scale of a decal in use is a NaN, and changes nothing.
pub proof fn lemma_decals_step_settles(r: RecorderView, decals: Seq<DecalState>)
    requires
        decals.len() <= usize::MAX,
        decals_floats_ok(decals),
    ensures
        decals_step(decals_step(r, decals).0, decals).1 == Seq::<MessageView>::empty(),
        decals_step(decals_step(r, decals).0, decals).0 == decals_step(r, decals).0,
{
    let cache = r.decal_cache_name_index_map;
    lemma_decals_fold_records(r.decals, cache, decals, decals.len());
    let r1 = decals_step(r, decals).0;
    lemma_decals_fold_quiet(r1.decals, cache, decals, decals.len());
}

/// After the first `n` light styles are recorded, each one in use among
/// them holds the engine's pattern.
proof fn lemma_lightstyles_fold_records(lm: Map<usize, (u8, Seq<u8>)>, ls: Seq<LightstyleState>, n: nat)
    requires
        n <= ls.len(),
        ls.len() <= usize::MAX,
    ensures
        forall|i: int|
            0 <= i < n && (#[trigger] ls[i]).length != 0 ==> lightstyles_fold(lm, ls, n).0.contains_key(i as usize)
                && lightstyles_fold(lm, ls, n).0[i as usize].1 == lightstyle_pattern(ls[i]),
    decreases n,
{
    if n > 0 {
        lemma_lightstyles_fold_records(lm, ls, (n - 1) as nat);
    }
}

/// Recording light styles that already hold the engine's patterns changes
/// nothing and sends nothing.
proof fn lemma_lightstyles_fold_quiet(lm: Map<usize, (u8, Seq<u8>)>, ls: Seq<LightstyleState>, n: nat)
    requires
        n <= ls.len(),
        ls.len() <= usize::MAX,
        forall|i: int|
            0 <= i < ls.len() && (#[trigger] ls[i]).length != 0 ==> lm.contains_key(i as usize) && lm[i as usize].1
                == lightstyle_pattern(ls[i]),
    ensures
        lightstyles_fold(lm, ls, n).0 == lm,
        lightstyles_fold(lm, ls, n).1 == Seq::<(u8, Seq<u8>)>::empty(),
    decreases n,
{
    if n > 0 {
        lemma_lightstyles_fold_quiet(lm, ls, (n - 1) as nat);
        let j = (n - 1) as int;
        if ls[j].length != 0 {
            assert(lm.contains_key(j as usize));
        }
    }
}

/// Once the light styles are recorded, the same light styles send nothing
/// and change nothing.
pub proof fn lemma_lightstyles_step_settles(r: RecorderView, ls: Seq<LightstyleState>)
    requires
        ls.len() <= usize::MAX,
    ensures
        lightstyles_step(lightstyles_step(r, ls).0, ls).1 == Seq::<MessageView>::empty(),
        lightstyles_step(lightstyles_step(r, ls).0, ls).0 == lightstyles_step(r, ls).0,
{
    lemma_lightstyles_fold_records(r.lightstyles, ls, ls.len());
    let r1 = lightstyles_step(r, ls).0;
    lemma_lightstyles_fold_quiet(r1.lightstyles, ls, ls.len());
}

/// The conditions under which recording the same frame twice sends nothing
/// the second time: no float a check compares is a NaN, each engine entity,
/// beam and beam entity appears with one state, no two of them share a
/// tracked object, a tracked entity that keeps its model keeps its weapon
/// model, and each new beam entity is tracked by the position its beam is
/// recorded at (see `beam_entities_settle_ok`).
pub open spec fn frame_settle_ok(r: RecorderView, f: FrameSnapshot) -> bool {
    &&& camera_floats_ok(f.camera)
    &&& viewent_floats_ok(f.viewent)
    &&& entities_settle_ok(r, f.visible_edicts@)
    &&& beams_settle_ok(r, f.beams@)
    &&& beam_entities_settle_ok(models_step(r, f.known_models@).0, f.beam_entities@, f.model_precache@)
    &&& decals_floats_ok(f.decals@)
}

/// Recording the same engine state twice in a row records an empty frame
/// the second time, and leaves the recorder as it was: every message of a
/// frame is a change since the last.
#[verifier::rlimit(60)]
#[verifier::spinoff_prover]
pub proof fn lemma_frame_settles(r: RecorderView, f: FrameSnapshot)
    requires
        frame_settle_ok(r, f),
    ensures
        frame_step(frame_step(r, f).0, f).1 == Seq::<MessageView>::empty(),
        frame_step(frame_step(r, f).0, f).0 == frame_step(r, f).0,
{
    let known = f.known_models@;
    let precache = f.model_precache@;
    let s1 = models_step(r, known);
    let s2 = viewentity_step(s1.0, f.viewentity);
    let s3 = camera_step(s2.0, f.camera);
    let s4 = players_step(s3.0, f.players@);
    let s5 = viewent_step(s4.0, f.health, f.viewent);
    let s6 = entities_step(s5.0, f.visible_edicts@, precache);
    let s7 = beams_step(s6.0, f.beams@, precache);
    let s8 = beam_entities_step(s7.0, f.beam_entities@, precache);
    let s9 = decals_step(s8.0, f.decals@);
    let s10 = lightstyles_step(s9.0, f.lightstyles@);
    let r1 = s10.0;
    assert(r1 == frame_step(r, f).0);
    assert(known.len() == f.known_models.len());
    assert(f.decals@.len() == f.decals.len());
    assert(f.lightstyles@.len() == f.lightstyles.len());
    let t1 = models_step(r1, known);
    let t2 = viewentity_step(t1.0, f.viewentity);
    let t3 = camera_step(t2.0, f.camera);
    let t4 = players_step(t3.0, f.players@);
    let t5 = viewent_step(t4.0, f.health, f.viewent);
    let t6 = entities_step(t5.0, f.visible_edicts@, precache);
    let t7 = beams_step(t6.0, f.beams@, precache);
    let t8 = beam_entities_step(t7.0, f.beam_entities@, precache);
    let t9 = decals_step(t8.0, f.decals@);
    let t10 = lightstyles_step(t9.0, f.lightstyles@);

    lemma_models_step_settles(r, known);
    assert(t1.1 == models_step(s1.0, known).1);
    assert(t1.0 == r1);
    lemma_viewentity_step_settles(s1.0, f.viewentity);
    assert(t2.1 == viewentity_step(s2.0, f.viewentity).1);
    assert(t2.0 == r1);
    lemma_camera_step_settles(s2.0, f.camera);
    assert(t3.1 == camera_step(s3.0, f.camera).1);
    assert(t3.0 == r1);
    lemma_players_step_settles(s3.0, f.players@);
    assert(t4.1 == players_step(s4.0, f.players@).1);
    assert(players_step(s4.0, f.players@).0 == s4.0);
    assert(t4.0 == r1);
    lemma_viewent_step_settles(s4.0, f.health, f.viewent);
    assert(t5.1 == viewent_step(s5.0, f.health, f.viewent).1);
    assert(viewent_step(s5.0, f.health, f.viewent).0 == s5.0);
    assert(t5.0 == r1);
    assert(entities_settle_ok(s5.0, f.visible_edicts@));
    lemma_entities_step_settles(s5.0, f.visible_edicts@, precache);
    assert(t6.1 == entities_step(s6.0, f.visible_edicts@, precache).1);
    assert(entities_step(s6.0, f.visible_edicts@, precache).0 == s6.0);
    assert(t6.0 == r1);
    assert(beams_settle_ok(s6.0, f.beams@));
    lemma_beams_step_settles(s6.0, f.beams@, precache);
    assert(t7.1 == beams_step(s7.0, f.beams@, precache).1);
    assert(beams_step(s7.0, f.beams@, precache).0 == s7.0);
    assert(t7.0 == r1);
    assert(beam_entities_settle_ok(s7.0, f.beam_entities@, precache));
    lemma_beam_entities_step_settles(s7.0, f.beam_entities@, precache);
    assert(t8.1 == beam_entities_step(s8.0, f.beam_entities@, precache).1);
    assert(beam_entities_step(s8.0, f.beam_entities@, precache).0 == s8.0);
    assert(t8.0 == r1);
    lemma_decals_step_settles(s8.0, f.decals@);
    assert(t9.1 == decals_step(s9.0, f.decals@).1);
    assert(decals_step(s9.0, f.decals@).0 == s9.0);
    assert(t9.0 == r1);
    lemma_lightstyles_step_settles(s9.0, f.lightstyles@);
    assert(t10.1 == lightstyles_step(s10.0, f.lightstyles@).1);
    assert(t10.0 == r1);
    assert(frame_step(r1, f).1 == t1.1 + t2.1 + t3.1 + t4.1 + t5.1 + t6.1 + t7.1 + t8.1 + t9.1 + t10.1);
    assert(frame_step(r1, f).1 =~= Seq::<MessageView>::empty());
}

} // verus!
