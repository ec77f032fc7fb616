//! The recorder: what a recording remembers between frames, and how one
//! frame of engine state becomes the messages of a recorded frame.

use vstd::prelude::*;
use std::collections::HashMap;
use vstd::std_specs::hash::spec_keys_iter;
use vstd::std_specs::iter::IteratorSpec;
use crate::bytes::{append_bytes, bytes_of_u16, native_bytes};
use crate::c_str::{c_str_bytes, c_str_len, c_str_to_bytes, has_nul, has_nul_of};
use crate::decals::{Decal, Lightstyle};
use crate::fields::ObjectField;
use crate::message::{frame_bytes, lightstyle_view, message_views, write_frame, Message, MessageView};
use crate::objects::{
    camera_changes, entity_changes, entity_from, entity_updated, beam_changes, beam_from, beam_updated,
    viewent_changes, viewent_from, viewent_updated, Beam, Camera, Entity, Object, ViewEnt,
};
use crate::players::{player_changes, PlayerInfo};
use crate::snapshot::{BeamState, DecalState, EntityState, LightstyleState, ModelState, PlayerInfoState};

verus! {

broadcast use vstd::std_specs::hash::group_hash_axioms;

/// Everything a recorded frame reads from the engine.
pub struct FrameSnapshot {
    /// The models the engine knows, in the order it loaded them.
    pub known_models: Vec<ModelState>,
    /// The entity the view is attached to.
    pub viewentity: i32,
    /// Where the frame is rendered from.
    pub camera: Camera,
    /// The info of each player slot.
    pub players: Vec<PlayerInfoState>,
    /// The player's health (the first client stat).
    pub health: i32,
    /// The view model.
    pub viewent: EntityState,
    /// The entities drawn this frame: the visible edicts, then the entities
    /// of the translucent objects, each by its address.
    pub visible_edicts: Vec<(usize, EntityState)>,
    /// Address of each model of the model precache, by precache index.
    pub model_precache: Vec<usize>,
    /// The active beams, in list order, each by its address.
    pub beams: Vec<(usize, BeamState)>,
    /// The beam entities, each by its address, with the beam it draws this
    /// frame when it draws one.
    pub beam_entities: Vec<(usize, Option<BeamState>)>,
    /// The decal pool.
    pub decals: Vec<DecalState>,
    /// The light styles.
    pub lightstyles: Vec<LightstyleState>,
    /// The client time: the bits of an `f64`.
    pub time: u64,
}

/// What a recording remembers between frames.
pub struct Recorder {
    /// Index in the recording's model list of each known model, by address.
    pub model_index_map: HashMap<usize, usize>,
    /// How many models the recording lists.
    pub last_mod_numknown: usize,
    pub last_camera: Option<Camera>,
    pub last_viewent: Option<ViewEnt>,
    /// Every entity the recording has sent, by object number.
    pub entities: Vec<Entity>,
    /// The object number of each engine entity, by address.
    pub engine_entities: HashMap<usize, usize>,
    /// The last recorded info of each player slot.
    pub players: Vec<PlayerInfo>,
    /// Every beam the recording has sent, by object number.
    pub beams: Vec<Beam>,
    /// The object number of each active engine beam, by address.
    pub engine_beams: HashMap<usize, usize>,
    /// Every beam of a beam entity the recording has sent.
    pub beam_entities: Vec<Beam>,
    /// The position in `beam_entities` of each engine beam entity, by address.
    pub engine_beam_entities: HashMap<usize, usize>,
    /// Index in the recording's list of decal names, by the engine's decal
    /// texture number.
    pub decal_cache_name_index_map: HashMap<i16, u16>,
    /// The recorded decals, by decal pool slot.
    pub decals: HashMap<usize, Decal>,
    /// The recorded light styles, by slot.
    pub lightstyles: HashMap<usize, Lightstyle>,
    pub last_viewentity: Option<i32>,
}

/// What a recording remembers between frames, as mathematical values.
pub struct RecorderView {
    pub model_index_map: Map<usize, usize>,
    pub last_mod_numknown: usize,
    pub last_camera: Option<Camera>,
    pub last_viewent: Option<ViewEnt>,
    pub entities: Seq<Entity>,
    pub engine_entities: Map<usize, usize>,
    pub players: Seq<PlayerInfo>,
    pub beams: Seq<Beam>,
    pub engine_beams: Map<usize, usize>,
    pub beam_entities: Seq<Beam>,
    pub engine_beam_entities: Map<usize, usize>,
    pub decal_cache_name_index_map: Map<i16, u16>,
    pub decals: Map<usize, Decal>,
    /// Each light style by its slot and pattern.
    pub lightstyles: Map<usize, (u8, Seq<u8>)>,
    pub last_viewentity: Option<i32>,
}

impl View for Recorder {
    type V = RecorderView;

    open spec fn view(&self) -> RecorderView {
        RecorderView {
            model_index_map: self.model_index_map@,
            last_mod_numknown: self.last_mod_numknown,
            last_camera: self.last_camera,
            last_viewent: self.last_viewent,
            entities: self.entities@,
            engine_entities: self.engine_entities@,
            players: self.players@,
            beams: self.beams@,
            engine_beams: self.engine_beams@,
            beam_entities: self.beam_entities@,
            engine_beam_entities: self.engine_beam_entities@,
            decal_cache_name_index_map: self.decal_cache_name_index_map@,
            decals: self.decals@,
            lightstyles: self.lightstyles@.map_values(|l: Lightstyle| lightstyle_view(l)),
            last_viewentity: self.last_viewentity,
        }
    }
}

/// Every value of `m` indexes a sequence of length `len`.
pub open spec fn indices_below(m: Map<usize, usize>, len: nat) -> bool {
    forall|k: usize| m.contains_key(k) ==> #[trigger] m[k] < len
}

impl RecorderView {
    /// The recorder's lists and maps agree: every object number a map holds
    /// names an object of its list, there is a record for each player slot,
    /// and the beam entity map is finite, with no more entries than its list.
    pub open spec fn wf(self) -> bool {
        &&& self.players.len() == 32
        &&& indices_below(self.engine_entities, self.entities.len())
        &&& indices_below(self.engine_beams, self.beams.len())
        &&& indices_below(self.engine_beam_entities, self.beam_entities.len())
        &&& self.engine_beam_entities.dom().finite()
        &&& self.engine_beam_entities.dom().len() <= self.beam_entities.len()
    }
}

// ============================
// Models
// ============================

/// `m` with the models of `known` from `from` up to `to` added, each by
/// its address, at its position in `known`.
pub open spec fn models_inserted(m: Map<usize, usize>, known: Seq<ModelState>, from: int, to: int) -> Map<usize, usize>
    decreases to - from,
{
    if to <= from {
        m
    } else {
        models_inserted(m, known, from, to - 1).insert(known[to - 1].address, (to - 1) as usize)
    }
}

/// The names of the models of `known` from `from` on.
pub open spec fn new_model_names(known: Seq<ModelState>, from: int) -> Seq<Seq<u8>> {
    known.subrange(from, known.len() as int).map_values(|m: ModelState| c_str_bytes(m.name@))
}

/// The models step can run: when the engine knows a different number of
/// models, it knows at least as many as are recorded, and each new name is
/// NUL-terminated.
pub open spec fn models_ok(r: RecorderView, known: Seq<ModelState>) -> bool {
    known.len() != r.last_mod_numknown ==> {
        &&& r.last_mod_numknown <= known.len()
        &&& forall|i: int| r.last_mod_numknown <= i < known.len() ==> has_nul(#[trigger] known[i].name@)
    }
}

/// When the engine knows a different number of models, the new ones are
/// added to the model list and sent by name.
pub open spec fn models_step(r: RecorderView, known: Seq<ModelState>) -> (RecorderView, Seq<MessageView>) {
    if known.len() != r.last_mod_numknown {
        (
            RecorderView {
                model_index_map: models_inserted(r.model_index_map, known, r.last_mod_numknown as int, known.len() as int),
                last_mod_numknown: known.len() as usize,
                ..r
            },
            seq![MessageView::AddModels(new_model_names(known, r.last_mod_numknown as int))],
        )
    } else {
        (r, seq![])
    }
}

// ============================
// View entity and camera
// ============================

/// A change of the entity the view is attached to is sent.
pub open spec fn viewentity_step(r: RecorderView, viewentity: i32) -> (RecorderView, Seq<MessageView>) {
    if Some(viewentity) != r.last_viewentity {
        (RecorderView { last_viewentity: Some(viewentity), ..r }, seq![MessageView::SetView(viewentity as u32)])
    } else {
        (r, seq![])
    }
}

/// The camera is sent whole the first time, then as its changed fields.
pub open spec fn camera_step(r: RecorderView, current: Camera) -> (RecorderView, Seq<MessageView>) {
    let msgs = match r.last_camera {
        Some(last) => {
            let changes = camera_changes(last, current);
            if changes.len() != 0 {
                seq![MessageView::UpdateObject(Object::Camera(current), changes)]
            } else {
                seq![]
            }
        },
        None => seq![MessageView::NewObject(Object::Camera(current))],
    };
    (RecorderView { last_camera: Some(current), ..r }, msgs)
}

// ============================
// Players
// ============================

/// A player slot's record once `s` is recorded.
pub open spec fn player_recorded(s: PlayerInfoState) -> PlayerInfo {
    PlayerInfo { model: s.model, topcolor: s.topcolor, bottomcolor: s.bottomcolor }
}

/// The first `n` player slots recorded: each slot takes the engine's info,
/// and each slot with changes sends them.
pub open spec fn players_fold(players: Seq<PlayerInfo>, states: Seq<PlayerInfoState>, n: nat) -> (Seq<PlayerInfo>, Seq<MessageView>)
    decreases n,
{
    if n == 0 {
        (players, seq![])
    } else {
        let prev = players_fold(players, states, (n - 1) as nat);
        let i = n - 1;
        let changes = player_changes(prev.0[i], states[i]);
        (
            prev.0.update(i, player_recorded(states[i])),
            if changes.len() != 0 {
                prev.1.push(MessageView::UpdatePlayer(i as u8, changes))
            } else {
                prev.1
            },
        )
    }
}

/// The number of player slots a frame records: those both the recorder and
/// the engine have.
pub open spec fn player_count(r: RecorderView, states: Seq<PlayerInfoState>) -> nat {
    if r.players.len() <= states.len() {
        r.players.len()
    } else {
        states.len()
    }
}

/// Each player slot is recorded.
pub open spec fn players_step(r: RecorderView, states: Seq<PlayerInfoState>) -> (RecorderView, Seq<MessageView>) {
    let folded = players_fold(r.players, states, player_count(r, states));
    (RecorderView { players: folded.0, ..r }, folded.1)
}

// ============================
// View model
// ============================

/// The view model is not drawn: the player is dead or there is no model.
pub open spec fn viewent_hidden(health: i32, s: EntityState) -> bool {
    health <= 0 || s.model == 0
}

/// The view model step: it is sent whole when it first shows, then as its
/// changed fields, a change of drawing and a change of model.
pub open spec fn viewent_step(r: RecorderView, health: i32, s: EntityState) -> (RecorderView, Seq<MessageView>) {
    let hidden = viewent_hidden(health, s);
    match r.last_viewent {
        Some(last) => {
            if hidden {
                if last.draw {
                    let l2 = ViewEnt { draw: false, ..last };
                    (
                        RecorderView { last_viewent: Some(l2), ..r },
                        seq![MessageView::UpdateObject(Object::ViewEnt(l2), seq![ObjectField::Draw(false)])],
                    )
                } else {
                    (r, seq![])
                }
            } else {
                let u = viewent_updated(last, s);
                let ch = viewent_changes(last, s);
                let u2 = if !u.draw { ViewEnt { draw: true, ..u } } else { u };
                let ch2 = if !u.draw { ch.push(ObjectField::Draw(true)) } else { ch };
                let model_changed = u2.model != s.model;
                let u3 = if model_changed { ViewEnt { model: s.model, ..u2 } } else { u2 };
                let ch3 = if model_changed {
                    ch2.push(ObjectField::ModelIndex(r.model_index_map[s.model] as u32))
                } else {
                    ch2
                };
                (
                    RecorderView { last_viewent: Some(u3), ..r },
                    if ch3.len() != 0 {
                        seq![MessageView::UpdateObject(Object::ViewEnt(u3), ch3)]
                    } else {
                        seq![]
                    },
                )
            }
        },
        None => {
            if !hidden {
                let n = viewent_from(s, r.model_index_map[s.model] as u32);
                (RecorderView { last_viewent: Some(n), ..r }, seq![MessageView::NewObject(Object::ViewEnt(n))])
            } else {
                (r, seq![])
            }
        },
    }
}

/// The view model step can run: a model it must look up is known.
pub open spec fn viewent_ok(r: RecorderView, health: i32, s: EntityState) -> bool {
    !viewent_hidden(health, s) ==> match r.last_viewent {
        Some(last) => last.model != s.model ==> r.model_index_map.contains_key(s.model),
        None => r.model_index_map.contains_key(s.model),
    }
}

// ============================
// Entities
// ============================

/// An entity as a new frame starts: not seen yet.
pub open spec fn unseen_entity(e: Entity) -> Entity {
    Entity { seen: false, ..e }
}

/// The entities as a new frame starts: none seen yet.
pub open spec fn unseen_entities(es: Seq<Entity>) -> Seq<Entity> {
    es.map_values(|e: Entity| unseen_entity(e))
}

/// Index in the recording's model list of the weapon model of `s`, if it
/// has one.
pub open spec fn weapon_model_index(map: Map<usize, usize>, precache: Seq<usize>, s: EntityState) -> Option<u32> {
    if s.weaponmodel != 0 {
        Some(map[precache[s.weaponmodel as int]] as u32)
    } else {
        None
    }
}

/// The weapon model of `s`, if it has one, is in the precache and known.
pub open spec fn weapon_lookup_ok(map: Map<usize, usize>, precache: Seq<usize>, s: EntityState) -> bool {
    s.weaponmodel != 0 ==> {
        &&& 0 <= s.weaponmodel < precache.len()
        &&& map.contains_key(precache[s.weaponmodel as int])
    }
}

/// A new entity can be made of `s`: its model and weapon model are known,
/// and a player's number is at least 1 as a byte.
pub open spec fn new_entity_ok(map: Map<usize, usize>, precache: Seq<usize>, s: EntityState) -> bool {
    &&& map.contains_key(s.model)
    &&& weapon_lookup_ok(map, precache, s)
    &&& s.player != 0 ==> (s.number as u8) >= 1
}

/// One visible entity recorded: the entities, the map from engine entity to
/// object number, the messages, and whether the step can run.
///
/// An entity already seen this frame is skipped; one whose model changed
/// becomes a new object; one not tracked and with a model is new; any other
/// sends its changes, showing it again and its weapon model when that
/// differs from the one it was created with.
pub open spec fn entity_step(
    es: Seq<Entity>,
    engine: Map<usize, usize>,
    map: Map<usize, usize>,
    precache: Seq<usize>,
    a: usize,
    s: EntityState,
) -> (Seq<Entity>, Map<usize, usize>, Seq<MessageView>, bool) {
    if engine.contains_key(a) {
        let idx = engine[a] as int;
        let existing = es[idx];
        if existing.seen {
            (es, engine, seq![], true)
        } else if existing.model != s.model {
            let index = es.len();
            let new = entity_from(s, index as u32, map[s.model], weapon_model_index(map, precache, s));
            (
                es.push(new),
                engine.insert(a, index as usize),
                seq![MessageView::NewObject(Object::Entity(new))],
                new_entity_ok(map, precache, s),
            )
        } else {
            let seen = Entity { seen: true, ..existing };
            let u = entity_updated(seen, s);
            let ch = entity_changes(seen, s);
            let u2 = if !u.draw { Entity { draw: true, ..u } } else { u };
            let ch2 = if !u.draw { ch.push(ObjectField::Draw(true)) } else { ch };
            let weapon_changed = u2.weaponmodel != s.weaponmodel;
            let ch3 = if weapon_changed {
                ch2.push(ObjectField::WeaponModel(weapon_model_index(map, precache, s)))
            } else {
                ch2
            };
            (
                es.update(idx, u2),
                engine,
                if ch3.len() != 0 {
                    seq![MessageView::UpdateObject(Object::Entity(u2), ch3)]
                } else {
                    seq![]
                },
                weapon_changed ==> weapon_lookup_ok(map, precache, s),
            )
        }
    } else if s.model != 0 {
        let index = es.len();
        let new = entity_from(s, index as u32, map[s.model], weapon_model_index(map, precache, s));
        (
            es.push(new),
            engine.insert(a, index as usize),
            seq![MessageView::NewObject(Object::Entity(new))],
            new_entity_ok(map, precache, s),
        )
    } else {
        (es, engine, seq![], true)
    }
}

/// The visible entities recorded one after the other.
pub open spec fn entities_fold(
    es: Seq<Entity>,
    engine: Map<usize, usize>,
    map: Map<usize, usize>,
    precache: Seq<usize>,
    edicts: Seq<(usize, EntityState)>,
) -> (Seq<Entity>, Map<usize, usize>, Seq<MessageView>, bool)
    decreases edicts.len(),
{
    if edicts.len() == 0 {
        (es, engine, seq![], true)
    } else {
        let prev = entities_fold(es, engine, map, precache, edicts.drop_last());
        let step = entity_step(prev.0, prev.1, map, precache, edicts.last().0, edicts.last().1);
        (step.0, step.1, prev.2 + step.2, prev.3 && step.3)
    }
}

/// The first `n` entities checked: each one drawn but not seen this frame
/// stops being drawn, which is sent.
pub open spec fn hide_unseen_entities(es: Seq<Entity>, n: nat) -> (Seq<Entity>, Seq<MessageView>)
    decreases n,
{
    if n == 0 {
        (es, seq![])
    } else {
        let prev = hide_unseen_entities(es, (n - 1) as nat);
        let i = n - 1;
        let e = prev.0[i];
        if !e.seen && e.draw {
            let e2 = Entity { draw: false, ..e };
            (
                prev.0.update(i, e2),
                prev.1.push(MessageView::UpdateObject(Object::Entity(e2), seq![ObjectField::Draw(false)])),
            )
        } else {
            prev
        }
    }
}

/// The entities of a frame recorded, and whether that can run.
pub open spec fn entities_step(r: RecorderView, edicts: Seq<(usize, EntityState)>, precache: Seq<usize>) -> (RecorderView, Seq<MessageView>, bool) {
    let f = entities_fold(
        unseen_entities(r.entities),
        r.engine_entities,
        r.model_index_map,
        precache,
        edicts,
    );
    let h = hide_unseen_entities(f.0, f.0.len());
    (RecorderView { entities: h.0, engine_entities: f.1, ..r }, f.2 + h.1, f.3)
}

/// Recording a list of entities can run only where each prefix of it can.
pub proof fn lemma_entities_fold_prefix(
    es: Seq<Entity>,
    engine: Map<usize, usize>,
    map: Map<usize, usize>,
    precache: Seq<usize>,
    edicts: Seq<(usize, EntityState)>,
    i: int,
)
    requires
        0 <= i <= edicts.len(),
        entities_fold(es, engine, map, precache, edicts).3,
    ensures
        entities_fold(es, engine, map, precache, edicts.take(i)).3,
    decreases edicts.len(),
{
    if i < edicts.len() {
        assert(edicts.drop_last().take(i) =~= edicts.take(i));
        lemma_entities_fold_prefix(es, engine, map, precache, edicts.drop_last(), i);
    } else {
        assert(edicts.take(i) =~= edicts);
    }
}

/// A step that cannot run makes the whole list of entities unable to run.
pub proof fn lemma_entities_fold_fails(
    es: Seq<Entity>,
    engine: Map<usize, usize>,
    map: Map<usize, usize>,
    precache: Seq<usize>,
    edicts: Seq<(usize, EntityState)>,
    k: int,
)
    requires
        0 <= k < edicts.len(),
        ({
            let f = entities_fold(es, engine, map, precache, edicts.take(k));
            !entity_step(f.0, f.1, map, precache, edicts[k].0, edicts[k].1).3
        }),
    ensures
        !entities_fold(es, engine, map, precache, edicts).3,
{
    assert(edicts.take(k + 1).drop_last() =~= edicts.take(k));
    assert(edicts.take(k + 1).last() == edicts[k]);
    if entities_fold(es, engine, map, precache, edicts).3 {
        lemma_entities_fold_prefix(es, engine, map, precache, edicts, k + 1);
    }
}

/// A step keeps every object number of the map within the entity list, and
/// only lengthens that list.
pub proof fn lemma_entity_step_indices(
    es: Seq<Entity>,
    engine: Map<usize, usize>,
    map: Map<usize, usize>,
    precache: Seq<usize>,
    a: usize,
    s: EntityState,
)
    requires
        indices_below(engine, es.len()),
    ensures
        indices_below(entity_step(es, engine, map, precache, a, s).1, entity_step(es, engine, map, precache, a, s).0.len()),
        entity_step(es, engine, map, precache, a, s).0.len() >= es.len(),
{
}

// ============================
// Beams
// ============================

/// A beam as a new frame starts: not seen yet.
pub open spec fn unseen_beam(b: Beam) -> Beam {
    Beam { seen: false, ..b }
}

/// The beams as a new frame starts: none seen yet.
pub open spec fn unseen_beams(bs: Seq<Beam>) -> Seq<Beam> {
    bs.map_values(|b: Beam| unseen_beam(b))
}

/// Some engine beam of `m` whose address is in `keys` is beam `i`.
pub open spec fn referenced(m: Map<usize, usize>, keys: Set<usize>, i: int) -> bool {
    exists|k: usize| keys.contains(k) && m.contains_key(k) && m[k] == i
}

/// The beams with each one an engine beam refers to marked as not seen.
pub open spec fn unmark_referenced(bs: Seq<Beam>, m: Map<usize, usize>) -> Seq<Beam> {
    Seq::new(bs.len(), |i: int| if referenced(m, m.dom(), i) { unseen_beam(bs[i]) } else { bs[i] })
}

/// Index in the recording's model list of the model a beam names, by its
/// model precache index.
pub open spec fn beam_model_index(map: Map<usize, usize>, precache: Seq<usize>, s: BeamState) -> usize {
    map[precache[s.model_index as int]]
}

/// The model a beam names is in the precache and known.
pub open spec fn beam_lookup_ok(map: Map<usize, usize>, precache: Seq<usize>, s: BeamState) -> bool {
    &&& 0 <= s.model_index < precache.len()
    &&& map.contains_key(precache[s.model_index as int])
}

/// One active beam recorded: a beam whose model changed becomes a new
/// object, an untracked one is new, any other sends its changes.
pub open spec fn beam_step(
    bs: Seq<Beam>,
    engine: Map<usize, usize>,
    map: Map<usize, usize>,
    precache: Seq<usize>,
    a: usize,
    s: BeamState,
) -> (Seq<Beam>, Map<usize, usize>, Seq<MessageView>, bool) {
    let ok = beam_lookup_ok(map, precache, s);
    let mi = beam_model_index(map, precache, s);
    if engine.contains_key(a) && bs[engine[a] as int].model_index == mi {
        let idx = engine[a] as int;
        let seen = Beam { seen: true, ..bs[idx] };
        let u = beam_updated(seen, s);
        let ch = beam_changes(seen, s);
        (
            bs.update(idx, u),
            engine,
            if ch.len() != 0 {
                seq![MessageView::UpdateObject(Object::Beam(u), ch)]
            } else {
                seq![]
            },
            ok,
        )
    } else {
        let index = bs.len();
        let new = beam_from(s, index as u32, mi);
        (bs.push(new), engine.insert(a, index as usize), seq![MessageView::NewObject(Object::Beam(new))], ok)
    }
}

/// The active beams recorded one after the other.
pub open spec fn beams_fold(
    bs: Seq<Beam>,
    engine: Map<usize, usize>,
    map: Map<usize, usize>,
    precache: Seq<usize>,
    beams: Seq<(usize, BeamState)>,
) -> (Seq<Beam>, Map<usize, usize>, Seq<MessageView>, bool)
    decreases beams.len(),
{
    if beams.len() == 0 {
        (bs, engine, seq![], true)
    } else {
        let prev = beams_fold(bs, engine, map, precache, beams.drop_last());
        let step = beam_step(prev.0, prev.1, map, precache, beams.last().0, beams.last().1);
        (step.0, step.1, prev.2 + step.2, prev.3 && step.3)
    }
}

/// The first `n` beams checked: each one drawn but not seen this frame
/// stops being drawn, which is sent.
pub open spec fn hide_unseen_beams(bs: Seq<Beam>, n: nat) -> (Seq<Beam>, Seq<MessageView>)
    decreases n,
{
    if n == 0 {
        (bs, seq![])
    } else {
        let prev = hide_unseen_beams(bs, (n - 1) as nat);
        let i = n - 1;
        let b = prev.0[i];
        if !b.seen && b.draw {
            let b2 = Beam { draw: false, ..b };
            (prev.0.update(i, b2), prev.1.push(MessageView::UpdateObject(Object::Beam(b2), seq![ObjectField::Draw(false)])))
        } else {
            prev
        }
    }
}

/// The engine beams of `m` whose beam in `bs` was seen.
pub open spec fn keep_seen(m: Map<usize, usize>, bs: Seq<Beam>) -> Map<usize, usize> {
    m.restrict(Set::new(|k: usize| m.contains_key(k) && bs[m[k] as int].seen))
}

/// The active beams of a frame recorded, and whether that can run. Beams
/// that are no longer active are forgotten.
pub open spec fn beams_step(r: RecorderView, beams: Seq<(usize, BeamState)>, precache: Seq<usize>) -> (RecorderView, Seq<MessageView>, bool) {
    let b0 = unmark_referenced(r.beams, r.engine_beams);
    let f = beams_fold(b0, r.engine_beams, r.model_index_map, precache, beams);
    let h = hide_unseen_beams(f.0, f.0.len());
    (RecorderView { beams: h.0, engine_beams: keep_seen(f.1, h.0), ..r }, f.2 + h.1, f.3)
}

/// Recording a list of beams can run only where each prefix of it can.
pub proof fn lemma_beams_fold_prefix(
    bs: Seq<Beam>,
    engine: Map<usize, usize>,
    map: Map<usize, usize>,
    precache: Seq<usize>,
    beams: Seq<(usize, BeamState)>,
    i: int,
)
    requires
        0 <= i <= beams.len(),
        beams_fold(bs, engine, map, precache, beams).3,
    ensures
        beams_fold(bs, engine, map, precache, beams.take(i)).3,
    decreases beams.len(),
{
    if i < beams.len() {
        assert(beams.drop_last().take(i) =~= beams.take(i));
        lemma_beams_fold_prefix(bs, engine, map, precache, beams.drop_last(), i);
    } else {
        assert(beams.take(i) =~= beams);
    }
}

/// Hiding unseen beams keeps the length of the list, and leaves the beams
/// from `n` on as they are.
pub proof fn lemma_hide_unseen_beams_len(bs: Seq<Beam>, n: nat)
    requires
        n <= bs.len(),
    ensures
        hide_unseen_beams(bs, n).0.len() == bs.len(),
        forall|x: int| n <= x < bs.len() ==> #[trigger] hide_unseen_beams(bs, n).0[x] == bs[x],
    decreases n,
{
    if n > 0 {
        lemma_hide_unseen_beams_len(bs, (n - 1) as nat);
    }
}

// ============================
// Beam entities
// ============================

/// One beam entity recorded. One that draws no beam this frame is left as
/// it is; one whose model changed becomes a new object; an untracked one is
/// new and takes as its position the number of tracked beam entities; any
/// other sends its changes, and is shown again.
pub open spec fn beam_entity_step(
    bs: Seq<Beam>,
    engine: Map<usize, usize>,
    map: Map<usize, usize>,
    precache: Seq<usize>,
    a: usize,
    beam: Option<BeamState>,
) -> (Seq<Beam>, Map<usize, usize>, Seq<MessageView>, bool) {
    match beam {
        None => (bs, engine, seq![], true),
        Some(s) => {
            let ok = beam_lookup_ok(map, precache, s);
            let mi = beam_model_index(map, precache, s);
            if engine.contains_key(a) {
                let idx = engine[a] as int;
                let existing = bs[idx];
                if existing.model_index != mi {
                    let index = bs.len();
                    let new = beam_from(s, index as u32, mi);
                    (bs.push(new), engine.insert(a, index as usize), seq![MessageView::NewObject(Object::Beam(new))], ok)
                } else {
                    let seen = Beam { seen: true, ..existing };
                    let u = beam_updated(seen, s);
                    let ch = beam_changes(seen, s);
                    let u2 = if !u.draw { Beam { draw: true, ..u } } else { u };
                    let ch2 = if !u.draw { ch.push(ObjectField::Draw(true)) } else { ch };
                    (
                        bs.update(idx, u2),
                        engine,
                        if ch2.len() != 0 {
                            seq![MessageView::UpdateObject(Object::Beam(u2), ch2)]
                        } else {
                            seq![]
                        },
                        ok,
                    )
                }
            } else {
                let index = engine.dom().len();
                let new = beam_from(s, index as u32, mi);
                (bs.push(new), engine.insert(a, index as usize), seq![MessageView::NewObject(Object::Beam(new))], ok)
            }
        },
    }
}

/// The beam entities recorded one after the other.
pub open spec fn beam_entities_fold(
    bs: Seq<Beam>,
    engine: Map<usize, usize>,
    map: Map<usize, usize>,
    precache: Seq<usize>,
    beams: Seq<(usize, Option<BeamState>)>,
) -> (Seq<Beam>, Map<usize, usize>, Seq<MessageView>, bool)
    decreases beams.len(),
{
    if beams.len() == 0 {
        (bs, engine, seq![], true)
    } else {
        let prev = beam_entities_fold(bs, engine, map, precache, beams.drop_last());
        let step = beam_entity_step(prev.0, prev.1, map, precache, beams.last().0, beams.last().1);
        (step.0, step.1, prev.2 + step.2, prev.3 && step.3)
    }
}

/// The beam entities of a frame recorded, and whether that can run.
pub open spec fn beam_entities_step(r: RecorderView, beams: Seq<(usize, Option<BeamState>)>, precache: Seq<usize>) -> (RecorderView, Seq<MessageView>, bool) {
    let f = beam_entities_fold(
        unseen_beams(r.beam_entities),
        r.engine_beam_entities,
        r.model_index_map,
        precache,
        beams,
    );
    let h = hide_unseen_beams(f.0, f.0.len());
    (RecorderView { beam_entities: h.0, engine_beam_entities: f.1, ..r }, f.2 + h.1, f.3)
}

/// Recording a list of beam entities can run only where each prefix of it can.
pub proof fn lemma_beam_entities_fold_prefix(
    bs: Seq<Beam>,
    engine: Map<usize, usize>,
    map: Map<usize, usize>,
    precache: Seq<usize>,
    beams: Seq<(usize, Option<BeamState>)>,
    i: int,
)
    requires
        0 <= i <= beams.len(),
        beam_entities_fold(bs, engine, map, precache, beams).3,
    ensures
        beam_entities_fold(bs, engine, map, precache, beams.take(i)).3,
    decreases beams.len(),
{
    if i < beams.len() {
        assert(beams.drop_last().take(i) =~= beams.take(i));
        lemma_beam_entities_fold_prefix(bs, engine, map, precache, beams.drop_last(), i);
    } else {
        assert(beams.take(i) =~= beams);
    }
}

// ============================
// Decals
// ============================

/// Index in the recording's list of decal names of the decal with this
/// texture number; a negative number counts as 0.
pub open spec fn decal_name_index(cache: Map<i16, u16>, texture: i16) -> u16 {
    cache[if texture >= 0 { texture } else { 0 }]
}

/// The decal name for this texture number is known.
pub open spec fn decal_lookup_ok(cache: Map<i16, u16>, texture: i16) -> bool {
    cache.contains_key(if texture >= 0 { texture } else { 0 })
}

/// The first `n` slots of the decal pool recorded: the recorded decals, the
/// decals that appeared or changed, and whether that can run.
pub open spec fn decals_fold(dm: Map<usize, Decal>, cache: Map<i16, u16>, decals: Seq<DecalState>, n: nat) -> (Map<usize, Decal>, Seq<Decal>, bool)
    decreases n,
{
    if n == 0 {
        (dm, seq![], true)
    } else {
        let prev = decals_fold(dm, cache, decals, (n - 1) as nat);
        let i = n - 1;
        let d = decals[i];
        if d.psurface == 0 {
            prev
        } else if prev.0.contains_key(i as usize) {
            let p = prev.0[i as usize];
            if crate::decals::decal_changed(p, d) {
                let p2 = Decal {
                    surface: d.psurface,
                    dx: d.dx,
                    dy: d.dy,
                    scale: d.scale,
                    texture: d.texture,
                    flags: d.flags,
                    face: d.face as u16,
                    decal_index: decal_name_index(cache, d.texture),
                    ..p
                };
                (prev.0.insert(i as usize, p2), prev.1.push(p2), prev.2 && decal_lookup_ok(cache, d.texture))
            } else {
                prev
            }
        } else {
            let new = crate::decals::decal_from(d, i as u16, d.face as u16, decal_name_index(cache, d.texture));
            (prev.0.insert(i as usize, new), prev.1.push(new), prev.2 && decal_lookup_ok(cache, d.texture))
        }
    }
}

/// The decals of a frame recorded: those that appeared or changed are sent
/// in one message.
pub open spec fn decals_step(r: RecorderView, decals: Seq<DecalState>) -> (RecorderView, Seq<MessageView>, bool) {
    let f = decals_fold(r.decals, r.decal_cache_name_index_map, decals, decals.len());
    (
        RecorderView { decals: f.0, ..r },
        if f.1.len() != 0 {
            seq![MessageView::UpdateDecals(f.1)]
        } else {
            seq![]
        },
        f.2,
    )
}

// ============================
// Light styles
// ============================

/// The first `n` light styles recorded: the recorded styles, those that
/// appeared or changed, each by slot and pattern.
pub open spec fn lightstyles_fold(lm: Map<usize, (u8, Seq<u8>)>, ls: Seq<LightstyleState>, n: nat) -> (Map<usize, (u8, Seq<u8>)>, Seq<(u8, Seq<u8>)>)
    decreases n,
{
    if n == 0 {
        (lm, seq![])
    } else {
        let prev = lightstyles_fold(lm, ls, (n - 1) as nat);
        let i = n - 1;
        let l = ls[i];
        if l.length == 0 {
            prev
        } else if prev.0.contains_key(i as usize) {
            let p = prev.0[i as usize];
            let pattern = crate::decals::lightstyle_pattern(l);
            if p.1 != pattern {
                let p2 = (p.0, pattern);
                (prev.0.insert(i as usize, p2), prev.1.push(p2))
            } else {
                prev
            }
        } else {
            let new = (i as u8, crate::decals::lightstyle_pattern(l));
            (prev.0.insert(i as usize, new), prev.1.push(new))
        }
    }
}

/// Every light style in use has a length its pattern can hold.
pub open spec fn lightstyles_ok(ls: Seq<LightstyleState>) -> bool {
    forall|i: int| 0 <= i < ls.len() && (#[trigger] ls[i]).length != 0 ==> crate::decals::lightstyle_length_ok(ls[i])
}

/// The light styles of a frame recorded: those that appeared or changed are
/// sent in one message.
pub open spec fn lightstyles_step(r: RecorderView, ls: Seq<LightstyleState>) -> (RecorderView, Seq<MessageView>) {
    let f = lightstyles_fold(r.lightstyles, ls, ls.len());
    (
        RecorderView { lightstyles: f.0, ..r },
        if f.1.len() != 0 {
            seq![MessageView::UpdateLightstyles(f.1)]
        } else {
            seq![]
        },
    )
}

/// Recording the decal pool can run only where recording each prefix of it can.
pub proof fn lemma_decals_fold_prefix(dm: Map<usize, Decal>, cache: Map<i16, u16>, decals: Seq<DecalState>, n: nat, i: nat)
    requires
        i <= n,
        decals_fold(dm, cache, decals, n).2,
    ensures
        decals_fold(dm, cache, decals, i).2,
    decreases n,
{
    if i < n {
        lemma_decals_fold_prefix(dm, cache, decals, (n - 1) as nat, i);
    }
}

/// A step that cannot run makes the whole list of beams unable to run.
pub proof fn lemma_beams_fold_fails(
    bs: Seq<Beam>,
    engine: Map<usize, usize>,
    map: Map<usize, usize>,
    precache: Seq<usize>,
    beams: Seq<(usize, BeamState)>,
    k: int,
)
    requires
        0 <= k < beams.len(),
        !beam_lookup_ok(map, precache, beams[k].1),
    ensures
        !beams_fold(bs, engine, map, precache, beams).3,
{
    assert(beams.take(k + 1).drop_last() =~= beams.take(k));
    assert(beams.take(k + 1).last() == beams[k]);
    if beams_fold(bs, engine, map, precache, beams).3 {
        lemma_beams_fold_prefix(bs, engine, map, precache, beams, k + 1);
    }
}

/// A beam entity whose beam names an unknown model makes the whole list of
/// beam entities unable to run.
pub proof fn lemma_beam_entities_fold_fails(
    bs: Seq<Beam>,
    engine: Map<usize, usize>,
    map: Map<usize, usize>,
    precache: Seq<usize>,
    beams: Seq<(usize, Option<BeamState>)>,
    k: int,
)
    requires
        0 <= k < beams.len(),
        beams[k].1 matches Some(s) && !beam_lookup_ok(map, precache, s),
    ensures
        !beam_entities_fold(bs, engine, map, precache, beams).3,
{
    assert(beams.take(k + 1).drop_last() =~= beams.take(k));
    assert(beams.take(k + 1).last() == beams[k]);
    if beam_entities_fold(bs, engine, map, precache, beams).3 {
        lemma_beam_entities_fold_prefix(bs, engine, map, precache, beams, k + 1);
    }
}

/// A decal whose name is unknown, where the decal slot `i` needs it, makes
/// the whole pool unable to be recorded.
pub proof fn lemma_decals_fold_fails(dm: Map<usize, Decal>, cache: Map<i16, u16>, decals: Seq<DecalState>, i: nat)
    requires
        i < decals.len(),
        !decals_fold(dm, cache, decals, i + 1).2,
    ensures
        !decals_fold(dm, cache, decals, decals.len()).2,
{
    if decals_fold(dm, cache, decals, decals.len()).2 {
        lemma_decals_fold_prefix(dm, cache, decals, decals.len(), i + 1);
    }
}

/// Hiding unseen entities keeps the length of the list, and leaves the
/// entities from `n` on as they are.
pub proof fn lemma_hide_unseen_entities_len(es: Seq<Entity>, n: nat)
    requires
        n <= es.len(),
    ensures
        hide_unseen_entities(es, n).0.len() == es.len(),
        forall|x: int| n <= x < es.len() ==> #[trigger] hide_unseen_entities(es, n).0[x] == es[x],
    decreases n,
{
    if n > 0 {
        lemma_hide_unseen_entities_len(es, (n - 1) as nat);
    }
}

/// Marks as not seen each beam that an engine beam of `m` refers to.
fn unmark_referenced_beams(beams: &mut Vec<Beam>, m: &HashMap<usize, usize>)
    requires
        indices_below(m@, old(beams)@.len()),
    ensures
        final(beams)@ == unmark_referenced(old(beams)@, m@),
{
    let ghost start = beams@;
    let ghost keys = spec_keys_iter(m).remaining().unref();
    for k in it: m.keys()
        invariant
            indices_below(m@, start.len()),
            it.seq() == spec_keys_iter(m).remaining(),
            keys == spec_keys_iter(m).remaining().unref(),
            keys.to_set() == m@.dom(),
            beams@.len() == start.len(),
            forall|i: int| 0 <= i < start.len() ==> #[trigger] beams@[i] == if referenced(m@, keys.take(it.index()).to_set(), i) {
                unseen_beam(start[i])
            } else {
                start[i]
            },
    {
        let ghost n = it.index();
        assert(keys[n] == *k);
        let index = *m.get(k).unwrap();
        let mut beam = beams[index];
        beam.seen = false;
        beams.set(index, beam);
        proof {
            assert(keys.take(n + 1) =~= keys.take(n).push(*k));
            keys.take(n).lemma_push_to_set_commute(*k);
            assert forall|i: int| 0 <= i < start.len() implies #[trigger] beams@[i] == if referenced(m@, keys.take(n + 1).to_set(), i) {
                unseen_beam(start[i])
            } else {
                start[i]
            } by {
                if i == index {
                    assert(keys.take(n + 1).to_set().contains(*k));
                } else {
                    if referenced(m@, keys.take(n + 1).to_set(), i) {
                        let w = choose|w: usize| keys.take(n + 1).to_set().contains(w) && m@.contains_key(w) && m@[w] == i;
                        assert(keys.take(n).to_set().contains(w));
                    }
                }
            }
        }
    }
    assert(keys.take(keys.len() as int) =~= keys);
    assert(beams@ =~= unmark_referenced(start, m@));
}

/// The engine beams of `m` whose beam was seen.
fn keep_seen_beams(m: &HashMap<usize, usize>, beams: &Vec<Beam>) -> (r: HashMap<usize, usize>)
    requires
        indices_below(m@, beams@.len()),
    ensures
        r@ == keep_seen(m@, beams@),
{
    let mut r: HashMap<usize, usize> = HashMap::new();
    let ghost keys = spec_keys_iter(m).remaining().unref();
    for k in it: m.keys()
        invariant
            indices_below(m@, beams@.len()),
            it.seq() == spec_keys_iter(m).remaining(),
            keys == spec_keys_iter(m).remaining().unref(),
            keys.to_set() == m@.dom(),
            r@ == m@.restrict(Set::new(|j: usize| keys.take(it.index()).contains(j) && m@.contains_key(j) && beams@[m@[j] as int].seen)),
    {
        let ghost i = it.index();
        assert(keys[i] == *k);
        let index = *m.get(k).unwrap();
        if beams[index].seen {
            r.insert(*k, index);
        }
        assert(keys.take(i + 1) =~= keys.take(i).push(*k));
        assert forall|j: usize| keys.take(i + 1).contains(j) <==> (keys.take(i).contains(j) || j == *k) by {
            if keys.take(i + 1).contains(j) {
                let w = choose|w: int| 0 <= w < i + 1 && #[trigger] keys.take(i + 1)[w] == j;
                if w < i {
                    assert(keys.take(i)[w] == j);
                }
            }
            if keys.take(i).contains(j) {
                let w = choose|w: int| 0 <= w < i && #[trigger] keys.take(i)[w] == j;
                assert(keys.take(i + 1)[w] == j);
            }
            if j == *k {
                assert(keys.take(i + 1)[i] == j);
            }
        }
        assert(r@ =~= m@.restrict(Set::new(|j: usize| keys.take(i + 1).contains(j) && m@.contains_key(j) && beams@[m@[j] as int].seen)));
    }
    assert(keys.take(keys.len() as int) =~= keys);
    assert(r@ =~= keep_seen(m@, beams@));
    r
}

/// A copy of a light style.
fn copy_lightstyle(l: &Lightstyle) -> (r: Lightstyle)
    ensures
        lightstyle_view(r) == lightstyle_view(*l),
{
    let mut map: Vec<u8> = Vec::new();
    let mut i: usize = 0;
    while i < l.map.len()
        invariant
            i <= l.map@.len(),
            map@ == l.map@.take(i as int),
        decreases l.map@.len() - i,
    {
        map.push(l.map[i]);
        assert(l.map@.take(i + 1) =~= l.map@.take(i as int).push(l.map@[i as int]));
        i += 1;
    }
    assert(l.map@.take(l.map@.len() as int) =~= l.map@);
    Lightstyle { index: l.index, map }
}

/// Index in the recording's model list of the weapon model of `s`, if it
/// has one.
fn weapon_model_index_of(map: &HashMap<usize, usize>, precache: &Vec<usize>, s: &EntityState) -> (r: Option<u32>)
    requires
        weapon_lookup_ok(map@, precache@, *s),
    ensures
        r == weapon_model_index(map@, precache@, *s),
{
    if s.weaponmodel != 0 {
        let weaponmodel = precache[s.weaponmodel as usize];
        Some(*map.get(&weaponmodel).unwrap() as u32)
    } else {
        None
    }
}

// ============================
// A whole frame
// ============================

/// The player records keep their number through a frame.
pub proof fn lemma_players_fold_len(players: Seq<PlayerInfo>, states: Seq<PlayerInfoState>, n: nat)
    requires
        n <= players.len(),
    ensures
        players_fold(players, states, n).0.len() == players.len(),
    decreases n,
{
    if n > 0 {
        lemma_players_fold_len(players, states, (n - 1) as nat);
    }
}

/// One frame recorded: each part of the engine state in turn, in the order
/// the messages come. The result is the recorder after the frame, the
/// messages of the frame, and whether the frame can be recorded at all:
/// every model, weapon model, beam model and decal name it refers to is
/// known, every new model name and light style fits its buffer.
pub open spec fn frame_step(r: RecorderView, f: FrameSnapshot) -> (RecorderView, Seq<MessageView>, bool) {
    let s1 = models_step(r, f.known_models@);
    let s2 = viewentity_step(s1.0, f.viewentity);
    let s3 = camera_step(s2.0, f.camera);
    let s4 = players_step(s3.0, f.players@);
    let s5 = viewent_step(s4.0, f.health, f.viewent);
    let s6 = entities_step(s5.0, f.visible_edicts@, f.model_precache@);
    let s7 = beams_step(s6.0, f.beams@, f.model_precache@);
    let s8 = beam_entities_step(s7.0, f.beam_entities@, f.model_precache@);
    let s9 = decals_step(s8.0, f.decals@);
    let s10 = lightstyles_step(s9.0, f.lightstyles@);
    let ok = {
        &&& models_ok(r, f.known_models@)
        &&& viewent_ok(s4.0, f.health, f.viewent)
        &&& s6.2
        &&& s7.2
        &&& s8.2
        &&& s9.2
        &&& lightstyles_ok(f.lightstyles@)
    };
    (s10.0, s1.1 + s2.1 + s3.1 + s4.1 + s5.1 + s6.1 + s7.1 + s8.1 + s9.1 + s10.1, ok)
}

// ============================
// The start of a recording
// ============================

/// Each decal name as its length in one byte, then its bytes.
pub open spec fn decal_names_bytes(names: Seq<Seq<i8>>) -> Seq<u8>
    decreases names.len(),
{
    if names.len() == 0 {
        seq![]
    } else {
        decal_names_bytes(names.drop_last()) + seq![c_str_len(names.last()) as u8] + c_str_bytes(names.last())
    }
}

/// The header of a recording: the map name and the sky name, each as its
/// length in one byte then its bytes, the number of decal names in two
/// bytes, then the decal names.
pub open spec fn header_bytes(map_name: Seq<i8>, skyname: Seq<u8>, decal_names: Seq<Seq<i8>>) -> Seq<u8> {
    seq![c_str_len(map_name) as u8] + c_str_bytes(map_name) + seq![skyname.len() as u8] + skyname
        + native_bytes((decal_names.len() as u16) as int, 2) + decal_names_bytes(decal_names)
}

/// The decal names by the engine's texture number: the first `n` entries
/// of `indices` in turn, each mapping its number to its position, a later
/// one taking the place of an earlier one with the same number.
pub open spec fn decal_cache_map(indices: Seq<i32>, n: nat) -> Map<i16, u16>
    decreases n,
{
    if n == 0 {
        Map::empty()
    } else {
        decal_cache_map(indices, (n - 1) as nat).insert(indices[n - 1] as i16, (n - 1) as u16)
    }
}

/// A player slot as a recording starts: an empty model name and colours 0.
pub open spec fn blank_player(p: PlayerInfo) -> bool {
    &&& p.model@ == Seq::new(64, |i: int| 0i8)
    &&& p.topcolor == 0
    &&& p.bottomcolor == 0
}

/// A recorder that has recorded nothing yet and knows the decal names by
/// `cache`.
pub open spec fn fresh_recorder(r: RecorderView, cache: Map<i16, u16>) -> bool {
    &&& r.model_index_map == Map::<usize, usize>::empty()
    &&& r.last_mod_numknown == 0
    &&& r.last_camera is None
    &&& r.last_viewent is None
    &&& r.entities == Seq::<Entity>::empty()
    &&& r.engine_entities == Map::<usize, usize>::empty()
    &&& r.players.len() == 32
    &&& forall|i: int| 0 <= i < 32 ==> blank_player(#[trigger] r.players[i])
    &&& r.beams == Seq::<Beam>::empty()
    &&& r.engine_beams == Map::<usize, usize>::empty()
    &&& r.beam_entities == Seq::<Beam>::empty()
    &&& r.engine_beam_entities == Map::<usize, usize>::empty()
    &&& r.decal_cache_name_index_map == cache
    &&& r.decals == Map::<usize, Decal>::empty()
    &&& r.lightstyles == Map::<usize, (u8, Seq<u8>)>::empty()
    &&& r.last_viewentity is None
}

/// Whether the weapon model of `s`, if it has one, is in the precache and
/// known.
fn weapon_lookup_ok_of(map: &HashMap<usize, usize>, precache: &Vec<usize>, s: &EntityState) -> (r: bool)
    ensures
        r == weapon_lookup_ok(map@, precache@, *s),
{
    if s.weaponmodel != 0 {
        if s.weaponmodel < 0 || s.weaponmodel as usize >= precache.len() {
            return false;
        }
        map.contains_key(&precache[s.weaponmodel as usize])
    } else {
        true
    }
}

/// Whether a new entity can be made of `s`.
fn new_entity_ok_of(map: &HashMap<usize, usize>, precache: &Vec<usize>, s: &EntityState) -> (r: bool)
    ensures
        r == new_entity_ok(map@, precache@, *s),
{
    map.contains_key(&s.model) && weapon_lookup_ok_of(map, precache, s) && (s.player == 0 || (s.number as u8)
        >= 1)
}

/// Whether the model a beam names is in the precache and known.
fn beam_lookup_ok_of(map: &HashMap<usize, usize>, precache: &Vec<usize>, s: &BeamState) -> (r: bool)
    ensures
        r == beam_lookup_ok(map@, precache@, *s),
{
    if s.model_index < 0 || s.model_index as usize >= precache.len() {
        return false;
    }
    map.contains_key(&precache[s.model_index as usize])
}

/// Whether every light style in use has a length its pattern can hold.
fn lightstyles_ok_of(ls: &Vec<LightstyleState>) -> (r: bool)
    ensures
        r == lightstyles_ok(ls@),
{
    let mut i: usize = 0;
    while i < ls.len()
        invariant
            i <= ls@.len(),
            forall|j: int| 0 <= j < i && (#[trigger] ls@[j]).length != 0 ==> crate::decals::lightstyle_length_ok(ls@[j]),
        decreases ls@.len() - i,
    {
        if ls[i].length != 0 && (ls[i].length < 0 || ls[i].length > 64) {
            assert(!crate::decals::lightstyle_length_ok(ls@[i as int]));
            return false;
        }
        i += 1;
    }
    true
}

impl Recorder {
    /// Starts a recording: appends its header to `header` and returns a
    /// recorder that has recorded nothing yet. `decal_indices[i]` is the
    /// engine's texture number of the decal named `decal_names[i]`.
    #[verifier::spinoff_prover]
    pub fn init(
        map_name: &[i8],
        skyname: &[u8],
        decal_names: &Vec<Vec<i8>>,
        decal_indices: &Vec<i32>,
        header: &mut Vec<u8>,
    ) -> (r: Recorder)
        requires
            has_nul(map_name@),
            decal_indices@.len() == decal_names@.len(),
            forall|i: int| 0 <= i < decal_names@.len() ==> has_nul(#[trigger] decal_names@[i]@),
        ensures
            final(header)@ == old(header)@ + header_bytes(
                map_name@,
                skyname@,
                decal_names@.map_values(|n: Vec<i8>| n@),
            ),
            fresh_recorder(r@, decal_cache_map(decal_indices@, decal_indices@.len())),
            r@.wf(),
    {
        let ghost names = decal_names@.map_values(|n: Vec<i8>| n@);
        let map_name_bytes = c_str_to_bytes(map_name);
        header.push(map_name_bytes.len() as u8);
        append_bytes(header, map_name_bytes);
        header.push(skyname.len() as u8);
        append_bytes(header, vstd::slice::slice_to_vec(skyname));
        let decal_count = decal_names.len();
        append_bytes(header, bytes_of_u16(decal_count as u16));
        let ghost start = header@;
        let mut i: usize = 0;
        while i < decal_count
            invariant
                i <= decal_count,
                decal_count == decal_names@.len(),
                names == decal_names@.map_values(|n: Vec<i8>| n@),
                header@ == start + decal_names_bytes(names.take(i as int)),
            decreases decal_count - i,
        {
            let name = c_str_to_bytes(decal_names[i].as_slice());
            header.push(name.len() as u8);
            append_bytes(header, name);
            assert(names.take(i + 1).drop_last() =~= names.take(i as int));
            i += 1;
        }
        assert(names.take(decal_count as int) =~= names);
        let mut decal_cache_name_index_map: HashMap<i16, u16> = HashMap::new();
        let mut j: usize = 0;
        while j < decal_count
            invariant
                j <= decal_count,
                decal_count == decal_indices@.len(),
                decal_cache_name_index_map@ == decal_cache_map(decal_indices@, j as nat),
            decreases decal_count - j,
        {
            let cache_index = decal_indices[j] as i16;
            decal_cache_name_index_map.insert(cache_index, j as u16);
            j += 1;
        }
        let mut players: Vec<PlayerInfo> = Vec::new();
        let mut k: usize = 0;
        while k < 32
            invariant
                k <= 32,
                players@.len() == k,
                forall|x: int| 0 <= x < k ==> blank_player(#[trigger] players@[x]),
            decreases 32 - k,
        {
            players.push(PlayerInfo::new());
            k += 1;
        }
        let r = Recorder {
            model_index_map: HashMap::new(),
            last_mod_numknown: 0,
            last_camera: None,
            last_viewent: None,
            entities: Vec::new(),
            engine_entities: HashMap::new(),
            players,
            beams: Vec::new(),
            engine_beams: HashMap::new(),
            beam_entities: Vec::new(),
            engine_beam_entities: HashMap::new(),
            decal_cache_name_index_map,
            decals: HashMap::new(),
            lightstyles: HashMap::new(),
            last_viewentity: None,
        };
        assert(r@.lightstyles =~= Map::<usize, (u8, Seq<u8>)>::empty());
        assert(r@.entities =~= Seq::<Entity>::empty());
        assert(r@.beams =~= Seq::<Beam>::empty());
        assert(r@.beam_entities =~= Seq::<Beam>::empty());
        r
    }

    /// Sends the models the engine loaded since the last frame.
    #[verifier::spinoff_prover]
    fn record_models(&mut self, known: &Vec<ModelState>, messages: &mut Vec<Message>)
        requires
            models_ok(old(self)@, known@),
        ensures
            final(self)@ == models_step(old(self)@, known@).0,
            message_views(final(messages)@) == message_views(old(messages)@) + models_step(old(self)@, known@).1,
    {
        let mod_numknown = known.len();
        if mod_numknown != self.last_mod_numknown {
            let ghost start_map = self.model_index_map@;
            let last = self.last_mod_numknown;
            let mut model_names: Vec<Vec<u8>> = Vec::new();
            let mut i: usize = last;
            while i < mod_numknown
                invariant
                    last <= i <= mod_numknown,
                    mod_numknown == known@.len(),
                    forall|j: int| last <= j < known@.len() ==> has_nul(#[trigger] known@[j].name@),
                    self.model_index_map@ == models_inserted(start_map, known@, last as int, i as int),
                    self@ == (RecorderView { model_index_map: self.model_index_map@, ..old(self)@ }),
                    model_names@.len() == i - last,
                    forall|j: int| 0 <= j < model_names@.len() ==> #[trigger] model_names@[j]@ == c_str_bytes(known@[last + j].name@),
                decreases mod_numknown - i,
            {
                let model = &known[i];
                self.model_index_map.insert(model.address, i);
                let name = c_str_to_bytes(model.name.as_slice());
                model_names.push(name);
                i += 1;
            }
            assert(model_names@.map_values(|n: Vec<u8>| n@) =~= new_model_names(known@, last as int));
            let ghost names_view = model_names@.map_values(|n: Vec<u8>| n@);
            let ghost old_msgs = messages@;
            messages.push(Message::AddModels(model_names));
            assert(message_views(messages@) =~= message_views(old_msgs).push(MessageView::AddModels(names_view)));
            self.last_mod_numknown = mod_numknown;
        }
    }

    /// Sends a change of the entity the view is attached to.
    fn record_viewentity(&mut self, viewentity: i32, messages: &mut Vec<Message>)
        ensures
            final(self)@ == viewentity_step(old(self)@, viewentity).0,
            message_views(final(messages)@) == message_views(old(messages)@) + viewentity_step(old(self)@, viewentity).1,
    {
        if self.last_viewentity.is_none() || self.last_viewentity.unwrap() != viewentity {
            let ghost old_msgs = messages@;
            messages.push(Message::SetView(viewentity as u32));
            assert(message_views(messages@) =~= message_views(old_msgs).push(MessageView::SetView(viewentity as u32)));
            self.last_viewentity = Some(viewentity);
        } else {
            assert(message_views(messages@) =~= message_views(messages@) + Seq::<MessageView>::empty());
        }
    }

    /// Sends the camera, whole the first time and then its changes.
    fn record_camera(&mut self, current: Camera, messages: &mut Vec<Message>)
        ensures
            final(self)@ == camera_step(old(self)@, current).0,
            message_views(final(messages)@) == message_views(old(messages)@) + camera_step(old(self)@, current).1,
    {
        let ghost old_msgs = messages@;
        match self.last_camera {
            Some(last_camera) => {
                let changes = last_camera.get_changed_fields(&current);
                if changes.len() != 0 {
                    let ghost ch = changes@;
                    messages.push(Message::UpdateObject(Object::Camera(current), changes));
                    assert(message_views(messages@) =~= message_views(old_msgs).push(
                        MessageView::UpdateObject(Object::Camera(current), ch),
                    ));
                } else {
                    assert(message_views(messages@) =~= message_views(old_msgs) + Seq::<MessageView>::empty());
                }
            },
            None => {
                messages.push(Message::NewObject(Object::Camera(current)));
                assert(message_views(messages@) =~= message_views(old_msgs).push(
                    MessageView::NewObject(Object::Camera(current)),
                ));
            },
        }
        self.last_camera = Some(current);
    }

    /// Sends the changes of each player slot.
    fn record_players(&mut self, states: &Vec<PlayerInfoState>, messages: &mut Vec<Message>)
        ensures
            final(self)@ == players_step(old(self)@, states@).0,
            message_views(final(messages)@) == message_views(old(messages)@) + players_step(old(self)@, states@).1,
    {
        let n = if self.players.len() <= states.len() { self.players.len() } else { states.len() };
        let ghost start = self@;
        let ghost start_msgs = message_views(messages@);
        let mut index: usize = 0;
        while index < n
            invariant
                index <= n,
                n == player_count(start, states@),
                n <= self.players@.len(),
                n <= states@.len(),
                self@ == (RecorderView { players: players_fold(start.players, states@, index as nat).0, ..start }),
                message_views(messages@) == start_msgs + players_fold(start.players, states@, index as nat).1,
                self.players@.len() == start.players.len(),
            decreases n - index,
        {
            let mut player = self.players[index];
            let changes = player.get_changes_and_update(&states[index]);
            self.players.set(index, player);
            if changes.len() != 0 {
                let ghost ch = changes@;
                let ghost old_msgs = messages@;
                messages.push(Message::UpdatePlayer(index as u8, changes));
                assert(message_views(messages@) =~= message_views(old_msgs).push(MessageView::UpdatePlayer(index as u8, ch)));
            }
            assert(self.players@ =~= players_fold(start.players, states@, (index + 1) as nat).0);
            index += 1;
        }
    }

    /// Records the visible entities of a frame.
    #[verifier::spinoff_prover]
    fn record_entities(&mut self, edicts: &Vec<(usize, EntityState)>, precache: &Vec<usize>, messages: &mut Vec<Message>) -> (ok: bool)
        requires
            old(self)@.wf(),
        ensures
            ok == entities_step(old(self)@, edicts@, precache@).2,
            ok ==> final(self)@ == entities_step(old(self)@, edicts@, precache@).0,
            ok ==> final(self)@.wf(),
            ok ==> message_views(final(messages)@) == message_views(old(messages)@) + entities_step(old(self)@, edicts@, precache@).1,
    {
        let ghost start = self@;
        let ghost start_msgs = message_views(messages@);
        let mut i: usize = 0;
        while i < self.entities.len()
            invariant
                i <= self.entities@.len(),
                self.entities@.len() == start.entities.len(),
                forall|j: int| 0 <= j < i ==> #[trigger] self.entities@[j] == unseen_entity(start.entities[j]),
                forall|j: int| i <= j < self.entities@.len() ==> #[trigger] self.entities@[j] == start.entities[j],
                self@ == (RecorderView { entities: self.entities@, ..start }),
            decreases self.entities@.len() - i,
        {
            let mut entity = self.entities[i];
            entity.seen = false;
            self.entities.set(i, entity);
            i += 1;
        }
        let ghost es0 = unseen_entities(start.entities);
        assert(self.entities@ =~= es0);
        let ghost map = start.model_index_map;
        let mut k: usize = 0;
        while k < edicts.len()
            invariant
                k <= edicts@.len(),
                start == old(self)@,
                es0 == unseen_entities(start.entities),
                map == start.model_index_map,
                ({
                    let f = entities_fold(es0, start.engine_entities, map, precache@, edicts@.take(k as int));
                    &&& f.3
                    &&& self.entities@ == f.0
                    &&& self.engine_entities@ == f.1
                    &&& message_views(messages@) == start_msgs + f.2
                }),
                indices_below(self.engine_entities@, self.entities@.len()),
                self.model_index_map@ == map,
                self@ == (RecorderView { entities: self.entities@, engine_entities: self.engine_entities@, ..start }),
            decreases edicts@.len() - k,
        {
            proof {
                assert(edicts@.take(k + 1).drop_last() =~= edicts@.take(k as int));
                assert(edicts@.take(k + 1).last() == edicts@[k as int]);
                lemma_entity_step_indices(self.entities@, self.engine_entities@, map, precache@, edicts@[k as int].0, edicts@[k as int].1);
            }
            let (address, state) = edicts[k];
            let ghost es_k = self.entities@;
            let ghost engine_k = self.engine_entities@;
            let ghost old_msgs = messages@;
            match self.engine_entities.get(&address) {
                Some(existing_index) => {
                    let index = *existing_index;
                    let mut existing = self.entities[index];
                    if existing.seen {
                        // Already recorded this frame through another list.
                        assert(message_views(messages@) =~= message_views(old_msgs) + Seq::<MessageView>::empty());
                    } else if existing.model != state.model {
                        if !new_entity_ok_of(&self.model_index_map, precache, &state) {
                            proof {
                                assert(!entity_step(es_k, engine_k, map, precache@, address, state).3);
                                lemma_entities_fold_fails(es0, start.engine_entities, map, precache@, edicts@, k as int);
                            }
                            return false;
                        }
                        let new_index = self.entities.len();
                        let model_index = *self.model_index_map.get(&state.model).unwrap();
                        let weaponmodel_index = weapon_model_index_of(&self.model_index_map, precache, &state);
                        let new_entity = Entity::new(&state, new_index as u32, model_index, weaponmodel_index);
                        self.entities.push(new_entity);
                        self.engine_entities.insert(address, new_index);
                        messages.push(Message::NewObject(Object::Entity(new_entity)));
                        assert(message_views(messages@) =~= message_views(old_msgs).push(
                            MessageView::NewObject(Object::Entity(new_entity)),
                        ));
                    } else {
                        existing.seen = true;
                        let mut changes = existing.get_changes_and_update(&state);
                        if !existing.draw {
                            existing.draw = true;
                            changes.push(ObjectField::Draw(true));
                        }
                        if existing.weaponmodel != state.weaponmodel {
                            if !weapon_lookup_ok_of(&self.model_index_map, precache, &state) {
                                proof {
                                    assert(!entity_step(es_k, engine_k, map, precache@, address, state).3);
                                    lemma_entities_fold_fails(es0, start.engine_entities, map, precache@, edicts@, k as int);
                                }
                                return false;
                            }
                            let weaponmodel_index = weapon_model_index_of(&self.model_index_map, precache, &state);
                            changes.push(ObjectField::WeaponModel(weaponmodel_index));
                        }
                        self.entities.set(index, existing);
                        if changes.len() != 0 {
                            let ghost ch = changes@;
                            messages.push(Message::UpdateObject(Object::Entity(existing), changes));
                            assert(message_views(messages@) =~= message_views(old_msgs).push(
                                MessageView::UpdateObject(Object::Entity(existing), ch),
                            ));
                        } else {
                            assert(message_views(messages@) =~= message_views(old_msgs) + Seq::<MessageView>::empty());
                        }
                    }
                },
                None => {
                    if state.model != 0 {
                        if !new_entity_ok_of(&self.model_index_map, precache, &state) {
                            proof {
                                assert(!entity_step(es_k, engine_k, map, precache@, address, state).3);
                                lemma_entities_fold_fails(es0, start.engine_entities, map, precache@, edicts@, k as int);
                            }
                            return false;
                        }
                        let new_index = self.entities.len();
                        let model_index = *self.model_index_map.get(&state.model).unwrap();
                        let weaponmodel_index = weapon_model_index_of(&self.model_index_map, precache, &state);
                        let new_entity = Entity::new(&state, new_index as u32, model_index, weaponmodel_index);
                        self.entities.push(new_entity);
                        self.engine_entities.insert(address, new_index);
                        messages.push(Message::NewObject(Object::Entity(new_entity)));
                        assert(message_views(messages@) =~= message_views(old_msgs).push(
                            MessageView::NewObject(Object::Entity(new_entity)),
                        ));
                    } else {
                        assert(message_views(messages@) =~= message_views(old_msgs) + Seq::<MessageView>::empty());
                    }
                },
            }
            k += 1;
        }
        assert(edicts@.take(edicts@.len() as int) =~= edicts@);
        let ghost folded = self.entities@;
        let ghost folded_engine = self.engine_entities@;
        let ghost mid_msgs = message_views(messages@);
        let mut j: usize = 0;
        while j < self.entities.len()
            invariant
                j <= self.entities@.len(),
                self.entities@.len() == folded.len(),
                ({
                    let h = hide_unseen_entities(folded, j as nat);
                    &&& forall|x: int| 0 <= x < j ==> #[trigger] self.entities@[x] == h.0[x]
                    &&& forall|x: int| j <= x < folded.len() ==> #[trigger] self.entities@[x] == folded[x]
                    &&& message_views(messages@) == mid_msgs + h.1
                }),
                indices_below(self.engine_entities@, self.entities@.len()),
                self.engine_entities@ == folded_engine,
                self@ == (RecorderView { entities: self.entities@, engine_entities: self.engine_entities@, ..start }),
            decreases self.entities@.len() - j,
        {
            proof {
                lemma_hide_unseen_entities_len(folded, j as nat);
            }
            let mut entity = self.entities[j];
            if !entity.seen && entity.draw {
                entity.draw = false;
                self.entities.set(j, entity);
                let hide = vec![ObjectField::Draw(false)];
                assert(hide@ =~= seq![ObjectField::Draw(false)]);
                let ghost old_msgs = messages@;
                messages.push(Message::UpdateObject(Object::Entity(entity), hide));
                assert(message_views(messages@) =~= message_views(old_msgs).push(
                    MessageView::UpdateObject(Object::Entity(entity), seq![ObjectField::Draw(false)]),
                ));
            }
            j += 1;
        }
        proof {
            lemma_hide_unseen_entities_len(folded, folded.len());
        }
        assert(self.entities@ =~= hide_unseen_entities(folded, folded.len()).0);
        let ghost f = entities_fold(es0, start.engine_entities, map, precache@, edicts@);
        assert(folded == f.0);
        assert(self.engine_entities@ == f.1);
        assert(message_views(messages@) =~= start_msgs + (f.2 + hide_unseen_entities(f.0, f.0.len()).1));
        assert(self@ == entities_step(start, edicts@, precache@).0);
        true
    }

    /// Records the active beams of a frame.
    #[verifier::spinoff_prover]
    fn record_beams(&mut self, beams: &Vec<(usize, BeamState)>, precache: &Vec<usize>, messages: &mut Vec<Message>) -> (ok: bool)
        requires
            old(self)@.wf(),
        ensures
            ok == beams_step(old(self)@, beams@, precache@).2,
            ok ==> final(self)@ == beams_step(old(self)@, beams@, precache@).0,
            ok ==> final(self)@.wf(),
            ok ==> message_views(final(messages)@) == message_views(old(messages)@) + beams_step(old(self)@, beams@, precache@).1,
    {
        let ghost start = self@;
        let ghost start_msgs = message_views(messages@);
        unmark_referenced_beams(&mut self.beams, &self.engine_beams);
        let ghost b0 = self.beams@;
        let ghost map = start.model_index_map;
        assert(self@ == (RecorderView { beams: b0, ..start }));
        let mut k: usize = 0;
        while k < beams.len()
            invariant
                k <= beams@.len(),
                start == old(self)@,
                b0 == unmark_referenced(start.beams, start.engine_beams),
                map == start.model_index_map,
                ({
                    let f = beams_fold(b0, start.engine_beams, map, precache@, beams@.take(k as int));
                    &&& f.3
                    &&& self.beams@ == f.0
                    &&& self.engine_beams@ == f.1
                    &&& message_views(messages@) == start_msgs + f.2
                }),
                indices_below(self.engine_beams@, self.beams@.len()),
                self.model_index_map@ == map,
                self@ == (RecorderView { beams: self.beams@, engine_beams: self.engine_beams@, ..start }),
            decreases beams@.len() - k,
        {
            proof {
                assert(beams@.take(k + 1).drop_last() =~= beams@.take(k as int));
                assert(beams@.take(k + 1).last() == beams@[k as int]);
            }
            let (address, beam) = beams[k];
            if !beam_lookup_ok_of(&self.model_index_map, precache, &beam) {
                proof {
                    lemma_beams_fold_fails(b0, start.engine_beams, map, precache@, beams@, k as int);
                }
                return false;
            }
            let ghost old_msgs = messages@;
            let model = precache[beam.model_index as usize];
            let model_index = *self.model_index_map.get(&model).unwrap();
            let existing = match self.engine_beams.get(&address) {
                Some(existing_index) => {
                    let index = *existing_index;
                    if self.beams[index].model_index == model_index {
                        Some(index)
                    } else {
                        None
                    }
                },
                None => None,
            };
            match existing {
                Some(index) => {
                    let mut existing_beam = self.beams[index];
                    existing_beam.seen = true;
                    let changes = existing_beam.get_changes_and_update(&beam);
                    self.beams.set(index, existing_beam);
                    if changes.len() != 0 {
                        let ghost ch = changes@;
                        messages.push(Message::UpdateObject(Object::Beam(existing_beam), changes));
                        assert(message_views(messages@) =~= message_views(old_msgs).push(
                            MessageView::UpdateObject(Object::Beam(existing_beam), ch),
                        ));
                    } else {
                        assert(message_views(messages@) =~= message_views(old_msgs) + Seq::<MessageView>::empty());
                    }
                },
                None => {
                    let new_index = self.beams.len();
                    let new_beam = Beam::new(&beam, new_index as u32, model_index);
                    self.beams.push(new_beam);
                    self.engine_beams.insert(address, new_index);
                    messages.push(Message::NewObject(Object::Beam(new_beam)));
                    assert(message_views(messages@) =~= message_views(old_msgs).push(
                        MessageView::NewObject(Object::Beam(new_beam)),
                    ));
                },
            }
            k += 1;
        }
        assert(beams@.take(beams@.len() as int) =~= beams@);
        let ghost folded = self.beams@;
        let ghost folded_engine = self.engine_beams@;
        let ghost mid_msgs = message_views(messages@);
        let mut j: usize = 0;
        while j < self.beams.len()
            invariant
                j <= self.beams@.len(),
                self.beams@.len() == folded.len(),
                ({
                    let h = hide_unseen_beams(folded, j as nat);
                    &&& forall|x: int| 0 <= x < j ==> #[trigger] self.beams@[x] == h.0[x]
                    &&& forall|x: int| j <= x < folded.len() ==> #[trigger] self.beams@[x] == folded[x]
                    &&& message_views(messages@) == mid_msgs + h.1
                }),
                indices_below(self.engine_beams@, self.beams@.len()),
                self.engine_beams@ == folded_engine,
                self@ == (RecorderView { beams: self.beams@, engine_beams: self.engine_beams@, ..start }),
            decreases self.beams@.len() - j,
        {
            proof {
                lemma_hide_unseen_beams_len(folded, j as nat);
            }
            let mut beam = self.beams[j];
            if !beam.seen && beam.draw {
                beam.draw = false;
                self.beams.set(j, beam);
                let hide = vec![ObjectField::Draw(false)];
                assert(hide@ =~= seq![ObjectField::Draw(false)]);
                let ghost old_msgs = messages@;
                messages.push(Message::UpdateObject(Object::Beam(beam), hide));
                assert(message_views(messages@) =~= message_views(old_msgs).push(
                    MessageView::UpdateObject(Object::Beam(beam), seq![ObjectField::Draw(false)]),
                ));
            }
            j += 1;
        }
        proof {
            lemma_hide_unseen_beams_len(folded, folded.len());
        }
        assert(self.beams@ =~= hide_unseen_beams(folded, folded.len()).0);
        self.engine_beams = keep_seen_beams(&self.engine_beams, &self.beams);
        let ghost f = beams_fold(b0, start.engine_beams, map, precache@, beams@);
        assert(message_views(messages@) =~= start_msgs + (f.2 + hide_unseen_beams(f.0, f.0.len()).1));
        assert(self@ == beams_step(start, beams@, precache@).0);
        true
    }

    /// Records the beam entities of a frame.
    #[verifier::spinoff_prover]
    fn record_beam_entities(&mut self, beams: &Vec<(usize, Option<BeamState>)>, precache: &Vec<usize>, messages: &mut Vec<Message>) -> (ok: bool)
        requires
            old(self)@.wf(),
        ensures
            ok == beam_entities_step(old(self)@, beams@, precache@).2,
            ok ==> final(self)@ == beam_entities_step(old(self)@, beams@, precache@).0,
            ok ==> final(self)@.wf(),
            ok ==> message_views(final(messages)@) == message_views(old(messages)@) + beam_entities_step(old(self)@, beams@, precache@).1,
    {
        let ghost start = self@;
        let ghost start_msgs = message_views(messages@);
        let mut i: usize = 0;
        while i < self.beam_entities.len()
            invariant
                i <= self.beam_entities@.len(),
                self.beam_entities@.len() == start.beam_entities.len(),
                forall|j: int| 0 <= j < i ==> #[trigger] self.beam_entities@[j] == unseen_beam(start.beam_entities[j]),
                forall|j: int| i <= j < self.beam_entities@.len() ==> #[trigger] self.beam_entities@[j] == start.beam_entities[j],
                self@ == (RecorderView { beam_entities: self.beam_entities@, ..start }),
            decreases self.beam_entities@.len() - i,
        {
            let mut beam = self.beam_entities[i];
            beam.seen = false;
            self.beam_entities.set(i, beam);
            i += 1;
        }
        let ghost b0 = unseen_beams(start.beam_entities);
        assert(self.beam_entities@ =~= b0);
        let ghost map = start.model_index_map;
        let mut k: usize = 0;
        while k < beams.len()
            invariant
                k <= beams@.len(),
                start == old(self)@,
                b0 == unseen_beams(start.beam_entities),
                map == start.model_index_map,
                ({
                    let f = beam_entities_fold(b0, start.engine_beam_entities, map, precache@, beams@.take(k as int));
                    &&& f.3
                    &&& self.beam_entities@ == f.0
                    &&& self.engine_beam_entities@ == f.1
                    &&& message_views(messages@) == start_msgs + f.2
                }),
                indices_below(self.engine_beam_entities@, self.beam_entities@.len()),
                self.engine_beam_entities@.dom().len() <= self.beam_entities@.len(),
                self.model_index_map@ == map,
                self@ == (RecorderView {
                    beam_entities: self.beam_entities@,
                    engine_beam_entities: self.engine_beam_entities@,
                    ..start
                }),
            decreases beams@.len() - k,
        {
            proof {
                assert(beams@.take(k + 1).drop_last() =~= beams@.take(k as int));
                assert(beams@.take(k + 1).last() == beams@[k as int]);
            }
            let (address, beam_opt) = beams[k];
            let ghost old_msgs = messages@;
            match beam_opt {
                None => {
                    assert(message_views(messages@) =~= message_views(old_msgs) + Seq::<MessageView>::empty());
                },
                Some(beam) => {
                    if !beam_lookup_ok_of(&self.model_index_map, precache, &beam) {
                        proof {
                            lemma_beam_entities_fold_fails(b0, start.engine_beam_entities, map, precache@, beams@, k as int);
                        }
                        return false;
                    }
                    match self.engine_beam_entities.get(&address) {
                        Some(existing_index) => {
                            let index = *existing_index;
                            let mut existing = self.beam_entities[index];
                            let model = precache[beam.model_index as usize];
                            let model_index = *self.model_index_map.get(&model).unwrap();
                            if existing.model_index != model_index {
                                let new_index = self.beam_entities.len();
                                let new_beam = Beam::new(&beam, new_index as u32, model_index);
                                self.beam_entities.push(new_beam);
                                self.engine_beam_entities.insert(address, new_index);
                                messages.push(Message::NewObject(Object::Beam(new_beam)));
                                assert(message_views(messages@) =~= message_views(old_msgs).push(
                                    MessageView::NewObject(Object::Beam(new_beam)),
                                ));
                            } else {
                                existing.seen = true;
                                let mut changes = existing.get_changes_and_update(&beam);
                                if !existing.draw {
                                    existing.draw = true;
                                    changes.push(ObjectField::Draw(true));
                                }
                                self.beam_entities.set(index, existing);
                                if changes.len() != 0 {
                                    let ghost ch = changes@;
                                    messages.push(Message::UpdateObject(Object::Beam(existing), changes));
                                    assert(message_views(messages@) =~= message_views(old_msgs).push(
                                        MessageView::UpdateObject(Object::Beam(existing), ch),
                                    ));
                                } else {
                                    assert(message_views(messages@) =~= message_views(old_msgs) + Seq::<MessageView>::empty());
                                }
                            }
                        },
                        None => {
                            let new_index = self.engine_beam_entities.len();
                            let model = precache[beam.model_index as usize];
                            let model_index = *self.model_index_map.get(&model).unwrap();
                            let new_beam = Beam::new(&beam, new_index as u32, model_index);
                            self.beam_entities.push(new_beam);
                            self.engine_beam_entities.insert(address, new_index);
                            messages.push(Message::NewObject(Object::Beam(new_beam)));
                            assert(message_views(messages@) =~= message_views(old_msgs).push(
                                MessageView::NewObject(Object::Beam(new_beam)),
                            ));
                        },
                    }
                },
            }
            k += 1;
        }
        assert(beams@.take(beams@.len() as int) =~= beams@);
        let ghost folded = self.beam_entities@;
        let ghost folded_engine = self.engine_beam_entities@;
        let ghost mid_msgs = message_views(messages@);
        let mut j: usize = 0;
        while j < self.beam_entities.len()
            invariant
                j <= self.beam_entities@.len(),
                self.beam_entities@.len() == folded.len(),
                ({
                    let h = hide_unseen_beams(folded, j as nat);
                    &&& forall|x: int| 0 <= x < j ==> #[trigger] self.beam_entities@[x] == h.0[x]
                    &&& forall|x: int| j <= x < folded.len() ==> #[trigger] self.beam_entities@[x] == folded[x]
                    &&& message_views(messages@) == mid_msgs + h.1
                }),
                indices_below(self.engine_beam_entities@, self.beam_entities@.len()),
                self.engine_beam_entities@.dom().len() <= self.beam_entities@.len(),
                self.engine_beam_entities@ == folded_engine,
                self@ == (RecorderView {
                    beam_entities: self.beam_entities@,
                    engine_beam_entities: self.engine_beam_entities@,
                    ..start
                }),
            decreases self.beam_entities@.len() - j,
        {
            proof {
                lemma_hide_unseen_beams_len(folded, j as nat);
            }
            let mut beam = self.beam_entities[j];
            if !beam.seen && beam.draw {
                beam.draw = false;
                self.beam_entities.set(j, beam);
                let hide = vec![ObjectField::Draw(false)];
                assert(hide@ =~= seq![ObjectField::Draw(false)]);
                let ghost old_msgs = messages@;
                messages.push(Message::UpdateObject(Object::Beam(beam), hide));
                assert(message_views(messages@) =~= message_views(old_msgs).push(
                    MessageView::UpdateObject(Object::Beam(beam), seq![ObjectField::Draw(false)]),
                ));
            }
            j += 1;
        }
        proof {
            lemma_hide_unseen_beams_len(folded, folded.len());
        }
        assert(self.beam_entities@ =~= hide_unseen_beams(folded, folded.len()).0);
        let ghost f = beam_entities_fold(b0, start.engine_beam_entities, map, precache@, beams@);
        assert(message_views(messages@) =~= start_msgs + (f.2 + hide_unseen_beams(f.0, f.0.len()).1));
        assert(self@ == beam_entities_step(start, beams@, precache@).0);
        true
    }

    /// Records the decal pool of a frame.
    #[verifier::spinoff_prover]
    fn record_decals(&mut self, decals: &Vec<DecalState>, messages: &mut Vec<Message>) -> (ok: bool)
        ensures
            ok == decals_step(old(self)@, decals@).2,
            ok ==> final(self)@ == decals_step(old(self)@, decals@).0,
            ok ==> message_views(final(messages)@) == message_views(old(messages)@) + decals_step(old(self)@, decals@).1,
    {
        let ghost start = self@;
        let ghost cache = start.decal_cache_name_index_map;
        let mut changed_decals: Vec<Decal> = Vec::new();
        let mut index: usize = 0;
        while index < decals.len()
            invariant
                index <= decals@.len(),
                start == old(self)@,
                cache == start.decal_cache_name_index_map,
                ({
                    let f = decals_fold(start.decals, cache, decals@, index as nat);
                    &&& f.2
                    &&& self.decals@ == f.0
                    &&& changed_decals@ == f.1
                }),
                self.decal_cache_name_index_map@ == cache,
                self@ == (RecorderView { decals: self.decals@, ..start }),
            decreases decals@.len() - index,
        {
            let decal = decals[index];
            if decal.psurface != 0 {
                match self.decals.get(&index) {
                    Some(prev) => {
                        let mut prev_decal = *prev;
                        let has_changed = prev_decal.update(&decal);
                        if has_changed {
                            prev_decal.face = decal.face as u16;
                            let key: i16 = if decal.texture >= 0 { decal.texture } else { 0 };
                            if !self.decal_cache_name_index_map.contains_key(&key) {
                                proof {
                                    lemma_decals_fold_fails(start.decals, cache, decals@, index as nat);
                                }
                                return false;
                            }
                            prev_decal.decal_index = *self.decal_cache_name_index_map.get(&key).unwrap();
                            self.decals.insert(index, prev_decal);
                            changed_decals.push(prev_decal);
                        }
                    },
                    None => {
                        let face = decal.face as u16;
                        let key: i16 = if decal.texture >= 0 { decal.texture } else { 0 };
                        if !self.decal_cache_name_index_map.contains_key(&key) {
                            proof {
                                lemma_decals_fold_fails(start.decals, cache, decals@, index as nat);
                            }
                            return false;
                        }
                        let decal_index = *self.decal_cache_name_index_map.get(&key).unwrap();
                        let new_decal = Decal::new(&decal, index as u16, face, decal_index);
                        self.decals.insert(index, new_decal);
                        changed_decals.push(new_decal);
                    },
                }
            }
            index += 1;
        }
        if changed_decals.len() != 0 {
            let ghost ds = changed_decals@;
            let ghost old_msgs = messages@;
            messages.push(Message::UpdateDecals(changed_decals));
            assert(message_views(messages@) =~= message_views(old_msgs).push(MessageView::UpdateDecals(ds)));
        } else {
            assert(message_views(messages@) =~= message_views(messages@) + Seq::<MessageView>::empty());
        }
        true
    }

    /// Records the light styles of a frame.
    #[verifier::spinoff_prover]
    fn record_lightstyles(&mut self, lightstyles: &Vec<LightstyleState>, messages: &mut Vec<Message>)
        requires
            lightstyles_ok(lightstyles@),
        ensures
            final(self)@ == lightstyles_step(old(self)@, lightstyles@).0,
            message_views(final(messages)@) == message_views(old(messages)@) + lightstyles_step(old(self)@, lightstyles@).1,
    {
        let ghost start = self@;
        let mut changed_lightstyles: Vec<Lightstyle> = Vec::new();
        let mut index: usize = 0;
        while index < lightstyles.len()
            invariant
                index <= lightstyles@.len(),
                lightstyles_ok(lightstyles@),
                ({
                    let f = lightstyles_fold(start.lightstyles, lightstyles@, index as nat);
                    &&& self.lightstyles@.map_values(|l: Lightstyle| lightstyle_view(l)) == f.0
                    &&& changed_lightstyles@.map_values(|l: Lightstyle| lightstyle_view(l)) == f.1
                }),
                self@ == (RecorderView { lightstyles: self.lightstyles@.map_values(|l: Lightstyle| lightstyle_view(l)), ..start }),
            decreases lightstyles@.len() - index,
        {
            let lightstyle = &lightstyles[index];
            if lightstyle.length != 0 {
                let ghost before = self.lightstyles@;
                let ghost before_changed = changed_lightstyles@;
                match self.lightstyles.remove(&index) {
                    Some(prev) => {
                        let mut prev_lightstyle = prev;
                        let has_changed = prev_lightstyle.update(lightstyle);
                        if has_changed {
                            changed_lightstyles.push(copy_lightstyle(&prev_lightstyle));
                        }
                        self.lightstyles.insert(index, prev_lightstyle);
                    },
                    None => {
                        let new_lightstyle = Lightstyle::new(lightstyle, index as u8);
                        changed_lightstyles.push(copy_lightstyle(&new_lightstyle));
                        self.lightstyles.insert(index, new_lightstyle);
                    },
                }
                assert(self.lightstyles@.map_values(|l: Lightstyle| lightstyle_view(l)) =~= lightstyles_fold(
                    start.lightstyles,
                    lightstyles@,
                    (index + 1) as nat,
                ).0);
                assert(changed_lightstyles@.map_values(|l: Lightstyle| lightstyle_view(l)) =~= lightstyles_fold(
                    start.lightstyles,
                    lightstyles@,
                    (index + 1) as nat,
                ).1);
            }
            index += 1;
        }
        if changed_lightstyles.len() != 0 {
            let ghost ls = changed_lightstyles@.map_values(|l: Lightstyle| lightstyle_view(l));
            let ghost old_msgs = messages@;
            messages.push(Message::UpdateLightstyles(changed_lightstyles));
            assert(message_views(messages@) =~= message_views(old_msgs).push(MessageView::UpdateLightstyles(ls)));
        } else {
            assert(message_views(messages@) =~= message_views(messages@) + Seq::<MessageView>::empty());
        }
    }

    /// Sends the view model: whole when it first shows, then its changes.
    #[verifier::spinoff_prover]
    fn record_viewent(&mut self, health: i32, viewent: &EntityState, messages: &mut Vec<Message>)
        requires
            viewent_ok(old(self)@, health, *viewent),
        ensures
            final(self)@ == viewent_step(old(self)@, health, *viewent).0,
            message_views(final(messages)@) == message_views(old(messages)@) + viewent_step(old(self)@, health, *viewent).1,
    {
        let ghost old_msgs = messages@;
        let hidden = health <= 0 || viewent.model == 0;
        match self.last_viewent {
            Some(last) => {
                let mut last_viewent = last;
                if hidden {
                    if last_viewent.draw {
                        last_viewent.draw = false;
                        let hide = vec![ObjectField::Draw(false)];
                        assert(hide@ =~= seq![ObjectField::Draw(false)]);
                        messages.push(Message::UpdateObject(Object::ViewEnt(last_viewent), hide));
                        assert(message_views(messages@) =~= message_views(old_msgs).push(
                            MessageView::UpdateObject(Object::ViewEnt(last_viewent), seq![ObjectField::Draw(false)]),
                        ));
                        self.last_viewent = Some(last_viewent);
                    } else {
                        assert(message_views(messages@) =~= message_views(old_msgs) + Seq::<MessageView>::empty());
                    }
                } else {
                    let mut changes = last_viewent.get_changes_and_update(viewent);
                    if !last_viewent.draw {
                        last_viewent.draw = true;
                        changes.push(ObjectField::Draw(true));
                    }
                    if last_viewent.model != viewent.model {
                        last_viewent.model = viewent.model;
                        let model_index = *self.model_index_map.get(&viewent.model).unwrap() as u32;
                        changes.push(ObjectField::ModelIndex(model_index));
                    }
                    if changes.len() != 0 {
                        let ghost ch = changes@;
                        messages.push(Message::UpdateObject(Object::ViewEnt(last_viewent), changes));
                        assert(message_views(messages@) =~= message_views(old_msgs).push(
                            MessageView::UpdateObject(Object::ViewEnt(last_viewent), ch),
                        ));
                    } else {
                        assert(message_views(messages@) =~= message_views(old_msgs) + Seq::<MessageView>::empty());
                    }
                    self.last_viewent = Some(last_viewent);
                }
            },
            None => {
                if !hidden {
                    let model_index = *self.model_index_map.get(&viewent.model).unwrap() as u32;
                    let new_viewent = ViewEnt::new(viewent, model_index);
                    messages.push(Message::NewObject(Object::ViewEnt(new_viewent)));
                    assert(message_views(messages@) =~= message_views(old_msgs).push(
                        MessageView::NewObject(Object::ViewEnt(new_viewent)),
                    ));
                    self.last_viewent = Some(new_viewent);
                } else {
                    assert(message_views(messages@) =~= message_views(old_msgs) + Seq::<MessageView>::empty());
                }
            },
        }
    }

    /// Whether the models step can run on `known`.
    fn models_ok_of(&self, known: &Vec<ModelState>) -> (r: bool)
        ensures
            r == models_ok(self@, known@),
    {
        if known.len() != self.last_mod_numknown {
            let last = self.last_mod_numknown;
            if last > known.len() {
                return false;
            }
            let mut i: usize = last;
            while i < known.len()
                invariant
                    last <= i <= known@.len(),
                    last == self.last_mod_numknown,
                    forall|j: int| last <= j < i ==> has_nul(#[trigger] known@[j].name@),
                decreases known@.len() - i,
            {
                if !has_nul_of(known[i].name.as_slice()) {
                    return false;
                }
                i += 1;
            }
        }
        true
    }

    /// Whether the view model step can run.
    fn viewent_ok_of(&self, health: i32, viewent: &EntityState) -> (r: bool)
        ensures
            r == viewent_ok(self@, health, *viewent),
    {
        if health <= 0 || viewent.model == 0 {
            return true;
        }
        match self.last_viewent {
            Some(last) => last.model == viewent.model || self.model_index_map.contains_key(&viewent.model),
            None => self.model_index_map.contains_key(&viewent.model),
        }
    }

    /// Records the parts of a frame in turn, appending its messages to
    /// `messages`, as long as each part can be recorded; returns whether the
    /// whole frame could.
    #[verifier::rlimit(50)]
    #[verifier::spinoff_prover]
    fn record_frame_checked(&mut self, frame: &FrameSnapshot, messages: &mut Vec<Message>) -> (ok: bool)
        requires
            old(self)@.wf(),
        ensures
            ok == frame_step(old(self)@, *frame).2,
            ok ==> final(self)@ == frame_step(old(self)@, *frame).0,
            ok ==> final(self)@.wf(),
            ok ==> message_views(final(messages)@) == message_views(old(messages)@) + frame_step(old(self)@, *frame).1,
    {
        let ghost r0 = self@;
        let ghost m0 = message_views(messages@);
        if !self.models_ok_of(&frame.known_models) {
            return false;
        }
        self.record_models(&frame.known_models, messages);
        self.record_viewentity(frame.viewentity, messages);
        self.record_camera(frame.camera, messages);
        let ghost r3 = self@;
        self.record_players(&frame.players, messages);
        proof {
            lemma_players_fold_len(r3.players, frame.players@, player_count(r3, frame.players@));
        }
        if !self.viewent_ok_of(frame.health, &frame.viewent) {
            return false;
        }
        self.record_viewent(frame.health, &frame.viewent, messages);
        if !self.record_entities(&frame.visible_edicts, &frame.model_precache, messages) {
            return false;
        }
        if !self.record_beams(&frame.beams, &frame.model_precache, messages) {
            return false;
        }
        if !self.record_beam_entities(&frame.beam_entities, &frame.model_precache, messages) {
            return false;
        }
        if !self.record_decals(&frame.decals, messages) {
            return false;
        }
        if !lightstyles_ok_of(&frame.lightstyles) {
            return false;
        }
        self.record_lightstyles(&frame.lightstyles, messages);
        proof {
            let f = frame_step(r0, *frame);
            assert(message_views(messages@) =~= m0 + f.1);
        }
        true
    }

    /// A copy of the recorder.
    fn duplicate(&self) -> (r: Recorder)
        ensures
            r@ == self@,
    {
        let r = Recorder {
            model_index_map: self.model_index_map.clone(),
            last_mod_numknown: self.last_mod_numknown,
            last_camera: self.last_camera,
            last_viewent: self.last_viewent,
            entities: vstd::slice::slice_to_vec(self.entities.as_slice()),
            engine_entities: self.engine_entities.clone(),
            players: vstd::slice::slice_to_vec(self.players.as_slice()),
            beams: vstd::slice::slice_to_vec(self.beams.as_slice()),
            engine_beams: self.engine_beams.clone(),
            beam_entities: vstd::slice::slice_to_vec(self.beam_entities.as_slice()),
            engine_beam_entities: self.engine_beam_entities.clone(),
            decal_cache_name_index_map: self.decal_cache_name_index_map.clone(),
            decals: self.decals.clone(),
            lightstyles: self.lightstyles.clone(),
            last_viewentity: self.last_viewentity,
        };
        r
    }

    /// Whether `frame` can be recorded: every model, weapon model, beam
    /// model and decal name it refers to is known, and every new model name
    /// and light style fits its buffer.
    pub fn can_record_frame(&self, frame: &FrameSnapshot) -> (r: bool)
        requires
            self@.wf(),
        ensures
            r == frame_step(self@, *frame).2,
    {
        let mut scratch = self.duplicate();
        let mut messages: Vec<Message> = Vec::new();
        scratch.record_frame_checked(frame, &mut messages)
    }

    /// Records one frame: appends to `writer` the time, the number of
    /// messages and the messages that bring the recording up to the engine
    /// state of `frame`.
    #[verifier::spinoff_prover]
    pub fn record_frame(&mut self, frame: &FrameSnapshot, writer: &mut Vec<u8>)
        requires
            old(self)@.wf(),
            frame_step(old(self)@, *frame).2,
        ensures
            final(self)@ == frame_step(old(self)@, *frame).0,
            final(self)@.wf(),
            final(writer)@ == old(writer)@ + frame_bytes(frame.time, frame_step(old(self)@, *frame).1),
    {
        let mut messages: Vec<Message> = Vec::new();
        self.record_frame_checked(frame, &mut messages);
        assert(message_views(messages@) =~= frame_step(old(self)@, *frame).1);
        write_frame(frame.time, &messages, writer);
    }
}

} // verus!
