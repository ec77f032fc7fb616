use bxt_rs::gsr::{
    abandon_start, begin_recording, frame_action, gsr_start, gsr_start_with_filename, gsr_stop, on_cl_disconnect,
    record_frame, save_trans_obj_count, update_skyname, FrameAction, GsrEngine, GsrState, StartOutcome, State, GSR,
};
use bxt_rs::objects::Camera;
use bxt_rs::recorder::{FrameSnapshot, Recorder};
use bxt_rs::snapshot::{DecalState, EntityState, LightstyleState, ModelState, PlayerInfoState};

fn bits3(v: [f32; 3]) -> [u32; 3] {
    [v[0].to_bits(), v[1].to_bits(), v[2].to_bits()]
}

fn name64(s: &str) -> [i8; 64] {
    let mut out = [0i8; 64];
    for (i, b) in s.bytes().enumerate() {
        out[i] = b as i8;
    }
    out
}

fn c_name(s: &str) -> Vec<i8> {
    let mut v: Vec<i8> = s.bytes().map(|b| b as i8).collect();
    v.push(0);
    v
}

fn engine() -> GsrEngine {
    GsrEngine {
        commands: true,
        r_load_skys: true,
        movevars: true,
        r_draw_t_entities_on_list: true,
        num_trans_objs: true,
        r_render_view: true,
        cls: true,
        cl: true,
        draw_decal_count: true,
        decal_names: true,
        draw_decal_index: true,
        mod_numknown: true,
        mod_known: true,
        r_refdef_vieworg: true,
        r_refdef_viewangles: true,
        scr_fov_value: true,
        cl_numvisedicts: true,
        cl_visedicts: true,
        trans_objects: true,
        gp_active_beams: true,
        cl_numbeamentities: true,
        cl_beamentities: true,
        g_decal_pool: true,
        cl_lightstyle: true,
        cl_disconnect: true,
    }
}

fn entity_state(model: usize) -> EntityState {
    EntityState {
        model,
        model_is_sprite: false,
        player: 0,
        number: 7,
        origin: bits3([1.0, 2.0, 3.0]),
        attachment_origin: bits3([0.0, 0.0, 0.0]),
        angles: bits3([0.0, 0.0, 0.0]),
        sequence: 0,
        animtime: 0.0f32.to_bits(),
        framerate: 1.0f32.to_bits(),
        body: 0,
        frame: 0.0f32.to_bits(),
        scale: 1.0f32.to_bits(),
        rendermode: 0,
        renderamt: 0,
        rendercolor: [0, 0, 0],
        renderfx: 0,
        gaitsequence: 0,
        movetype: 0,
        weaponmodel: 0,
        prevsequence: 0,
        sequencetime: 0.0f32.to_bits(),
        prevseqblending: [0, 0],
        prevanimtime: 0.0f32.to_bits(),
        prevorigin: bits3([1.0, 2.0, 3.0]),
        prevangles: bits3([0.0, 0.0, 0.0]),
    }
}

fn snapshot() -> FrameSnapshot {
    let mut lightstyle_map = [0i8; 64];
    lightstyle_map[0] = b'm' as i8;
    FrameSnapshot {
        known_models: vec![ModelState { address: 0x1000, name: name64("maps/c1a0.bsp") }],
        viewentity: 1,
        camera: Camera { origin: bits3([1.0, 2.0, 3.0]), angles: bits3([0.0, 0.0, 0.0]), fov: 90.0f32.to_bits() },
        players: vec![PlayerInfoState { model: [0; 64], topcolor: 0, bottomcolor: 0 }; 32],
        health: 100,
        viewent: entity_state(0),
        visible_edicts: vec![],
        model_precache: vec![0, 0x1000],
        beams: vec![],
        beam_entities: vec![],
        decals: vec![DecalState { psurface: 0, face: 0, dx: 0, dy: 0, scale: 0, texture: 0, flags: 0 }],
        lightstyles: vec![LightstyleState { length: 1, map: lightstyle_map }],
        time: 1.5f64.to_bits(),
    }
}

fn message_count(frame: &[u8]) -> u16 {
    u16::from_ne_bytes([frame[8], frame[9]])
}

fn new_recorder() -> Recorder {
    let mut header = Vec::new();
    Recorder::init(&name64("c1a0"), b"desert", &vec![c_name("{blood1")], &vec![3], &mut header)
}

#[test]
fn header_lists_map_sky_and_decal_names() {
    let mut header = Vec::new();
    let recorder = Recorder::init(
        &name64("c1a0"),
        b"desert",
        &vec![c_name("{blood1"), c_name("{scorch")],
        &vec![3, 8],
        &mut header,
    );
    let mut expected = vec![4];
    expected.extend_from_slice(b"c1a0");
    expected.push(6);
    expected.extend_from_slice(b"desert");
    expected.extend_from_slice(&2u16.to_ne_bytes());
    expected.push(7);
    expected.extend_from_slice(b"{blood1");
    expected.push(7);
    expected.extend_from_slice(b"{scorch");
    assert_eq!(header, expected);
    assert_eq!(recorder.players.len(), 32);
    assert_eq!(recorder.decal_cache_name_index_map.get(&3), Some(&0));
    assert_eq!(recorder.decal_cache_name_index_map.get(&8), Some(&1));
    assert!(recorder.entities.is_empty());
    assert_eq!(recorder.last_mod_numknown, 0);
}

#[test]
fn first_frame_sends_models_view_camera_and_lightstyles() {
    let mut recorder = new_recorder();
    let mut out = Vec::new();
    recorder.record_frame(&snapshot(), &mut out);
    assert_eq!(&out[..8], &1.5f64.to_ne_bytes());
    assert_eq!(message_count(&out), 4);
    // AddModels with the one model name.
    assert_eq!(out[10], 0);
    assert_eq!(&out[11..13], &1u16.to_ne_bytes());
    assert_eq!(out[13] as usize, "maps/c1a0.bsp".len());
    assert_eq!(recorder.last_mod_numknown, 1);
    assert_eq!(recorder.model_index_map.get(&0x1000), Some(&0));
    assert_eq!(recorder.last_viewentity, Some(1));
    assert!(recorder.last_camera.is_some());
    assert_eq!(recorder.lightstyles.len(), 1);
}

#[test]
fn same_state_twice_records_an_empty_frame() {
    let mut recorder = new_recorder();
    let mut out = Vec::new();
    recorder.record_frame(&snapshot(), &mut out);
    let mut second = Vec::new();
    recorder.record_frame(&snapshot(), &mut second);
    let mut expected = 1.5f64.to_ne_bytes().to_vec();
    expected.extend_from_slice(&0u16.to_ne_bytes());
    assert_eq!(second, expected);
}

#[test]
fn entity_appears_then_is_hidden_when_gone() {
    let mut recorder = new_recorder();
    let mut out = Vec::new();
    recorder.record_frame(&snapshot(), &mut out);

    let with_entity = FrameSnapshot { visible_edicts: vec![(0x2000, entity_state(0x1000)), (0x2000, entity_state(0x1000))], ..snapshot() };
    let mut frame = Vec::new();
    recorder.record_frame(&with_entity, &mut frame);
    assert_eq!(message_count(&frame), 1);
    assert_eq!(&frame[10..12], &[1, 1]);
    assert_eq!(recorder.entities.len(), 1);
    assert_eq!(recorder.engine_entities.get(&0x2000), Some(&0));

    let mut frame = Vec::new();
    recorder.record_frame(&with_entity, &mut frame);
    assert_eq!(message_count(&frame), 0);

    let mut frame = Vec::new();
    recorder.record_frame(&snapshot(), &mut frame);
    assert_eq!(message_count(&frame), 1);
    // UpdateObject, entity, one change: Draw(false).
    assert_eq!(&frame[10..12], &[2, 1]);
    assert_eq!(&frame[frame.len() - 3..], &[1, 3, 0]);
    assert!(!recorder.entities[0].draw);
}

#[test]
fn view_model_shows_then_hides_when_dead() {
    let mut recorder = new_recorder();
    let mut out = Vec::new();
    let alive = FrameSnapshot { viewent: entity_state(0x1000), ..snapshot() };
    recorder.record_frame(&alive, &mut out);
    assert_eq!(message_count(&out), 5);
    assert!(recorder.last_viewent.is_some());

    let dead = FrameSnapshot { health: 0, ..alive };
    let mut frame = Vec::new();
    recorder.record_frame(&dead, &mut frame);
    assert_eq!(message_count(&frame), 1);
    assert_eq!(&frame[10..12], &[2, 3]);
    assert!(!recorder.last_viewent.unwrap().draw);
}

#[test]
fn start_asks_for_recording_gsr_from_idle_only() {
    let mut gsr = GsrState::new();
    assert_eq!(gsr_start(&mut gsr, &engine()), StartOutcome::Started);
    assert!(matches!(&gsr.state, State::Starting(name) if name == "recording.gsr"));
    assert_eq!(gsr_start(&mut gsr, &engine()), StartOutcome::AlreadyActive);
    assert!(matches!(&gsr.state, State::Starting(name) if name == "recording.gsr"));
}

#[test]
fn start_takes_only_gsr_files() {
    let mut gsr = GsrState::new();
    assert_eq!(gsr_start_with_filename(&mut gsr, &engine(), "demo.dem".to_string()), StartOutcome::BadFilename);
    assert!(matches!(gsr.state, State::Idle));
    assert_eq!(gsr_start_with_filename(&mut gsr, &engine(), "gsr".to_string()), StartOutcome::BadFilename);
    assert_eq!(gsr_start_with_filename(&mut gsr, &engine(), "run.gsr".to_string()), StartOutcome::Started);
    assert!(matches!(&gsr.state, State::Starting(name) if name == "run.gsr"));
}

#[test]
fn disabled_module_does_nothing() {
    let mut gsr = GsrState::new();
    let off = GsrEngine { cl_lightstyle: false, ..engine() };
    assert!(!GSR.is_enabled(&off));
    assert!(GSR.is_enabled(&engine()));
    assert_eq!(gsr_start(&mut gsr, &off), StartOutcome::Disabled);
    assert!(matches!(gsr.state, State::Idle));
    assert_eq!(frame_action(&gsr, &off, true), FrameAction::Skip);
}

#[test]
fn stop_ends_only_a_recording_under_way() {
    let mut gsr = GsrState::new();
    assert!(!gsr_stop(&mut gsr));
    gsr_start(&mut gsr, &engine());
    assert!(!gsr_stop(&mut gsr));
    assert!(matches!(gsr.state, State::Starting(_)));
    update_skyname(&mut gsr, &c_name("desert"));
    begin_recording(&mut gsr, &name64("c1a0"), &vec![], &vec![], &mut Vec::new());
    assert!(matches!(gsr.state, State::Recording(_)));
    assert!(gsr_stop(&mut gsr));
    assert!(matches!(gsr.state, State::Idle));
}

#[test]
fn frames_start_then_record_while_active() {
    let mut gsr = GsrState::new();
    assert_eq!(frame_action(&gsr, &engine(), true), FrameAction::Skip);
    gsr_start(&mut gsr, &engine());
    assert_eq!(frame_action(&gsr, &engine(), false), FrameAction::Skip);
    assert_eq!(frame_action(&gsr, &engine(), true), FrameAction::Start);
    update_skyname(&mut gsr, &c_name("desert"));
    assert_eq!(gsr.skyname, Some(b"desert".to_vec()));
    let mut header = Vec::new();
    begin_recording(&mut gsr, &name64("c1a0"), &vec![c_name("{blood1")], &vec![3], &mut header);
    assert_eq!(&header[..5], &[4, b'c', b'1', b'a', b'0']);
    assert_eq!(frame_action(&gsr, &engine(), true), FrameAction::Record);
    let mut out = Vec::new();
    record_frame(&mut gsr, &snapshot(), &mut out);
    assert_eq!(message_count(&out), 4);
}

#[test]
fn failed_start_goes_back_to_idle() {
    let mut gsr = GsrState::new();
    gsr_start(&mut gsr, &engine());
    abandon_start(&mut gsr);
    assert!(matches!(gsr.state, State::Idle));
}

#[test]
fn disconnect_stops_the_recording() {
    let mut gsr = GsrState::new();
    gsr_start(&mut gsr, &engine());
    update_skyname(&mut gsr, &c_name("desert"));
    begin_recording(&mut gsr, &name64("c1a0"), &vec![], &vec![], &mut Vec::new());
    on_cl_disconnect(&mut gsr, &GsrEngine { cl_disconnect: false, ..engine() });
    assert!(matches!(gsr.state, State::Recording(_)));
    on_cl_disconnect(&mut gsr, &engine());
    assert!(matches!(gsr.state, State::Idle));
}

#[test]
fn trans_object_count_is_kept() {
    let mut gsr = GsrState::new();
    save_trans_obj_count(&mut gsr, 12);
    assert_eq!(gsr.trans_obj_count, 12);
}

fn beam_state() -> bxt_rs::snapshot::BeamState {
    bxt_rs::snapshot::BeamState {
        type_: 0,
        flags: 0,
        frame_rate: 10.0f32.to_bits(),
        frame: 0.0f32.to_bits(),
        source: bits3([0.0, 0.0, 0.0]),
        delta: bits3([0.0, 0.0, 64.0]),
        freq: 0.0f32.to_bits(),
        width: 2.0f32.to_bits(),
        amplitude: 0.0f32.to_bits(),
        speed: 0.0f32.to_bits(),
        segments: 4,
        r: 1.0f32.to_bits(),
        g: 0.5f32.to_bits(),
        b: 0.0f32.to_bits(),
        brightness: 1.0f32.to_bits(),
        model_index: 1,
    }
}

fn busy_snapshot() -> FrameSnapshot {
    FrameSnapshot {
        viewent: entity_state(0x1000),
        visible_edicts: vec![(0x2000, entity_state(0x1000)), (0x2100, EntityState { number: 8, ..entity_state(0x1000) })],
        beams: vec![(0x3000, beam_state())],
        beam_entities: vec![(0x4000, Some(beam_state())), (0x5000, None)],
        decals: vec![DecalState { psurface: 0x40, face: 2, dx: 0.5f32.to_bits(), dy: 0.5f32.to_bits(), scale: 1.0f32.to_bits(), texture: 3, flags: 0 }],
        ..snapshot()
    }
}

#[test]
fn busy_frame_then_same_state_records_an_empty_frame() {
    let mut recorder = new_recorder();
    assert!(recorder.can_record_frame(&busy_snapshot()));
    let mut out = Vec::new();
    recorder.record_frame(&busy_snapshot(), &mut out);
    // models, view, camera, view model, two entities, a beam, a beam entity,
    // the decals and the light styles.
    assert_eq!(message_count(&out), 10);
    assert_eq!(recorder.entities.len(), 2);
    assert_eq!(recorder.beams.len(), 1);
    assert_eq!(recorder.beam_entities.len(), 1);
    assert_eq!(recorder.decals.len(), 1);
    let mut second = Vec::new();
    recorder.record_frame(&busy_snapshot(), &mut second);
    assert_eq!(message_count(&second), 0);
    assert_eq!(second.len(), 10);
}

#[test]
fn beam_that_goes_away_is_hidden_once() {
    let mut recorder = new_recorder();
    let mut out = Vec::new();
    recorder.record_frame(&busy_snapshot(), &mut out);
    let without_beam = FrameSnapshot { beams: vec![], ..busy_snapshot() };
    let mut frame = Vec::new();
    recorder.record_frame(&without_beam, &mut frame);
    assert_eq!(message_count(&frame), 1);
    assert_eq!(&frame[10..12], &[2, 2]);
    assert!(!recorder.beams[0].draw);
    assert!(recorder.engine_beams.is_empty());
    let mut frame = Vec::new();
    recorder.record_frame(&without_beam, &mut frame);
    assert_eq!(message_count(&frame), 0);
}

#[test]
fn changed_weapon_model_is_sent_every_frame() {
    let mut recorder = new_recorder();
    let mut out = Vec::new();
    let armed = FrameSnapshot { visible_edicts: vec![(0x2000, entity_state(0x1000))], ..snapshot() };
    recorder.record_frame(&armed, &mut out);
    let with_weapon = FrameSnapshot {
        visible_edicts: vec![(0x2000, EntityState { weaponmodel: 1, ..entity_state(0x1000) })],
        ..snapshot()
    };
    for _ in 0..3 {
        let mut frame = Vec::new();
        recorder.record_frame(&with_weapon, &mut frame);
        assert_eq!(message_count(&frame), 1);
        // UpdateObject of the entity: tag, kind, id, one change: WeaponModel(Some(0)).
        let mut tail = vec![1, 16, 1];
        tail.extend_from_slice(&0u32.to_ne_bytes());
        assert_eq!(&frame[frame.len() - tail.len()..], &tail[..]);
    }
}

#[test]
fn frames_naming_unknown_things_cannot_be_recorded() {
    let recorder = new_recorder();
    assert!(recorder.can_record_frame(&snapshot()));
    let unknown_entity = FrameSnapshot { visible_edicts: vec![(0x2000, entity_state(0x9999))], ..snapshot() };
    assert!(!recorder.can_record_frame(&unknown_entity));
    let unknown_weapon = FrameSnapshot {
        visible_edicts: vec![(0x2000, EntityState { weaponmodel: 5, ..entity_state(0x1000) })],
        ..snapshot()
    };
    assert!(!recorder.can_record_frame(&unknown_weapon));
    let unknown_beam = FrameSnapshot { beams: vec![(0x3000, bxt_rs::snapshot::BeamState { model_index: 0, ..beam_state() })], ..snapshot() };
    assert!(!recorder.can_record_frame(&unknown_beam));
    let unknown_decal = FrameSnapshot {
        decals: vec![DecalState { psurface: 0x40, face: 0, dx: 0, dy: 0, scale: 0, texture: 7, flags: 0 }],
        ..snapshot()
    };
    assert!(!recorder.can_record_frame(&unknown_decal));
    let long_style = FrameSnapshot { lightstyles: vec![LightstyleState { length: 65, map: [0; 64] }], ..snapshot() };
    assert!(!recorder.can_record_frame(&long_style));
    let unnamed_model = FrameSnapshot {
        known_models: vec![ModelState { address: 0x1000, name: [1; 64] }],
        ..snapshot()
    };
    assert!(!recorder.can_record_frame(&unnamed_model));
    let dead_viewmodel = FrameSnapshot { viewent: entity_state(0x9999), health: 0, ..snapshot() };
    assert!(recorder.can_record_frame(&dead_viewmodel));
    let unknown_viewmodel = FrameSnapshot { viewent: entity_state(0x9999), ..snapshot() };
    assert!(!recorder.can_record_frame(&unknown_viewmodel));
}

#[test]
fn idle_module_records_nothing() {
    let gsr = GsrState::new();
    assert!(!bxt_rs::gsr::can_record(&gsr, &snapshot()));
}

#[test]
fn new_beam_entity_takes_the_tracked_count_as_its_position() {
    let mut recorder = new_recorder();
    let two_models = FrameSnapshot {
        known_models: vec![
            ModelState { address: 0x1000, name: name64("sprites/laserbeam.spr") },
            ModelState { address: 0x1100, name: name64("sprites/xbeam1.spr") },
        ],
        model_precache: vec![0, 0x1000, 0x1100],
        ..snapshot()
    };
    let first = FrameSnapshot { beam_entities: vec![(0xa000, Some(beam_state()))], ..two_models.clone_frame() };
    let mut out = Vec::new();
    recorder.record_frame(&first, &mut out);
    assert_eq!(recorder.beam_entities.len(), 1);

    let other_model = bxt_rs::snapshot::BeamState { model_index: 2, ..beam_state() };
    let second = FrameSnapshot {
        beam_entities: vec![(0xa000, Some(other_model)), (0xb000, Some(beam_state()))],
        ..two_models.clone_frame()
    };
    let mut frame = Vec::new();
    recorder.record_frame(&second, &mut frame);
    // Two new beams, and the first beam entity's old beam hidden.
    assert_eq!(message_count(&frame), 3);
    assert_eq!(recorder.beam_entities.len(), 3);
    assert_eq!(recorder.engine_beam_entities.get(&0xa000), Some(&1));
    assert_eq!(recorder.engine_beam_entities.get(&0xb000), Some(&1));

    // The same state again: the second beam entity is tracked by a position
    // that holds the first one's beam, so it is sent as new once more, and
    // the beam it had is hidden.
    let mut frame = Vec::new();
    recorder.record_frame(&second, &mut frame);
    assert_eq!(message_count(&frame), 2);
    assert_eq!(&frame[10..12], &[1, 2]);
    assert_eq!(recorder.beam_entities.len(), 4);
}

trait CloneFrame {
    fn clone_frame(&self) -> FrameSnapshot;
}

impl CloneFrame for FrameSnapshot {
    fn clone_frame(&self) -> FrameSnapshot {
        FrameSnapshot {
            known_models: self.known_models.clone(),
            viewentity: self.viewentity,
            camera: self.camera,
            players: self.players.clone(),
            health: self.health,
            viewent: self.viewent,
            visible_edicts: self.visible_edicts.clone(),
            model_precache: self.model_precache.clone(),
            beams: self.beams.clone(),
            beam_entities: self.beam_entities.clone(),
            decals: self.decals.clone(),
            lightstyles: self.lightstyles.clone(),
            time: self.time,
        }
    }
}

#[test]
fn objects_are_numbered_by_position_and_drawn_when_seen() {
    let mut recorder = new_recorder();
    let mut out = Vec::new();
    recorder.record_frame(&busy_snapshot(), &mut out);
    let replaced = FrameSnapshot {
        known_models: vec![
            ModelState { address: 0x1000, name: name64("maps/c1a0.bsp") },
            ModelState { address: 0x1100, name: name64("models/scientist.mdl") },
        ],
        visible_edicts: vec![(0x2000, entity_state(0x1100))],
        ..busy_snapshot()
    };
    let mut frame = Vec::new();
    recorder.record_frame(&replaced, &mut frame);
    assert_eq!(recorder.entities.len(), 3);
    for (i, e) in recorder.entities.iter().enumerate() {
        assert_eq!(e.id as usize, i);
        assert_eq!(e.draw, e.seen);
    }
    assert_eq!(recorder.engine_entities.get(&0x2000), Some(&2));
    assert!(!recorder.entities[0].draw && !recorder.entities[1].draw && recorder.entities[2].draw);
    for (i, b) in recorder.beams.iter().enumerate() {
        assert_eq!(b.id as usize, i);
        assert_eq!(b.draw, b.seen);
    }
}

#[test]
fn beam_entity_changing_model_settles_on_the_next_frame() {
    let mut recorder = new_recorder();
    let two_models = FrameSnapshot {
        known_models: vec![
            ModelState { address: 0x1000, name: name64("sprites/laserbeam.spr") },
            ModelState { address: 0x1100, name: name64("sprites/xbeam1.spr") },
        ],
        model_precache: vec![0, 0x1000, 0x1100],
        ..snapshot()
    };
    let first = FrameSnapshot { beam_entities: vec![(0xa000, Some(beam_state()))], ..two_models.clone_frame() };
    let mut out = Vec::new();
    recorder.record_frame(&first, &mut out);

    let other_model = bxt_rs::snapshot::BeamState { model_index: 2, ..beam_state() };
    let second = FrameSnapshot { beam_entities: vec![(0xa000, Some(other_model))], ..two_models.clone_frame() };
    let mut frame = Vec::new();
    recorder.record_frame(&second, &mut frame);
    // The beam with the new model, and the old beam hidden.
    assert_eq!(message_count(&frame), 2);
    assert_eq!(recorder.beam_entities.len(), 2);
    assert_eq!(recorder.engine_beam_entities.len(), 1);
    assert_eq!(recorder.engine_beam_entities.get(&0xa000), Some(&1));

    // Fewer beam entities are tracked than recorded, and none is new: the
    // same state records an empty frame.
    let mut frame = Vec::new();
    recorder.record_frame(&second, &mut frame);
    assert_eq!(message_count(&frame), 0);
    assert_eq!(recorder.beam_entities.len(), 2);
}

#[test]
fn every_object_that_stops_showing_is_hidden_once() {
    let mut recorder = new_recorder();
    let mut out = Vec::new();
    recorder.record_frame(&busy_snapshot(), &mut out);
    let gone = FrameSnapshot {
        visible_edicts: vec![],
        beams: vec![],
        beam_entities: vec![],
        health: 0,
        ..busy_snapshot()
    };
    let mut frame = Vec::new();
    recorder.record_frame(&gone, &mut frame);
    // Two entities, a beam, a beam entity and the view model.
    assert_eq!(message_count(&frame), 5);
    assert!(recorder.entities.iter().all(|e| !e.draw));
    assert!(recorder.beams.iter().all(|b| !b.draw));
    assert!(recorder.beam_entities.iter().all(|b| !b.draw));
    assert!(!recorder.last_viewent.unwrap().draw);
    let mut frame = Vec::new();
    recorder.record_frame(&gone, &mut frame);
    assert_eq!(message_count(&frame), 0);
}

#[test]
fn new_entities_are_tracked_at_the_number_they_carry() {
    let mut recorder = new_recorder();
    let mut out = Vec::new();
    recorder.record_frame(&busy_snapshot(), &mut out);
    assert_eq!(recorder.engine_entities.get(&0x2000), Some(&0));
    assert_eq!(recorder.engine_entities.get(&0x2100), Some(&1));
    for (_, &idx) in recorder.engine_entities.iter() {
        assert_eq!(recorder.entities[idx].id as usize, idx);
        assert!(recorder.entities[idx].seen);
    }
}
