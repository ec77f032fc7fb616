use bxt_rs::beam_links::{beam_entity_links, resolve_beam_attachments, BeamLinks, FBEAM_ENDVISIBLE, FBEAM_STARTVISIBLE};
use bxt_rs::change_list::{Change, ObjectField as ChangeField};
use bxt_rs::fields::ObjectField;
use bxt_rs::objects::{Beam, Camera, Entity, ViewEnt};
use bxt_rs::snapshot::{BeamState, EntityState};

fn bits3(v: [f32; 3]) -> [u32; 3] {
    [v[0].to_bits(), v[1].to_bits(), v[2].to_bits()]
}

fn entity_state() -> EntityState {
    EntityState {
        model: 0x1000,
        model_is_sprite: false,
        player: 0,
        number: 12,
        origin: bits3([10.0, 20.0, 30.0]),
        attachment_origin: bits3([1.0, 1.0, 1.0]),
        angles: bits3([0.0, 45.0, 0.0]),
        sequence: 1,
        animtime: 0.5f32.to_bits(),
        framerate: 1.0f32.to_bits(),
        body: 0,
        frame: 2.0f32.to_bits(),
        scale: 1.0f32.to_bits(),
        rendermode: 0,
        renderamt: 255,
        rendercolor: [1, 2, 3],
        renderfx: 0,
        gaitsequence: 0,
        movetype: 5,
        weaponmodel: 0,
        prevsequence: 0,
        sequencetime: 0.25f32.to_bits(),
        prevseqblending: [0, 0],
        prevanimtime: 0.0f32.to_bits(),
        prevorigin: bits3([10.0, 20.0, 30.0]),
        prevangles: bits3([0.0, 45.0, 0.0]),
    }
}

fn beam_state() -> BeamState {
    BeamState {
        type_: 0,
        flags: 0,
        frame_rate: 10.0f32.to_bits(),
        frame: 0.0f32.to_bits(),
        source: bits3([0.0, 0.0, 0.0]),
        delta: bits3([0.0, 0.0, 64.0]),
        freq: 0.0f32.to_bits(),
        width: 2.0f32.to_bits(),
        amplitude: 0.0f32.to_bits(),
        speed: 0.0f32.to_bits(),
        segments: 4,
        r: 1.0f32.to_bits(),
        g: 0.5f32.to_bits(),
        b: 0.0f32.to_bits(),
        brightness: 1.0f32.to_bits(),
        model_index: 1,
    }
}

#[test]
fn camera_reports_changed_fields_in_order() {
    let last = Camera { origin: bits3([0.0, 0.0, 0.0]), angles: bits3([0.0, 0.0, 0.0]), fov: 90.0f32.to_bits() };
    let current = Camera { origin: bits3([0.0, 0.0, 1.0]), angles: bits3([0.0, 0.0, 0.0]), fov: 75.0f32.to_bits() };
    let changes = last.get_changed_fields(&current);
    assert_eq!(changes.len(), 2);
    assert!(matches!(changes[0], ObjectField::Origin(v) if v == current.origin));
    assert!(matches!(changes[1], ObjectField::Fov(f) if f == 75.0f32.to_bits()));
    assert!(current.get_changed_fields(&current).is_empty());
}

#[test]
fn camera_with_nan_fov_always_reports_it() {
    let camera = Camera { origin: bits3([0.0, 0.0, 0.0]), angles: bits3([0.0, 0.0, 0.0]), fov: f32::NAN.to_bits() };
    let changes = camera.get_changed_fields(&camera);
    assert_eq!(changes.len(), 1);
    assert!(matches!(changes[0], ObjectField::Fov(_)));
}

#[test]
fn camera_change_list_carries_value_bytes() {
    let last = Camera { origin: bits3([0.0, 0.0, 0.0]), angles: bits3([0.0, 0.0, 0.0]), fov: 90.0f32.to_bits() };
    let current = Camera { origin: bits3([0.0, 0.0, 0.0]), angles: bits3([1.0, 0.0, 0.0]), fov: 80.0f32.to_bits() };
    let mut changes: Vec<Change> = Vec::new();
    last.get_changes(&current, &mut changes);
    assert_eq!(changes.len(), 2);
    assert_eq!(changes[0].field, ChangeField::Angles);
    let mut angles = Vec::new();
    for v in [1.0f32, 0.0, 0.0] {
        angles.extend_from_slice(&v.to_ne_bytes());
    }
    assert_eq!(changes[0].bytes, angles);
    assert_eq!(changes[1].field, ChangeField::Fov);
    assert_eq!(changes[1].bytes, 80.0f32.to_ne_bytes().to_vec());
    let mut none: Vec<Change> = Vec::new();
    current.get_changes(&current, &mut none);
    assert!(none.is_empty());
}

#[test]
fn viewent_reports_changes_once() {
    let state = entity_state();
    let mut viewent = ViewEnt::new(&state, 3);
    assert!(viewent.draw);
    assert_eq!(viewent.model_index, 3);
    assert!(viewent.get_changes_and_update(&state).is_empty());
    let moved = EntityState { origin: bits3([11.0, 20.0, 30.0]), sequence: 2, ..state };
    let changes = viewent.get_changes_and_update(&moved);
    assert_eq!(changes.len(), 2);
    assert!(matches!(changes[0], ObjectField::Origin(v) if v == moved.origin));
    assert!(matches!(changes[1], ObjectField::Sequence(2)));
    assert!(viewent.get_changes_and_update(&moved).is_empty());
}

#[test]
fn sprite_with_body_sits_at_its_attachment() {
    let state = EntityState { model_is_sprite: true, body: 1, ..entity_state() };
    let entity = Entity::new(&state, 0, 2, None);
    assert_eq!(entity.origin, state.attachment_origin);
    let plain = Entity::new(&entity_state(), 0, 2, None);
    assert_eq!(plain.origin, entity_state().origin);
}

#[test]
fn player_entity_records_its_slot() {
    let player = EntityState { player: 1, number: 3, ..entity_state() };
    assert_eq!(Entity::new(&player, 0, 2, Some(4)).player_index, 2);
    assert_eq!(Entity::new(&entity_state(), 0, 2, None).player_index, 255);
}

#[test]
fn entity_reports_changes_once() {
    let state = entity_state();
    let mut entity = Entity::new(&state, 5, 2, None);
    assert!(entity.seen && entity.draw);
    assert_eq!(entity.id, 5);
    assert!(entity.get_changes_and_update(&state).is_empty());
    let changed = EntityState { frame: 3.0f32.to_bits(), rendercolor: [9, 9, 9], ..state };
    let changes = entity.get_changes_and_update(&changed);
    assert_eq!(changes.len(), 2);
    assert!(matches!(changes[0], ObjectField::Frame(f) if f == 3.0f32.to_bits()));
    assert!(matches!(changes[1], ObjectField::RenderColor([9, 9, 9])));
    assert!(entity.get_changes_and_update(&changed).is_empty());
    let nan = EntityState { scale: f32::NAN.to_bits(), ..changed };
    assert_eq!(entity.get_changes_and_update(&nan).len(), 1);
    assert_eq!(entity.get_changes_and_update(&nan).len(), 1);
}

#[test]
fn beam_reports_changes_once() {
    let state = beam_state();
    let mut beam = Beam::new(&state, 1, 6);
    assert_eq!(beam.color, [state.r, state.g, state.b]);
    assert!(beam.get_changes_and_update(&state).is_empty());
    let changed = BeamState { g: 0.75f32.to_bits(), segments: 8, ..state };
    let changes = beam.get_changes_and_update(&changed);
    assert_eq!(changes.len(), 2);
    assert!(matches!(changes[0], ObjectField::Segments(8)));
    assert!(matches!(changes[1], ObjectField::RGB(c) if c == [changed.r, changed.g, changed.b]));
    assert!(beam.get_changes_and_update(&changed).is_empty());
}

#[test]
fn beam_entity_links_follow_the_render_mode() {
    assert_eq!(beam_entity_links(0x12, 5, 7), BeamLinks { flags: 0x13, start_entity: 7, end_entity: 5 });
    assert_eq!(beam_entity_links(0x81, 5, 7), BeamLinks { flags: 0x82, start_entity: 0, end_entity: 5 });
    assert_eq!(beam_entity_links(0x40, 5, 7), BeamLinks { flags: 0x40, start_entity: 0, end_entity: 0 });
}

#[test]
fn beam_attachments_decide_whether_a_beam_is_drawn() {
    assert_eq!(
        resolve_beam_attachments(0x13, Some(true), Some(true)),
        Some(0x13 | FBEAM_STARTVISIBLE | FBEAM_ENDVISIBLE)
    );
    assert_eq!(resolve_beam_attachments(0x13, None, Some(true)), None);
    assert_eq!(resolve_beam_attachments(0x13, Some(true), Some(false)), None);
    assert_eq!(resolve_beam_attachments(0x13, Some(false), Some(true)), None);
    assert_eq!(resolve_beam_attachments(0x02, None, Some(true)), Some(0x02 | FBEAM_ENDVISIBLE));
    assert_eq!(resolve_beam_attachments(0x02, None, None), None);
    assert_eq!(resolve_beam_attachments(0x10, None, None), Some(0x10));
}
