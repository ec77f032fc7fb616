use bxt_rs::c_str::{c_str_len_of, c_str_to_bytes};
use bxt_rs::decals::{Decal, Lightstyle};
use bxt_rs::fields::{write_fields, ObjectField};
use bxt_rs::float_bits::{f32_bits_eq, f32x3_bits_eq};
use bxt_rs::message::{write_frame, Message};
use bxt_rs::objects::{Camera, Object};
use bxt_rs::players::{PlayerField, PlayerInfo};
use bxt_rs::snapshot::{DecalState, LightstyleState, PlayerInfoState};

fn bits3(v: [f32; 3]) -> [u32; 3] {
    [v[0].to_bits(), v[1].to_bits(), v[2].to_bits()]
}

fn name64(s: &str) -> [i8; 64] {
    let mut out = [0i8; 64];
    for (i, b) in s.bytes().enumerate() {
        out[i] = b as i8;
    }
    out
}

#[test]
fn nan_equals_nothing() {
    let nan = f32::NAN.to_bits();
    assert!(!f32_bits_eq(nan, nan));
    assert!(!f32_bits_eq(nan, 1.0f32.to_bits()));
    assert!(!f32x3_bits_eq([nan, 0, 0], [nan, 0, 0]));
}

#[test]
fn zeros_are_equal_and_values_compare_by_value() {
    assert!(f32_bits_eq(0.0f32.to_bits(), (-0.0f32).to_bits()));
    assert!(f32_bits_eq(1.5f32.to_bits(), 1.5f32.to_bits()));
    assert!(!f32_bits_eq(1.5f32.to_bits(), 2.5f32.to_bits()));
    assert!(f32x3_bits_eq(bits3([1.0, -0.0, 3.0]), bits3([1.0, 0.0, 3.0])));
}

#[test]
fn scalars_are_written_as_their_bytes_in_memory() {
    let mut out = Vec::new();
    ObjectField::Fov(0xdead_beef).write(&mut out);
    let mut expected = vec![2];
    expected.extend_from_slice(&0xdead_beefu32.to_ne_bytes());
    assert_eq!(out, expected);

    let mut out = Vec::new();
    ObjectField::Sequence(-7).write(&mut out);
    let mut expected = vec![4];
    expected.extend_from_slice(&(-7i32).to_ne_bytes());
    assert_eq!(out, expected);

    let mut out = Vec::new();
    ObjectField::Origin([1, 2, 0x0300_0000]).write(&mut out);
    let mut expected = vec![0];
    for v in [1u32, 2, 0x0300_0000] {
        expected.extend_from_slice(&v.to_ne_bytes());
    }
    assert_eq!(out, expected);

    let mut out = Vec::new();
    ObjectField::PrevSeqBlending([9, 8]).write(&mut out);
    assert_eq!(out, vec![28, 9, 8]);

    let mut out = Vec::new();
    ObjectField::RenderColor([7, 6, 5]).write(&mut out);
    assert_eq!(out, vec![12, 7, 6, 5]);

    let mut out = Vec::new();
    ObjectField::Draw(true).write(&mut out);
    assert_eq!(out, vec![3, 1]);

    let mut out = Vec::new();
    write_frame(0x0102_0304_0506_0708, &vec![], &mut out);
    let mut expected = 0x0102_0304_0506_0708u64.to_ne_bytes().to_vec();
    expected.extend_from_slice(&0u16.to_ne_bytes());
    assert_eq!(out, expected);

    let mut out = Vec::new();
    Message::UpdateLightstyles(vec![]).write(&mut out);
    assert_eq!(out, vec![0]);

    let mut out = Vec::new();
    Message::SetView(0x0102_0304).write(&mut out);
    assert_eq!(out, 0x0102_0304u32.to_ne_bytes().to_vec());

    assert_eq!(c_str_to_bytes(&[-1, 65, -128, 0]), vec![255, 65, 128]);
}

#[test]
fn names_end_at_their_nul() {
    let buf = [104i8, 105, 0, 120];
    assert_eq!(c_str_len_of(&buf), 2);
    assert_eq!(c_str_to_bytes(&buf), b"hi".to_vec());
    let full = [104i8, 105];
    assert_eq!(c_str_len_of(&full), 2);
    assert_eq!(c_str_to_bytes(&full), b"hi".to_vec());
}

#[test]
fn object_fields_are_tag_then_value() {
    let mut out = Vec::new();
    ObjectField::Draw(true).write(&mut out);
    assert_eq!(out, vec![3, 1]);

    let mut out = Vec::new();
    ObjectField::WeaponModel(None).write(&mut out);
    assert_eq!(out, vec![16, 0]);

    let mut out = Vec::new();
    ObjectField::WeaponModel(Some(5)).write(&mut out);
    let mut expected = vec![16, 1];
    expected.extend_from_slice(&5u32.to_ne_bytes());
    assert_eq!(out, expected);

    let mut out = Vec::new();
    ObjectField::RenderColor([1, 2, 3]).write(&mut out);
    assert_eq!(out, vec![12, 1, 2, 3]);

    let mut out = Vec::new();
    ObjectField::ModelIndex(7).write(&mut out);
    let mut expected = vec![32];
    expected.extend_from_slice(&7u32.to_ne_bytes());
    assert_eq!(out, expected);

    let mut out = Vec::new();
    write_fields(&vec![ObjectField::Draw(false), ObjectField::Sequence(-1)], &mut out);
    let mut expected = vec![3, 0, 4];
    expected.extend_from_slice(&(-1i32).to_ne_bytes());
    assert_eq!(out, expected);
}

#[test]
fn player_fields_write_model_as_length_and_name() {
    let mut out = Vec::new();
    PlayerField::Model(name64("gordon")).write(&mut out);
    let mut expected = vec![0, 6];
    expected.extend_from_slice(b"gordon");
    assert_eq!(out, expected);

    let mut out = Vec::new();
    PlayerField::BottomColor(160).write(&mut out);
    let mut expected = vec![2];
    expected.extend_from_slice(&160i32.to_ne_bytes());
    assert_eq!(out, expected);
}

#[test]
fn player_info_reports_changes_once() {
    let mut info = PlayerInfo::new();
    assert_eq!(info.topcolor, 0);
    let state = PlayerInfoState { model: name64("barney"), topcolor: 30, bottomcolor: 0 };
    let changes = info.get_changes_and_update(&state);
    assert_eq!(changes.len(), 2);
    assert!(matches!(changes[0], PlayerField::Model(m) if m == name64("barney")));
    assert!(matches!(changes[1], PlayerField::TopColor(30)));
    let again = info.get_changes_and_update(&state);
    assert!(again.is_empty());
}

#[test]
fn decal_update_reports_changes_once() {
    let state = DecalState { psurface: 0x40, face: 3, dx: 0.25f32.to_bits(), dy: 0.5f32.to_bits(), scale: 1.0f32.to_bits(), texture: 4, flags: 0 };
    let mut decal = Decal::new(&state, 9, 3, 2);
    assert!(!decal.update(&state));
    let moved = DecalState { dx: 0.75f32.to_bits(), ..state };
    assert!(decal.update(&moved));
    assert_eq!(decal.dx, 0.75f32.to_bits());
    assert!(!decal.update(&moved));
    let nan = DecalState { scale: f32::NAN.to_bits(), ..state };
    assert!(decal.update(&nan));
    assert!(decal.update(&nan));
}

#[test]
fn decal_is_written_field_by_field() {
    let state = DecalState { psurface: 0x40, face: 3, dx: 0.25f32.to_bits(), dy: 0.5f32.to_bits(), scale: 1.0f32.to_bits(), texture: 4, flags: -1 };
    let decal = Decal::new(&state, 9, 3, 2);
    let mut out = Vec::new();
    decal.write(&mut out);
    let mut expected = Vec::new();
    expected.extend_from_slice(&9u16.to_ne_bytes());
    expected.extend_from_slice(&3u16.to_ne_bytes());
    expected.extend_from_slice(&0.25f32.to_ne_bytes());
    expected.extend_from_slice(&0.5f32.to_ne_bytes());
    expected.extend_from_slice(&1.0f32.to_ne_bytes());
    expected.extend_from_slice(&2u16.to_ne_bytes());
    expected.extend_from_slice(&(-1i16).to_ne_bytes());
    assert_eq!(out, expected);
}

#[test]
fn lightstyle_tracks_its_pattern() {
    let mut map = [0i8; 64];
    map[..3].copy_from_slice(&[b'm' as i8, b'a' as i8, b'z' as i8]);
    let state = LightstyleState { length: 3, map };
    let mut style = Lightstyle::new(&state, 4);
    assert_eq!(style.map, b"maz".to_vec());
    assert!(!style.update(&state));
    let shorter = LightstyleState { length: 2, map };
    assert!(style.update(&shorter));
    assert_eq!(style.map, b"ma".to_vec());
    let mut out = Vec::new();
    style.write(&mut out);
    assert_eq!(out, vec![4, 2, b'm', b'a']);
}

#[test]
fn frame_is_time_count_then_tagged_messages() {
    let camera = Camera { origin: bits3([1.0, 2.0, 3.0]), angles: bits3([0.0, 90.0, 0.0]), fov: 90.0f32.to_bits() };
    let messages = vec![Message::SetView(2), Message::NewObject(Object::Camera(camera))];
    let mut out = Vec::new();
    write_frame(2.5f64.to_bits(), &messages, &mut out);
    let mut expected = Vec::new();
    expected.extend_from_slice(&2.5f64.to_ne_bytes());
    expected.extend_from_slice(&2u16.to_ne_bytes());
    expected.push(6);
    expected.extend_from_slice(&2u32.to_ne_bytes());
    expected.extend_from_slice(&[1, 0, 3, 0]);
    for v in [1.0f32, 2.0, 3.0] {
        expected.extend_from_slice(&v.to_ne_bytes());
    }
    expected.push(1);
    for v in [0.0f32, 90.0, 0.0] {
        expected.extend_from_slice(&v.to_ne_bytes());
    }
    expected.push(2);
    expected.extend_from_slice(&90.0f32.to_ne_bytes());
    assert_eq!(out, expected);
}

#[test]
fn message_tags_follow_the_format() {
    assert_eq!(Message::AddModels(vec![]).discriminant(), 0);
    assert_eq!(Message::UpdatePlayer(0, vec![]).discriminant(), 3);
    assert_eq!(Message::UpdateDecals(vec![]).discriminant(), 4);
    assert_eq!(Message::UpdateLightstyles(vec![]).discriminant(), 5);
    assert_eq!(Message::SetView(0).discriminant(), 6);
    let mut out = Vec::new();
    Message::AddModels(vec![b"a.mdl".to_vec(), b"bc".to_vec()]).write(&mut out);
    let mut expected = Vec::new();
    expected.extend_from_slice(&2u16.to_ne_bytes());
    expected.push(5);
    expected.extend_from_slice(b"a.mdl");
    expected.push(2);
    expected.extend_from_slice(b"bc");
    assert_eq!(out, expected);
}

#[test]
fn encoded_sizes_follow_the_field_kind() {
    let cases: Vec<(ObjectField, usize)> = vec![
        (ObjectField::Origin(bits3([1.0, 2.0, 3.0])), 13),
        (ObjectField::Draw(true), 2),
        (ObjectField::Sequence(5), 5),
        (ObjectField::RenderColor([1, 2, 3]), 4),
        (ObjectField::PrevSeqBlending([1, 2]), 3),
        (ObjectField::WeaponModel(None), 2),
        (ObjectField::WeaponModel(Some(7)), 6),
    ];
    for (field, len) in cases {
        let mut out = vec![9];
        field.write(&mut out);
        assert_eq!(out.len(), 1 + len);
    }
    let mut out = Vec::new();
    PlayerField::Model(name64("gordon")).write(&mut out);
    assert_eq!(out.len(), 2 + 6);
    let mut out = Vec::new();
    PlayerField::TopColor(3).write(&mut out);
    assert_eq!(out.len(), 5);
}

#[test]
fn decals_and_view_changes_take_fixed_sizes() {
    let state = DecalState { psurface: 0x40, face: 3, dx: 0.25f32.to_bits(), dy: 0.5f32.to_bits(), scale: 1.0f32.to_bits(), texture: 4, flags: 0 };
    let decal = Decal::new(&state, 1, 3, 0);
    let mut out = vec![7];
    decal.write(&mut out);
    assert_eq!(out.len(), 1 + 20);
    let mut out = Vec::new();
    Message::UpdateDecals(vec![decal, decal]).write(&mut out);
    assert_eq!(out.len(), 2 + 2 * 20);
    let mut out = Vec::new();
    Message::SetView(3).write(&mut out);
    assert_eq!(out.len(), 4);
    let messages = vec![Message::SetView(3), Message::UpdateDecals(vec![decal])];
    let mut out = vec![0xff];
    write_frame(0, &messages, &mut out);
    assert_eq!(out.len(), 1 + 10 + (1 + 4) + (1 + 2 + 20));
}

#[test]
fn message_sizes_add_up() {
    let camera = Camera { origin: bits3([1.0, 2.0, 3.0]), angles: bits3([0.0, 90.0, 0.0]), fov: 90.0f32.to_bits() };
    let mut out = Vec::new();
    Message::NewObject(Object::Camera(camera)).write(&mut out);
    // Kind, field count, then origin, angles and field of view with their tags.
    assert_eq!(out.len(), 1 + 1 + 13 + 13 + 5);
    let mut out = Vec::new();
    Message::UpdateObject(Object::Camera(camera), vec![ObjectField::Fov(0)]).write(&mut out);
    assert_eq!(out.len(), 1 + 1 + 5);
    let mut out = Vec::new();
    Message::UpdatePlayer(3, vec![PlayerField::Model(name64("barney")), PlayerField::BottomColor(1)]).write(&mut out);
    assert_eq!(out.len(), 2 + (2 + 6) + 5);
    let messages = vec![Message::SetView(2), Message::NewObject(Object::Camera(camera))];
    let mut out = Vec::new();
    write_frame(2.5f64.to_bits(), &messages, &mut out);
    assert_eq!(out.len(), 10 + (1 + 4) + (1 + 1 + 1 + 13 + 13 + 5));
}
