//! The objects a recording tracks (camera, entities, beams, the view model),
//! what each sends when it first appears, and what changed since the last
//! frame.

use vstd::prelude::*;
use crate::bytes::{append_bytes, bytes_of_i32, bytes_of_u32, bytes_of_u8, native_bytes};
use crate::fields::{fields_bytes, fields_len, write_fields, ObjectField};
use crate::float_bits::{f32_bits_eq, f32_eq, f32x3_bits_eq, f32x3_eq};
use crate::snapshot::{BeamState, EntityState};

verus! {

/// `new` when `changed` holds, `current` otherwise.
pub fn select<T: Copy>(changed: bool, new: T, current: T) -> (r: T)
    ensures
        r == if changed { new } else { current },
{
    if changed {
        new
    } else {
        current
    }
}

/// The fields of `candidates` that are marked as changed, in order.
pub open spec fn keep_changed(candidates: Seq<(bool, ObjectField)>) -> Seq<ObjectField>
    decreases candidates.len(),
{
    if candidates.len() == 0 {
        seq![]
    } else {
        let rest = keep_changed(candidates.drop_last());
        if candidates.last().0 {
            rest.push(candidates.last().1)
        } else {
            rest
        }
    }
}

/// The fields `keep_changed` yields are those of the candidates marked as
/// changed, in order: the marked candidates, each taken for its field.
pub proof fn lemma_keep_changed_is_filter(candidates: Seq<(bool, ObjectField)>)
    ensures
        keep_changed(candidates) == candidates.filter(|c: (bool, ObjectField)| c.0).map_values(
            |c: (bool, ObjectField)| c.1,
        ),
    decreases candidates.len(),
{
    reveal(Seq::filter);
    let p = |c: (bool, ObjectField)| c.0;
    let f = |c: (bool, ObjectField)| c.1;
    if candidates.len() == 0 {
        assert(candidates.filter(p).map_values(f) =~= Seq::<ObjectField>::empty());
    } else {
        lemma_keep_changed_is_filter(candidates.drop_last());
        let marked = candidates.drop_last().filter(p);
        assert(candidates.filter(p) == if p(candidates.last()) {
            marked.push(candidates.last())
        } else {
            marked
        });
        if candidates.last().0 {
            assert(marked.push(candidates.last()).map_values(f) =~= marked.map_values(f).push(candidates.last().1));
        }
    }
}

/// The fields of `candidates` that are marked as changed, in order.
pub fn changed_fields(candidates: &Vec<(bool, ObjectField)>) -> (fields: Vec<ObjectField>)
    ensures
        fields@ == keep_changed(candidates@),
{
    let mut fields: Vec<ObjectField> = Vec::new();
    let mut i: usize = 0;
    while i < candidates.len()
        invariant
            i <= candidates.len(),
            fields@ == keep_changed(candidates@.take(i as int)),
        decreases candidates.len() - i,
    {
        let (changed, field) = candidates[i];
        assert(candidates@.take(i + 1).drop_last() =~= candidates@.take(i as int));
        if changed {
            fields.push(field);
        }
        i += 1;
    }
    assert(candidates@.take(candidates.len() as int) =~= candidates@);
    fields
}

/// `a` and `b` hold the same bytes.
pub fn u8x2_eq(a: [u8; 2], b: [u8; 2]) -> (r: bool)
    ensures
        r == (a@ == b@),
{
    let r = a[0] == b[0] && a[1] == b[1];
    if r {
        assert(a@ =~= b@);
    }
    r
}

/// `a` and `b` hold the same bytes.
pub fn u8x3_eq(a: [u8; 3], b: [u8; 3]) -> (r: bool)
    ensures
        r == (a@ == b@),
{
    let r = a[0] == b[0] && a[1] == b[1] && a[2] == b[2];
    if r {
        assert(a@ =~= b@);
    }
    r
}

/// An object of the recording: it lists its fields, encodes itself when it
/// first appears, and encodes a list of changed fields.
pub trait TrackedObject {
    /// All the fields of the object, with their current values.
    spec fn tracked_fields(&self) -> Seq<ObjectField>;

    /// The encoding of the object when it first appears.
    spec fn new_bytes(&self) -> Seq<u8>;

    /// The encoding of an update of the object that changes `changes`.
    spec fn update_bytes(&self, changes: Seq<ObjectField>) -> Seq<u8>;

    /// All the fields of the object, with their current values.
    fn get_tracked_fields(&self) -> (r: Vec<ObjectField>)
        ensures
            r@ == self.tracked_fields(),
    ;

    /// The number of bytes of the encoding of the object when it first
    /// appears.
    spec fn new_len(&self) -> int;

    /// The number of bytes of the encoding of an update that changes
    /// `changes`.
    spec fn update_len(&self, changes: Seq<ObjectField>) -> int;

    /// Appends the encoding of the object as it first appears.
    fn write_new(&self, writer: &mut Vec<u8>)
        ensures
            final(writer)@ == old(writer)@ + self.new_bytes(),
            final(writer)@.len() == old(writer)@.len() + self.new_len(),
    ;

    /// Appends the encoding of an update of the object that changes `changes`.
    fn write_update(&self, writer: &mut Vec<u8>, changes: &Vec<ObjectField>)
        ensures
            final(writer)@ == old(writer)@ + self.update_bytes(changes@),
            final(writer)@.len() == old(writer)@.len() + self.update_len(changes@),
    ;
}

/// A list of fields as the recording format sends it: the count in one
/// byte, then each field.
pub open spec fn field_list_bytes(fields: Seq<ObjectField>) -> Seq<u8> {
    seq![fields.len() as u8] + fields_bytes(fields)
}

/// Appends `fields` as the recording format sends a list of fields.
pub fn write_field_list(fields: &Vec<ObjectField>, writer: &mut Vec<u8>)
    ensures
        final(writer)@ == old(writer)@ + field_list_bytes(fields@),
        final(writer)@.len() == old(writer)@.len() + 1 + fields_len(fields@),
{
    writer.push(fields.len() as u8);
    write_fields(fields, writer);
    assert(writer@ =~= old(writer)@ + field_list_bytes(fields@));
}

/// The camera: where the frame is rendered from.
#[derive(Clone, Copy, Debug)]
pub struct Camera {
    pub origin: [u32; 3],
    pub angles: [u32; 3],
    pub fov: u32,
}

impl TrackedObject for Camera {
    open spec fn tracked_fields(&self) -> Seq<ObjectField> {
        seq![
            ObjectField::Origin(self.origin),
            ObjectField::Angles(self.angles),
            ObjectField::Fov(self.fov),
        ]
    }

    open spec fn new_bytes(&self) -> Seq<u8> {
        field_list_bytes(self.tracked_fields())
    }

    open spec fn update_bytes(&self, changes: Seq<ObjectField>) -> Seq<u8> {
        field_list_bytes(changes)
    }

    open spec fn new_len(&self) -> int {
        1 + fields_len(self.tracked_fields())
    }

    open spec fn update_len(&self, changes: Seq<ObjectField>) -> int {
        1 + fields_len(changes)
    }

    fn get_tracked_fields(&self) -> (r: Vec<ObjectField>) {
        let r = vec![
            ObjectField::Origin(self.origin),
            ObjectField::Angles(self.angles),
            ObjectField::Fov(self.fov),
        ];
        assert(r@ =~= self.tracked_fields());
        r
    }

    fn write_new(&self, writer: &mut Vec<u8>) {
        let fields = self.get_tracked_fields();
        write_field_list(&fields, writer);
    }

    fn write_update(&self, writer: &mut Vec<u8>, changes: &Vec<ObjectField>) {
        write_field_list(changes, writer);
    }
}

/// The fields of `current` that differ from `last`, each with its value in
/// `current`, in the order origin, angles, field of view.
pub open spec fn camera_changes(last: Camera, current: Camera) -> Seq<ObjectField> {
    keep_changed(
        seq![
            (!f32x3_eq(last.origin, current.origin), ObjectField::Origin(current.origin)),
            (!f32x3_eq(last.angles, current.angles), ObjectField::Angles(current.angles)),
            (!f32_eq(last.fov, current.fov), ObjectField::Fov(current.fov)),
        ],
    )
}

impl Camera {
    /// The fields of `current` that differ from `self`.
    pub fn get_changed_fields(&self, current: &Camera) -> (fields: Vec<ObjectField>)
        ensures
            fields@ == camera_changes(*self, *current),
            forall|i: int| 0 <= i < fields.len() ==> current.tracked_fields().contains(#[trigger] fields@[i]),
    {
        proof {
            crate::reported_fields::lemma_camera_reports_current_values(*self, *current);
        }
        let mut fields = Vec::new();
        if !f32x3_bits_eq(self.origin, current.origin) {
            fields.push(ObjectField::Origin(current.origin));
        }
        if !f32x3_bits_eq(self.angles, current.angles) {
            fields.push(ObjectField::Angles(current.angles));
        }
        if !f32_bits_eq(self.fov, current.fov) {
            fields.push(ObjectField::Fov(current.fov));
        }
        proof {
            reveal_with_fuel(keep_changed, 4);
        }
        assert(fields@ =~= camera_changes(*self, *current));
        fields
    }
}

/// The view model (the weapon in first person view).
#[derive(Clone, Copy, Debug)]
pub struct ViewEnt {
    /// Address of the model drawn.
    pub model: usize,
    /// Index of that model in the recorded model list.
    pub model_index: u32,
    pub draw: bool,
    pub origin: [u32; 3],
    pub angles: [u32; 3],
    pub sequence: i32,
    pub animtime: u32,
    pub body: i32,
    pub rendermode: i32,
    pub renderamt: i32,
    pub rendercolor: [u8; 3],
    pub renderfx: i32,
    pub movetype: i32,
    pub prevsequence: i32,
    pub sequencetime: u32,
    pub prevseqblending: [u8; 2],
    pub prevanimtime: u32,
    pub prevorigin: [u32; 3],
    pub prevangles: [u32; 3],
}

impl TrackedObject for ViewEnt {
    open spec fn tracked_fields(&self) -> Seq<ObjectField> {
        seq![
            ObjectField::Origin(self.origin),
            ObjectField::Angles(self.angles),
            ObjectField::Draw(self.draw),
            ObjectField::ModelIndex(self.model_index),
            ObjectField::Sequence(self.sequence),
            ObjectField::AnimTime(self.animtime),
            ObjectField::Body(self.body),
            ObjectField::RenderMode(self.rendermode),
            ObjectField::RenderAmt(self.renderamt),
            ObjectField::RenderColor(self.rendercolor),
            ObjectField::RenderFx(self.renderfx),
            ObjectField::MoveType(self.movetype),
            ObjectField::PrevSequence(self.prevsequence),
            ObjectField::SequenceTime(self.sequencetime),
            ObjectField::PrevSeqBlending(self.prevseqblending),
            ObjectField::PrevAnimTime(self.prevanimtime),
            ObjectField::PrevOrigin(self.prevorigin),
            ObjectField::PrevAngles(self.prevangles),
        ]
    }

    open spec fn new_bytes(&self) -> Seq<u8> {
        field_list_bytes(self.tracked_fields())
    }

    open spec fn update_bytes(&self, changes: Seq<ObjectField>) -> Seq<u8> {
        field_list_bytes(changes)
    }

    open spec fn new_len(&self) -> int {
        1 + fields_len(self.tracked_fields())
    }

    open spec fn update_len(&self, changes: Seq<ObjectField>) -> int {
        1 + fields_len(changes)
    }

    fn get_tracked_fields(&self) -> (r: Vec<ObjectField>) {
        let r = vec![
            ObjectField::Origin(self.origin),
            ObjectField::Angles(self.angles),
            ObjectField::Draw(self.draw),
            ObjectField::ModelIndex(self.model_index),
            ObjectField::Sequence(self.sequence),
            ObjectField::AnimTime(self.animtime),
            ObjectField::Body(self.body),
            ObjectField::RenderMode(self.rendermode),
            ObjectField::RenderAmt(self.renderamt),
            ObjectField::RenderColor(self.rendercolor),
            ObjectField::RenderFx(self.renderfx),
            ObjectField::MoveType(self.movetype),
            ObjectField::PrevSequence(self.prevsequence),
            ObjectField::SequenceTime(self.sequencetime),
            ObjectField::PrevSeqBlending(self.prevseqblending),
            ObjectField::PrevAnimTime(self.prevanimtime),
            ObjectField::PrevOrigin(self.prevorigin),
            ObjectField::PrevAngles(self.prevangles),
        ];
        assert(r@ =~= self.tracked_fields());
        r
    }

    fn write_new(&self, writer: &mut Vec<u8>) {
        let fields = self.get_tracked_fields();
        write_field_list(&fields, writer);
    }

    fn write_update(&self, writer: &mut Vec<u8>, changes: &Vec<ObjectField>) {
        write_field_list(changes, writer);
    }
}

/// The view model as it first appears: drawn, with the model at
/// `model_index` and the state of `s`.
pub open spec fn viewent_from(s: EntityState, model_index: u32) -> ViewEnt {
    ViewEnt {
        model: s.model,
        model_index: model_index,
        draw: true,
        origin: s.origin,
        angles: s.angles,
        sequence: s.sequence,
        animtime: s.animtime,
        body: s.body,
        rendermode: s.rendermode,
        renderamt: s.renderamt,
        rendercolor: s.rendercolor,
        renderfx: s.renderfx,
        movetype: s.movetype,
        prevsequence: s.prevsequence,
        sequencetime: s.sequencetime,
        prevseqblending: s.prevseqblending,
        prevanimtime: s.prevanimtime,
        prevorigin: s.prevorigin,
        prevangles: s.prevangles,
    }
}

/// The fields of the view model that differ between `old` and `s`, each
/// with its value in `s`, in the order the recorder checks them.
pub open spec fn viewent_changes(old: ViewEnt, s: EntityState) -> Seq<ObjectField> {
    keep_changed(viewent_candidates(old, s))
}

/// Part 1 of the fields the recorder checks on the view model.
pub open spec fn viewent_candidates_part_0(old: ViewEnt, s: EntityState) -> Seq<(bool, ObjectField)> {
    seq![
        (!f32x3_eq(old.origin, s.origin), ObjectField::Origin(s.origin)),
        (!f32x3_eq(old.angles, s.angles), ObjectField::Angles(s.angles)),
        (old.sequence != s.sequence, ObjectField::Sequence(s.sequence)),
        (!f32_eq(old.animtime, s.animtime), ObjectField::AnimTime(s.animtime)),
        (old.body != s.body, ObjectField::Body(s.body)),
    ]
}

/// Part 2 of the fields the recorder checks on the view model.
pub open spec fn viewent_candidates_part_1(old: ViewEnt, s: EntityState) -> Seq<(bool, ObjectField)> {
    seq![
        (old.rendermode != s.rendermode, ObjectField::RenderMode(s.rendermode)),
        (old.renderamt != s.renderamt, ObjectField::RenderAmt(s.renderamt)),
        (old.rendercolor@ != s.rendercolor@, ObjectField::RenderColor(s.rendercolor)),
        (old.renderfx != s.renderfx, ObjectField::RenderFx(s.renderfx)),
        (old.movetype != s.movetype, ObjectField::MoveType(s.movetype)),
    ]
}

/// Part 3 of the fields the recorder checks on the view model.
pub open spec fn viewent_candidates_part_2(old: ViewEnt, s: EntityState) -> Seq<(bool, ObjectField)> {
    seq![
        (old.prevsequence != s.prevsequence, ObjectField::PrevSequence(s.prevsequence)),
        (!f32_eq(old.sequencetime, s.sequencetime), ObjectField::SequenceTime(s.sequencetime)),
        (old.prevseqblending@ != s.prevseqblending@, ObjectField::PrevSeqBlending(s.prevseqblending)),
        (!f32_eq(old.prevanimtime, s.prevanimtime), ObjectField::PrevAnimTime(s.prevanimtime)),
        (!f32x3_eq(old.prevorigin, s.prevorigin), ObjectField::PrevOrigin(s.prevorigin)),
    ]
}

/// Part 4 of the fields the recorder checks on the view model.
pub open spec fn viewent_candidates_part_3(old: ViewEnt, s: EntityState) -> Seq<(bool, ObjectField)> {
    seq![
        (!f32x3_eq(old.prevangles, s.prevangles), ObjectField::PrevAngles(s.prevangles)),
    ]
}

/// Each field the recorder checks on the view model, with its value in `s`
/// and whether it differs from `old`.
pub open spec fn viewent_candidates(old: ViewEnt, s: EntityState) -> Seq<(bool, ObjectField)> {
    viewent_candidates_part_0(old, s)
    + viewent_candidates_part_1(old, s)
    + viewent_candidates_part_2(old, s)
    + viewent_candidates_part_3(old, s)
}

/// `old` with each changed field set to its value in `s`.
pub open spec fn viewent_updated(old: ViewEnt, s: EntityState) -> ViewEnt {
    ViewEnt {
        model: old.model,
        model_index: old.model_index,
        draw: old.draw,
        origin: if !f32x3_eq(old.origin, s.origin) { s.origin } else { old.origin },
        angles: if !f32x3_eq(old.angles, s.angles) { s.angles } else { old.angles },
        sequence: if old.sequence != s.sequence { s.sequence } else { old.sequence },
        animtime: if !f32_eq(old.animtime, s.animtime) { s.animtime } else { old.animtime },
        body: if old.body != s.body { s.body } else { old.body },
        rendermode: if old.rendermode != s.rendermode { s.rendermode } else { old.rendermode },
        renderamt: if old.renderamt != s.renderamt { s.renderamt } else { old.renderamt },
        rendercolor: if old.rendercolor@ != s.rendercolor@ { s.rendercolor } else { old.rendercolor },
        renderfx: if old.renderfx != s.renderfx { s.renderfx } else { old.renderfx },
        movetype: if old.movetype != s.movetype { s.movetype } else { old.movetype },
        prevsequence: if old.prevsequence != s.prevsequence { s.prevsequence } else { old.prevsequence },
        sequencetime: if !f32_eq(old.sequencetime, s.sequencetime) { s.sequencetime } else { old.sequencetime },
        prevseqblending: if old.prevseqblending@ != s.prevseqblending@ { s.prevseqblending } else { old.prevseqblending },
        prevanimtime: if !f32_eq(old.prevanimtime, s.prevanimtime) { s.prevanimtime } else { old.prevanimtime },
        prevorigin: if !f32x3_eq(old.prevorigin, s.prevorigin) { s.prevorigin } else { old.prevorigin },
        prevangles: if !f32x3_eq(old.prevangles, s.prevangles) { s.prevangles } else { old.prevangles },
    }
}

impl ViewEnt {
    /// The view model as it first appears.
    pub fn new(entity: &EntityState, model_index: u32) -> (r: ViewEnt)
        ensures
            r == viewent_from(*entity, model_index),
    {
        ViewEnt {
            model: entity.model,
            model_index,
            draw: true,
            origin: entity.origin,
            angles: entity.angles,
            sequence: entity.sequence,
            animtime: entity.animtime,
            body: entity.body,
            rendermode: entity.rendermode,
            renderamt: entity.renderamt,
            rendercolor: entity.rendercolor,
            renderfx: entity.renderfx,
            movetype: entity.movetype,
            prevsequence: entity.prevsequence,
            sequencetime: entity.sequencetime,
            prevseqblending: entity.prevseqblending,
            prevanimtime: entity.prevanimtime,
            prevorigin: entity.prevorigin,
            prevangles: entity.prevangles,
        }
    }

    /// Records the view model's current state and returns the fields that
    /// changed.
    pub fn get_changes_and_update(&mut self, viewent: &EntityState) -> (fields: Vec<ObjectField>)
        ensures
            fields@ == viewent_changes(*old(self), *viewent),
            *final(self) == viewent_updated(*old(self), *viewent),
            forall|i: int| 0 <= i < fields.len() ==> final(self).tracked_fields().contains(#[trigger] fields@[i]),
            forall|k: int|
                0 <= k < final(self).tracked_fields().len() && #[trigger] final(self).tracked_fields()[k]
                    != old(self).tracked_fields()[k] ==> fields@.contains(final(self).tracked_fields()[k]),
            crate::reported_fields::viewent_follows(*final(self), *old(self), *viewent),
            forall|i: int|
                0 <= i < fields.len() && #[trigger] fields@[i] == crate::reported_fields::viewent_field_of_kind(*old(self), fields@[i])
                    ==> crate::reported_fields::field_has_nan(fields@[i]),
    {
        proof {
            crate::reported_fields::lemma_viewent_reports_new_values(*old(self), *viewent);
        }
        let fields = changed_fields(&self.changed_candidates(viewent));
        *self = self.updated(viewent);
        fields
    }

    fn candidates_part_0(&self, viewent: &EntityState) -> (r: Vec<(bool, ObjectField)>)
        ensures
            r@ == viewent_candidates_part_0(*self, *viewent),
    {
        let origin_changed = !f32x3_bits_eq(self.origin, viewent.origin);
        let angles_changed = !f32x3_bits_eq(self.angles, viewent.angles);
        let sequence_changed = self.sequence != viewent.sequence;
        let animtime_changed = !f32_bits_eq(self.animtime, viewent.animtime);
        let body_changed = self.body != viewent.body;
        let r = vec![
            (origin_changed, ObjectField::Origin(viewent.origin)),
            (angles_changed, ObjectField::Angles(viewent.angles)),
            (sequence_changed, ObjectField::Sequence(viewent.sequence)),
            (animtime_changed, ObjectField::AnimTime(viewent.animtime)),
            (body_changed, ObjectField::Body(viewent.body)),
        ];
        assert(r@ =~= seq![
                (!f32x3_eq(self.origin, viewent.origin), ObjectField::Origin(viewent.origin)),
                (!f32x3_eq(self.angles, viewent.angles), ObjectField::Angles(viewent.angles)),
                (self.sequence != viewent.sequence, ObjectField::Sequence(viewent.sequence)),
                (!f32_eq(self.animtime, viewent.animtime), ObjectField::AnimTime(viewent.animtime)),
                (self.body != viewent.body, ObjectField::Body(viewent.body)),
            ]);
        r
    }

    fn candidates_part_1(&self, viewent: &EntityState) -> (r: Vec<(bool, ObjectField)>)
        ensures
            r@ == viewent_candidates_part_1(*self, *viewent),
    {
        let rendermode_changed = self.rendermode != viewent.rendermode;
        let renderamt_changed = self.renderamt != viewent.renderamt;
        let rendercolor_changed = !u8x3_eq(self.rendercolor, viewent.rendercolor);
        let renderfx_changed = self.renderfx != viewent.renderfx;
        let movetype_changed = self.movetype != viewent.movetype;
        let r = vec![
            (rendermode_changed, ObjectField::RenderMode(viewent.rendermode)),
            (renderamt_changed, ObjectField::RenderAmt(viewent.renderamt)),
            (rendercolor_changed, ObjectField::RenderColor(viewent.rendercolor)),
            (renderfx_changed, ObjectField::RenderFx(viewent.renderfx)),
            (movetype_changed, ObjectField::MoveType(viewent.movetype)),
        ];
        assert(r@ =~= seq![
                (self.rendermode != viewent.rendermode, ObjectField::RenderMode(viewent.rendermode)),
                (self.renderamt != viewent.renderamt, ObjectField::RenderAmt(viewent.renderamt)),
                (self.rendercolor@ != viewent.rendercolor@, ObjectField::RenderColor(viewent.rendercolor)),
                (self.renderfx != viewent.renderfx, ObjectField::RenderFx(viewent.renderfx)),
                (self.movetype != viewent.movetype, ObjectField::MoveType(viewent.movetype)),
            ]);
        r
    }

    fn candidates_part_2(&self, viewent: &EntityState) -> (r: Vec<(bool, ObjectField)>)
        ensures
            r@ == viewent_candidates_part_2(*self, *viewent),
    {
        let prevsequence_changed = self.prevsequence != viewent.prevsequence;
        let sequencetime_changed = !f32_bits_eq(self.sequencetime, viewent.sequencetime);
        let prevseqblending_changed = !u8x2_eq(self.prevseqblending, viewent.prevseqblending);
        let prevanimtime_changed = !f32_bits_eq(self.prevanimtime, viewent.prevanimtime);
        let prevorigin_changed = !f32x3_bits_eq(self.prevorigin, viewent.prevorigin);
        let r = vec![
            (prevsequence_changed, ObjectField::PrevSequence(viewent.prevsequence)),
            (sequencetime_changed, ObjectField::SequenceTime(viewent.sequencetime)),
            (prevseqblending_changed, ObjectField::PrevSeqBlending(viewent.prevseqblending)),
            (prevanimtime_changed, ObjectField::PrevAnimTime(viewent.prevanimtime)),
            (prevorigin_changed, ObjectField::PrevOrigin(viewent.prevorigin)),
        ];
        assert(r@ =~= seq![
                (self.prevsequence != viewent.prevsequence, ObjectField::PrevSequence(viewent.prevsequence)),
                (!f32_eq(self.sequencetime, viewent.sequencetime), ObjectField::SequenceTime(viewent.sequencetime)),
                (self.prevseqblending@ != viewent.prevseqblending@, ObjectField::PrevSeqBlending(viewent.prevseqblending)),
                (!f32_eq(self.prevanimtime, viewent.prevanimtime), ObjectField::PrevAnimTime(viewent.prevanimtime)),
                (!f32x3_eq(self.prevorigin, viewent.prevorigin), ObjectField::PrevOrigin(viewent.prevorigin)),
            ]);
        r
    }

    fn candidates_part_3(&self, viewent: &EntityState) -> (r: Vec<(bool, ObjectField)>)
        ensures
            r@ == viewent_candidates_part_3(*self, *viewent),
    {
        let prevangles_changed = !f32x3_bits_eq(self.prevangles, viewent.prevangles);
        let r = vec![
            (prevangles_changed, ObjectField::PrevAngles(viewent.prevangles)),
        ];
        assert(r@ =~= seq![
                (!f32x3_eq(self.prevangles, viewent.prevangles), ObjectField::PrevAngles(viewent.prevangles)),
            ]);
        r
    }

    /// Each field the recorder checks, with its value in `viewent` and whether
    /// it differs from `self`.
    pub fn changed_candidates(&self, viewent: &EntityState) -> (r: Vec<(bool, ObjectField)>)
        ensures
            r@ == viewent_candidates(*self, *viewent),
    {
        let mut r = self.candidates_part_0(viewent);
        let mut part = self.candidates_part_1(viewent);
        r.append(&mut part);
        let mut part = self.candidates_part_2(viewent);
        r.append(&mut part);
        let mut part = self.candidates_part_3(viewent);
        r.append(&mut part);
        r
    }

    /// `self` with each changed field set to its value in `viewent`.
    pub fn updated(&self, viewent: &EntityState) -> (r: ViewEnt)
        ensures
            r == viewent_updated(*self, *viewent),
    {
        let origin_changed = !f32x3_bits_eq(self.origin, viewent.origin);
        let angles_changed = !f32x3_bits_eq(self.angles, viewent.angles);
        let sequence_changed = self.sequence != viewent.sequence;
        let animtime_changed = !f32_bits_eq(self.animtime, viewent.animtime);
        let body_changed = self.body != viewent.body;
        let rendermode_changed = self.rendermode != viewent.rendermode;
        let renderamt_changed = self.renderamt != viewent.renderamt;
        let rendercolor_changed = !u8x3_eq(self.rendercolor, viewent.rendercolor);
        let renderfx_changed = self.renderfx != viewent.renderfx;
        let movetype_changed = self.movetype != viewent.movetype;
        let prevsequence_changed = self.prevsequence != viewent.prevsequence;
        let sequencetime_changed = !f32_bits_eq(self.sequencetime, viewent.sequencetime);
        let prevseqblending_changed = !u8x2_eq(self.prevseqblending, viewent.prevseqblending);
        let prevanimtime_changed = !f32_bits_eq(self.prevanimtime, viewent.prevanimtime);
        let prevorigin_changed = !f32x3_bits_eq(self.prevorigin, viewent.prevorigin);
        let prevangles_changed = !f32x3_bits_eq(self.prevangles, viewent.prevangles);
        ViewEnt {
            model: self.model,
            model_index: self.model_index,
            draw: self.draw,
            origin: select(origin_changed, viewent.origin, self.origin),
            angles: select(angles_changed, viewent.angles, self.angles),
            sequence: select(sequence_changed, viewent.sequence, self.sequence),
            animtime: select(animtime_changed, viewent.animtime, self.animtime),
            body: select(body_changed, viewent.body, self.body),
            rendermode: select(rendermode_changed, viewent.rendermode, self.rendermode),
            renderamt: select(renderamt_changed, viewent.renderamt, self.renderamt),
            rendercolor: select(rendercolor_changed, viewent.rendercolor, self.rendercolor),
            renderfx: select(renderfx_changed, viewent.renderfx, self.renderfx),
            movetype: select(movetype_changed, viewent.movetype, self.movetype),
            prevsequence: select(prevsequence_changed, viewent.prevsequence, self.prevsequence),
            sequencetime: select(sequencetime_changed, viewent.sequencetime, self.sequencetime),
            prevseqblending: select(prevseqblending_changed, viewent.prevseqblending, self.prevseqblending),
            prevanimtime: select(prevanimtime_changed, viewent.prevanimtime, self.prevanimtime),
            prevorigin: select(prevorigin_changed, viewent.prevorigin, self.prevorigin),
            prevangles: select(prevangles_changed, viewent.prevangles, self.prevangles),
        }
    }

}

/// An engine entity that the recording draws.
#[derive(Clone, Copy, Debug)]
pub struct Entity {
    /// Seen in the frame being recorded.
    pub seen: bool,
    /// Number of the object in the recording.
    pub id: u32,
    /// Address of the model drawn.
    pub model: usize,
    /// Index of that model in the recorded model list.
    pub model_index: usize,
    /// Player slot of a player entity; 255 for any other.
    pub player_index: u8,
    pub draw: bool,
    pub origin: [u32; 3],
    pub angles: [u32; 3],
    pub sequence: i32,
    pub animtime: u32,
    pub framerate: u32,
    pub body: i32,
    pub frame: u32,
    pub scale: u32,
    pub rendermode: i32,
    pub renderamt: i32,
    pub rendercolor: [u8; 3],
    pub renderfx: i32,
    pub gaitsequence: i32,
    pub movetype: i32,
    /// Weapon model as the engine numbers it (a model precache index).
    pub weaponmodel: i32,
    /// Index of the weapon model in the recorded model list.
    pub weaponmodel_index: Option<u32>,
    pub prevsequence: i32,
    pub sequencetime: u32,
    pub prevseqblending: [u8; 2],
    pub prevanimtime: u32,
    pub prevorigin: [u32; 3],
    pub prevangles: [u32; 3],
}

impl TrackedObject for Entity {
    open spec fn tracked_fields(&self) -> Seq<ObjectField> {
        seq![
            ObjectField::Origin(self.origin),
            ObjectField::Angles(self.angles),
            ObjectField::Draw(self.draw),
            ObjectField::Sequence(self.sequence),
            ObjectField::AnimTime(self.animtime),
            ObjectField::Framerate(self.framerate),
            ObjectField::Body(self.body),
            ObjectField::Frame(self.frame),
            ObjectField::Scale(self.scale),
            ObjectField::RenderMode(self.rendermode),
            ObjectField::RenderAmt(self.renderamt),
            ObjectField::RenderColor(self.rendercolor),
            ObjectField::RenderFx(self.renderfx),
            ObjectField::GaitSequence(self.gaitsequence),
            ObjectField::MoveType(self.movetype),
            ObjectField::WeaponModel(self.weaponmodel_index),
            ObjectField::PrevSequence(self.prevsequence),
            ObjectField::SequenceTime(self.sequencetime),
            ObjectField::PrevSeqBlending(self.prevseqblending),
            ObjectField::PrevAnimTime(self.prevanimtime),
            ObjectField::PrevOrigin(self.prevorigin),
            ObjectField::PrevAngles(self.prevangles),
        ]
    }

    open spec fn new_bytes(&self) -> Seq<u8> {
        native_bytes(self.id as int, 4) + native_bytes((self.model_index as u32) as int, 4)
            + seq![self.player_index] + field_list_bytes(self.tracked_fields())
    }

    open spec fn update_bytes(&self, changes: Seq<ObjectField>) -> Seq<u8> {
        native_bytes(self.id as int, 4) + field_list_bytes(changes)
    }

    open spec fn new_len(&self) -> int {
        10 + fields_len(self.tracked_fields())
    }

    open spec fn update_len(&self, changes: Seq<ObjectField>) -> int {
        5 + fields_len(changes)
    }

    fn get_tracked_fields(&self) -> (r: Vec<ObjectField>) {
        let r = vec![
            ObjectField::Origin(self.origin),
            ObjectField::Angles(self.angles),
            ObjectField::Draw(self.draw),
            ObjectField::Sequence(self.sequence),
            ObjectField::AnimTime(self.animtime),
            ObjectField::Framerate(self.framerate),
            ObjectField::Body(self.body),
            ObjectField::Frame(self.frame),
            ObjectField::Scale(self.scale),
            ObjectField::RenderMode(self.rendermode),
            ObjectField::RenderAmt(self.renderamt),
            ObjectField::RenderColor(self.rendercolor),
            ObjectField::RenderFx(self.renderfx),
            ObjectField::GaitSequence(self.gaitsequence),
            ObjectField::MoveType(self.movetype),
            ObjectField::WeaponModel(self.weaponmodel_index),
            ObjectField::PrevSequence(self.prevsequence),
            ObjectField::SequenceTime(self.sequencetime),
            ObjectField::PrevSeqBlending(self.prevseqblending),
            ObjectField::PrevAnimTime(self.prevanimtime),
            ObjectField::PrevOrigin(self.prevorigin),
            ObjectField::PrevAngles(self.prevangles),
        ];
        assert(r@ =~= self.tracked_fields());
        r
    }

    fn write_new(&self, writer: &mut Vec<u8>) {
        append_bytes(writer, bytes_of_u32(self.id));
        append_bytes(writer, bytes_of_u32(self.model_index as u32));
        append_bytes(writer, bytes_of_u8(self.player_index));
        let fields = self.get_tracked_fields();
        write_field_list(&fields, writer);
        assert(writer@ =~= old(writer)@ + self.new_bytes());
    }

    fn write_update(&self, writer: &mut Vec<u8>, changes: &Vec<ObjectField>) {
        append_bytes(writer, bytes_of_u32(self.id));
        write_field_list(changes, writer);
        assert(writer@ =~= old(writer)@ + self.update_bytes(changes@));
    }
}

/// Where an entity is recorded: a sprite with a non-zero body sits at the
/// attachment point the engine gives for it, any other entity at its origin.
pub open spec fn entity_origin(s: EntityState) -> [u32; 3] {
    if s.model_is_sprite && s.body != 0 {
        s.attachment_origin
    } else {
        s.origin
    }
}

/// An entity reads its position from the attachment point.
pub fn uses_attachment_origin(entity: &EntityState) -> (r: bool)
    ensures
        r == (entity.model_is_sprite && entity.body != 0),
{
    entity.model_is_sprite && entity.body != 0
}

/// Where an entity is recorded (see `entity_origin`).
pub fn entity_origin_of(entity: &EntityState) -> (r: [u32; 3])
    ensures
        r == entity_origin(*entity),
{
    if uses_attachment_origin(entity) {
        entity.attachment_origin
    } else {
        entity.origin
    }
}

/// The player slot recorded for an entity: one less than its number for a
/// player, 255 for any other entity.
pub open spec fn entity_player_index(s: EntityState) -> u8 {
    if s.player != 0 {
        ((s.number as u8) - 1) as u8
    } else {
        255
    }
}

/// An entity as it first appears.
pub open spec fn entity_from(s: EntityState, id: u32, model_index: usize, weaponmodel_index: Option<u32>) -> Entity {
    Entity {
        seen: true,
        id: id,
        model: s.model,
        model_index: model_index,
        player_index: entity_player_index(s),
        draw: true,
        origin: entity_origin(s),
        weaponmodel_index: weaponmodel_index,
        angles: s.angles,
        sequence: s.sequence,
        animtime: s.animtime,
        framerate: s.framerate,
        body: s.body,
        frame: s.frame,
        scale: s.scale,
        rendermode: s.rendermode,
        renderamt: s.renderamt,
        rendercolor: s.rendercolor,
        renderfx: s.renderfx,
        gaitsequence: s.gaitsequence,
        movetype: s.movetype,
        weaponmodel: s.weaponmodel,
        prevsequence: s.prevsequence,
        sequencetime: s.sequencetime,
        prevseqblending: s.prevseqblending,
        prevanimtime: s.prevanimtime,
        prevorigin: s.prevorigin,
        prevangles: s.prevangles,
    }
}

/// The fields of the entity that differ between `old` and `s`, each with
/// its value in `s`, in the order the recorder checks them.
pub open spec fn entity_changes(old: Entity, s: EntityState) -> Seq<ObjectField> {
    keep_changed(entity_candidates(old, s))
}

/// Part 1 of the fields the recorder checks on an entity.
pub open spec fn entity_candidates_part_0(old: Entity, s: EntityState) -> Seq<(bool, ObjectField)> {
    seq![
        (!f32x3_eq(old.origin, entity_origin(s)), ObjectField::Origin(entity_origin(s))),
        (!f32x3_eq(old.angles, s.angles), ObjectField::Angles(s.angles)),
        (old.sequence != s.sequence, ObjectField::Sequence(s.sequence)),
        (!f32_eq(old.animtime, s.animtime), ObjectField::AnimTime(s.animtime)),
        (!f32_eq(old.framerate, s.framerate), ObjectField::Framerate(s.framerate)),
    ]
}

/// Part 2 of the fields the recorder checks on an entity.
pub open spec fn entity_candidates_part_1(old: Entity, s: EntityState) -> Seq<(bool, ObjectField)> {
    seq![
        (old.body != s.body, ObjectField::Body(s.body)),
        (!f32_eq(old.frame, s.frame), ObjectField::Frame(s.frame)),
        (!f32_eq(old.scale, s.scale), ObjectField::Scale(s.scale)),
        (old.rendermode != s.rendermode, ObjectField::RenderMode(s.rendermode)),
        (old.renderamt != s.renderamt, ObjectField::RenderAmt(s.renderamt)),
    ]
}

/// Part 3 of the fields the recorder checks on an entity.
pub open spec fn entity_candidates_part_2(old: Entity, s: EntityState) -> Seq<(bool, ObjectField)> {
    seq![
        (old.rendercolor@ != s.rendercolor@, ObjectField::RenderColor(s.rendercolor)),
        (old.renderfx != s.renderfx, ObjectField::RenderFx(s.renderfx)),
        (old.gaitsequence != s.gaitsequence, ObjectField::GaitSequence(s.gaitsequence)),
        (old.movetype != s.movetype, ObjectField::MoveType(s.movetype)),
        (old.prevsequence != s.prevsequence, ObjectField::PrevSequence(s.prevsequence)),
    ]
}

/// Part 4 of the fields the recorder checks on an entity.
pub open spec fn entity_candidates_part_3(old: Entity, s: EntityState) -> Seq<(bool, ObjectField)> {
    seq![
        (!f32_eq(old.sequencetime, s.sequencetime), ObjectField::SequenceTime(s.sequencetime)),
        (old.prevseqblending@ != s.prevseqblending@, ObjectField::PrevSeqBlending(s.prevseqblending)),
        (!f32_eq(old.prevanimtime, s.prevanimtime), ObjectField::PrevAnimTime(s.prevanimtime)),
        (!f32x3_eq(old.prevorigin, s.prevorigin), ObjectField::PrevOrigin(s.prevorigin)),
        (!f32x3_eq(old.prevangles, s.prevangles), ObjectField::PrevAngles(s.prevangles)),
    ]
}

/// Each field the recorder checks on an entity, with its value in `s` and
/// whether it differs from `old`.
pub open spec fn entity_candidates(old: Entity, s: EntityState) -> Seq<(bool, ObjectField)> {
    entity_candidates_part_0(old, s)
    + entity_candidates_part_1(old, s)
    + entity_candidates_part_2(old, s)
    + entity_candidates_part_3(old, s)
}

/// `old` with each changed field set to its value in `s`.
pub open spec fn entity_updated(old: Entity, s: EntityState) -> Entity {
    Entity {
        seen: old.seen,
        id: old.id,
        model: old.model,
        model_index: old.model_index,
        player_index: old.player_index,
        draw: old.draw,
        origin: if !f32x3_eq(old.origin, entity_origin(s)) { entity_origin(s) } else { old.origin },
        angles: if !f32x3_eq(old.angles, s.angles) { s.angles } else { old.angles },
        sequence: if old.sequence != s.sequence { s.sequence } else { old.sequence },
        animtime: if !f32_eq(old.animtime, s.animtime) { s.animtime } else { old.animtime },
        framerate: if !f32_eq(old.framerate, s.framerate) { s.framerate } else { old.framerate },
        body: if old.body != s.body { s.body } else { old.body },
        frame: if !f32_eq(old.frame, s.frame) { s.frame } else { old.frame },
        scale: if !f32_eq(old.scale, s.scale) { s.scale } else { old.scale },
        rendermode: if old.rendermode != s.rendermode { s.rendermode } else { old.rendermode },
        renderamt: if old.renderamt != s.renderamt { s.renderamt } else { old.renderamt },
        rendercolor: if old.rendercolor@ != s.rendercolor@ { s.rendercolor } else { old.rendercolor },
        renderfx: if old.renderfx != s.renderfx { s.renderfx } else { old.renderfx },
        gaitsequence: if old.gaitsequence != s.gaitsequence { s.gaitsequence } else { old.gaitsequence },
        movetype: if old.movetype != s.movetype { s.movetype } else { old.movetype },
        weaponmodel: old.weaponmodel,
        weaponmodel_index: old.weaponmodel_index,
        prevsequence: if old.prevsequence != s.prevsequence { s.prevsequence } else { old.prevsequence },
        sequencetime: if !f32_eq(old.sequencetime, s.sequencetime) { s.sequencetime } else { old.sequencetime },
        prevseqblending: if old.prevseqblending@ != s.prevseqblending@ { s.prevseqblending } else { old.prevseqblending },
        prevanimtime: if !f32_eq(old.prevanimtime, s.prevanimtime) { s.prevanimtime } else { old.prevanimtime },
        prevorigin: if !f32x3_eq(old.prevorigin, s.prevorigin) { s.prevorigin } else { old.prevorigin },
        prevangles: if !f32x3_eq(old.prevangles, s.prevangles) { s.prevangles } else { old.prevangles },
    }
}

impl Entity {
    /// An entity as it first appears.
    pub fn new(entity: &EntityState, id: u32, model_index: usize, weaponmodel_index: Option<u32>) -> (r: Entity)
        requires
            entity.player != 0 ==> (entity.number as u8) >= 1,
        ensures
            r == entity_from(*entity, id, model_index, weaponmodel_index),
    {
        let origin = entity_origin_of(entity);
        Entity {
            seen: true,
            id,
            model: entity.model,
            model_index,
            player_index: if entity.player != 0 {
                entity.number as u8 - 1
            } else {
                255
            },
            draw: true,
            origin,
            weaponmodel_index,
            angles: entity.angles,
            sequence: entity.sequence,
            animtime: entity.animtime,
            framerate: entity.framerate,
            body: entity.body,
            frame: entity.frame,
            scale: entity.scale,
            rendermode: entity.rendermode,
            renderamt: entity.renderamt,
            rendercolor: entity.rendercolor,
            renderfx: entity.renderfx,
            gaitsequence: entity.gaitsequence,
            movetype: entity.movetype,
            weaponmodel: entity.weaponmodel,
            prevsequence: entity.prevsequence,
            sequencetime: entity.sequencetime,
            prevseqblending: entity.prevseqblending,
            prevanimtime: entity.prevanimtime,
            prevorigin: entity.prevorigin,
            prevangles: entity.prevangles,
        }
    }

    /// Records the entity's current state and returns the fields that
    /// changed.
    pub fn get_changes_and_update(&mut self, entity: &EntityState) -> (fields: Vec<ObjectField>)
        ensures
            fields@ == entity_changes(*old(self), *entity),
            *final(self) == entity_updated(*old(self), *entity),
            forall|i: int| 0 <= i < fields.len() ==> final(self).tracked_fields().contains(#[trigger] fields@[i]),
            forall|k: int|
                0 <= k < final(self).tracked_fields().len() && #[trigger] final(self).tracked_fields()[k]
                    != old(self).tracked_fields()[k] ==> fields@.contains(final(self).tracked_fields()[k]),
            crate::reported_fields::entity_follows(*final(self), *old(self), *entity),
            forall|i: int|
                0 <= i < fields.len() && #[trigger] fields@[i] == crate::reported_fields::entity_field_of_kind(*old(self), fields@[i])
                    ==> crate::reported_fields::field_has_nan(fields@[i]),
    {
        proof {
            crate::reported_fields::lemma_entity_reports_new_values(*old(self), *entity);
        }
        let fields = changed_fields(&self.changed_candidates(entity));
        *self = self.updated(entity);
        fields
    }

    fn candidates_part_0(&self, entity: &EntityState) -> (r: Vec<(bool, ObjectField)>)
        ensures
            r@ == entity_candidates_part_0(*self, *entity),
    {
        let origin = entity_origin_of(entity);
        let origin_changed = !f32x3_bits_eq(self.origin, origin);
        let angles_changed = !f32x3_bits_eq(self.angles, entity.angles);
        let sequence_changed = self.sequence != entity.sequence;
        let animtime_changed = !f32_bits_eq(self.animtime, entity.animtime);
        let framerate_changed = !f32_bits_eq(self.framerate, entity.framerate);
        let r = vec![
            (origin_changed, ObjectField::Origin(origin)),
            (angles_changed, ObjectField::Angles(entity.angles)),
            (sequence_changed, ObjectField::Sequence(entity.sequence)),
            (animtime_changed, ObjectField::AnimTime(entity.animtime)),
            (framerate_changed, ObjectField::Framerate(entity.framerate)),
        ];
        assert(r@ =~= seq![
                (!f32x3_eq(self.origin, entity_origin(*entity)), ObjectField::Origin(entity_origin(*entity))),
                (!f32x3_eq(self.angles, entity.angles), ObjectField::Angles(entity.angles)),
                (self.sequence != entity.sequence, ObjectField::Sequence(entity.sequence)),
                (!f32_eq(self.animtime, entity.animtime), ObjectField::AnimTime(entity.animtime)),
                (!f32_eq(self.framerate, entity.framerate), ObjectField::Framerate(entity.framerate)),
            ]);
        r
    }

    fn candidates_part_1(&self, entity: &EntityState) -> (r: Vec<(bool, ObjectField)>)
        ensures
            r@ == entity_candidates_part_1(*self, *entity),
    {
        let body_changed = self.body != entity.body;
        let frame_changed = !f32_bits_eq(self.frame, entity.frame);
        let scale_changed = !f32_bits_eq(self.scale, entity.scale);
        let rendermode_changed = self.rendermode != entity.rendermode;
        let renderamt_changed = self.renderamt != entity.renderamt;
        let r = vec![
            (body_changed, ObjectField::Body(entity.body)),
            (frame_changed, ObjectField::Frame(entity.frame)),
            (scale_changed, ObjectField::Scale(entity.scale)),
            (rendermode_changed, ObjectField::RenderMode(entity.rendermode)),
            (renderamt_changed, ObjectField::RenderAmt(entity.renderamt)),
        ];
        assert(r@ =~= seq![
                (self.body != entity.body, ObjectField::Body(entity.body)),
                (!f32_eq(self.frame, entity.frame), ObjectField::Frame(entity.frame)),
                (!f32_eq(self.scale, entity.scale), ObjectField::Scale(entity.scale)),
                (self.rendermode != entity.rendermode, ObjectField::RenderMode(entity.rendermode)),
                (self.renderamt != entity.renderamt, ObjectField::RenderAmt(entity.renderamt)),
            ]);
        r
    }

    fn candidates_part_2(&self, entity: &EntityState) -> (r: Vec<(bool, ObjectField)>)
        ensures
            r@ == entity_candidates_part_2(*self, *entity),
    {
        let rendercolor_changed = !u8x3_eq(self.rendercolor, entity.rendercolor);
        let renderfx_changed = self.renderfx != entity.renderfx;
        let gaitsequence_changed = self.gaitsequence != entity.gaitsequence;
        let movetype_changed = self.movetype != entity.movetype;
        let prevsequence_changed = self.prevsequence != entity.prevsequence;
        let r = vec![
            (rendercolor_changed, ObjectField::RenderColor(entity.rendercolor)),
            (renderfx_changed, ObjectField::RenderFx(entity.renderfx)),
            (gaitsequence_changed, ObjectField::GaitSequence(entity.gaitsequence)),
            (movetype_changed, ObjectField::MoveType(entity.movetype)),
            (prevsequence_changed, ObjectField::PrevSequence(entity.prevsequence)),
        ];
        assert(r@ =~= seq![
                (self.rendercolor@ != entity.rendercolor@, ObjectField::RenderColor(entity.rendercolor)),
                (self.renderfx != entity.renderfx, ObjectField::RenderFx(entity.renderfx)),
                (self.gaitsequence != entity.gaitsequence, ObjectField::GaitSequence(entity.gaitsequence)),
                (self.movetype != entity.movetype, ObjectField::MoveType(entity.movetype)),
                (self.prevsequence != entity.prevsequence, ObjectField::PrevSequence(entity.prevsequence)),
            ]);
        r
    }

    fn candidates_part_3(&self, entity: &EntityState) -> (r: Vec<(bool, ObjectField)>)
        ensures
            r@ == entity_candidates_part_3(*self, *entity),
    {
        let sequencetime_changed = !f32_bits_eq(self.sequencetime, entity.sequencetime);
        let prevseqblending_changed = !u8x2_eq(self.prevseqblending, entity.prevseqblending);
        let prevanimtime_changed = !f32_bits_eq(self.prevanimtime, entity.prevanimtime);
        let prevorigin_changed = !f32x3_bits_eq(self.prevorigin, entity.prevorigin);
        let prevangles_changed = !f32x3_bits_eq(self.prevangles, entity.prevangles);
        let r = vec![
            (sequencetime_changed, ObjectField::SequenceTime(entity.sequencetime)),
            (prevseqblending_changed, ObjectField::PrevSeqBlending(entity.prevseqblending)),
            (prevanimtime_changed, ObjectField::PrevAnimTime(entity.prevanimtime)),
            (prevorigin_changed, ObjectField::PrevOrigin(entity.prevorigin)),
            (prevangles_changed, ObjectField::PrevAngles(entity.prevangles)),
        ];
        assert(r@ =~= seq![
                (!f32_eq(self.sequencetime, entity.sequencetime), ObjectField::SequenceTime(entity.sequencetime)),
                (self.prevseqblending@ != entity.prevseqblending@, ObjectField::PrevSeqBlending(entity.prevseqblending)),
                (!f32_eq(self.prevanimtime, entity.prevanimtime), ObjectField::PrevAnimTime(entity.prevanimtime)),
                (!f32x3_eq(self.prevorigin, entity.prevorigin), ObjectField::PrevOrigin(entity.prevorigin)),
                (!f32x3_eq(self.prevangles, entity.prevangles), ObjectField::PrevAngles(entity.prevangles)),
            ]);
        r
    }

    /// Each field the recorder checks, with its value in `entity` and whether
    /// it differs from `self`.
    pub fn changed_candidates(&self, entity: &EntityState) -> (r: Vec<(bool, ObjectField)>)
        ensures
            r@ == entity_candidates(*self, *entity),
    {
        let mut r = self.candidates_part_0(entity);
        let mut part = self.candidates_part_1(entity);
        r.append(&mut part);
        let mut part = self.candidates_part_2(entity);
        r.append(&mut part);
        let mut part = self.candidates_part_3(entity);
        r.append(&mut part);
        r
    }

    /// `self` with each changed field set to its value in `entity`.
    pub fn updated(&self, entity: &EntityState) -> (r: Entity)
        ensures
            r == entity_updated(*self, *entity),
    {
        let origin = entity_origin_of(entity);
        let origin_changed = !f32x3_bits_eq(self.origin, origin);
        let angles_changed = !f32x3_bits_eq(self.angles, entity.angles);
        let sequence_changed = self.sequence != entity.sequence;
        let animtime_changed = !f32_bits_eq(self.animtime, entity.animtime);
        let framerate_changed = !f32_bits_eq(self.framerate, entity.framerate);
        let body_changed = self.body != entity.body;
        let frame_changed = !f32_bits_eq(self.frame, entity.frame);
        let scale_changed = !f32_bits_eq(self.scale, entity.scale);
        let rendermode_changed = self.rendermode != entity.rendermode;
        let renderamt_changed = self.renderamt != entity.renderamt;
        let rendercolor_changed = !u8x3_eq(self.rendercolor, entity.rendercolor);
        let renderfx_changed = self.renderfx != entity.renderfx;
        let gaitsequence_changed = self.gaitsequence != entity.gaitsequence;
        let movetype_changed = self.movetype != entity.movetype;
        let prevsequence_changed = self.prevsequence != entity.prevsequence;
        let sequencetime_changed = !f32_bits_eq(self.sequencetime, entity.sequencetime);
        let prevseqblending_changed = !u8x2_eq(self.prevseqblending, entity.prevseqblending);
        let prevanimtime_changed = !f32_bits_eq(self.prevanimtime, entity.prevanimtime);
        let prevorigin_changed = !f32x3_bits_eq(self.prevorigin, entity.prevorigin);
        let prevangles_changed = !f32x3_bits_eq(self.prevangles, entity.prevangles);
        Entity {
            seen: self.seen,
            id: self.id,
            model: self.model,
            model_index: self.model_index,
            player_index: self.player_index,
            draw: self.draw,
            origin: select(origin_changed, origin, self.origin),
            angles: select(angles_changed, entity.angles, self.angles),
            sequence: select(sequence_changed, entity.sequence, self.sequence),
            animtime: select(animtime_changed, entity.animtime, self.animtime),
            framerate: select(framerate_changed, entity.framerate, self.framerate),
            body: select(body_changed, entity.body, self.body),
            frame: select(frame_changed, entity.frame, self.frame),
            scale: select(scale_changed, entity.scale, self.scale),
            rendermode: select(rendermode_changed, entity.rendermode, self.rendermode),
            renderamt: select(renderamt_changed, entity.renderamt, self.renderamt),
            rendercolor: select(rendercolor_changed, entity.rendercolor, self.rendercolor),
            renderfx: select(renderfx_changed, entity.renderfx, self.renderfx),
            gaitsequence: select(gaitsequence_changed, entity.gaitsequence, self.gaitsequence),
            movetype: select(movetype_changed, entity.movetype, self.movetype),
            weaponmodel: self.weaponmodel,
            weaponmodel_index: self.weaponmodel_index,
            prevsequence: select(prevsequence_changed, entity.prevsequence, self.prevsequence),
            sequencetime: select(sequencetime_changed, entity.sequencetime, self.sequencetime),
            prevseqblending: select(prevseqblending_changed, entity.prevseqblending, self.prevseqblending),
            prevanimtime: select(prevanimtime_changed, entity.prevanimtime, self.prevanimtime),
            prevorigin: select(prevorigin_changed, entity.prevorigin, self.prevorigin),
            prevangles: select(prevangles_changed, entity.prevangles, self.prevangles),
        }
    }

}

/// A beam that the recording draws.
#[derive(Clone, Copy, Debug)]
pub struct Beam {
    /// Seen in the frame being recorded.
    pub seen: bool,
    /// Number of the object in the recording.
    pub id: u32,
    pub draw: bool,
    /// Beam type.
    pub type_: i32,
    /// Index of the beam's model in the recorded model list.
    pub model_index: usize,
    /// The bits of the beam's `FBEAM` flags.
    pub flags: i32,
    pub framerate: u32,
    pub frame: u32,
    pub source: [u32; 3],
    pub delta: [u32; 3],
    pub freq: u32,
    pub width: u32,
    pub amplitude: u32,
    pub speed: u32,
    pub segments: i32,
    /// Red, green and blue.
    pub color: [u32; 3],
    pub brightness: u32,
}

impl TrackedObject for Beam {
    open spec fn tracked_fields(&self) -> Seq<ObjectField> {
        seq![
            ObjectField::Draw(self.draw),
            ObjectField::Flags(self.flags),
            ObjectField::Framerate(self.framerate),
            ObjectField::Frame(self.frame),
            ObjectField::Origin(self.source),
            ObjectField::Delta(self.delta),
            ObjectField::Freq(self.freq),
            ObjectField::Width(self.width),
            ObjectField::Amplitude(self.amplitude),
            ObjectField::Speed(self.speed),
            ObjectField::Segments(self.segments),
            ObjectField::RGB(self.color),
            ObjectField::Brightness(self.brightness),
        ]
    }

    open spec fn new_bytes(&self) -> Seq<u8> {
        native_bytes(self.id as int, 4) + native_bytes((self.type_ as u32) as int, 4)
            + native_bytes((self.model_index as u32) as int, 4) + field_list_bytes(self.tracked_fields())
    }

    open spec fn update_bytes(&self, changes: Seq<ObjectField>) -> Seq<u8> {
        native_bytes(self.id as int, 4) + field_list_bytes(changes)
    }

    open spec fn new_len(&self) -> int {
        13 + fields_len(self.tracked_fields())
    }

    open spec fn update_len(&self, changes: Seq<ObjectField>) -> int {
        5 + fields_len(changes)
    }

    fn get_tracked_fields(&self) -> (r: Vec<ObjectField>) {
        let r = vec![
            ObjectField::Draw(self.draw),
            ObjectField::Flags(self.flags),
            ObjectField::Framerate(self.framerate),
            ObjectField::Frame(self.frame),
            ObjectField::Origin(self.source),
            ObjectField::Delta(self.delta),
            ObjectField::Freq(self.freq),
            ObjectField::Width(self.width),
            ObjectField::Amplitude(self.amplitude),
            ObjectField::Speed(self.speed),
            ObjectField::Segments(self.segments),
            ObjectField::RGB(self.color),
            ObjectField::Brightness(self.brightness),
        ];
        assert(r@ =~= self.tracked_fields());
        r
    }

    fn write_new(&self, writer: &mut Vec<u8>) {
        append_bytes(writer, bytes_of_u32(self.id));
        append_bytes(writer, bytes_of_i32(self.type_));
        append_bytes(writer, bytes_of_u32(self.model_index as u32));
        let fields = self.get_tracked_fields();
        write_field_list(&fields, writer);
        assert(writer@ =~= old(writer)@ + self.new_bytes());
    }

    fn write_update(&self, writer: &mut Vec<u8>, changes: &Vec<ObjectField>) {
        append_bytes(writer, bytes_of_u32(self.id));
        write_field_list(changes, writer);
        assert(writer@ =~= old(writer)@ + self.update_bytes(changes@));
    }
}

/// The colour of `s` differs from `color` in one of its components.
pub open spec fn rgb_changed(color: [u32; 3], s: BeamState) -> bool {
    !f32_eq(color[0], s.r) || !f32_eq(color[1], s.g) || !f32_eq(color[2], s.b)
}

/// A beam as it first appears.
pub open spec fn beam_from(s: BeamState, id: u32, model_index: usize) -> Beam {
    Beam {
        seen: true,
        id: id,
        draw: true,
        type_: s.type_,
        model_index: model_index,
        flags: s.flags,
        framerate: s.frame_rate,
        frame: s.frame,
        source: s.source,
        delta: s.delta,
        freq: s.freq,
        width: s.width,
        amplitude: s.amplitude,
        speed: s.speed,
        segments: s.segments,
        color: [s.r, s.g, s.b],
        brightness: s.brightness,
    }
}

/// The fields of the beam that differ between `old` and `s`, each with its
/// value in `s`, in the order the recorder checks them.
pub open spec fn beam_changes(old: Beam, s: BeamState) -> Seq<ObjectField> {
    keep_changed(beam_candidates(old, s))
}

/// Part 1 of the fields the recorder checks on a beam.
pub open spec fn beam_candidates_part_0(old: Beam, s: BeamState) -> Seq<(bool, ObjectField)> {
    seq![
        (old.flags != s.flags, ObjectField::Flags(s.flags)),
        (!f32_eq(old.framerate, s.frame_rate), ObjectField::Framerate(s.frame_rate)),
        (!f32_eq(old.frame, s.frame), ObjectField::Frame(s.frame)),
        (!f32x3_eq(old.source, s.source), ObjectField::Origin(s.source)),
        (!f32x3_eq(old.delta, s.delta), ObjectField::Delta(s.delta)),
    ]
}

/// Part 2 of the fields the recorder checks on a beam.
pub open spec fn beam_candidates_part_1(old: Beam, s: BeamState) -> Seq<(bool, ObjectField)> {
    seq![
        (!f32_eq(old.freq, s.freq), ObjectField::Freq(s.freq)),
        (!f32_eq(old.width, s.width), ObjectField::Width(s.width)),
        (!f32_eq(old.amplitude, s.amplitude), ObjectField::Amplitude(s.amplitude)),
        (!f32_eq(old.speed, s.speed), ObjectField::Speed(s.speed)),
        (old.segments != s.segments, ObjectField::Segments(s.segments)),
    ]
}

/// Part 3 of the fields the recorder checks on a beam.
pub open spec fn beam_candidates_part_2(old: Beam, s: BeamState) -> Seq<(bool, ObjectField)> {
    seq![
        (rgb_changed(old.color, s), ObjectField::RGB([s.r, s.g, s.b])),
        (!f32_eq(old.brightness, s.brightness), ObjectField::Brightness(s.brightness)),
    ]
}

/// Each field the recorder checks on a beam, with its value in `s` and
/// whether it differs from `old`.
pub open spec fn beam_candidates(old: Beam, s: BeamState) -> Seq<(bool, ObjectField)> {
    beam_candidates_part_0(old, s)
    + beam_candidates_part_1(old, s)
    + beam_candidates_part_2(old, s)
}

/// `old` with each changed field set to its value in `s`.
pub open spec fn beam_updated(old: Beam, s: BeamState) -> Beam {
    Beam {
        seen: old.seen,
        id: old.id,
        draw: old.draw,
        type_: old.type_,
        model_index: old.model_index,
        flags: if old.flags != s.flags { s.flags } else { old.flags },
        framerate: if !f32_eq(old.framerate, s.frame_rate) { s.frame_rate } else { old.framerate },
        frame: if !f32_eq(old.frame, s.frame) { s.frame } else { old.frame },
        source: if !f32x3_eq(old.source, s.source) { s.source } else { old.source },
        delta: if !f32x3_eq(old.delta, s.delta) { s.delta } else { old.delta },
        freq: if !f32_eq(old.freq, s.freq) { s.freq } else { old.freq },
        width: if !f32_eq(old.width, s.width) { s.width } else { old.width },
        amplitude: if !f32_eq(old.amplitude, s.amplitude) { s.amplitude } else { old.amplitude },
        speed: if !f32_eq(old.speed, s.speed) { s.speed } else { old.speed },
        segments: if old.segments != s.segments { s.segments } else { old.segments },
        color: if rgb_changed(old.color, s) { [s.r, s.g, s.b] } else { old.color },
        brightness: if !f32_eq(old.brightness, s.brightness) { s.brightness } else { old.brightness },
    }
}

impl Beam {
    /// A beam as it first appears.
    pub fn new(beam: &BeamState, id: u32, model_index: usize) -> (r: Beam)
        ensures
            r == beam_from(*beam, id, model_index),
    {
        Beam {
            seen: true,
            id,
            draw: true,
            type_: beam.type_,
            model_index,
            flags: beam.flags,
            framerate: beam.frame_rate,
            frame: beam.frame,
            source: beam.source,
            delta: beam.delta,
            freq: beam.freq,
            width: beam.width,
            amplitude: beam.amplitude,
            speed: beam.speed,
            segments: beam.segments,
            color: [beam.r, beam.g, beam.b],
            brightness: beam.brightness,
        }
    }

    /// Records the beam's current state and returns the fields that changed.
    pub fn get_changes_and_update(&mut self, beam: &BeamState) -> (fields: Vec<ObjectField>)
        ensures
            fields@ == beam_changes(*old(self), *beam),
            *final(self) == beam_updated(*old(self), *beam),
            forall|i: int| 0 <= i < fields.len() ==> final(self).tracked_fields().contains(#[trigger] fields@[i]),
            forall|k: int|
                0 <= k < final(self).tracked_fields().len() && #[trigger] final(self).tracked_fields()[k]
                    != old(self).tracked_fields()[k] ==> fields@.contains(final(self).tracked_fields()[k]),
            crate::reported_fields::beam_follows(*final(self), *old(self), *beam),
            forall|i: int|
                0 <= i < fields.len() && #[trigger] fields@[i] == crate::reported_fields::beam_field_of_kind(*old(self), fields@[i])
                    ==> crate::reported_fields::field_has_nan(fields@[i]),
    {
        proof {
            crate::reported_fields::lemma_beam_reports_new_values(*old(self), *beam);
        }
        let fields = changed_fields(&self.changed_candidates(beam));
        *self = self.updated(beam);
        fields
    }

    fn candidates_part_0(&self, beam: &BeamState) -> (r: Vec<(bool, ObjectField)>)
        ensures
            r@ == beam_candidates_part_0(*self, *beam),
    {
        let flags_changed = self.flags != beam.flags;
        let framerate_changed = !f32_bits_eq(self.framerate, beam.frame_rate);
        let frame_changed = !f32_bits_eq(self.frame, beam.frame);
        let source_changed = !f32x3_bits_eq(self.source, beam.source);
        let delta_changed = !f32x3_bits_eq(self.delta, beam.delta);
        let r = vec![
            (flags_changed, ObjectField::Flags(beam.flags)),
            (framerate_changed, ObjectField::Framerate(beam.frame_rate)),
            (frame_changed, ObjectField::Frame(beam.frame)),
            (source_changed, ObjectField::Origin(beam.source)),
            (delta_changed, ObjectField::Delta(beam.delta)),
        ];
        assert(r@ =~= seq![
                (self.flags != beam.flags, ObjectField::Flags(beam.flags)),
                (!f32_eq(self.framerate, beam.frame_rate), ObjectField::Framerate(beam.frame_rate)),
                (!f32_eq(self.frame, beam.frame), ObjectField::Frame(beam.frame)),
                (!f32x3_eq(self.source, beam.source), ObjectField::Origin(beam.source)),
                (!f32x3_eq(self.delta, beam.delta), ObjectField::Delta(beam.delta)),
            ]);
        r
    }

    fn candidates_part_1(&self, beam: &BeamState) -> (r: Vec<(bool, ObjectField)>)
        ensures
            r@ == beam_candidates_part_1(*self, *beam),
    {
        let freq_changed = !f32_bits_eq(self.freq, beam.freq);
        let width_changed = !f32_bits_eq(self.width, beam.width);
        let amplitude_changed = !f32_bits_eq(self.amplitude, beam.amplitude);
        let speed_changed = !f32_bits_eq(self.speed, beam.speed);
        let segments_changed = self.segments != beam.segments;
        let r = vec![
            (freq_changed, ObjectField::Freq(beam.freq)),
            (width_changed, ObjectField::Width(beam.width)),
            (amplitude_changed, ObjectField::Amplitude(beam.amplitude)),
            (speed_changed, ObjectField::Speed(beam.speed)),
            (segments_changed, ObjectField::Segments(beam.segments)),
        ];
        assert(r@ =~= seq![
                (!f32_eq(self.freq, beam.freq), ObjectField::Freq(beam.freq)),
                (!f32_eq(self.width, beam.width), ObjectField::Width(beam.width)),
                (!f32_eq(self.amplitude, beam.amplitude), ObjectField::Amplitude(beam.amplitude)),
                (!f32_eq(self.speed, beam.speed), ObjectField::Speed(beam.speed)),
                (self.segments != beam.segments, ObjectField::Segments(beam.segments)),
            ]);
        r
    }

    fn candidates_part_2(&self, beam: &BeamState) -> (r: Vec<(bool, ObjectField)>)
        ensures
            r@ == beam_candidates_part_2(*self, *beam),
    {
        let color_changed = !f32_bits_eq(self.color[0], beam.r) || !f32_bits_eq(self.color[1], beam.g)
            || !f32_bits_eq(self.color[2], beam.b);
        let brightness_changed = !f32_bits_eq(self.brightness, beam.brightness);
        let r = vec![
            (color_changed, ObjectField::RGB([beam.r, beam.g, beam.b])),
            (brightness_changed, ObjectField::Brightness(beam.brightness)),
        ];
        assert(r@ =~= seq![
                (rgb_changed(self.color, *beam), ObjectField::RGB([beam.r, beam.g, beam.b])),
                (!f32_eq(self.brightness, beam.brightness), ObjectField::Brightness(beam.brightness)),
            ]);
        r
    }

    /// Each field the recorder checks, with its value in `beam` and whether
    /// it differs from `self`.
    pub fn changed_candidates(&self, beam: &BeamState) -> (r: Vec<(bool, ObjectField)>)
        ensures
            r@ == beam_candidates(*self, *beam),
    {
        let mut r = self.candidates_part_0(beam);
        let mut part = self.candidates_part_1(beam);
        r.append(&mut part);
        let mut part = self.candidates_part_2(beam);
        r.append(&mut part);
        r
    }

    /// `self` with each changed field set to its value in `beam`.
    pub fn updated(&self, beam: &BeamState) -> (r: Beam)
        ensures
            r == beam_updated(*self, *beam),
    {
        let flags_changed = self.flags != beam.flags;
        let framerate_changed = !f32_bits_eq(self.framerate, beam.frame_rate);
        let frame_changed = !f32_bits_eq(self.frame, beam.frame);
        let source_changed = !f32x3_bits_eq(self.source, beam.source);
        let delta_changed = !f32x3_bits_eq(self.delta, beam.delta);
        let freq_changed = !f32_bits_eq(self.freq, beam.freq);
        let width_changed = !f32_bits_eq(self.width, beam.width);
        let amplitude_changed = !f32_bits_eq(self.amplitude, beam.amplitude);
        let speed_changed = !f32_bits_eq(self.speed, beam.speed);
        let segments_changed = self.segments != beam.segments;
        let color_changed = !f32_bits_eq(self.color[0], beam.r) || !f32_bits_eq(self.color[1], beam.g)
            || !f32_bits_eq(self.color[2], beam.b);
        let brightness_changed = !f32_bits_eq(self.brightness, beam.brightness);
        Beam {
            seen: self.seen,
            id: self.id,
            draw: self.draw,
            type_: self.type_,
            model_index: self.model_index,
            flags: select(flags_changed, beam.flags, self.flags),
            framerate: select(framerate_changed, beam.frame_rate, self.framerate),
            frame: select(frame_changed, beam.frame, self.frame),
            source: select(source_changed, beam.source, self.source),
            delta: select(delta_changed, beam.delta, self.delta),
            freq: select(freq_changed, beam.freq, self.freq),
            width: select(width_changed, beam.width, self.width),
            amplitude: select(amplitude_changed, beam.amplitude, self.amplitude),
            speed: select(speed_changed, beam.speed, self.speed),
            segments: select(segments_changed, beam.segments, self.segments),
            color: select(color_changed, [beam.r, beam.g, beam.b], self.color),
            brightness: select(brightness_changed, beam.brightness, self.brightness),
        }
    }

}

/// A recorded object of any kind.
#[derive(Clone, Copy, Debug)]
pub enum Object {
    Camera(Camera),
    Entity(Entity),
    Beam(Beam),
    ViewEnt(ViewEnt),
}

impl Object {
    /// The number that identifies the kind of object in the recording format.
    pub open spec fn tag(self) -> u8 {
        match self {
            Object::Camera(_) => 0,
            Object::Entity(_) => 1,
            Object::Beam(_) => 2,
            Object::ViewEnt(_) => 3,
        }
    }

    /// The number that identifies the kind of object in the recording format.
    pub fn discriminant(&self) -> (r: u8)
        ensures
            r == self.tag(),
    {
        match self {
            Object::Camera(_) => 0,
            Object::Entity(_) => 1,
            Object::Beam(_) => 2,
            Object::ViewEnt(_) => 3,
        }
    }
}

impl TrackedObject for Object {
    open spec fn tracked_fields(&self) -> Seq<ObjectField> {
        match self {
            Object::Camera(c) => c.tracked_fields(),
            Object::Entity(e) => e.tracked_fields(),
            Object::Beam(b) => b.tracked_fields(),
            Object::ViewEnt(v) => v.tracked_fields(),
        }
    }

    open spec fn new_bytes(&self) -> Seq<u8> {
        match self {
            Object::Camera(c) => c.new_bytes(),
            Object::Entity(e) => e.new_bytes(),
            Object::Beam(b) => b.new_bytes(),
            Object::ViewEnt(v) => v.new_bytes(),
        }
    }

    open spec fn update_bytes(&self, changes: Seq<ObjectField>) -> Seq<u8> {
        match self {
            Object::Camera(c) => c.update_bytes(changes),
            Object::Entity(e) => e.update_bytes(changes),
            Object::Beam(b) => b.update_bytes(changes),
            Object::ViewEnt(v) => v.update_bytes(changes),
        }
    }

    open spec fn new_len(&self) -> int {
        match self {
            Object::Camera(c) => c.new_len(),
            Object::Entity(e) => e.new_len(),
            Object::Beam(b) => b.new_len(),
            Object::ViewEnt(v) => v.new_len(),
        }
    }

    open spec fn update_len(&self, changes: Seq<ObjectField>) -> int {
        match self {
            Object::Camera(c) => c.update_len(changes),
            Object::Entity(e) => e.update_len(changes),
            Object::Beam(b) => b.update_len(changes),
            Object::ViewEnt(v) => v.update_len(changes),
        }
    }

    fn get_tracked_fields(&self) -> (r: Vec<ObjectField>) {
        match self {
            Object::Camera(c) => c.get_tracked_fields(),
            Object::Entity(e) => e.get_tracked_fields(),
            Object::Beam(b) => b.get_tracked_fields(),
            Object::ViewEnt(v) => v.get_tracked_fields(),
        }
    }

    fn write_new(&self, writer: &mut Vec<u8>) {
        match self {
            Object::Camera(c) => c.write_new(writer),
            Object::Entity(e) => e.write_new(writer),
            Object::Beam(b) => b.write_new(writer),
            Object::ViewEnt(v) => v.write_new(writer),
        }
    }

    fn write_update(&self, writer: &mut Vec<u8>, changes: &Vec<ObjectField>) {
        match self {
            Object::Camera(c) => c.write_update(writer, changes),
            Object::Entity(e) => e.write_update(writer, changes),
            Object::Beam(b) => b.write_update(writer, changes),
            Object::ViewEnt(v) => v.write_update(writer, changes),
        }
    }
}

} // verus!
