//! Player info tracking: model name and colours of each player slot.

use vstd::prelude::*;
use crate::bytes::{append_bytes, bytes_of_i32, native_bytes};
use crate::c_str::{c_str_bytes, c_str_len, c_str_to_bytes};
use crate::snapshot::PlayerInfoState;

verus! {

/// A changed field of a player's info.
#[derive(Clone, Copy, Debug)]
pub enum PlayerField {
    /// Name of the player model, NUL-terminated (or filling the buffer).
    Model([i8; 64]),
    TopColor(i32),
    BottomColor(i32),
}

impl PlayerField {
    /// The number that identifies the field in the recording format.
    pub open spec fn tag(self) -> u8 {
        match self {
            PlayerField::Model(_) => 0,
            PlayerField::TopColor(_) => 1,
            PlayerField::BottomColor(_) => 2,
        }
    }

    /// The encoding of the field: its tag, then its value. A model name is
    /// written as its length in one byte, then its bytes.
    pub open spec fn encoded(self) -> Seq<u8> {
        seq![self.tag()] + match self {
            PlayerField::Model(v) => seq![c_str_len(v@) as u8] + c_str_bytes(v@),
            PlayerField::TopColor(v) => native_bytes((v as u32) as int, 4),
            PlayerField::BottomColor(v) => native_bytes((v as u32) as int, 4),
        }
    }

    /// The number of bytes the field takes when encoded: tag, length byte
    /// and name for a model, tag and four bytes for a colour.
    pub open spec fn encoded_len(self) -> int {
        match self {
            PlayerField::Model(v) => 2 + c_str_len(v@),
            _ => 5,
        }
    }

    /// The number that identifies the field in the recording format.
    pub fn discriminant(&self) -> (r: u8)
        ensures
            r == self.tag(),
    {
        match self {
            PlayerField::Model(_) => 0,
            PlayerField::TopColor(_) => 1,
            PlayerField::BottomColor(_) => 2,
        }
    }

    /// Appends the encoding of the field to `writer`.
    pub fn write(&self, writer: &mut Vec<u8>)
        ensures
            final(writer)@ == old(writer)@ + self.encoded(),
            final(writer)@.len() == old(writer)@.len() + self.encoded_len(),
    {
        writer.push(self.discriminant());
        match self {
            PlayerField::Model(v) => {
                let name = c_str_to_bytes(v);
                writer.push(name.len() as u8);
                append_bytes(writer, name);
            },
            PlayerField::TopColor(v) => {
                append_bytes(writer, bytes_of_i32(*v));
            },
            PlayerField::BottomColor(v) => {
                append_bytes(writer, bytes_of_i32(*v));
            },
        }
        assert(writer@ =~= old(writer)@ + self.encoded());
    }
}

/// The encodings of `fields`, one after the other.
pub open spec fn player_fields_bytes(fields: Seq<PlayerField>) -> Seq<u8>
    decreases fields.len(),
{
    if fields.len() == 0 {
        seq![]
    } else {
        player_fields_bytes(fields.drop_last()) + fields.last().encoded()
    }
}

/// The number of bytes the encodings of `fields` take together.
pub open spec fn player_fields_len(fields: Seq<PlayerField>) -> int
    decreases fields.len(),
{
    if fields.len() == 0 {
        0
    } else {
        player_fields_len(fields.drop_last()) + fields.last().encoded_len()
    }
}

/// Appends the encodings of `fields`, in order, to `writer`.
pub fn write_player_fields(fields: &Vec<PlayerField>, writer: &mut Vec<u8>)
    ensures
        final(writer)@ == old(writer)@ + player_fields_bytes(fields@),
        final(writer)@.len() == old(writer)@.len() + player_fields_len(fields@),
{
    let mut i: usize = 0;
    while i < fields.len()
        invariant
            i <= fields.len(),
            writer@ == old(writer)@ + player_fields_bytes(fields@.take(i as int)),
            writer@.len() == old(writer)@.len() + player_fields_len(fields@.take(i as int)),
        decreases fields.len() - i,
    {
        fields[i].write(writer);
        assert(fields@.take(i + 1).drop_last() =~= fields@.take(i as int));
        i += 1;
    }
    assert(fields@.take(fields.len() as int) =~= fields@);
}

/// What was last recorded of a player slot.
#[derive(Clone, Copy, Debug)]
pub struct PlayerInfo {
    pub model: [i8; 64],
    pub topcolor: i32,
    pub bottomcolor: i32,
}

/// The fields of `player` that differ from `old`, in the order model, top
/// colour, bottom colour, each with its new value.
pub open spec fn player_changes(old: PlayerInfo, player: PlayerInfoState) -> Seq<PlayerField> {
    (if old.model@ != player.model@ { seq![PlayerField::Model(player.model)] } else { seq![] })
        + (if old.topcolor != player.topcolor { seq![PlayerField::TopColor(player.topcolor)] } else { seq![] })
        + (if old.bottomcolor != player.bottomcolor { seq![PlayerField::BottomColor(player.bottomcolor)] } else { seq![] })
}

/// `f` holds the value that `player` has for its kind of field.
pub open spec fn player_field_current(f: PlayerField, player: PlayerInfoState) -> bool {
    match f {
        PlayerField::Model(m) => m@ == player.model@,
        PlayerField::TopColor(c) => c == player.topcolor,
        PlayerField::BottomColor(c) => c == player.bottomcolor,
    }
}

/// Every field reported for a player slot carries the slot's new value, and
/// a field is reported exactly when its new value differs from the one
/// recorded.
pub proof fn lemma_player_changes_report_new_values(old: PlayerInfo, player: PlayerInfoState)
    ensures
        forall|i: int|
            0 <= i < player_changes(old, player).len() ==> player_field_current(
                #[trigger] player_changes(old, player)[i],
                player,
            ),
        forall|i: int|
            0 <= i < player_changes(old, player).len() ==> match #[trigger] player_changes(old, player)[i] {
                PlayerField::Model(_) => old.model@ != player.model@,
                PlayerField::TopColor(_) => old.topcolor != player.topcolor,
                PlayerField::BottomColor(_) => old.bottomcolor != player.bottomcolor,
            },
        old.model@ != player.model@ ==> player_changes(old, player).contains(PlayerField::Model(player.model)),
        old.topcolor != player.topcolor ==> player_changes(old, player).contains(PlayerField::TopColor(player.topcolor)),
        old.bottomcolor != player.bottomcolor ==> player_changes(old, player).contains(
            PlayerField::BottomColor(player.bottomcolor),
        ),
{
    let a = if old.model@ != player.model@ { seq![PlayerField::Model(player.model)] } else { seq![] };
    let b = if old.topcolor != player.topcolor { seq![PlayerField::TopColor(player.topcolor)] } else { seq![] };
    let c = if old.bottomcolor != player.bottomcolor {
        seq![PlayerField::BottomColor(player.bottomcolor)]
    } else {
        seq![]
    };
    let ch = player_changes(old, player);
    assert(ch == a + b + c);
    assert forall|i: int| 0 <= i < ch.len() implies (a.len() > 0 && i < a.len() && ch[i] == a[0]) || (b.len() > 0
        && a.len() <= i < a.len() + b.len() && ch[i] == b[0]) || (c.len() > 0 && a.len() + b.len() <= i && ch[i]
        == c[0]) by {
        if i < a.len() {
            assert(ch[i] == (a + b)[i]);
        } else if i < a.len() + b.len() {
            assert(ch[i] == (a + b)[i]);
        } else {
            assert(ch[i] == c[i - a.len() - b.len()]);
        }
    }
    if old.model@ != player.model@ {
        assert(ch[0] == PlayerField::Model(player.model));
    }
    if old.topcolor != player.topcolor {
        assert(ch[a.len() as int] == PlayerField::TopColor(player.topcolor));
    }
    if old.bottomcolor != player.bottomcolor {
        assert(ch[(a.len() + b.len()) as int] == PlayerField::BottomColor(player.bottomcolor));
    }
}

/// `a` and `b` hold the same bytes.
fn i8x64_eq(a: &[i8; 64], b: &[i8; 64]) -> (r: bool)
    ensures
        r == (a@ == b@),
{
    let mut i: usize = 0;
    while i < 64
        invariant
            i <= 64,
            a@.len() == 64,
            b@.len() == 64,
            forall|j: int| 0 <= j < i ==> a@[j] == b@[j],
        decreases 64 - i,
    {
        if a[i] != b[i] {
            return false;
        }
        i += 1;
    }
    assert(a@ =~= b@);
    true
}

impl PlayerInfo {
    /// The info a player slot starts from: an empty model name and colours 0.
    pub fn new() -> (r: PlayerInfo)
        ensures
            r.model@ == Seq::new(64, |i: int| 0i8),
            r.topcolor == 0,
            r.bottomcolor == 0,
    {
        let r = PlayerInfo { model: [0; 64], topcolor: 0, bottomcolor: 0 };
        assert(r.model@ =~= Seq::new(64, |i: int| 0i8));
        r
    }

    /// Records the slot's current info and returns the fields that changed.
    pub fn get_changes_and_update(&mut self, player: &PlayerInfoState) -> (fields: Vec<PlayerField>)
        ensures
            fields@ == player_changes(*old(self), *player),
            forall|i: int| 0 <= i < fields.len() ==> player_field_current(#[trigger] fields@[i], *player),
            final(self).model == player.model,
            final(self).topcolor == player.topcolor,
            final(self).bottomcolor == player.bottomcolor,
    {
        let mut fields: Vec<PlayerField> = Vec::new();
        if !i8x64_eq(&self.model, &player.model) {
            self.model = player.model;
            fields.push(PlayerField::Model(self.model));
        }
        if self.topcolor != player.topcolor {
            self.topcolor = player.topcolor;
            fields.push(PlayerField::TopColor(self.topcolor));
        }
        if self.bottomcolor != player.bottomcolor {
            self.bottomcolor = player.bottomcolor;
            fields.push(PlayerField::BottomColor(self.bottomcolor));
        }
        assert(fields@ =~= player_changes(*old(self), *player));
        proof {
            lemma_player_changes_report_new_values(*old(self), *player);
        }
        self.model = player.model;
        fields
    }
}

/// Recording a player's info twice in a row reports no change the second
/// time.
pub proof fn lemma_player_changes_settle(old: PlayerInfo, player: PlayerInfoState, updated: PlayerInfo)
    requires
        updated.model == player.model,
        updated.topcolor == player.topcolor,
        updated.bottomcolor == player.bottomcolor,
    ensures
        player_changes(updated, player) == Seq::<PlayerField>::empty(),
{
    assert(player_changes(updated, player) =~= Seq::<PlayerField>::empty());
}

} // verus!
