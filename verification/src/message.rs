//! The messages of a recorded frame and their encoding.

use vstd::prelude::*;
use crate::bytes::{append_bytes, bytes_of_u16, bytes_of_u32, bytes_of_u64, bytes_of_u8, native_bytes};
use crate::decals::{decal_bytes, lightstyle_bytes, Decal, Lightstyle};
use crate::fields::ObjectField;
use crate::objects::{Object, TrackedObject};
use crate::players::{player_fields_bytes, player_fields_len, write_player_fields, PlayerField};

verus! {

/// One change that a recorded frame sends.
#[derive(Debug)]
pub enum Message {
    /// Models the engine loaded since the last frame, by name.
    AddModels(Vec<Vec<u8>>),
    /// An object that appears for the first time.
    NewObject(Object),
    /// Changed fields of an object.
    UpdateObject(Object, Vec<ObjectField>),
    /// Changed fields of the player in a slot.
    UpdatePlayer(u8, Vec<PlayerField>),
    /// Decals that appeared or changed.
    UpdateDecals(Vec<Decal>),
    /// Light styles that appeared or changed.
    UpdateLightstyles(Vec<Lightstyle>),
    /// The entity the view is attached to.
    SetView(u32),
}

/// A message with its lists taken as sequences.
pub enum MessageView {
    AddModels(Seq<Seq<u8>>),
    NewObject(Object),
    UpdateObject(Object, Seq<ObjectField>),
    UpdatePlayer(u8, Seq<PlayerField>),
    UpdateDecals(Seq<Decal>),
    /// Each light style by its slot and pattern.
    UpdateLightstyles(Seq<(u8, Seq<u8>)>),
    SetView(u32),
}

/// A light style by its slot and pattern.
pub open spec fn lightstyle_view(l: Lightstyle) -> (u8, Seq<u8>) {
    (l.index, l.map@)
}

impl View for Message {
    type V = MessageView;

    open spec fn view(&self) -> MessageView {
        match self {
            Message::AddModels(names) => MessageView::AddModels(names@.map_values(|n: Vec<u8>| n@)),
            Message::NewObject(o) => MessageView::NewObject(*o),
            Message::UpdateObject(o, changes) => MessageView::UpdateObject(*o, changes@),
            Message::UpdatePlayer(i, changes) => MessageView::UpdatePlayer(*i, changes@),
            Message::UpdateDecals(decals) => MessageView::UpdateDecals(decals@),
            Message::UpdateLightstyles(ls) => MessageView::UpdateLightstyles(
                ls@.map_values(|l: Lightstyle| lightstyle_view(l)),
            ),
            Message::SetView(v) => MessageView::SetView(*v),
        }
    }
}

/// The views of a list of messages.
pub open spec fn message_views(ms: Seq<Message>) -> Seq<MessageView> {
    ms.map_values(|m: Message| m@)
}

/// Each model name as its length in one byte, then its bytes.
pub open spec fn model_names_bytes(names: Seq<Seq<u8>>) -> Seq<u8>
    decreases names.len(),
{
    if names.len() == 0 {
        seq![]
    } else {
        model_names_bytes(names.drop_last()) + seq![names.last().len() as u8] + names.last()
    }
}

/// The encodings of `decals`, one after the other.
pub open spec fn decals_bytes(decals: Seq<Decal>) -> Seq<u8>
    decreases decals.len(),
{
    if decals.len() == 0 {
        seq![]
    } else {
        decals_bytes(decals.drop_last()) + decal_bytes(decals.last())
    }
}

/// The encodings of `lightstyles`, one after the other.
pub open spec fn lightstyles_bytes(ls: Seq<(u8, Seq<u8>)>) -> Seq<u8>
    decreases ls.len(),
{
    if ls.len() == 0 {
        seq![]
    } else {
        lightstyles_bytes(ls.drop_last()) + lightstyle_bytes(ls.last().0, ls.last().1)
    }
}

impl MessageView {
    /// The number that identifies the kind of message in the recording format.
    pub open spec fn tag(self) -> u8 {
        match self {
            MessageView::AddModels(..) => 0,
            MessageView::NewObject(..) => 1,
            MessageView::UpdateObject(..) => 2,
            MessageView::UpdatePlayer(..) => 3,
            MessageView::UpdateDecals(..) => 4,
            MessageView::UpdateLightstyles(..) => 5,
            MessageView::SetView(..) => 6,
        }
    }

    /// The body of the message: what follows its tag.
    pub open spec fn body(self) -> Seq<u8> {
        match self {
            MessageView::AddModels(names) => native_bytes((names.len() as u16) as int, 2) + model_names_bytes(names),
            MessageView::NewObject(o) => seq![o.tag()] + o.new_bytes(),
            MessageView::UpdateObject(o, changes) => seq![o.tag()] + o.update_bytes(changes),
            MessageView::UpdatePlayer(index, changes) => seq![index, changes.len() as u8] + player_fields_bytes(changes),
            MessageView::UpdateDecals(decals) => native_bytes((decals.len() as u16) as int, 2) + decals_bytes(decals),
            MessageView::UpdateLightstyles(ls) => seq![ls.len() as u8] + lightstyles_bytes(ls),
            MessageView::SetView(v) => native_bytes(v as int, 4),
        }
    }

    /// The message as a frame carries it: its tag, then its body.
    pub open spec fn encoded(self) -> Seq<u8> {
        seq![self.tag()] + self.body()
    }

    /// The number of bytes of the body: a count of two bytes before models
    /// and decals, of one byte before light styles; an object's kind before
    /// its encoding; a player slot and a count before its changes; four
    /// bytes for the view.
    pub open spec fn body_len(self) -> int {
        match self {
            MessageView::AddModels(names) => 2 + model_names_bytes(names).len() as int,
            MessageView::NewObject(o) => 1 + o.new_len(),
            MessageView::UpdateObject(o, changes) => 1 + o.update_len(changes),
            MessageView::UpdatePlayer(_, changes) => 2 + player_fields_len(changes),
            MessageView::UpdateDecals(decals) => 2 + 20 * decals.len() as int,
            MessageView::UpdateLightstyles(ls) => 1 + lightstyles_bytes(ls).len() as int,
            MessageView::SetView(_) => 4,
        }
    }
}

/// The number of bytes the messages of `ms` take, each with its tag.
pub open spec fn messages_len(ms: Seq<MessageView>) -> int
    decreases ms.len(),
{
    if ms.len() == 0 {
        0
    } else {
        messages_len(ms.drop_last()) + 1 + ms.last().body_len()
    }
}

/// The encodings of `ms`, one after the other.
pub open spec fn messages_bytes(ms: Seq<MessageView>) -> Seq<u8>
    decreases ms.len(),
{
    if ms.len() == 0 {
        seq![]
    } else {
        messages_bytes(ms.drop_last()) + ms.last().encoded()
    }
}

/// A recorded frame: the time (the bits of an `f64`), the number of
/// messages in two bytes, then the messages.
pub open spec fn frame_bytes(time: u64, ms: Seq<MessageView>) -> Seq<u8> {
    native_bytes(time as int, 8) + native_bytes((ms.len() as u16) as int, 2) + messages_bytes(ms)
}

impl Message {
    /// The number that identifies the kind of message in the recording format.
    pub fn discriminant(&self) -> (r: u8)
        ensures
            r == self@.tag(),
    {
        match self {
            Message::AddModels(..) => 0,
            Message::NewObject(..) => 1,
            Message::UpdateObject(..) => 2,
            Message::UpdatePlayer(..) => 3,
            Message::UpdateDecals(..) => 4,
            Message::UpdateLightstyles(..) => 5,
            Message::SetView(..) => 6,
        }
    }

    /// Appends the body of the message to `writer`.
    pub fn write(&self, writer: &mut Vec<u8>)
        ensures
            final(writer)@ == old(writer)@ + self@.body(),
            final(writer)@.len() == old(writer)@.len() + self@.body_len(),
    {
        match self {
            Message::AddModels(model_names) => {
                let model_count = model_names.len() as u16;
                append_bytes(writer, bytes_of_u16(model_count));
                let ghost names = model_names@.map_values(|n: Vec<u8>| n@);
                let ghost start = writer@;
                let mut i: usize = 0;
                while i < model_names.len()
                    invariant
                        i <= model_names.len(),
                        names == model_names@.map_values(|n: Vec<u8>| n@),
                        writer@ == start + model_names_bytes(names.take(i as int)),
                    decreases model_names.len() - i,
                {
                    let bytes = &model_names[i];
                    writer.push(bytes.len() as u8);
                    let mut j: usize = 0;
                    let ghost mid = writer@;
                    while j < bytes.len()
                        invariant
                            j <= bytes.len(),
                            writer@ == mid + bytes@.take(j as int),
                        decreases bytes.len() - j,
                    {
                        writer.push(bytes[j]);
                        assert(bytes@.take(j + 1) =~= bytes@.take(j as int).push(bytes@[j as int]));
                        j += 1;
                    }
                    assert(bytes@.take(bytes.len() as int) =~= bytes@);
                    assert(names.take(i + 1).drop_last() =~= names.take(i as int));
                    i += 1;
                }
                assert(names.take(model_names.len() as int) =~= names);
            },
            Message::NewObject(object) => {
                writer.push(object.discriminant());
                object.write_new(writer);
            },
            Message::UpdateObject(object, changes) => {
                writer.push(object.discriminant());
                object.write_update(writer, changes);
            },
            Message::UpdatePlayer(index, changes) => {
                writer.push(*index);
                let change_count = changes.len() as u8;
                writer.push(change_count);
                write_player_fields(changes, writer);
            },
            Message::UpdateDecals(decals) => {
                let decal_count = decals.len() as u16;
                append_bytes(writer, bytes_of_u16(decal_count));
                let ghost start = writer@;
                let mut i: usize = 0;
                while i < decals.len()
                    invariant
                        i <= decals.len(),
                        writer@ == start + decals_bytes(decals@.take(i as int)),
                        writer@.len() == start.len() + 20 * i,
                    decreases decals.len() - i,
                {
                    decals[i].write(writer);
                    assert(decals@.take(i + 1).drop_last() =~= decals@.take(i as int));
                    i += 1;
                }
                assert(decals@.take(decals.len() as int) =~= decals@);
            },
            Message::UpdateLightstyles(lightstyles) => {
                let lightstyle_count = lightstyles.len() as u8;
                append_bytes(writer, bytes_of_u8(lightstyle_count));
                let ghost ls = lightstyles@.map_values(|l: Lightstyle| lightstyle_view(l));
                let ghost start = writer@;
                let mut i: usize = 0;
                while i < lightstyles.len()
                    invariant
                        i <= lightstyles.len(),
                        ls == lightstyles@.map_values(|l: Lightstyle| lightstyle_view(l)),
                        writer@ == start + lightstyles_bytes(ls.take(i as int)),
                    decreases lightstyles.len() - i,
                {
                    lightstyles[i].write(writer);
                    assert(ls.take(i + 1).drop_last() =~= ls.take(i as int));
                    i += 1;
                }
                assert(ls.take(lightstyles.len() as int) =~= ls);
            },
            Message::SetView(viewentity) => {
                append_bytes(writer, bytes_of_u32(*viewentity));
            },
        }
        assert(writer@ =~= old(writer)@ + self@.body());
    }
}

/// Appends a recorded frame to `writer`: the time, the number of messages,
/// then each message with its tag.
pub fn write_frame(time: u64, messages: &Vec<Message>, writer: &mut Vec<u8>)
    ensures
        final(writer)@ == old(writer)@ + frame_bytes(time, message_views(messages@)),
        final(writer)@.len() == old(writer)@.len() + 10 + messages_len(message_views(messages@)),
{
    append_bytes(writer, bytes_of_u64(time));
    let message_count: u16 = messages.len() as u16;
    append_bytes(writer, bytes_of_u16(message_count));
    let ghost ms = message_views(messages@);
    let ghost start = writer@;
    let mut i: usize = 0;
    while i < messages.len()
        invariant
            i <= messages.len(),
            ms == message_views(messages@),
            writer@ == start + messages_bytes(ms.take(i as int)),
            writer@.len() == start.len() + messages_len(ms.take(i as int)),
        decreases messages.len() - i,
    {
        let message = &messages[i];
        writer.push(message.discriminant());
        message.write(writer);
        assert(ms.take(i + 1).drop_last() =~= ms.take(i as int));
        i += 1;
    }
    assert(ms.take(messages.len() as int) =~= ms);
    assert(writer@ =~= old(writer)@ + frame_bytes(time, ms));
}

} // verus!
