//! The messages that agent and supervisor exchange, and their form on the
//! wire.
//!
//! On the wire a message is a list of byte strings. The first holds one
//! byte, which names the kind of message; the others hold its fields in
//! order: a number as eight bytes, least significant first; a flag as one
//! byte, 0 or 1; a text in UTF-8; a pixel buffer as it is. A list is
//! accepted only if it is the encoding of a message, and then stands for
//! that message alone.
//!
//! How the list itself travels is the transport's business.

use vstd::bytes::*;
use vstd::prelude::*;
use vstd::slice::*;
use vstd::string::*;
use vstd::utf8::*;

verus! {

/// A message between agent and supervisor.
#[derive(Debug)]
pub enum Message {
    /// Agent to supervisor: here I am.
    Register { pid: u64, exe: String },
    /// Agent to supervisor: the trigger fired.
    Hotkey,
    /// Supervisor to agent: start to capture into the sink of this session.
    StartCapture { session: u64 },
    /// Agent to supervisor: capture has started, from this surface.
    Accepted { session: u64, width: u32, height: u32, pitch: u32, vflip: bool },
    /// Agent to supervisor: capture has not started.
    Rejected { session: u64, reason: String },
    /// Agent to supervisor: a frame.
    Frame {
        session: u64,
        index: u64,
        timestamp: u64,
        width: u32,
        height: u32,
        pitch: u32,
        vflip: bool,
        data: Vec<u8>,
    },
    /// Supervisor to agent: the frame is with the encoder.
    FrameAck { index: u64 },
    /// Supervisor to agent: the frame was refused.
    FrameRefused { index: u64, reason: String },
    /// Either way: stop this session.
    Stop { session: u64 },
    /// Either way: the session has stopped.
    Stopped { session: u64 },
    /// Supervisor to agent: are you there?
    Probe,
    /// Agent to supervisor: yes.
    ProbeAnswer { pid: u64, exe: String },
    /// Either way: the last message could not be read.
    Malformed { reason: String },
}

/// The mathematical content of a message.
pub enum MessageView {
    Register { pid: u64, exe: Seq<char> },
    Hotkey,
    StartCapture { session: u64 },
    Accepted { session: u64, width: u32, height: u32, pitch: u32, vflip: bool },
    Rejected { session: u64, reason: Seq<char> },
    Frame {
        session: u64,
        index: u64,
        timestamp: u64,
        width: u32,
        height: u32,
        pitch: u32,
        vflip: bool,
        data: Seq<u8>,
    },
    FrameAck { index: u64 },
    FrameRefused { index: u64, reason: Seq<char> },
    Stop { session: u64 },
    Stopped { session: u64 },
    Probe,
    ProbeAnswer { pid: u64, exe: Seq<char> },
    Malformed { reason: Seq<char> },
}

impl View for Message {
    type V = MessageView;

    open spec fn view(&self) -> MessageView {
        match *self {
            Message::Register { pid, exe } => MessageView::Register { pid, exe: exe@ },
            Message::Hotkey => MessageView::Hotkey,
            Message::StartCapture { session } => MessageView::StartCapture { session },
            Message::Accepted { session, width, height, pitch, vflip } => MessageView::Accepted {
                session,
                width,
                height,
                pitch,
                vflip,
            },
            Message::Rejected { session, reason } => MessageView::Rejected {
                session,
                reason: reason@,
            },
            Message::Frame {
                session,
                index,
                timestamp,
                width,
                height,
                pitch,
                vflip,
                data,
            } => MessageView::Frame {
                session,
                index,
                timestamp,
                width,
                height,
                pitch,
                vflip,
                data: data@,
            },
            Message::FrameAck { index } => MessageView::FrameAck { index },
            Message::FrameRefused { index, reason } => MessageView::FrameRefused {
                index,
                reason: reason@,
            },
            Message::Stop { session } => MessageView::Stop { session },
            Message::Stopped { session } => MessageView::Stopped { session },
            Message::Probe => MessageView::Probe,
            Message::ProbeAnswer { pid, exe } => MessageView::ProbeAnswer { pid, exe: exe@ },
            Message::Malformed { reason } => MessageView::Malformed { reason: reason@ },
        }
    }
}

/// The byte string that names a kind of message.
pub open spec fn tag(kind: u8) -> Seq<u8> {
    seq![kind]
}

/// A number on the wire: eight bytes, least significant first.
pub open spec fn number(v: u64) -> Seq<u8> {
    spec_u64_to_le_bytes(v)
}

/// A flag on the wire.
pub open spec fn flag(b: bool) -> Seq<u8> {
    if b {
        seq![1u8]
    } else {
        seq![0u8]
    }
}

/// A message on the wire.
pub open spec fn encoding(m: MessageView) -> Seq<Seq<u8>> {
    match m {
        MessageView::Register { pid, exe } => seq![tag(0), number(pid), encode_utf8(exe)],
        MessageView::Hotkey => seq![tag(1)],
        MessageView::StartCapture { session } => seq![tag(2), number(session)],
        MessageView::Accepted { session, width, height, pitch, vflip } => seq![
            tag(3),
            number(session),
            number(width as u64),
            number(height as u64),
            number(pitch as u64),
            flag(vflip),
        ],
        MessageView::Rejected { session, reason } => seq![
            tag(4),
            number(session),
            encode_utf8(reason),
        ],
        MessageView::Frame { session, index, timestamp, width, height, pitch, vflip, data } => seq![
            tag(5),
            number(session),
            number(index),
            number(timestamp),
            number(width as u64),
            number(height as u64),
            number(pitch as u64),
            flag(vflip),
            data,
        ],
        MessageView::FrameAck { index } => seq![tag(6), number(index)],
        MessageView::FrameRefused { index, reason } => seq![
            tag(7),
            number(index),
            encode_utf8(reason),
        ],
        MessageView::Stop { session } => seq![tag(8), number(session)],
        MessageView::Stopped { session } => seq![tag(9), number(session)],
        MessageView::Probe => seq![tag(10)],
        MessageView::ProbeAnswer { pid, exe } => seq![tag(11), number(pid), encode_utf8(exe)],
        MessageView::Malformed { reason } => seq![tag(12), encode_utf8(reason)],
    }
}

/// The number that a byte string holds, if it holds one.
pub open spec fn number_in(field: Seq<u8>) -> Option<u64> {
    if field.len() == 8 {
        Some(spec_u64_from_le_bytes(field))
    } else {
        None
    }
}

/// The side or pitch of a surface that a byte string holds, if it holds
/// one: a number of at most 32 bits.
pub open spec fn side_in(field: Seq<u8>) -> Option<u32> {
    match number_in(field) {
        Some(v) => if v <= u32::MAX {
            Some(v as u32)
        } else {
            None
        },
        None => None,
    }
}

/// The flag that a byte string holds, if it holds one.
pub open spec fn flag_in(field: Seq<u8>) -> Option<bool> {
    if field.len() == 1 && field[0] == 0 {
        Some(false)
    } else if field.len() == 1 && field[0] == 1 {
        Some(true)
    } else {
        None
    }
}

/// The text that a byte string holds, if it holds one.
pub open spec fn text_in(field: Seq<u8>) -> Option<Seq<char>> {
    if valid_utf8(field) {
        Some(decode_utf8(field))
    } else {
        None
    }
}

/// The number that is the only field of a message.
pub open spec fn numbered(fields: Seq<Seq<u8>>) -> Option<u64> {
    if fields.len() == 2 {
        number_in(fields[1])
    } else {
        None
    }
}

/// The text that is the only field of a message.
pub open spec fn worded(fields: Seq<Seq<u8>>) -> Option<Seq<char>> {
    if fields.len() == 2 {
        text_in(fields[1])
    } else {
        None
    }
}

/// The number and the text that are the two fields of a message.
pub open spec fn number_and_text(fields: Seq<Seq<u8>>) -> Option<(u64, Seq<char>)> {
    if fields.len() == 3 {
        match (number_in(fields[1]), text_in(fields[2])) {
            (Some(n), Some(t)) => Some((n, t)),
            _ => None,
        }
    } else {
        None
    }
}

/// The width, height, pitch and orientation of a surface that stand in
/// four fields from `at` on.
pub open spec fn surface_in(fields: Seq<Seq<u8>>, at: int) -> Option<(u32, u32, u32, bool)> {
    match (
        side_in(fields[at]),
        side_in(fields[at + 1]),
        side_in(fields[at + 2]),
        flag_in(fields[at + 3]),
    ) {
        (Some(width), Some(height), Some(pitch), Some(vflip)) => Some(
            (width, height, pitch, vflip),
        ),
        _ => None,
    }
}

/// The message that a list of byte strings stands for, if it stands for
/// one.
pub open spec fn decoding(fields: Seq<Seq<u8>>) -> Option<MessageView> {
    if fields.len() == 0 || fields[0].len() != 1 {
        None
    } else {
        let kind = fields[0][0];
        if kind == 0 {
            match number_and_text(fields) {
                Some((pid, exe)) => Some(MessageView::Register { pid, exe }),
                None => None,
            }
        } else if kind == 1 {
            if fields.len() == 1 {
                Some(MessageView::Hotkey)
            } else {
                None
            }
        } else if kind == 2 {
            match numbered(fields) {
                Some(session) => Some(MessageView::StartCapture { session }),
                None => None,
            }
        } else if kind == 3 {
            if fields.len() == 6 {
                match (number_in(fields[1]), surface_in(fields, 2)) {
                    (Some(session), Some((width, height, pitch, vflip))) => Some(
                        MessageView::Accepted { session, width, height, pitch, vflip },
                    ),
                    _ => None,
                }
            } else {
                None
            }
        } else if kind == 4 {
            match number_and_text(fields) {
                Some((session, reason)) => Some(MessageView::Rejected { session, reason }),
                None => None,
            }
        } else if kind == 5 {
            if fields.len() == 9 {
                match (
                    number_in(fields[1]),
                    number_in(fields[2]),
                    number_in(fields[3]),
                    surface_in(fields, 4),
                ) {
                    (
                        Some(session),
                        Some(index),
                        Some(timestamp),
                        Some((width, height, pitch, vflip)),
                    ) => Some(
                        MessageView::Frame {
                            session,
                            index,
                            timestamp,
                            width,
                            height,
                            pitch,
                            vflip,
                            data: fields[8],
                        },
                    ),
                    _ => None,
                }
            } else {
                None
            }
        } else if kind == 6 {
            match numbered(fields) {
                Some(index) => Some(MessageView::FrameAck { index }),
                None => None,
            }
        } else if kind == 7 {
            match number_and_text(fields) {
                Some((index, reason)) => Some(MessageView::FrameRefused { index, reason }),
                None => None,
            }
        } else if kind == 8 {
            match numbered(fields) {
                Some(session) => Some(MessageView::Stop { session }),
                None => None,
            }
        } else if kind == 9 {
            match numbered(fields) {
                Some(session) => Some(MessageView::Stopped { session }),
                None => None,
            }
        } else if kind == 10 {
            if fields.len() == 1 {
                Some(MessageView::Probe)
            } else {
                None
            }
        } else if kind == 11 {
            match number_and_text(fields) {
                Some((pid, exe)) => Some(MessageView::ProbeAnswer { pid, exe }),
                None => None,
            }
        } else if kind == 12 {
            match worded(fields) {
                Some(reason) => Some(MessageView::Malformed { reason }),
                None => None,
            }
        } else {
            None
        }
    }
}

/// What a list of byte vectors holds.
pub open spec fn wire_view(fields: Seq<Vec<u8>>) -> Seq<Seq<u8>> {
    fields.map_values(|f: Vec<u8>| f@)
}

/// Decoding undoes encoding: what a message is encoded to stands for that
/// message.
pub proof fn lemma_decoding_inverts_encoding(m: MessageView)
    ensures
        decoding(encoding(m)) == Some(m),
{
    lemma_auto_spec_u64_to_from_le_bytes();
    broadcast use encode_utf8_valid_utf8, encode_utf8_decode_utf8;

    match m {
        MessageView::Accepted { session, width, height, pitch, vflip } => {
            assert(surface_in(encoding(m), 2) == Some((width, height, pitch, vflip)));
        },
        MessageView::Frame { session, index, timestamp, width, height, pitch, vflip, data } => {
            assert(surface_in(encoding(m), 4) == Some((width, height, pitch, vflip)));
        },
        _ => {},
    }
}

/// A byte string that holds a number, a flag or a text is the encoding of
/// what it holds.
proof fn lemma_fields_are_exact(field: Seq<u8>)
    ensures
        number_in(field) matches Some(v) ==> number(v) == field,
        side_in(field) matches Some(w) ==> number(w as u64) == field,
        flag_in(field) matches Some(b) ==> flag(b) == field,
        text_in(field) matches Some(t) ==> encode_utf8(t) == field,
{
    lemma_auto_spec_u64_to_from_le_bytes();
    if field.len() == 8 {
        assert(spec_u64_to_le_bytes(spec_u64_from_le_bytes(field)) == field);
    }
    if flag_in(field) is Some {
        assert(flag(flag_in(field).unwrap()) =~= field);
    }
    if valid_utf8(field) {
        decode_utf8_encode_utf8(field);
    }
}

/// Only encodings are accepted: a list that stands for a message is the
/// encoding of that message. So no two lists stand for the same message,
/// and no list stands for two.
pub proof fn lemma_only_encodings_decode(fields: Seq<Seq<u8>>)
    ensures
        decoding(fields) matches Some(m) ==> encoding(m) == fields,
{
    if decoding(fields) is Some {
        let m = decoding(fields).unwrap();
        assert(tag(fields[0][0]) =~= fields[0]);
        assert forall|i: int| 0 <= i < fields.len() implies {
            &&& number_in(#[trigger] fields[i]) matches Some(v) ==> number(v) == fields[i]
            &&& side_in(fields[i]) matches Some(w) ==> number(w as u64) == fields[i]
            &&& flag_in(fields[i]) matches Some(b) ==> flag(b) == fields[i]
            &&& text_in(fields[i]) matches Some(t) ==> encode_utf8(t) == fields[i]
        } by {
            lemma_fields_are_exact(fields[i]);
        }
        assert(encoding(m) =~= fields);
    }
}

fn tag_field(kind: u8) -> (field: Vec<u8>)
    ensures
        field@ == tag(kind),
{
    let mut field: Vec<u8> = Vec::new();
    field.push(kind);
    assert(field@ =~= tag(kind));
    field
}

fn flag_field(b: bool) -> (field: Vec<u8>)
    ensures
        field@ == flag(b),
{
    let mut field: Vec<u8> = Vec::new();
    field.push(if b {
        1u8
    } else {
        0u8
    });
    assert(field@ =~= flag(b));
    field
}

fn side_field(side: u32) -> (field: Vec<u8>)
    ensures
        field@ == number(side as u64),
{
    u64_to_le_bytes(side as u64)
}

fn text_field(text: &String) -> (field: Vec<u8>)
    ensures
        field@ == encode_utf8(text@),
{
    text.as_str().as_bytes_vec()
}

/// Puts a message on the wire.
pub fn encode(message: Message) -> (fields: Vec<Vec<u8>>)
    ensures
        wire_view(fields@) == encoding(message@),
{
    let ghost m = message@;
    let mut fields: Vec<Vec<u8>> = Vec::new();
    match message {
        Message::Register { pid, exe } => {
            fields.push(tag_field(0));
            fields.push(u64_to_le_bytes(pid));
            fields.push(text_field(&exe));
        },
        Message::Hotkey => {
            fields.push(tag_field(1));
        },
        Message::StartCapture { session } => {
            fields.push(tag_field(2));
            fields.push(u64_to_le_bytes(session));
        },
        Message::Accepted { session, width, height, pitch, vflip } => {
            fields.push(tag_field(3));
            fields.push(u64_to_le_bytes(session));
            fields.push(side_field(width));
            fields.push(side_field(height));
            fields.push(side_field(pitch));
            fields.push(flag_field(vflip));
        },
        Message::Rejected { session, reason } => {
            fields.push(tag_field(4));
            fields.push(u64_to_le_bytes(session));
            fields.push(text_field(&reason));
        },
        Message::Frame { session, index, timestamp, width, height, pitch, vflip, data } => {
            fields.push(tag_field(5));
            fields.push(u64_to_le_bytes(session));
            fields.push(u64_to_le_bytes(index));
            fields.push(u64_to_le_bytes(timestamp));
            fields.push(side_field(width));
            fields.push(side_field(height));
            fields.push(side_field(pitch));
            fields.push(flag_field(vflip));
            fields.push(data);
        },
        Message::FrameAck { index } => {
            fields.push(tag_field(6));
            fields.push(u64_to_le_bytes(index));
        },
        Message::FrameRefused { index, reason } => {
            fields.push(tag_field(7));
            fields.push(u64_to_le_bytes(index));
            fields.push(text_field(&reason));
        },
        Message::Stop { session } => {
            fields.push(tag_field(8));
            fields.push(u64_to_le_bytes(session));
        },
        Message::Stopped { session } => {
            fields.push(tag_field(9));
            fields.push(u64_to_le_bytes(session));
        },
        Message::Probe => {
            fields.push(tag_field(10));
        },
        Message::ProbeAnswer { pid, exe } => {
            fields.push(tag_field(11));
            fields.push(u64_to_le_bytes(pid));
            fields.push(text_field(&exe));
        },
        Message::Malformed { reason } => {
            fields.push(tag_field(12));
            fields.push(text_field(&reason));
        },
    }
    assert(wire_view(fields@) =~= encoding(m));
    fields
}

fn read_number(field: &Vec<u8>) -> (r: Option<u64>)
    ensures
        r == number_in(field@),
{
    if field.len() == 8 {
        Some(u64_from_le_bytes(field.as_slice()))
    } else {
        None
    }
}

fn read_side(field: &Vec<u8>) -> (r: Option<u32>)
    ensures
        r == side_in(field@),
{
    match read_number(field) {
        Some(v) => if v <= 0xFFFF_FFFF {
            Some(v as u32)
        } else {
            None
        },
        None => None,
    }
}

fn read_flag(field: &Vec<u8>) -> (r: Option<bool>)
    ensures
        r == flag_in(field@),
{
    if field.len() != 1 {
        None
    } else if field[0] == 0 {
        Some(false)
    } else if field[0] == 1 {
        Some(true)
    } else {
        None
    }
}

/// The text that the bytes hold in UTF-8, if they hold one.
///
/// Calls `String::from_utf8`, which returns an error where the bytes are
/// not valid UTF-8 and else the string that has these bytes.
#[verifier::external_body]
fn read_text(field: &Vec<u8>) -> (r: Option<String>)
    ensures
        r.is_some() == valid_utf8(field@),
        r matches Some(text) ==> text@ == decode_utf8(field@),
{
    String::from_utf8(field.clone()).ok()
}

fn read_surface(fields: &Vec<Vec<u8>>, at: usize) -> (r: Option<(u32, u32, u32, bool)>)
    requires
        at + 3 < fields.len(),
    ensures
        r == surface_in(wire_view(fields@), at as int),
{
    let width = read_side(&fields[at]);
    let height = read_side(&fields[at + 1]);
    let pitch = read_side(&fields[at + 2]);
    let vflip = read_flag(&fields[at + 3]);
    match (width, height, pitch, vflip) {
        (Some(width), Some(height), Some(pitch), Some(vflip)) => Some(
            (width, height, pitch, vflip),
        ),
        _ => None,
    }
}

fn read_numbered(fields: &Vec<Vec<u8>>) -> (r: Option<u64>)
    ensures
        r == numbered(wire_view(fields@)),
{
    if fields.len() == 2 {
        read_number(&fields[1])
    } else {
        None
    }
}

fn read_worded(fields: &Vec<Vec<u8>>) -> (r: Option<String>)
    ensures
        match r {
            Some(text) => worded(wire_view(fields@)) == Some(text@),
            None => worded(wire_view(fields@)).is_none(),
        },
{
    if fields.len() == 2 {
        read_text(&fields[1])
    } else {
        None
    }
}

fn read_number_and_text(fields: &Vec<Vec<u8>>) -> (r: Option<(u64, String)>)
    ensures
        match r {
            Some((n, text)) => number_and_text(wire_view(fields@)) == Some((n, text@)),
            None => number_and_text(wire_view(fields@)).is_none(),
        },
{
    if fields.len() == 3 {
        match (read_number(&fields[1]), read_text(&fields[2])) {
            (Some(n), Some(text)) => Some((n, text)),
            _ => None,
        }
    } else {
        None
    }
}

/// Takes a message off the wire: the message that the list stands for, or
/// `None` where it stands for none.
pub fn decode(fields: &Vec<Vec<u8>>) -> (r: Option<Message>)
    ensures
        match r {
            Some(message) => decoding(wire_view(fields@)) == Some(message@),
            None => decoding(wire_view(fields@)).is_none(),
        },
{
    if fields.len() == 0 || fields[0].len() != 1 {
        return None;
    }
    let kind = fields[0][0];
    if kind == 0 {
        match read_number_and_text(fields) {
            Some((pid, exe)) => Some(Message::Register { pid, exe }),
            None => None,
        }
    } else if kind == 1 {
        if fields.len() == 1 {
            Some(Message::Hotkey)
        } else {
            None
        }
    } else if kind == 2 {
        match read_numbered(fields) {
            Some(session) => Some(Message::StartCapture { session }),
            None => None,
        }
    } else if kind == 3 {
        if fields.len() == 6 {
            match (read_number(&fields[1]), read_surface(fields, 2)) {
                (Some(session), Some((width, height, pitch, vflip))) => Some(
                    Message::Accepted { session, width, height, pitch, vflip },
                ),
                _ => None,
            }
        } else {
            None
        }
    } else if kind == 4 {
        match read_number_and_text(fields) {
            Some((session, reason)) => Some(Message::Rejected { session, reason }),
            None => None,
        }
    } else if kind == 5 {
        if fields.len() == 9 {
            match (
                read_number(&fields[1]),
                read_number(&fields[2]),
                read_number(&fields[3]),
                read_surface(fields, 4),
            ) {
                (
                    Some(session),
                    Some(index),
                    Some(timestamp),
                    Some((width, height, pitch, vflip)),
                ) => Some(
                    Message::Frame {
                        session,
                        index,
                        timestamp,
                        width,
                        height,
                        pitch,
                        vflip,
                        data: slice_to_vec(fields[8].as_slice()),
                    },
                ),
                _ => None,
            }
        } else {
            None
        }
    } else if kind == 6 {
        match read_numbered(fields) {
            Some(index) => Some(Message::FrameAck { index }),
            None => None,
        }
    } else if kind == 7 {
        match read_number_and_text(fields) {
            Some((index, reason)) => Some(Message::FrameRefused { index, reason }),
            None => None,
        }
    } else if kind == 8 {
        match read_numbered(fields) {
            Some(session) => Some(Message::Stop { session }),
            None => None,
        }
    } else if kind == 9 {
        match read_numbered(fields) {
            Some(session) => Some(Message::Stopped { session }),
            None => None,
        }
    } else if kind == 10 {
        if fields.len() == 1 {
            Some(Message::Probe)
        } else {
            None
        }
    } else if kind == 11 {
        match read_number_and_text(fields) {
            Some((pid, exe)) => Some(Message::ProbeAnswer { pid, exe }),
            None => None,
        }
    } else if kind == 12 {
        match read_worded(fields) {
            Some(reason) => Some(Message::Malformed { reason }),
            None => None,
        }
    } else {
        None
    }
}

} // verus!
