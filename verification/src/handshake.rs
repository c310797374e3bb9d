//! The handshake: the first frame of a connection.
//!
//! A client introduces itself with one text frame of exactly ten lines. The
//! lines describe the client; none of them steers the protocol.
use vstd::prelude::*;
use crate::frame::{Frame, FrameModel};
use crate::lines::{count_lines, lines_of, split_lines, texts};

verus! {

/// Number of lines in a handshake.
pub const FIELD_COUNT: usize = 10;

/// The lines of a handshake, in the order in which a client sends them.
#[derive(Clone, Copy, Debug, PartialEq, Eq, Structural)]
pub enum Field {
    UserAgent,
    CpuCores,
    Memory,
    GraphicsVendor,
    GraphicsRenderer,
    Languages,
    ConnectionType,
    Battery,
    Charging,
    Timezone,
}

impl Field {
    /// The line of the handshake that holds this field, counted from 0.
    pub open spec fn position(self) -> int {
        match self {
            Field::UserAgent => 0,
            Field::CpuCores => 1,
            Field::Memory => 2,
            Field::GraphicsVendor => 3,
            Field::GraphicsRenderer => 4,
            Field::Languages => 5,
            Field::ConnectionType => 6,
            Field::Battery => 7,
            Field::Charging => 8,
            Field::Timezone => 9,
        }
    }

    /// The line of the handshake that holds this field, counted from 0.
    pub fn index(self) -> (i: usize)
        ensures
            i == self.position(),
            i < FIELD_COUNT,
    {
        match self {
            Field::UserAgent => 0,
            Field::CpuCores => 1,
            Field::Memory => 2,
            Field::GraphicsVendor => 3,
            Field::GraphicsRenderer => 4,
            Field::Languages => 5,
            Field::ConnectionType => 6,
            Field::Battery => 7,
            Field::Charging => 8,
            Field::Timezone => 9,
        }
    }
}

/// Whether a first frame is a handshake: a text frame of exactly ten lines.
pub open spec fn accepts(frame: FrameModel) -> bool {
    frame matches FrameModel::Text(text) && lines_of(text).len() == FIELD_COUNT
}

/// What an accepted client said of itself.
#[derive(Debug, PartialEq, Eq)]
pub struct Metadata {
    fields: Vec<String>,
}

impl View for Metadata {
    type V = Seq<Seq<char>>;

    closed spec fn view(&self) -> Seq<Seq<char>> {
        texts(self.fields@)
    }
}

impl Metadata {
    #[verifier::type_invariant]
    spec fn well_formed(&self) -> bool {
        self.fields@.len() == FIELD_COUNT
    }

    /// The text of one field.
    pub fn get(&self, field: Field) -> (text: &String)
        ensures
            self@.len() == FIELD_COUNT,
            text@ == self@[field.position()],
    {
        proof {
            use_type_invariant(self);
        }
        &self.fields[field.index()]
    }
}

/// Reads the handshake from the first frame of a connection. The frame is
/// accepted where it is a text frame of exactly ten lines, and the lines
/// are then the client's metadata; any other frame is refused.
pub fn read_metadata(frame: &Frame) -> (result: Option<Metadata>)
    ensures
        result is Some <==> accepts(frame@),
        result matches Some(metadata) ==> frame@ matches FrameModel::Text(text) && metadata@
            == lines_of(text),
{
    match frame {
        Frame::Text(text) => {
            if count_lines(text.as_str()) != FIELD_COUNT {
                return None;
            }
            Some(Metadata { fields: split_lines(text.as_str()) })
        },
        _ => None,
    }
}

} // verus!
