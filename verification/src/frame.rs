//! The frames that a connection delivers.
use vstd::prelude::*;

verus! {

/// One inbound frame. The transport tags a frame as text or as binary data;
/// whatever else it delivers (pings, pongs, close notices) carries nothing
/// for this protocol.
#[derive(Debug, PartialEq, Eq)]
pub enum Frame {
    /// A text frame.
    Text(String),
    /// A binary frame.
    Binary(Vec<u8>),
    /// A frame of the transport's own.
    Control,
}

/// What a frame holds.
pub enum FrameModel {
    Text(Seq<char>),
    Binary(Seq<u8>),
    Control,
}

impl View for Frame {
    type V = FrameModel;

    open spec fn view(&self) -> FrameModel {
        match self {
            Frame::Text(text) => FrameModel::Text(text@),
            Frame::Binary(data) => FrameModel::Binary(data@),
            Frame::Control => FrameModel::Control,
        }
    }
}

} // verus!
