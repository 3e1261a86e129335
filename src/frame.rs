//! Messages of the WebSocket side, and the read buffer of the byte-stream side.
use vstd::prelude::*;

verus! {

/// Capacity of the buffer that one read of the byte-stream side fills.
pub const READ_BUFFER_SIZE: usize = 1024;

/// A message as the WebSocket side delivers it.
#[derive(Clone, Debug, PartialEq, Eq)]
pub enum Frame {
    Binary(Vec<u8>),
    Ping(Vec<u8>),
    Pong(Vec<u8>),
    /// A close message; its reason, if any, plays no part in forwarding.
    Close,
    Text(String),
    /// Any other kind of message.
    Other,
}

/// The mathematical value of a [`Frame`]: payloads as byte sequences.
pub enum FrameModel {
    Binary(Seq<u8>),
    Ping(Seq<u8>),
    Pong(Seq<u8>),
    Close,
    Text,
    Other,
}

impl View for Frame {
    type V = FrameModel;

    open spec fn view(&self) -> FrameModel {
        match self {
            Frame::Binary(b) => FrameModel::Binary(b@),
            Frame::Ping(p) => FrameModel::Ping(p@),
            Frame::Pong(p) => FrameModel::Pong(p@),
            Frame::Close => FrameModel::Close,
            Frame::Text(_) => FrameModel::Text,
            Frame::Other => FrameModel::Other,
        }
    }
}

/// A zeroed buffer of [`READ_BUFFER_SIZE`] bytes, to be reused for every read
/// of one session.
pub fn read_buffer() -> (r: Vec<u8>)
    ensures
        r@ == Seq::new(READ_BUFFER_SIZE as nat, |i: int| 0u8),
{
    let r: Vec<u8> = vec![0u8; READ_BUFFER_SIZE];
    assert(r@ =~= Seq::new(READ_BUFFER_SIZE as nat, |i: int| 0u8));
    r
}

/// The first `n` bytes of `buffer`: what one read that reported `n` bytes put there.
pub fn chunk_of(buffer: &[u8], n: usize) -> (r: Vec<u8>)
    requires
        n <= buffer@.len(),
    ensures
        r@ == buffer@.take(n as int),
{
    let mut r: Vec<u8> = Vec::with_capacity(n);
    let mut i: usize = 0;
    while i < n
        invariant
            i <= n,
            n <= buffer@.len(),
            r@ == buffer@.take(i as int),
        decreases n - i,
    {
        r.push(buffer[i]);
        i = i + 1;
        assert(r@ =~= buffer@.take(i as int));
    }
    r
}

} // verus!
