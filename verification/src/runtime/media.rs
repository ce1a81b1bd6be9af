//! Media on its way through a pipeline.

use std::sync::Arc;

use vstd::prelude::*;

use crate::runtime::pool::PooledBuffer;
use crate::show;
use crate::time::Duration;

verus! {

/// A part of bytes that somebody else owns; the owner stays alive as long as the part
/// is used.
#[derive(PartialEq, Eq)]
pub struct BorrowedMediaSlice {
    owner: Arc<Vec<u8>>,
    start: usize,
    end: usize,
}

impl View for BorrowedMediaSlice {
    type V = Seq<u8>;

    closed spec fn view(&self) -> Seq<u8> {
        self.owner@.subrange(self.start as int, self.end as int)
    }
}

impl BorrowedMediaSlice {
    #[verifier::type_invariant]
    spec fn in_bounds(self) -> bool {
        self.start <= self.end <= self.owner@.len()
    }

    /// The bytes of the owner from `start` up to `end`.
    pub fn new(owner: Arc<Vec<u8>>, start: usize, end: usize) -> (r: Self)
        requires
            start <= end <= owner@.len(),
        ensures
            r@ == owner@.subrange(start as int, end as int),
    {
        BorrowedMediaSlice { owner, start, end }
    }

    /// The bytes.
    pub fn as_slice(&self) -> (r: &[u8])
        ensures
            r@ == self@,
    {
        proof {
            use_type_invariant(self);
        }
        vstd::slice::slice_subrange(self.owner.as_slice(), self.start, self.end)
    }

    /// The number of bytes.
    pub fn len(&self) -> (r: usize)
        ensures
            r == self@.len(),
    {
        proof {
            use_type_invariant(self);
        }
        self.end - self.start
    }
}

impl std::fmt::Debug for BorrowedMediaSlice {
    /// Shows how many bytes there are, and not the bytes.
    fn fmt(&self, f: &mut std::fmt::Formatter<'_>) -> (r: Result<(), std::fmt::Error>)
        ensures
            exists|begun: std::fmt::DebugStruct<'_, '_>, filled: std::fmt::DebugStruct<'_, '_>|
                #![trigger show::may_begin(*old(f), "BorrowedMediaSlice"@, begun), show::may_end(filled, r)]
                show::may_begin(*old(f), "BorrowedMediaSlice"@, begun) && show::may_gain_field(
                    begun,
                    "len"@,
                    self@.len(),
                    filled,
                ) && show::may_end(filled, r),
    {
        let len: usize = self.len();
        let mut shown = show::begin_struct(f, "BorrowedMediaSlice");
        show::write_field(&mut shown, "len", len);
        show::end_struct(&mut shown)
    }
}

impl Clone for BorrowedMediaSlice {
    fn clone(&self) -> (r: Self)
        ensures
            r == *self,
    {
        proof {
            use_type_invariant(self);
        }
        BorrowedMediaSlice { owner: Arc::clone(&self.owner), start: self.start, end: self.end }
    }
}

/// A frame that a device has mapped into memory.
#[derive(Debug, PartialEq, Eq)]
pub struct MappedFrameHandle {
    pub slice: BorrowedMediaSlice,
}

impl Clone for MappedFrameHandle {
    fn clone(&self) -> (r: Self)
        ensures
            r == *self,
    {
        MappedFrameHandle { slice: self.slice.clone() }
    }
}

/// A packet that FFmpeg owns.
#[derive(Debug, PartialEq, Eq)]
pub struct FfmpegPacketHandle {
    pub slice: BorrowedMediaSlice,
}

impl Clone for FfmpegPacketHandle {
    fn clone(&self) -> (r: Self)
        ensures
            r == *self,
    {
        FfmpegPacketHandle { slice: self.slice.clone() }
    }
}

/// Where the bytes of media are kept. Its view is the bytes.
#[derive(Debug, PartialEq, Eq)]
pub enum MediaStorage {
    Pooled(PooledBuffer),
    Owned(Arc<Vec<u8>>),
    BorrowedSlice(BorrowedMediaSlice),
    MappedFrame(MappedFrameHandle),
    FfmpegPacket(FfmpegPacketHandle),
}

impl View for MediaStorage {
    type V = Seq<u8>;

    open spec fn view(&self) -> Seq<u8> {
        match self {
            MediaStorage::Pooled(buffer) => buffer@,
            MediaStorage::Owned(bytes) => bytes@,
            MediaStorage::BorrowedSlice(slice) => slice@,
            MediaStorage::MappedFrame(handle) => handle.slice@,
            MediaStorage::FfmpegPacket(handle) => handle.slice@,
        }
    }
}

impl MediaStorage {
    /// Storage that owns the given bytes.
    pub fn from_vec(bytes: Vec<u8>) -> (r: Self)
        ensures
            r is Owned,
            r@ == bytes@,
    {
        MediaStorage::Owned(Arc::new(bytes))
    }

    /// The bytes.
    pub fn as_slice(&self) -> (r: &[u8])
        ensures
            r@ == self@,
    {
        match self {
            MediaStorage::Pooled(buffer) => buffer.as_slice(),
            MediaStorage::Owned(bytes) => bytes.as_slice(),
            MediaStorage::BorrowedSlice(slice) => slice.as_slice(),
            MediaStorage::MappedFrame(handle) => handle.slice.as_slice(),
            MediaStorage::FfmpegPacket(handle) => handle.slice.as_slice(),
        }
    }

    /// The number of bytes.
    pub fn len(&self) -> (r: usize)
        ensures
            r == self@.len(),
    {
        match self {
            MediaStorage::Pooled(buffer) => buffer.len(),
            MediaStorage::Owned(bytes) => bytes.len(),
            MediaStorage::BorrowedSlice(slice) => slice.len(),
            MediaStorage::MappedFrame(handle) => handle.slice.len(),
            MediaStorage::FfmpegPacket(handle) => handle.slice.len(),
        }
    }

    /// Whether there are no bytes.
    pub fn is_empty(&self) -> (r: bool)
        ensures
            r == (self@.len() == 0),
    {
        self.len() == 0
    }
}

impl Clone for MediaStorage {
    fn clone(&self) -> (r: Self)
        ensures
            r == *self,
    {
        match self {
            MediaStorage::Pooled(buffer) => MediaStorage::Pooled(buffer.clone()),
            MediaStorage::Owned(bytes) => MediaStorage::Owned(Arc::clone(bytes)),
            MediaStorage::BorrowedSlice(slice) => MediaStorage::BorrowedSlice(slice.clone()),
            MediaStorage::MappedFrame(handle) => MediaStorage::MappedFrame(handle.clone()),
            MediaStorage::FfmpegPacket(handle) => MediaStorage::FfmpegPacket(handle.clone()),
        }
    }
}

/// An encoded frame.
#[derive(Debug, PartialEq, Eq)]
pub struct EncodedPacket {
    pub codec: String,
    pub timestamp: Option<Duration>,
    pub duration: Option<Duration>,
    pub is_keyframe: bool,
    pub data: MediaStorage,
}

/// A picture.
#[derive(Debug, PartialEq, Eq)]
pub struct DecodedFrame {
    pub pixel_format: String,
    pub width: u32,
    pub height: u32,
    pub timestamp: Option<Duration>,
    pub data: MediaStorage,
}

/// What travels through a pipeline.
#[derive(Debug, PartialEq, Eq)]
pub enum MediaPayload {
    EncodedPacket(EncodedPacket),
    DecodedFrame(DecodedFrame),
    EndOfStream,
}

/// The bytes of a payload, if it has any.
pub open spec fn payload_bytes(payload: MediaPayload) -> Option<Seq<u8>> {
    match payload {
        MediaPayload::EncodedPacket(packet) => Some(packet.data@),
        MediaPayload::DecodedFrame(frame) => Some(frame.data@),
        MediaPayload::EndOfStream => None,
    }
}

impl Clone for EncodedPacket {
    fn clone(&self) -> (r: Self)
        ensures
            r == *self,
    {
        EncodedPacket {
            codec: self.codec.clone(),
            timestamp: self.timestamp,
            duration: self.duration,
            is_keyframe: self.is_keyframe,
            data: self.data.clone(),
        }
    }
}

impl Clone for DecodedFrame {
    fn clone(&self) -> (r: Self)
        ensures
            r == *self,
    {
        DecodedFrame {
            pixel_format: self.pixel_format.clone(),
            width: self.width,
            height: self.height,
            timestamp: self.timestamp,
            data: self.data.clone(),
        }
    }
}

impl Clone for MediaPayload {
    fn clone(&self) -> (r: Self)
        ensures
            r == *self,
    {
        match self {
            MediaPayload::EncodedPacket(packet) => MediaPayload::EncodedPacket(packet.clone()),
            MediaPayload::DecodedFrame(frame) => MediaPayload::DecodedFrame(frame.clone()),
            MediaPayload::EndOfStream => MediaPayload::EndOfStream,
        }
    }
}

impl MediaPayload {
    /// The bytes of the payload, if it has any.
    pub fn data(&self) -> (r: Option<&[u8]>)
        ensures
            match r {
                Some(bytes) => payload_bytes(*self) == Some(bytes@),
                None => payload_bytes(*self) is None,
            },
    {
        match self {
            MediaPayload::EncodedPacket(packet) => Some(packet.data.as_slice()),
            MediaPayload::DecodedFrame(frame) => Some(frame.data.as_slice()),
            MediaPayload::EndOfStream => None,
        }
    }

    /// Whether the stream ends here.
    pub fn is_end_of_stream(&self) -> (r: bool)
        ensures
            r == (self is EndOfStream),
    {
        match self {
            MediaPayload::EndOfStream => true,
            _ => false,
        }
    }
}

/// What a recording notes of a packet.
#[derive(Debug, PartialEq, Eq)]
pub struct RecordedPacket {
    pub codec: String,
    pub bytes: usize,
    pub is_keyframe: bool,
    pub timestamp: Option<Duration>,
}

impl Clone for RecordedPacket {
    fn clone(&self) -> (r: Self)
        ensures
            r == *self,
    {
        RecordedPacket {
            codec: self.codec.clone(),
            bytes: self.bytes,
            is_keyframe: self.is_keyframe,
            timestamp: self.timestamp,
        }
    }
}

/// What a recording notes of a payload: packets alone are noted.
pub fn recorded(payload: &MediaPayload) -> (r: Option<RecordedPacket>)
    ensures
        match payload {
            MediaPayload::EncodedPacket(packet) => {
                &&& r matches Some(note)
                &&& note.codec@ == packet.codec@
                &&& note.bytes == packet.data@.len()
                &&& note.is_keyframe == packet.is_keyframe
                &&& note.timestamp == packet.timestamp
            },
            _ => r is None,
        },
{
    match payload {
        MediaPayload::EncodedPacket(packet) => Some(
            RecordedPacket {
                codec: packet.codec.clone(),
                bytes: packet.data.len(),
                is_keyframe: packet.is_keyframe,
                timestamp: packet.timestamp,
            },
        ),
        _ => None,
    }
}

} // verus!
