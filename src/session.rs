//! One room's recording: the append-only PCM buffer and the handler that mixes
//! each tick into it.
use vstd::prelude::*;
use crate::mixer::{mix_tick, mixed_frame};
use crate::pcm::{pcm_bytes, samples_to_bytes};

verus! {

/// An append-only byte sequence that stops taking writes once drained.
pub struct SessionBuffer {
    data: Vec<u8>,
    sealed: bool,
}

impl SessionBuffer {
    /// The bytes written so far.
    pub closed spec fn bytes(&self) -> Seq<u8> {
        self.data@
    }

    /// Whether the buffer has been drained and takes no more writes.
    pub closed spec fn is_sealed(&self) -> bool {
        self.sealed
    }

    /// An empty buffer that takes writes.
    pub fn new() -> (r: Self)
        ensures
            r.bytes() == Seq::<u8>::empty(),
            !r.is_sealed(),
    {
        SessionBuffer { data: Vec::new(), sealed: false }
    }

    /// Appends `bytes` unless the buffer is sealed; returns whether it did.
    pub fn append(&mut self, bytes: Vec<u8>) -> (accepted: bool)
        ensures
            accepted == !old(self).is_sealed(),
            final(self).is_sealed() == old(self).is_sealed(),
            accepted ==> final(self).bytes() == old(self).bytes() + bytes@,
            !accepted ==> final(self).bytes() == old(self).bytes(),
    {
        if self.sealed {
            return false;
        }
        let mut bytes = bytes;
        self.data.append(&mut bytes);
        true
    }

    /// Returns everything written and seals the buffer against further writes.
    pub fn drain_all(&mut self) -> (r: Vec<u8>)
        ensures
            r@ == old(self).bytes(),
            final(self).is_sealed(),
            final(self).bytes() == Seq::<u8>::empty(),
    {
        let mut out: Vec<u8> = Vec::new();
        std::mem::swap(&mut out, &mut self.data);
        self.sealed = true;
        out
    }
}

/// The recording of one room: the voice channel it listens to and the PCM
/// written so far.
pub struct VoiceHandler {
    channel_id: u64,
    buffer: SessionBuffer,
}

impl VoiceHandler {
    /// The voice channel being recorded.
    pub closed spec fn channel(&self) -> u64 {
        self.channel_id
    }

    /// The mixed PCM bytes recorded so far.
    pub closed spec fn pcm(&self) -> Seq<u8> {
        self.buffer.bytes()
    }

    /// Whether the recording has been drained.
    pub closed spec fn is_sealed(&self) -> bool {
        self.buffer.is_sealed()
    }

    /// A fresh recording of `channel_id` with nothing written.
    pub fn new(channel_id: u64) -> (r: Self)
        ensures
            r.channel() == channel_id,
            r.pcm() == Seq::<u8>::empty(),
            !r.is_sealed(),
    {
        VoiceHandler { channel_id, buffer: SessionBuffer::new() }
    }

    /// The voice channel being recorded.
    pub fn channel_id(&self) -> (r: u64)
        ensures
            r == self.channel(),
    {
        self.channel_id
    }

    /// Handles one tick: mixes the speakers' samples and appends the frame as
    /// little-endian bytes, unless the recording was drained. Returns whether
    /// the frame was written.
    pub fn act(&mut self, voices: &Vec<Option<Vec<i16>>>) -> (written: bool)
        ensures
            written == !old(self).is_sealed(),
            final(self).channel() == old(self).channel(),
            final(self).is_sealed() == old(self).is_sealed(),
            written ==> final(self).pcm() == old(self).pcm() + pcm_bytes(mixed_frame(voices@)),
            !written ==> final(self).pcm() == old(self).pcm(),
    {
        let frame = mix_tick(voices);
        let bytes = samples_to_bytes(&frame);
        self.buffer.append(bytes)
    }

    /// Drains the recording, returning its PCM bytes.
    pub fn finish(&mut self) -> (r: Vec<u8>)
        ensures
            r@ == old(self).pcm(),
            final(self).is_sealed(),
            final(self).pcm() == Seq::<u8>::empty(),
            final(self).channel() == old(self).channel(),
    {
        self.buffer.drain_all()
    }
}

} // verus!
