//! The session registry: at most one recording per room, started and stopped
//! through a small state machine.
use vstd::prelude::*;
use dashmap::DashMap;
use crate::mixer::mixed_frame;
use crate::pcm::{pcm_bytes, pcm_samples};
use crate::session::VoiceHandler;
use crate::wav::{create_wav, fits_wav, wav_file};

verus! {

#[verifier::external_type_specification]
#[verifier::external_body]
#[verifier::reject_recursive_types(K)]
#[verifier::reject_recursive_types(V)]
#[verifier::reject_recursive_types(S)]
pub struct ExDashMap<K, V, S>(DashMap<K, V, S>);

/// The entries of a room map.
pub uninterp spec fn room_map(m: DashMap<u64, VoiceHandler>) -> Map<u64, VoiceHandler>;

/// Relies on `DashMap::new`: a map with no entries.
#[verifier::external_body]
fn rooms_new() -> (r: DashMap<u64, VoiceHandler>)
    ensures
        room_map(r).is_empty(),
{
    DashMap::new()
}

/// Relies on `DashMap::contains_key`: whether the key has an entry.
#[verifier::external_body]
fn rooms_contain(m: &DashMap<u64, VoiceHandler>, room: u64) -> (r: bool)
    ensures
        r == room_map(*m).contains_key(room),
{
    m.contains_key(&room)
}

/// Relies on `DashMap::insert`: stores the value under the key, replacing and
/// returning any value that was there.
#[verifier::external_body]
fn rooms_insert(m: &mut DashMap<u64, VoiceHandler>, room: u64, v: VoiceHandler) -> (r: Option<
    VoiceHandler,
>)
    ensures
        room_map(*final(m)) == room_map(*old(m)).insert(room, v),
        r == (if room_map(*old(m)).contains_key(room) {
            Some(room_map(*old(m))[room])
        } else {
            None
        }),
{
    m.insert(room, v)
}

/// Relies on `DashMap::remove`: takes the key's entry out and returns its value.
#[verifier::external_body]
fn rooms_remove(m: &mut DashMap<u64, VoiceHandler>, room: u64) -> (r: Option<VoiceHandler>)
    ensures
        room_map(*final(m)) == room_map(*old(m)).remove(room),
        r == (if room_map(*old(m)).contains_key(room) {
            Some(room_map(*old(m))[room])
        } else {
            None
        }),
{
    m.remove(&room).map(|(_, v)| v)
}

/// Outcomes of the session commands.
#[derive(Clone, Copy, Debug, PartialEq, Eq, Structural)]
pub enum RecordError {
    /// The room is already being recorded.
    AlreadyActive,
    /// The room is not being recorded.
    NotActive,
    /// Joining the voice channel failed.
    ConnectionFailure,
    /// The recording could not be encoded as WAV.
    EncodingFailure,
}

/// What `start` does: the result and the registry after it, from the registry
/// before it.
pub open spec fn start_post(
    before: Map<u64, VoiceHandler>,
    room: u64,
    channel: u64,
    joined: bool,
    r: Result<(), RecordError>,
    after: Map<u64, VoiceHandler>,
) -> bool {
    if before.contains_key(room) {
        r == Err::<(), RecordError>(RecordError::AlreadyActive) && after == before
    } else if !joined {
        r == Err::<(), RecordError>(RecordError::ConnectionFailure) && after == before
    } else {
        &&& r == Ok::<(), RecordError>(())
        &&& after == before.insert(room, after[room])
        &&& after[room].channel() == channel
        &&& after[room].pcm() == Seq::<u8>::empty()
        &&& !after[room].is_sealed()
    }
}

/// What `stop` does: the result and the registry after it, from the registry
/// before it.
pub open spec fn stop_post(
    before: Map<u64, VoiceHandler>,
    room: u64,
    r: Result<Vec<u8>, RecordError>,
    after: Map<u64, VoiceHandler>,
) -> bool {
    if !before.contains_key(room) {
        r == Err::<Vec<u8>, RecordError>(RecordError::NotActive) && after == before
    } else {
        let samples = pcm_samples(before[room].pcm());
        &&& after == before.remove(room)
        &&& !fits_wav(samples.len() as int) ==> r == Err::<Vec<u8>, RecordError>(
            RecordError::EncodingFailure,
        )
        &&& fits_wav(samples.len() as int) ==> r is Ok
        &&& r matches Ok(w) ==> w@ == wav_file(2, 48000, samples)
        &&& r matches Err(e) ==> e == RecordError::EncodingFailure
    }
}

/// Every recording in `m` still takes writes.
pub open spec fn all_open(m: Map<u64, VoiceHandler>) -> bool {
    forall|room: u64| #[trigger] m.contains_key(room) ==> !m[room].is_sealed()
}

/// Registering an open recording, or removing any, keeps every recording open.
pub proof fn lemma_open_sessions_kept(m: Map<u64, VoiceHandler>, room: u64, h: VoiceHandler)
    requires
        all_open(m),
    ensures
        !h.is_sealed() ==> all_open(m.insert(room, h)),
        all_open(m.remove(room)),
{
    if !h.is_sealed() {
        assert forall|k: u64| #[trigger] m.insert(room, h).contains_key(k) implies !m.insert(
            room,
            h,
        )[k].is_sealed() by {
            if k != room {
                assert(m.contains_key(k));
            }
        }
    }
    assert forall|k: u64| #[trigger] m.remove(room).contains_key(k) implies !m.remove(
        room,
    )[k].is_sealed() by {
        assert(m.contains_key(k));
    }
}

/// The rooms being recorded.
pub struct State {
    record_channels: DashMap<u64, VoiceHandler>,
}

impl State {
    /// Each room's recording.
    pub closed spec fn sessions(&self) -> Map<u64, VoiceHandler> {
        room_map(self.record_channels)
    }

    /// Every registered recording still takes writes.
    pub open spec fn wf(&self) -> bool {
        all_open(self.sessions())
    }

    /// A registry with no recordings.
    pub fn new() -> (r: Self)
        ensures
            r.sessions() == Map::<u64, VoiceHandler>::empty(),
            r.wf(),
    {
        State { record_channels: rooms_new() }
    }

    /// Whether `room` is being recorded.
    pub fn is_recording(&self, room: u64) -> (r: bool)
        ensures
            r == self.sessions().contains_key(room),
    {
        rooms_contain(&self.record_channels, room)
    }

    /// Starts recording `room` from `channel`, once the voice connection was
    /// attempted with outcome `joined`. A room already recorded is left as it
    /// is; a failed join registers nothing.
    pub fn start(&mut self, room: u64, channel: u64, joined: bool) -> (r: Result<(), RecordError>)
        requires
            old(self).wf(),
        ensures
            final(self).wf(),
            start_post(old(self).sessions(), room, channel, joined, r, final(self).sessions()),
    {
        if rooms_contain(&self.record_channels, room) {
            return Err(RecordError::AlreadyActive);
        }
        if !joined {
            return Err(RecordError::ConnectionFailure);
        }
        let handler = VoiceHandler::new(channel);
        let _ = rooms_insert(&mut self.record_channels, room, handler);
        proof {
            lemma_open_sessions_kept(old(self).sessions(), room, handler);
        }
        Ok(())
    }

    /// Delivers one tick to `room`'s recording, if there is one: the mixed
    /// frame is appended to it. Returns whether the room is being recorded.
    pub fn record_tick(&mut self, room: u64, voices: &Vec<Option<Vec<i16>>>) -> (r: bool)
        requires
            old(self).wf(),
        ensures
            final(self).wf(),
            r == old(self).sessions().contains_key(room),
            !r ==> final(self).sessions() == old(self).sessions(),
            r ==> {
                let h = final(self).sessions()[room];
                &&& final(self).sessions() == old(self).sessions().insert(room, h)
                &&& h.channel() == old(self).sessions()[room].channel()
                &&& h.pcm() == old(self).sessions()[room].pcm() + pcm_bytes(mixed_frame(voices@))
                &&& !h.is_sealed()
            },
    {
        match rooms_remove(&mut self.record_channels, room) {
            None => {
                assert(self.sessions() =~= old(self).sessions());
                false
            },
            Some(handler) => {
                let mut handler = handler;
                let _ = handler.act(voices);
                let _ = rooms_insert(&mut self.record_channels, room, handler);
                proof {
                    assert(self.sessions() =~= old(self).sessions().insert(room, handler));
                    lemma_open_sessions_kept(old(self).sessions(), room, handler);
                }
                true
            },
        }
    }

    /// Stops recording `room`: its entry is removed, its PCM drained and
    /// encoded as a 2-channel, 48000 Hz, 16-bit WAV file. The entry is removed
    /// whether or not encoding succeeds.
    pub fn stop(&mut self, room: u64) -> (r: Result<Vec<u8>, RecordError>)
        requires
            old(self).wf(),
        ensures
            final(self).wf(),
            stop_post(old(self).sessions(), room, r, final(self).sessions()),
    {
        match rooms_remove(&mut self.record_channels, room) {
            None => {
                assert(self.sessions() =~= old(self).sessions());
                Err(RecordError::NotActive)
            },
            Some(handler) => {
                let mut handler = handler;
                let pcm = handler.finish();
                proof {
                    lemma_open_sessions_kept(old(self).sessions(), room, old(self).sessions()[room]);
                }
                match create_wav(&pcm) {
                    Ok(w) => Ok(w),
                    Err(_) => Err(RecordError::EncodingFailure),
                }
            },
        }
    }
}

/// A second `start` of a room that a first `start` left recording reports
/// `AlreadyActive`, and the room keeps its one recording, unchanged.
pub proof fn lemma_start_twice(
    m0: Map<u64, VoiceHandler>,
    m1: Map<u64, VoiceHandler>,
    m2: Map<u64, VoiceHandler>,
    room: u64,
    c1: u64,
    c2: u64,
    j1: bool,
    j2: bool,
    r1: Result<(), RecordError>,
    r2: Result<(), RecordError>,
)
    requires
        start_post(m0, room, c1, j1, r1, m1),
        r1 is Ok,
        start_post(m1, room, c2, j2, r2, m2),
    ensures
        r2 == Err::<(), RecordError>(RecordError::AlreadyActive),
        m2 == m1,
        m2.contains_key(room),
{
    if !m0.contains_key(room) && j1 {
        assert(m1.contains_key(room));
    }
}

/// `stop` of a room with no recording reports `NotActive` and changes nothing.
pub proof fn lemma_stop_idle(
    m0: Map<u64, VoiceHandler>,
    m1: Map<u64, VoiceHandler>,
    room: u64,
    r: Result<Vec<u8>, RecordError>,
)
    requires
        !m0.contains_key(room),
        stop_post(m0, room, r, m1),
    ensures
        r == Err::<Vec<u8>, RecordError>(RecordError::NotActive),
        m1 == m0,
{
}

} // verus!
