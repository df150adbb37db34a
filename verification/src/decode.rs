//! The rules of the decoder: what it expects of a stream, when it builds
//! its resampler anew, and how samples and bytes are cut into pieces.

use crate::text::{chars_of, has_run, contains_run};
use crate::tone::CHUNK_SIZE;
use vstd::prelude::*;

verus! {

/// The length of the resampler's sinc filter.
pub const RESAMPLER_SINC_LEN: usize = 256;

/// The oversampling factor of the resampler.
pub const RESAMPLER_OVERSAMPLING: usize = 256;

/// What went wrong when the next packet was asked for.
#[derive(Debug, Clone, Copy, PartialEq, Eq, Structural)]
pub enum PacketFault {
    /// The stream began anew and asks for a new decoder.
    ResetRequired,
    /// The bytes ran out.
    Io,
    /// Anything else.
    Other,
}

/// What the decoder does on a fault.
#[derive(Debug, Clone, Copy, PartialEq, Eq, Structural)]
pub enum FaultAction {
    /// Build the decoder anew, forget the resampler and the samples that
    /// wait, and go on.
    Rebuild,
    /// Stop without a word.
    Stop,
    /// Report the fault and stop.
    ReportAndStop,
}

/// The bytes of one chunk from the fetcher, and how far they were read.
pub struct ByteCursor {
    pub buffer: Vec<u8>,
    pub pos: usize,
}

/// What the decoder does on a fault.
pub open spec fn action_on_fault(fault: PacketFault) -> FaultAction {
    match fault {
        PacketFault::ResetRequired => FaultAction::Rebuild,
        PacketFault::Io => FaultAction::Stop,
        PacketFault::Other => FaultAction::ReportAndStop,
    }
}

/// The kind of file that a content type stands for, if it tells: `mp3`
/// for MPEG audio.
pub open spec fn hint_of(content_type: Option<Seq<char>>) -> Option<Seq<char>> {
    if content_type is Some && contains_run(content_type->0, "audio/mpeg"@) {
        Some("mp3"@)
    } else {
        None
    }
}

/// How long an alert stays active: the seconds that its header gives, and
/// none where they are below zero.
pub open spec fn purge_secs_of(valid_secs: i64) -> u64 {
    if valid_secs < 0 {
        0
    } else {
        valid_secs as u64
    }
}

/// Decides what the decoder does on a fault.
pub fn on_packet_fault(fault: PacketFault) -> (action: FaultAction)
    ensures
        action == action_on_fault(fault),
{
    match fault {
        PacketFault::ResetRequired => FaultAction::Rebuild,
        PacketFault::Io => FaultAction::Stop,
        PacketFault::Other => FaultAction::ReportAndStop,
    }
}

/// The kind of file that a content type stands for, if it tells.
pub fn content_type_hint(content_type: Option<&str>) -> (r: Option<&'static str>)
    ensures
        match r {
            Some(h) => hint_of(
                match content_type {
                    Some(c) => Some(c@),
                    None => None,
                },
            ) == Some(h@),
            None => hint_of(
                match content_type {
                    Some(c) => Some(c@),
                    None => None,
                },
            ) is None,
        },
{
    match content_type {
        Some(c) => {
            let v = chars_of(c);
            let needle = chars_of("audio/mpeg");
            if has_run(&v, &needle) {
                Some("mp3")
            } else {
                None
            }
        },
        None => None,
    }
}

/// Tells whether the resampler must be built anew for audio at
/// `source_rate`: whenever that is not the rate it was built for.
pub fn resampler_is_stale(built_for: Option<u32>, source_rate: u32) -> (stale: bool)
    ensures
        stale == (built_for != Some(source_rate)),
{
    match built_for {
        Some(rate) => rate != source_rate,
        None => true,
    }
}

/// How long an alert stays active, from the seconds that its header gives.
pub fn purge_seconds(valid_secs: i64) -> (secs: u64)
    ensures
        secs == purge_secs_of(valid_secs),
{
    if valid_secs < 0 {
        0
    } else {
        valid_secs as u64
    }
}

/// Cuts the next chunk off the samples that wait, where a whole chunk
/// waits. What is left stays for the next packet.
pub fn take_chunk<T>(waiting: &mut Vec<T>) -> (chunk: Option<Vec<T>>)
    ensures
        match chunk {
            Some(c) => old(waiting)@.len() >= CHUNK_SIZE && c@ == old(waiting)@.take(
                CHUNK_SIZE as int,
            ) && final(waiting)@ == old(waiting)@.skip(CHUNK_SIZE as int),
            None => old(waiting)@.len() < CHUNK_SIZE && final(waiting)@ == old(waiting)@,
        },
{
    if waiting.len() < CHUNK_SIZE {
        return None;
    }
    let mut rest = waiting.split_off(CHUNK_SIZE);
    core::mem::swap(waiting, &mut rest);
    proof {
        assert(rest@ =~= old(waiting)@.take(CHUNK_SIZE as int));
        assert(waiting@ =~= old(waiting)@.skip(CHUNK_SIZE as int));
    }
    Some(rest)
}

/// How many whole chunks wait among `waiting` samples.
pub fn chunks_ready(waiting: usize) -> (n: usize)
    ensures
        n == waiting / CHUNK_SIZE,
        n * CHUNK_SIZE <= waiting < (n + 1) * CHUNK_SIZE,
{
    waiting / CHUNK_SIZE
}

impl ByteCursor {
    /// The bytes that have not been read yet.
    pub open spec fn unread(self) -> Seq<u8> {
        if self.pos <= self.buffer@.len() {
            self.buffer@.skip(self.pos as int)
        } else {
            Seq::empty()
        }
    }

    /// A cursor without bytes, at the start of its empty buffer.
    pub fn new() -> (c: Self)
        ensures
            c.buffer@ == Seq::<u8>::empty(),
            c.pos == 0,
            c.unread() == Seq::<u8>::empty(),
    {
        let c = ByteCursor { buffer: Vec::new(), pos: 0 };
        assert(c.unread() =~= Seq::<u8>::empty());
        c
    }

    /// Tells whether every byte has been read, so that the next chunk is
    /// to be fetched.
    pub fn is_spent(&self) -> (r: bool)
        ensures
            r == (self.unread().len() == 0),
    {
        self.pos >= self.buffer.len()
    }

    /// Takes in the next chunk of bytes. What was not read of the last one
    /// is dropped.
    pub fn refill(&mut self, chunk: Vec<u8>)
        ensures
            final(self).unread() == chunk@,
    {
        self.buffer = chunk;
        self.pos = 0;
        assert(self.unread() =~= chunk@);
    }

    /// Reads up to `want` bytes: as many as are wanted, or all that are
    /// left, whichever is less.
    pub fn read(&mut self, want: usize) -> (bytes: Vec<u8>)
        ensures
            bytes@.len() == if want <= old(self).unread().len() {
                want as int
            } else {
                old(self).unread().len() as int
            },
            bytes@ == old(self).unread().take(bytes@.len() as int),
            final(self).unread() == old(self).unread().skip(bytes@.len() as int),
    {
        let mut bytes: Vec<u8> = Vec::new();
        if self.pos >= self.buffer.len() {
            assert(self.unread() =~= Seq::<u8>::empty());
            return bytes;
        }
        let left = self.buffer.len() - self.pos;
        let n = if want <= left {
            want
        } else {
            left
        };
        let start = self.pos;
        let mut i: usize = 0;
        while i < n
            invariant
                i <= n,
                start + n <= self.buffer.len(),
                bytes@ == self.buffer@.subrange(start as int, start + i),
            decreases n - i,
        {
            bytes.push(self.buffer[start + i]);
            assert(self.buffer@.subrange(start as int, start + i + 1) =~= self.buffer@.subrange(
                start as int,
                start + i,
            ).push(self.buffer@[start + i]));
            i += 1;
        }
        self.pos = start + n;
        proof {
            assert(bytes@ =~= old(self).unread().take(n as int));
            assert(self.unread() =~= old(self).unread().skip(n as int));
        }
        bytes
    }
}

} // verus!
