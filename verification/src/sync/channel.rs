//! The byte channel a sync runs over, and frame reading and writing on it.
//!
//! Front ends bridge their own transport (TCP, Bluetooth, WebRTC, ...) to
//! `SyncChannel`; the library never depends on a network stack.

use vstd::prelude::*;
use crate::sync::frame::{be_bytes, be_value, encode_frame, frame_length};
use crate::sync::protocol::{IoErrorKind, SyncError, MAX_FRAME_SIZE};

verus! {

/// What a read of `n` bytes gave: the bytes, or `None` when it failed.
pub open spec fn read_outcome(r: Result<Vec<u8>, SyncError>) -> Option<Seq<u8>> {
    match r {
        Ok(v) => Some(v@),
        Err(_) => None,
    }
}

/// A transport-agnostic duplex byte channel.
pub trait SyncChannel {
    /// Writes all of `bytes`.
    fn write_all(&mut self, bytes: &[u8]) -> Result<(), SyncError>;

    /// Reads exactly `n` bytes.
    fn read_exact(&mut self, n: usize) -> (r: Result<Vec<u8>, SyncError>)
        ensures
            r matches Ok(v) ==> v@.len() == n;

    /// Pushes out what was written.
    fn flush(&mut self) -> Result<(), SyncError>;

    /// Ends the exchange; by default this flushes the channel.
    fn close(&mut self) -> Result<(), SyncError> {
        self.flush()
    }
}

/// A channel together with the record of what the library asked of it:
/// every write (the bytes handed over, and whether the channel accepted
/// them) and every read (the number of bytes asked for, and the bytes it
/// gave, `None` when it failed).
pub struct LoggedChannel<C> {
    pub inner: C,
    pub writes: Ghost<Seq<(Seq<u8>, bool)>>,
    pub reads: Ghost<Seq<(nat, Option<Seq<u8>>)>>,
}

impl<C: SyncChannel> LoggedChannel<C> {
    /// `inner`, with nothing asked of it yet.
    pub fn new(inner: C) -> (c: Self)
        ensures
            c.inner == inner,
            c.writes@.len() == 0,
            c.reads@.len() == 0,
    {
        LoggedChannel { inner, writes: Ghost(Seq::empty()), reads: Ghost(Seq::empty()) }
    }

    /// Hands `bytes` to the channel as one write.
    pub fn write_all(&mut self, bytes: &[u8]) -> (r: Result<(), SyncError>)
        ensures
            final(self).writes@ == old(self).writes@.push((bytes@, r is Ok)),
            final(self).reads@ == old(self).reads@,
    {
        let r = self.inner.write_all(bytes);
        proof {
            self.writes@ = self.writes@.push((bytes@, r is Ok));
        }
        r
    }

    /// Asks the channel for exactly `n` bytes.
    pub fn read_exact(&mut self, n: usize) -> (r: Result<Vec<u8>, SyncError>)
        ensures
            r matches Ok(v) ==> v@.len() == n,
            final(self).reads@ == old(self).reads@.push((n as nat, read_outcome(r))),
            final(self).writes@ == old(self).writes@,
    {
        let r = self.inner.read_exact(n);
        proof {
            self.reads@ = self.reads@.push((n as nat, read_outcome(r)));
        }
        r
    }
}

/// Writes `payload` as one frame; the result is the number of bytes written.
/// A payload above `MAX_FRAME_SIZE` is refused with `InvalidInput` before
/// anything is handed to the channel; any other payload is handed to the
/// channel as one write of its frame (big-endian length, then the payload),
/// and the result is `Ok` exactly when that write succeeded.
pub fn write_frame<C: SyncChannel>(channel: &mut LoggedChannel<C>, payload: &[u8]) -> (r: Result<usize, SyncError>)
    ensures
        payload@.len() > MAX_FRAME_SIZE ==> r == Err::<usize, SyncError>(SyncError::Io(IoErrorKind::InvalidInput))
            && *final(channel) == *old(channel),
        payload@.len() <= MAX_FRAME_SIZE ==> final(channel).writes@ == old(channel).writes@.push(
            (be_bytes(payload@.len() as u32) + payload@, r is Ok),
        ) && final(channel).reads@ == old(channel).reads@,
        r matches Ok(n) ==> n == payload@.len() + 4 && payload@.len() <= MAX_FRAME_SIZE,
{
    let frame = match encode_frame(payload) {
        Ok(f) => f,
        Err(e) => return Err(e),
    };
    assert(frame@.len() == payload@.len() + 4);
    match channel.write_all(frame.as_slice()) {
        Ok(()) => Ok(frame.len()),
        Err(e) => Err(e),
    }
}

/// Reads one frame: its payload, and the number of bytes it took. It asks
/// the channel for the 4 header bytes; a header announcing more than
/// `MAX_FRAME_SIZE` bytes is refused with `InvalidData` and the payload is
/// not read; otherwise it asks for the announced number of bytes.
pub fn read_frame<C: SyncChannel>(channel: &mut LoggedChannel<C>) -> (r: Result<(Vec<u8>, usize), SyncError>)
    ensures
        r matches Ok((p, used)) ==> p@.len() <= MAX_FRAME_SIZE && used == p@.len() + 4,
        final(channel).writes@ == old(channel).writes@,
        ({
            let start = old(channel).reads@.len();
            let log = final(channel).reads@;
            &&& log.len() > start
            &&& log.take(start as int) == old(channel).reads@
            &&& log[start as int].0 == 4
            &&& match log[start as int].1 {
                None => log.len() == start + 1 && r is Err,
                Some(h) => {
                    let len = be_value(h[0], h[1], h[2], h[3]);
                    if len > MAX_FRAME_SIZE {
                        log.len() == start + 1 && r == Err::<(Vec<u8>, usize), SyncError>(
                            SyncError::Io(IoErrorKind::InvalidData),
                        )
                    } else {
                        &&& log.len() == start + 2
                        &&& log[start + 1int].0 == len
                        &&& match log[start + 1int].1 {
                            None => r is Err,
                            Some(body) => match r {
                                Ok((p, used)) => p@ == body && used == len + 4,
                                Err(_) => false,
                            },
                        }
                    }
                },
            }
        }),
{
    let ghost before = channel.reads@;
    let header = match channel.read_exact(4) {
        Ok(h) => h,
        Err(e) => {
            assert(channel.reads@.take(before.len() as int) =~= before);
            return Err(e);
        },
    };
    assert(channel.reads@.take(before.len() as int) =~= before);
    let len = match frame_length([header[0], header[1], header[2], header[3]]) {
        Ok(len) => len,
        Err(e) => return Err(e),
    };
    let ghost after_header = channel.reads@;
    let payload = match channel.read_exact(len) {
        Ok(p) => p,
        Err(e) => {
            assert(channel.reads@.take(before.len() as int) =~= before);
            assert(channel.reads@[before.len() as int] == after_header[before.len() as int]);
            return Err(e);
        },
    };
    assert(channel.reads@.take(before.len() as int) =~= before);
    assert(channel.reads@[before.len() as int] == after_header[before.len() as int]);
    Ok((payload, len + 4))
}

} // verus!
