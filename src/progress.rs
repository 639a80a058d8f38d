use vstd::prelude::*;

verus! {

/// Which half of a request a stream carries.
#[derive(Clone, Copy, Debug, PartialEq, Eq, Structural)]
pub enum Direction {
    /// The request header and upload payload.
    Send,
    /// The response bytes.
    Receive,
}

/// Why a progress update was refused.
#[derive(Clone, Copy, Debug, PartialEq, Eq, Structural)]
pub enum StreamError {
    /// No open stream has this identity.
    UnknownStream,
    /// The identity is already in use (open, or finished and not yet flushed).
    DuplicateStream,
    /// The update would carry the stream past its expected total.
    Overrun,
    /// The stream ended before its expected total was transferred.
    Incomplete,
    /// The end time lies before the recorded first-byte time.
    ClockBackwards,
}

/// Progress of one open stream. Times are microseconds since the stream's start.
#[derive(Clone, Copy, Debug)]
pub struct StreamProgress {
    pub direction: Direction,
    /// Bytes transferred so far.
    pub transferred: u64,
    /// Bytes expected in all.
    pub total: u64,
    /// Bytes transferred since the last statistics tick.
    pub unreported: u64,
    /// Time of the first response byte (receive side only).
    pub first_byte: Option<u64>,
    /// Time at which the stream finished.
    pub elapsed: Option<u64>,
}

impl StreamProgress {
    pub open spec fn wf(&self) -> bool {
        &&& self.transferred <= self.total
        &&& self.unreported <= self.transferred
        &&& self.direction == Direction::Send ==> self.first_byte.is_none()
        &&& self.elapsed matches Some(e) ==> {
            &&& self.transferred == self.total
            &&& self.first_byte matches Some(f) ==> f <= e
            &&& self.direction == Direction::Receive ==> self.first_byte.is_some()
        }
    }

    pub open spec fn is_finished(&self) -> bool {
        self.elapsed.is_some()
    }

    pub open spec fn new_spec(direction: Direction, total: u64) -> StreamProgress {
        StreamProgress { direction, transferred: 0, total, unreported: 0, first_byte: None, elapsed: None }
    }

    /// A fresh record for a stream that expects `total` bytes.
    pub fn new(direction: Direction, total: u64) -> (r: StreamProgress)
        ensures
            r.wf(),
            r == Self::new_spec(direction, total),
            r.direction == direction,
            r.total == total,
            r.transferred == 0,
            r.unreported == 0,
            r.first_byte.is_none(),
            r.elapsed.is_none(),
    {
        StreamProgress {
            direction,
            transferred: 0,
            total,
            unreported: 0,
            first_byte: None,
            elapsed: None,
        }
    }

    /// Counts `n` more bytes; refused where that would pass the expected total.
    pub fn on_bytes(&mut self, n: u64) -> (r: Result<(), StreamError>)
        requires
            old(self).wf(),
            !old(self).is_finished(),
        ensures
            final(self).wf(),
            !final(self).is_finished(),
            r is Err <==> old(self).transferred + n > old(self).total,
            r is Err ==> r == Err::<(), StreamError>(StreamError::Overrun) && *final(self) == *old(self),
            r is Ok ==> *final(self) == (StreamProgress {
                transferred: (old(self).transferred + n) as u64,
                unreported: (old(self).unreported + n) as u64,
                ..*old(self)
            }),
    {
        if n > self.total - self.transferred {
            return Err(StreamError::Overrun);
        }
        self.transferred = self.transferred + n;
        self.unreported = self.unreported + n;
        Ok(())
    }

    /// Records the arrival of the first response byte at `at`; later calls
    /// keep the first time.
    pub fn on_first_byte(&mut self, at: u64)
        requires
            old(self).wf(),
            !old(self).is_finished(),
            old(self).direction == Direction::Receive,
        ensures
            final(self).wf(),
            !final(self).is_finished(),
            *final(self) == (StreamProgress {
                first_byte: if old(self).first_byte is None { Some(at) } else { old(self).first_byte },
                ..*old(self)
            }),
    {
        if self.first_byte.is_none() {
            self.first_byte = Some(at);
        }
    }

    /// Closes the record at `at`. A receive record that saw no byte takes `at`
    /// as its first-byte time.
    pub fn finish(&mut self, at: u64) -> (r: Result<(), StreamError>)
        requires
            old(self).wf(),
            !old(self).is_finished(),
        ensures
            final(self).wf(),
            r is Err ==> *final(self) == *old(self),
            old(self).transferred < old(self).total ==> r == Err::<(), StreamError>(StreamError::Incomplete),
            old(self).transferred == old(self).total && (old(self).first_byte matches Some(f) && at < f)
                ==> r == Err::<(), StreamError>(StreamError::ClockBackwards),
            old(self).transferred == old(self).total && !(old(self).first_byte matches Some(f) && at < f)
                ==> r is Ok,
            r is Ok ==> *final(self) == (StreamProgress {
                elapsed: Some(at),
                first_byte: if old(self).direction == Direction::Receive && old(self).first_byte is None {
                    Some(at)
                } else {
                    old(self).first_byte
                },
                ..*old(self)
            }),
    {
        if self.transferred < self.total {
            return Err(StreamError::Incomplete);
        }
        if let Some(f) = self.first_byte {
            if at < f {
                return Err(StreamError::ClockBackwards);
            }
        }
        if self.direction == Direction::Receive && self.first_byte.is_none() {
            self.first_byte = Some(at);
        }
        self.elapsed = Some(at);
        Ok(())
    }

    /// Hands out the bytes counted since the last tick and starts a new count.
    pub fn take_unreported(&mut self) -> (r: u64)
        requires
            old(self).wf(),
        ensures
            final(self).wf(),
            r == old(self).unreported,
            *final(self) == (StreamProgress { unreported: 0, ..*old(self) }),
    {
        let r = self.unreported;
        self.unreported = 0;
        r
    }
}

} // verus!
