use vstd::prelude::*;
use crate::codec::{next_chunk_len, CHUNK_SIZE};
use crate::registry::saturate;

verus! {

/// What the send side of a request does next.
#[derive(Clone, Copy, Debug, PartialEq, Eq, Structural)]
pub enum SendAction {
    /// Write this many payload bytes.
    Write(u64),
    /// Close the send side; where `wait_stopped`, then wait for the peer to
    /// acknowledge the close before recording completion.
    Finish { wait_stopped: bool },
}

/// The payload writes that send `remaining` bytes: full chunks, then the rest.
pub open spec fn chunk_plan(remaining: nat) -> Seq<nat>
    decreases remaining,
{
    if remaining == 0 {
        seq![]
    } else if remaining <= CHUNK_SIZE {
        seq![remaining]
    } else {
        seq![CHUNK_SIZE as nat] + chunk_plan((remaining - CHUNK_SIZE) as nat)
    }
}

pub open spec fn plan_sum(s: Seq<nat>) -> nat
    decreases s.len(),
{
    if s.len() == 0 {
        0
    } else {
        s[0] + plan_sum(s.drop_first())
    }
}

/// The writes of an upload carry exactly its size, each between one byte and
/// one chunk.
pub proof fn lemma_chunk_plan_exact(remaining: nat)
    ensures
        plan_sum(chunk_plan(remaining)) == remaining,
        forall|k: int| 0 <= k < chunk_plan(remaining).len() ==> 0 < #[trigger] chunk_plan(remaining)[k] <= CHUNK_SIZE,
    decreases remaining,
{
    if remaining > CHUNK_SIZE {
        let rest = (remaining - CHUNK_SIZE) as nat;
        lemma_chunk_plan_exact(rest);
        let p = chunk_plan(remaining);
        assert(p.drop_first() =~= chunk_plan(rest));
        assert(plan_sum(p) == p[0] + plan_sum(p.drop_first()));
        assert forall|k: int| 0 <= k < p.len() implies 0 < #[trigger] p[k] <= CHUNK_SIZE by {
            if k > 0 {
                assert(p[k] == chunk_plan(rest)[k - 1]);
            }
        }
    } else if remaining > 0 {
        let p = chunk_plan(remaining);
        assert(p.drop_first() =~= Seq::<nat>::empty());
        assert(plan_sum(p.drop_first()) == 0);
        assert(plan_sum(p) == p[0] + plan_sum(p.drop_first()));
    }
}

/// The send side of one request: `total` payload bytes after the header.
pub struct Upload {
    total: u64,
    sent: u64,
}

impl Upload {
    pub closed spec fn total(&self) -> nat {
        self.total as nat
    }

    pub closed spec fn sent(&self) -> nat {
        self.sent as nat
    }

    pub open spec fn wf(&self) -> bool {
        self.sent() <= self.total()
    }

    pub open spec fn remaining(&self) -> nat {
        (self.total() - self.sent()) as nat
    }

    pub fn new(total: u64) -> (r: Upload)
        ensures
            r.wf(),
            r.total() == total,
            r.sent() == 0,
    {
        Upload { total, sent: 0 }
    }

    pub fn sent_bytes(&self) -> (r: u64)
        ensures
            r == self.sent(),
    {
        self.sent
    }

    /// The next write of the plan, or the close once all bytes are out. The
    /// close waits for the peer's acknowledgment only when there was payload.
    pub fn next_action(&self) -> (r: SendAction)
        requires
            self.wf(),
        ensures
            self.remaining() > 0 ==> r == SendAction::Write(chunk_plan(self.remaining())[0] as u64),
            self.remaining() == 0 ==> r == (SendAction::Finish { wait_stopped: self.total() > 0 }),
    {
        let remaining = self.total - self.sent;
        if remaining > 0 {
            SendAction::Write(next_chunk_len(remaining))
        } else {
            SendAction::Finish { wait_stopped: self.total > 0 }
        }
    }

    /// Records that the write of `n` bytes planned next went out; any other
    /// count is refused and changes nothing.
    pub fn on_written(&mut self, n: u64) -> (r: bool)
        requires
            old(self).wf(),
        ensures
            final(self).wf(),
            final(self).total() == old(self).total(),
            r <==> old(self).remaining() > 0 && n == chunk_plan(old(self).remaining())[0],
            r ==> final(self).sent() == old(self).sent() + n,
            r ==> chunk_plan(final(self).remaining()) == chunk_plan(old(self).remaining()).drop_first(),
            !r ==> final(self).sent() == old(self).sent(),
    {
        let remaining = self.total - self.sent;
        if remaining > 0 && n == next_chunk_len(remaining) {
            self.sent = self.sent + n;
            proof {
                let p = chunk_plan(old(self).remaining());
                if old(self).remaining() > CHUNK_SIZE {
                    assert(p.drop_first() =~= chunk_plan(self.remaining()));
                } else {
                    assert(p.drop_first() =~= Seq::<nat>::empty());
                }
            }
            true
        } else {
            false
        }
    }
}

/// Whether a request for `download` bytes has a response phase: a download
/// size of zero means no response is read and no receive record is made.
pub fn expects_response(download: u64) -> (r: bool)
    ensures
        r <==> download > 0,
{
    download > 0
}

pub open spec fn len_sum(s: Seq<usize>) -> int
    decreases s.len(),
{
    if s.len() == 0 {
        0
    } else {
        len_sum(s.drop_last()) + s.last()
    }
}

/// Bytes delivered by one batched read that filled the first `filled` of the
/// buffers whose lengths are `lens` (saturating).
pub fn batch_len(lens: &Vec<usize>, filled: usize) -> (r: u64)
    requires
        filled <= lens@.len(),
    ensures
        r == saturate(len_sum(lens@.take(filled as int))),
{
    let mut total: u64 = 0;
    let mut i: usize = 0;
    while i < filled
        invariant
            i <= filled <= lens@.len(),
            total == saturate(len_sum(lens@.take(i as int))),
            len_sum(lens@.take(i as int)) >= 0,
        decreases filled - i,
    {
        proof {
            assert(lens@.take(i + 1).drop_last() =~= lens@.take(i as int));
        }
        total = total.saturating_add(lens[i] as u64);
        i = i + 1;
    }
    total
}

} // verus!
