use vstd::prelude::*;
use crate::progress::{Direction, StreamError, StreamProgress};

verus! {

/// One stream's identity and progress.
#[derive(Clone, Copy, Debug)]
pub struct StreamRecord {
    pub id: u64,
    pub progress: StreamProgress,
}

/// The streams that are open, and those that finished since the last tick.
pub struct Registry {
    active: Vec<StreamRecord>,
    finished: Vec<StreamRecord>,
    carried_sent: u64,
    carried_received: u64,
}

/// What one statistics tick takes out of the registry.
pub struct IntervalSample {
    /// Upload bytes counted since the previous tick (saturating).
    pub sent: u64,
    /// Response bytes counted since the previous tick (saturating).
    pub received: u64,
    /// The streams that finished since the previous tick.
    pub finished: Vec<StreamRecord>,
}

/// Bytes counted since the last tick over the records of `s` in direction `d`.
pub open spec fn unreported_sum(s: Seq<StreamRecord>, d: Direction) -> int
    decreases s.len(),
{
    if s.len() == 0 {
        0
    } else {
        unreported_sum(s.drop_last(), d) + if s.last().progress.direction == d {
            s.last().progress.unreported as int
        } else {
            0
        }
    }
}

pub open spec fn saturate(x: int) -> u64 {
    if x > u64::MAX {
        u64::MAX
    } else {
        x as u64
    }
}

/// `s` with every record's count since the last tick set to zero.
pub open spec fn reported(s: Seq<StreamRecord>) -> Seq<StreamRecord> {
    s.map_values(|r: StreamRecord| StreamRecord { progress: StreamProgress { unreported: 0, ..r.progress }, ..r })
}

impl Registry {
    pub closed spec fn active(&self) -> Seq<StreamRecord> {
        self.active@
    }

    pub closed spec fn finished(&self) -> Seq<StreamRecord> {
        self.finished@
    }

    /// Bytes of abandoned streams not yet reported, per direction (saturating).
    pub closed spec fn carried(&self, d: Direction) -> u64 {
        match d {
            Direction::Send => self.carried_sent,
            Direction::Receive => self.carried_received,
        }
    }

    pub open spec fn is_active(&self, id: u64) -> bool {
        exists|i: int| 0 <= i < self.active().len() && self.active()[i].id == id
    }

    pub open spec fn holds(&self, id: u64) -> bool {
        self.is_active(id) || exists|j: int| 0 <= j < self.finished().len() && self.finished()[j].id == id
    }

    pub open spec fn wf(&self) -> bool {
        &&& forall|i: int| 0 <= i < self.active().len() ==> {
            &&& (#[trigger] self.active()[i]).progress.wf()
            &&& !self.active()[i].progress.is_finished()
        }
        &&& forall|j: int| 0 <= j < self.finished().len() ==> {
            &&& (#[trigger] self.finished()[j]).progress.wf()
            &&& self.finished()[j].progress.is_finished()
        }
        &&& forall|i: int, k: int|
            0 <= i < self.active().len() && 0 <= k < self.active().len() && i != k
                ==> #[trigger] self.active()[i].id != #[trigger] self.active()[k].id
        &&& forall|j: int, k: int|
            0 <= j < self.finished().len() && 0 <= k < self.finished().len() && j != k
                ==> #[trigger] self.finished()[j].id != #[trigger] self.finished()[k].id
        &&& forall|i: int, j: int|
            0 <= i < self.active().len() && 0 <= j < self.finished().len()
                ==> #[trigger] self.active()[i].id != #[trigger] self.finished()[j].id
    }

    /// An empty registry.
    pub fn new() -> (r: Registry)
        ensures
            r.wf(),
            r.active().len() == 0,
            r.finished().len() == 0,
            r.carried(Direction::Send) == 0,
            r.carried(Direction::Receive) == 0,
    {
        Registry { active: Vec::new(), finished: Vec::new(), carried_sent: 0, carried_received: 0 }
    }

    /// Number of open streams.
    pub fn active_len(&self) -> (r: usize)
        ensures
            r == self.active().len(),
    {
        self.active.len()
    }

    /// Number of streams finished since the last tick.
    pub fn finished_len(&self) -> (r: usize)
        ensures
            r == self.finished().len(),
    {
        self.finished.len()
    }

    /// Position of the open stream `id`.
    pub fn position(&self, id: u64) -> (r: Option<usize>)
        ensures
            r is None <==> !self.is_active(id),
            r matches Some(i) ==> i < self.active().len() && self.active()[i as int].id == id,
    {
        let mut i: usize = 0;
        while i < self.active.len()
            invariant
                i <= self.active@.len(),
                forall|k: int| 0 <= k < i ==> self.active@[k].id != id,
            decreases self.active@.len() - i,
        {
            if self.active[i].id == id {
                return Some(i);
            }
            i = i + 1;
        }
        None
    }

    fn finished_holds(&self, id: u64) -> (r: bool)
        ensures
            r <==> exists|j: int| 0 <= j < self.finished().len() && self.finished()[j].id == id,
    {
        let mut j: usize = 0;
        while j < self.finished.len()
            invariant
                j <= self.finished@.len(),
                forall|k: int| 0 <= k < j ==> self.finished@[k].id != id,
            decreases self.finished@.len() - j,
        {
            if self.finished[j].id == id {
                return true;
            }
            j = j + 1;
        }
        false
    }

    /// The progress of the open stream `id`.
    pub fn get(&self, id: u64) -> (r: Option<StreamProgress>)
        ensures
            r is None <==> !self.is_active(id),
            r matches Some(p) ==> exists|i: int|
                0 <= i < self.active().len() && self.active()[i].id == id && self.active()[i].progress == p,
    {
        match self.position(id) {
            Some(i) => Some(self.active[i].progress),
            None => None,
        }
    }

    /// Publishes a new stream `id` that expects `total` bytes in `direction`.
    pub fn open_stream(&mut self, id: u64, direction: Direction, total: u64) -> (r: Result<(), StreamError>)
        requires
            old(self).wf(),
        ensures
            final(self).wf(),
            r is Err <==> old(self).holds(id),
            final(self).carried(Direction::Send) == old(self).carried(Direction::Send),
            final(self).carried(Direction::Receive) == old(self).carried(Direction::Receive),
            r is Err ==> r == Err::<(), StreamError>(StreamError::DuplicateStream) && final(self).active() == old(self).active(),
            r is Ok ==> final(self).active() == old(self).active().push(
                StreamRecord { id, progress: StreamProgress::new_spec(direction, total) },
            ),
            final(self).finished() == old(self).finished(),
    {
        if self.position(id).is_some() || self.finished_holds(id) {
            return Err(StreamError::DuplicateStream);
        }
        let progress = StreamProgress::new(direction, total);
        self.active.push(StreamRecord { id, progress });
        Ok(())
    }

    /// Counts `n` bytes on the open stream `id`.
    pub fn on_bytes(&mut self, id: u64, n: u64) -> (r: Result<(), StreamError>)
        requires
            old(self).wf(),
        ensures
            final(self).wf(),
            final(self).finished() == old(self).finished(),
            !old(self).is_active(id) ==> r == Err::<(), StreamError>(StreamError::UnknownStream),
            final(self).carried(Direction::Send) == old(self).carried(Direction::Send),
            final(self).carried(Direction::Receive) == old(self).carried(Direction::Receive),
            r is Err ==> final(self).active() == old(self).active(),
            forall|i: int|
                0 <= i < old(self).active().len() && #[trigger] old(self).active()[i].id == id ==> {
                    let p = old(self).active()[i].progress;
                    &&& (r is Err <==> p.transferred + n > p.total)
                    &&& r is Err ==> r == Err::<(), StreamError>(StreamError::Overrun)
                    &&& r is Ok ==> final(self).active() == old(self).active().update(
                        i,
                        StreamRecord {
                            id,
                            progress: StreamProgress {
                                transferred: (p.transferred + n) as u64,
                                unreported: (p.unreported + n) as u64,
                                ..p
                            },
                        },
                    )
                },
    {
        let i = match self.position(id) {
            Some(i) => i,
            None => return Err(StreamError::UnknownStream),
        };
        let mut rec = self.active[i];
        let r = rec.progress.on_bytes(n);
        if r.is_ok() {
            self.active[i] = rec;
        }
        proof {
            assert forall|k: int| 0 <= k < old(self).active().len() && old(self).active()[k].id == id implies k == i by {
                if k != i {
                    assert(old(self).active()[k].id != old(self).active()[i as int].id);
                }
            }
        }
        r
    }

    /// Records the first response byte of the open receive stream `id` at `at`.
    pub fn on_first_byte(&mut self, id: u64, at: u64) -> (r: Result<(), StreamError>)
        requires
            old(self).wf(),
        ensures
            final(self).wf(),
            final(self).finished() == old(self).finished(),
            r is Err <==> !old(self).is_active(id),
            final(self).carried(Direction::Send) == old(self).carried(Direction::Send),
            final(self).carried(Direction::Receive) == old(self).carried(Direction::Receive),
            r is Err ==> r == Err::<(), StreamError>(StreamError::UnknownStream) && final(self).active() == old(self).active(),
            forall|i: int|
                0 <= i < old(self).active().len() && #[trigger] old(self).active()[i].id == id ==> {
                    let p = old(self).active()[i].progress;
                    final(self).active() == old(self).active().update(
                        i,
                        StreamRecord {
                            id,
                            progress: StreamProgress {
                                first_byte: if p.direction == Direction::Receive && p.first_byte is None {
                                    Some(at)
                                } else {
                                    p.first_byte
                                },
                                ..p
                            },
                        },
                    )
                },
    {
        let i = match self.position(id) {
            Some(i) => i,
            None => return Err(StreamError::UnknownStream),
        };
        let mut rec = self.active[i];
        if rec.progress.direction == Direction::Receive {
            rec.progress.on_first_byte(at);
        }
        self.active[i] = rec;
        proof {
            assert forall|k: int| 0 <= k < old(self).active().len() && old(self).active()[k].id == id implies k == i by {
                if k != i {
                    assert(old(self).active()[k].id != old(self).active()[i as int].id);
                }
            }
            assert(final(self).active() =~= old(self).active().update(i as int, rec));
        }
        Ok(())
    }

    /// Closes the open stream `id` at `at` and moves it to the finished log.
    pub fn finish(&mut self, id: u64, at: u64) -> (r: Result<(), StreamError>)
        requires
            old(self).wf(),
        ensures
            final(self).wf(),
            !old(self).is_active(id) ==> r == Err::<(), StreamError>(StreamError::UnknownStream),
            r is Err ==> final(self).active() == old(self).active() && final(self).finished() == old(self).finished(),
            final(self).carried(Direction::Send) == old(self).carried(Direction::Send),
            final(self).carried(Direction::Receive) == old(self).carried(Direction::Receive),
            forall|i: int|
                0 <= i < old(self).active().len() && #[trigger] old(self).active()[i].id == id ==> {
                    let p = old(self).active()[i].progress;
                    &&& p.transferred < p.total ==> r == Err::<(), StreamError>(StreamError::Incomplete)
                    &&& p.transferred == p.total && (p.first_byte matches Some(f) && at < f)
                        ==> r == Err::<(), StreamError>(StreamError::ClockBackwards)
                    &&& p.transferred == p.total && !(p.first_byte matches Some(f) && at < f) ==> r is Ok
                    &&& r is Ok ==> {
                        &&& final(self).active() == old(self).active().remove(i)
                        &&& final(self).finished() == old(self).finished().push(
                            StreamRecord {
                                id,
                                progress: StreamProgress {
                                    elapsed: Some(at),
                                    first_byte: if p.direction == Direction::Receive && p.first_byte is None {
                                        Some(at)
                                    } else {
                                        p.first_byte
                                    },
                                    ..p
                                },
                            },
                        )
                    }
                },
    {
        let i = match self.position(id) {
            Some(i) => i,
            None => return Err(StreamError::UnknownStream),
        };
        let mut rec = self.active[i];
        let r = rec.progress.finish(at);
        proof {
            assert forall|k: int| 0 <= k < old(self).active().len() && old(self).active()[k].id == id implies k == i by {
                if k != i {
                    assert(old(self).active()[k].id != old(self).active()[i as int].id);
                }
            }
        }
        if r.is_err() {
            return r;
        }
        let ghost old_active = self.active@;
        let ghost old_finished = self.finished@;
        self.active.remove(i);
        self.finished.push(rec);
        proof {
            let a = self.active@;
            let f = self.finished@;
            assert forall|k: int| 0 <= k < a.len() implies a[k] == old_active[if k < i { k } else { k + 1 }] by {}
            assert forall|k: int, m: int| 0 <= k < a.len() && 0 <= m < f.len() implies #[trigger] a[k].id != #[trigger] f[m].id by {
                let ka = if k < i { k } else { k + 1 };
                assert(a[k] == old_active[ka]);
                if m < old_finished.len() {
                    assert(f[m] == old_finished[m]);
                } else {
                    assert(ka != i);
                    assert(old_active[ka].id != old_active[i as int].id);
                }
            }
            assert forall|k: int, m: int| 0 <= k < a.len() && 0 <= m < a.len() && k != m implies #[trigger] a[k].id != #[trigger] a[m].id by {
                let ka = if k < i { k } else { k + 1 };
                let ma = if m < i { m } else { m + 1 };
                assert(a[k] == old_active[ka]);
                assert(a[m] == old_active[ma]);
            }
            assert forall|k: int, m: int| 0 <= k < f.len() && 0 <= m < f.len() && k != m implies #[trigger] f[k].id != #[trigger] f[m].id by {
                if k < old_finished.len() && m < old_finished.len() {
                } else if k < old_finished.len() {
                    assert(old_active[i as int].id != old_finished[k].id);
                } else {
                    assert(old_active[i as int].id != old_finished[m].id);
                }
            }
            assert forall|k: int| 0 <= k < a.len() implies (#[trigger] a[k]).progress.wf() && !a[k].progress.is_finished() by {
                let ka = if k < i { k } else { k + 1 };
                assert(a[k] == old_active[ka]);
            }
        }
        r
    }

    /// Drops the open stream `id` after its exchange failed. Its bytes not yet
    /// reported are kept for the next tick.
    pub fn abandon(&mut self, id: u64) -> (r: Result<(), StreamError>)
        requires
            old(self).wf(),
        ensures
            final(self).wf(),
            final(self).finished() == old(self).finished(),
            r is Err <==> !old(self).is_active(id),
            r is Err ==> r == Err::<(), StreamError>(StreamError::UnknownStream) && *final(self) == *old(self),
            forall|i: int|
                0 <= i < old(self).active().len() && #[trigger] old(self).active()[i].id == id ==> {
                    let p = old(self).active()[i].progress;
                    &&& final(self).active() == old(self).active().remove(i)
                    &&& final(self).carried(p.direction) == saturate(old(self).carried(p.direction) + p.unreported)
                    &&& p.direction == Direction::Send ==> final(self).carried(Direction::Receive) == old(
                        self,
                    ).carried(Direction::Receive)
                    &&& p.direction == Direction::Receive ==> final(self).carried(Direction::Send) == old(
                        self,
                    ).carried(Direction::Send)
                },
    {
        let i = match self.position(id) {
            Some(i) => i,
            None => return Err(StreamError::UnknownStream),
        };
        proof {
            assert forall|k: int| 0 <= k < old(self).active().len() && old(self).active()[k].id == id implies k == i by {
                if k != i {
                    assert(old(self).active()[k].id != old(self).active()[i as int].id);
                }
            }
        }
        let ghost old_active = self.active@;
        let rec = self.active.remove(i);
        if rec.progress.direction == Direction::Send {
            self.carried_sent = self.carried_sent.saturating_add(rec.progress.unreported);
        } else {
            self.carried_received = self.carried_received.saturating_add(rec.progress.unreported);
        }
        proof {
            let a = self.active@;
            let f = self.finished@;
            assert forall|k: int| 0 <= k < a.len() implies a[k] == old_active[if k < i { k } else { k + 1 }] by {}
            assert forall|k: int, m: int| 0 <= k < a.len() && 0 <= m < f.len() implies #[trigger] a[k].id != #[trigger] f[m].id by {
                assert(a[k] == old_active[if k < i { k } else { k + 1 }]);
            }
            assert forall|k: int, m: int| 0 <= k < a.len() && 0 <= m < a.len() && k != m implies #[trigger] a[k].id != #[trigger] a[m].id by {
                let ka = if k < i { k } else { k + 1 };
                let ma = if m < i { m } else { m + 1 };
                assert(a[k] == old_active[ka]);
                assert(a[m] == old_active[ma]);
            }
            assert forall|k: int| 0 <= k < a.len() implies (#[trigger] a[k]).progress.wf() && !a[k].progress.is_finished() by {
                assert(a[k] == old_active[if k < i { k } else { k + 1 }]);
            }
        }
        Ok(())
    }

    /// Takes the bytes counted since the last tick from every stream, open or
    /// finished, and empties the finished log.
    pub fn take_interval(&mut self) -> (r: IntervalSample)
        requires
            old(self).wf(),
        ensures
            final(self).wf(),
            r.sent == saturate(
                old(self).carried(Direction::Send) + unreported_sum(old(self).active(), Direction::Send)
                    + unreported_sum(old(self).finished(), Direction::Send),
            ),
            r.received == saturate(
                old(self).carried(Direction::Receive) + unreported_sum(old(self).active(), Direction::Receive)
                    + unreported_sum(old(self).finished(), Direction::Receive),
            ),
            final(self).carried(Direction::Send) == 0,
            final(self).carried(Direction::Receive) == 0,
            r.finished@ == old(self).finished(),
            final(self).active() == reported(old(self).active()),
            final(self).finished().len() == 0,
    {
        let ghost old_active = self.active@;
        let ghost cs = self.carried_sent as int;
        let ghost cr = self.carried_received as int;
        let mut sent: u64 = self.carried_sent;
        let mut received: u64 = self.carried_received;
        self.carried_sent = 0;
        self.carried_received = 0;
        let mut i: usize = 0;
        while i < self.active.len()
            invariant
                i <= self.active@.len(),
                old(self).wf(),
                old_active == old(self).active(),
                self.active@.len() == old_active.len(),
                self.finished@ == old(self).finished(),
                forall|k: int| i <= k < old_active.len() ==> self.active@[k] == old_active[k],
                forall|k: int| 0 <= k < i ==> self.active@[k] == reported(old_active)[k],
                cs >= 0 && cr >= 0,
                self.carried_sent == 0 && self.carried_received == 0,
                sent == saturate(cs + unreported_sum(old_active.take(i as int), Direction::Send)),
                received == saturate(cr + unreported_sum(old_active.take(i as int), Direction::Receive)),
            decreases old_active.len() - i,
        {
            let mut rec = self.active[i];
            proof {
                assert(old(self).active()[i as int].progress.wf());
            }
            let u = rec.progress.take_unreported();
            self.active[i] = rec;
            proof {
                assert(old_active.take(i + 1).drop_last() =~= old_active.take(i as int));
                lemma_unreported_sum_nonneg(old_active.take(i as int), Direction::Send);
                lemma_unreported_sum_nonneg(old_active.take(i as int), Direction::Receive);
            }
            if rec.progress.direction == Direction::Send {
                sent = sent.saturating_add(u);
            } else {
                received = received.saturating_add(u);
            }
            i = i + 1;
        }
        proof {
            assert(old_active.take(old_active.len() as int) =~= old_active);
            assert(self.active@ =~= reported(old_active));
        }
        let mut j: usize = 0;
        let ghost sent0 = cs + unreported_sum(old_active, Direction::Send);
        let ghost received0 = cr + unreported_sum(old_active, Direction::Receive);
        proof {
            lemma_unreported_sum_nonneg(old_active, Direction::Send);
            lemma_unreported_sum_nonneg(old_active, Direction::Receive);
        }
        while j < self.finished.len()
            invariant
                j <= self.finished@.len(),
                self.finished@ == old(self).finished(),
                self.carried_sent == 0 && self.carried_received == 0,
                sent0 >= 0,
                received0 >= 0,
                sent == saturate(sent0 + unreported_sum(self.finished@.take(j as int), Direction::Send)),
                received == saturate(received0 + unreported_sum(self.finished@.take(j as int), Direction::Receive)),
            decreases self.finished@.len() - j,
        {
            let rec = self.finished[j];
            proof {
                assert(self.finished@.take(j + 1).drop_last() =~= self.finished@.take(j as int));
                lemma_unreported_sum_nonneg(self.finished@.take(j as int), Direction::Send);
                lemma_unreported_sum_nonneg(self.finished@.take(j as int), Direction::Receive);
            }
            if rec.progress.direction == Direction::Send {
                sent = sent.saturating_add(rec.progress.unreported);
            } else {
                received = received.saturating_add(rec.progress.unreported);
            }
            j = j + 1;
        }
        proof {
            assert(self.finished@.take(self.finished@.len() as int) =~= self.finished@);
        }
        let mut finished: Vec<StreamRecord> = Vec::new();
        std::mem::swap(&mut finished, &mut self.finished);
        IntervalSample { sent, received, finished }
    }
}

/// Every stream in the finished log carried exactly the bytes it expected, and
/// a finished response has a first-byte time no later than its end.
pub proof fn lemma_finished_record(reg: Registry, j: int)
    requires
        reg.wf(),
        0 <= j < reg.finished().len(),
    ensures
        reg.finished()[j].progress.transferred == reg.finished()[j].progress.total,
        reg.finished()[j].progress.elapsed is Some,
        reg.finished()[j].progress.direction == Direction::Receive ==> (
        reg.finished()[j].progress.first_byte matches Some(f) && f <= reg.finished()[j].progress.elapsed->0),
{
    assert(reg.finished()[j].progress.wf());
}

proof fn lemma_unreported_sum_nonneg(s: Seq<StreamRecord>, d: Direction)
    ensures
        unreported_sum(s, d) >= 0,
    decreases s.len(),
{
    if s.len() > 0 {
        lemma_unreported_sum_nonneg(s.drop_last(), d);
    }
}

} // verus!
