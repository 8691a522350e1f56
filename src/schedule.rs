use vstd::prelude::*;

verus! {

/// What the driver of a render run must do next.
#[derive(Debug, PartialEq, Eq)]
pub enum Action {
    /// Start rendering the frame with this index.
    Spawn(u32),
    /// Wait until every one of these frames has finished rendering.
    JoinAll(Vec<u32>),
    /// Every frame has been rendered and waited for.
    Finished,
}

/// The action waits for exactly the frames of `batch`, in that order.
pub open spec fn waits_for(a: Action, batch: Seq<u32>) -> bool {
    match a {
        Action::JoinAll(v) => v@ == batch,
        _ => false,
    }
}

/// The frame indices `start, start + 1, ..., end - 1`, in order.
pub open spec fn frame_range(start: nat, end: nat) -> Seq<u32> {
    Seq::new((end - start) as nat, |i: int| (start + i) as u32)
}

/// Admits frame renders in increasing index order and bounds how many are
/// outstanding: once more than `max_concurrency` have been started and not
/// waited for, the whole batch is waited for before anything else starts.
pub struct BatchScheduler {
    start: u32,
    next: u32,
    end: u32,
    max_concurrency: u32,
    in_flight: Vec<u32>,
    joined: Ghost<Seq<u32>>,
}

impl BatchScheduler {
    /// The first frame index of the run.
    pub closed spec fn first(self) -> nat {
        self.start as nat
    }

    /// One past the last frame index of the run.
    pub closed spec fn last(self) -> nat {
        self.end as nat
    }

    /// The index of the next frame to start.
    pub closed spec fn upcoming(self) -> nat {
        self.next as nat
    }

    pub closed spec fn bound(self) -> nat {
        self.max_concurrency as nat
    }

    /// Frames started and not yet waited for, in the order they started.
    pub closed spec fn outstanding(self) -> Seq<u32> {
        self.in_flight@
    }

    /// Frames already waited for, in the order they were handed to `JoinAll`.
    pub closed spec fn finished(self) -> Seq<u32> {
        self.joined@
    }

    /// Every frame started so far was either waited for or is outstanding,
    /// exactly once and in index order, and at most one more frame than the
    /// bound is ever outstanding.
    pub closed spec fn wf(self) -> bool {
        &&& self.start <= self.next <= self.end
        &&& self.joined@ + self.in_flight@ == frame_range(self.start as nat, self.next as nat)
        &&& self.in_flight@.len() <= self.max_concurrency + 1
    }

    /// The outstanding batch must be waited for: it exceeds the bound, or
    /// every frame has started and some are still outstanding.
    pub open spec fn must_wait(self) -> bool {
        ||| self.outstanding().len() > self.bound()
        ||| (self.upcoming() == self.last() && self.outstanding().len() > 0)
    }

    /// Steps left until the run is finished.
    pub closed spec fn remaining(self) -> nat {
        (2 * (self.end - self.next) + if self.in_flight@.len() > 0 {
            1int
        } else {
            0
        }) as nat
    }

    /// A scheduler for frames `start..end` with at most `max_concurrency`
    /// renders admitted before a batch is waited for.
    pub fn new(start: u32, end: u32, max_concurrency: u32) -> (s: BatchScheduler)
        ensures
            s.wf(),
            s.first() == start,
            s.upcoming() == start,
            s.last() == if start <= end { end } else { start },
            s.bound() == max_concurrency,
            s.outstanding().len() == 0,
            s.finished().len() == 0,
    {
        let end = if start <= end { end } else { start };
        let s = BatchScheduler {
            start,
            next: start,
            end,
            max_concurrency,
            in_flight: Vec::new(),
            joined: Ghost(Seq::empty()),
        };
        proof {
            assert(s.joined@ + s.in_flight@ =~= frame_range(start as nat, start as nat));
        }
        s
    }

    /// The number of frames started and not yet waited for.
    pub fn in_flight_count(&self) -> (n: usize)
        ensures
            n == self.outstanding().len(),
    {
        self.in_flight.len()
    }

    /// Decides the next action. A batch larger than the bound is waited for
    /// first; otherwise the next frame starts; once all frames have started
    /// the last batch is waited for, and then the run is finished.
    pub fn step(&mut self) -> (a: Action)
        requires
            old(self).wf(),
        ensures
            final(self).wf(),
            final(self).first() == old(self).first(),
            final(self).last() == old(self).last(),
            final(self).bound() == old(self).bound(),
            old(self).must_wait() ==> waits_for(a, old(self).outstanding())
                && final(self).outstanding().len() == 0
                && final(self).finished() == old(self).finished() + old(self).outstanding()
                && final(self).upcoming() == old(self).upcoming(),
            !old(self).must_wait() && old(self).upcoming() < old(self).last() ==> a
                == Action::Spawn(old(self).upcoming() as u32)
                && final(self).outstanding() == old(self).outstanding().push(
                old(self).upcoming() as u32,
            ) && final(self).finished() == old(self).finished()
                && final(self).upcoming() == old(self).upcoming() + 1,
            !old(self).must_wait() && old(self).upcoming() >= old(self).last() ==> a
                == Action::Finished && *final(self) == *old(self),
            a is Finished <==> old(self).remaining() == 0,
            !(a is Finished) ==> final(self).remaining() < old(self).remaining(),
            a is Finished ==> final(self).finished() == frame_range(
                old(self).first(),
                old(self).last(),
            ),
    {
        if self.in_flight.len() > self.max_concurrency as usize || (self.next == self.end
            && self.in_flight.len() > 0) {
            let mut batch: Vec<u32> = Vec::new();
            std::mem::swap(&mut batch, &mut self.in_flight);
            proof {
                self.joined@ = self.joined@ + batch@;
                assert(self.joined@ + self.in_flight@ =~= self.joined@);
                assert(old(self).joined@ + batch@ + Seq::<u32>::empty() =~= old(self).joined@ + batch@);
            }
            Action::JoinAll(batch)
        } else if self.next < self.end {
            let i = self.next;
            self.in_flight.push(i);
            self.next = i + 1;
            proof {
                let before = frame_range(self.start as nat, i as nat);
                assert(frame_range(self.start as nat, self.next as nat) =~= before.push(i));
                assert(self.joined@ + self.in_flight@ =~= (old(self).joined@ + old(
                    self,
                ).in_flight@).push(i));
                assert(self.joined@ + self.in_flight@ =~= frame_range(
                    self.start as nat,
                    self.next as nat,
                ));
            }
            Action::Spawn(i)
        } else {
            proof {
                assert(self.joined@ + self.in_flight@ =~= self.joined@);
            }
            Action::Finished
        }
    }
}

/// Over a whole run, each frame is started once and waited for once: in
/// every state of a scheduler, the frames already waited for followed by the
/// outstanding ones are exactly the frames started so far, in index order and
/// without repeats, and at most one frame more than the bound is outstanding.
pub proof fn lemma_each_frame_once(s: BatchScheduler)
    requires
        s.wf(),
    ensures
        s.first() <= s.upcoming() <= s.last(),
        s.finished() + s.outstanding() == frame_range(s.first(), s.upcoming()),
        (s.finished() + s.outstanding()).no_duplicates(),
        s.outstanding().len() <= s.bound() + 1,
{
    let r = frame_range(s.first(), s.upcoming());
    assert forall|i: int, j: int| 0 <= i < r.len() && 0 <= j < r.len() && i != j implies r[i]
        != r[j] by {
        assert(s.first() + i <= u32::MAX && s.first() + j <= u32::MAX);
    }
}

} // verus!
