//! Readiness of the fuse file descriptor.
//!
//! A thread waits for events of the file descriptor, edge triggered, and collects them in a
//! `PollState`, from which the stream of requests takes them. The steps of both sides are
//! functions here; whoever runs them keeps the state behind a lock.

use vstd::prelude::*;
use vstd::slice::slice_subrange;

use crate::errno::O_NONBLOCK;
use crate::error::IoError;

verus! {

/// `epoll` event: there is something to read.
pub const EPOLLIN: u32 = 0x1;

/// `epoll` event: an error.
pub const EPOLLERR: u32 = 0x8;

/// `epoll` flag: report edges.
pub const EPOLLET: u32 = 0x8000_0000;

// beside `EPOLLIN` and `EPOLLERR` we also want to have bits to say that the reactor thread has
// finished or encountered an error, so we map the `EPOLLIN`/`EPOLLERR` values to our own:
/// `EPOLLIN` was set
pub const READY_IN: u32 = 0b1;

/// `EPOLLERR` was set
pub const READY_ERR: u32 = 0b10;

/// The reactor thread has ended.
pub const READY_FIN: u32 = 0b100;

/// The reactor thread encountered an error.
pub const READY_FIN_ERR: u32 = 0b1000;

/// What marks events of the fuse file descriptor.
pub const TOKEN: u64 = 0;

/// What marks events of the file descriptor that ends the thread.
pub const FINISH_TOKEN: u64 = 1;

/// Map `EPOLL*` to `READY_*`
pub open spec fn spec_epoll_to_ready(value: u32) -> u32 {
    (if value & EPOLLIN != 0 {
        READY_IN
    } else {
        0
    }) | (if value & EPOLLERR != 0 {
        READY_ERR
    } else {
        0
    })
}

/// Map `EPOLL*` to `READY_*`
pub fn epoll_to_ready(value: u32) -> (res: u32)
    ensures
        res == spec_epoll_to_ready(value),
{
    let mut out: u32 = 0;
    if value & EPOLLIN != 0 {
        out = out | READY_IN;
    }
    if value & EPOLLERR != 0 {
        out = out | READY_ERR;
    }
    assert(0u32 | 0u32 == 0u32 && 0u32 | 1u32 == 1u32 && 1u32 | 0u32 == 1u32 && 0u32 | 2u32 == 2u32)
        by (bit_vector);
    out
}

/// The ready bits that a poll takes away: those of which the thread will report the next edge.
pub open spec fn taken_bits() -> u32 {
    READY_IN | READY_ERR
}

/// What stays of the ready bits when a poll takes them.
pub open spec fn bits_left(ready: u32) -> u32 {
    ready & !taken_bits()
}

/// This holds the ready bits and, unless cleared, puts them back into the ready state when it is
/// done with.
#[must_use]
#[derive(Debug)]
pub struct ReadyGuard {
    pub ready: u32,
}

impl ReadyGuard {
    /// A guard that holds ready bits.
    pub fn new(ready: u32) -> (res: ReadyGuard)
        ensures
            res == (ReadyGuard { ready }),
    {
        ReadyGuard { ready }
    }

    /// There was nothing to read (`EAGAIN`): do not put the ready bits back.
    pub fn clear_ready(&mut self)
        ensures
            final(self).ready == 0,
            forall|flow: Flow|
                flow.guard == Some(old(self).ready) ==> #[trigger] flow.after(FlowStep::Clear)
                    == (Flow { guard: Some(final(self).ready), ..flow }),
    {
        self.ready = 0;
    }

    /// Fuse signals unmounting via `EPOLLERR`.
    pub fn is_unmounted(&self) -> (res: bool)
        ensures
            res == (self.ready & READY_ERR != 0),
    {
        self.ready & READY_ERR != 0
    }

    /// Whether the reactor thread has ended.
    pub fn is_eof(&self) -> (res: bool)
        ensures
            res == (self.ready & READY_FIN != 0),
    {
        self.ready & READY_FIN != 0
    }
}

/// What polling for readiness gives.
#[derive(Debug)]
pub enum ReadPoll {
    /// The file descriptor is ready.
    Ready(ReadyGuard),

    /// The thread that waits for events failed.
    Failed(IoError),

    /// Not ready; the task is to be woken when it is.
    Pending,
}

impl ReadPoll {
    /// The ready bits in the guard, if there is one.
    pub open spec fn guard_bits(self) -> Option<u32> {
        match self {
            ReadPoll::Ready(guard) => Some(guard.ready),
            _ => None,
        }
    }
}

/// The ready state accessed by both the reactor thread and the one who polls.
#[derive(Debug)]
pub struct PollState {
    /// Ready bits.
    pub ready: u32,

    /// If an error happens in the reactor, `READY_ERR` is raised and this option is set.
    /// It is also set when `READY_FIN_ERR` is set.
    pub error: Option<IoError>,

    /// Whether a task that polled is to be woken.
    pub waiting: bool,
}

impl PollState {
    /// Nothing is ready.
    pub fn new() -> (res: PollState)
        ensures
            res == (PollState { ready: 0, error: None, waiting: false }),
            res.wf(),
            res.flow(None, false) == Flow::start(),
    {
        proof {
            lemma_zero_bits();
        }
        PollState { ready: 0, error: None, waiting: false }
    }

    /// The state, with the ready bits in the guard that a poll handed out, if there is one, and
    /// whether the reactor has ended.
    pub open spec fn flow(self, guard: Option<u32>, ended: bool) -> Flow {
        Flow { ready: self.ready, waiting: self.waiting, guard, ended }
    }

    /// Whether the error that ended the thread, if one did, was not reported yet.
    pub open spec fn wf(self) -> bool {
        self.ready & READY_FIN_ERR != 0 ==> self.error is Some
    }

    /// Poll for readiness.
    ///
    /// This moves the ready state into the `ReadyGuard`, from which it comes back by `restore`
    /// unless `clear_ready()` was used to mark the encounter of an `EAGAIN`.
    ///
    /// We need to move it out since the reactor runs in parallel and is edge triggered, meaning
    /// that if we get `READY_IN` and read multiple times, there's a race between seeing `EAGAIN`
    /// and clearing the ready bits where the reactor adds them in.
    pub fn poll_read_ready(&mut self) -> (res: ReadPoll)
        requires
            old(self).wf(),
        ensures
            final(self).ready == bits_left(old(self).ready),
            if old(self).ready & READY_FIN_ERR != 0 {
                &&& res == ReadPoll::Failed(old(self).error->0)
                &&& final(self).error is None
                &&& final(self).waiting == old(self).waiting
            } else if old(self).ready != 0 {
                &&& res == ReadPoll::Ready(ReadyGuard { ready: old(self).ready })
                &&& final(self).wf()
                &&& final(self).error == old(self).error
                &&& final(self).waiting == old(self).waiting
            } else {
                &&& res == ReadPoll::Pending
                &&& final(self).wf()
                &&& final(self).error == old(self).error
                &&& final(self).waiting
            },
            forall|ended: bool| #[trigger]
                old(self).flow(None, ended).after(FlowStep::Poll)
                    == final(self).flow(res.guard_bits(), ended),
    {
        let ready = self.ready;
        self.ready = ready & !(READY_IN | READY_ERR);
        assert((ready & !(0b1u32 | 0b10u32)) & 0b1000u32 == ready & 0b1000u32) by (bit_vector);
        assert(0u32 & !(0b1u32 | 0b10u32) == 0u32) by (bit_vector);
        if ready & READY_FIN_ERR != 0 {
            match self.error.take() {
                Some(err) => {
                    return ReadPoll::Failed(err);
                },
                None => {
                    assert(false);
                },
            }
        }
        if ready != 0 {
            return ReadPoll::Ready(ReadyGuard::new(ready));
        }
        self.waiting = true;
        ReadPoll::Pending
    }

    /// A guard is done with: unless it was cleared, its ready bits are set again, since the
    /// reactor only reacts to edges.
    pub fn restore(&mut self, guard: ReadyGuard)
        ensures
            final(self).ready == old(self).ready | guard.ready,
            final(self).error == old(self).error,
            final(self).waiting == old(self).waiting,
            old(self).wf() && guard.ready & READY_FIN_ERR == 0 ==> final(self).wf(),
            forall|ended: bool| #[trigger]
                old(self).flow(Some(guard.ready), ended).after(FlowStep::Restore)
                    == final(self).flow(None, ended),
    {
        proof {
            let r = self.ready;
            let g = guard.ready;
            assert(r | 0u32 == r) by (bit_vector);
            assert(g & 0b1000u32 == 0 ==> (r | g) & 0b1000u32 == r & 0b1000u32) by (bit_vector);
        }
        if guard.ready != 0 {
            self.ready = self.ready | guard.ready;
        }
    }

    /// The reactor got `rc` events in `events`, the space for which is always more than that.
    /// They are handled in order until one ends the thread.
    pub fn handle_events(&mut self, rc: usize, events: &[EpollEvent]) -> (res: Batch)
        ensures
            final(self).error == old(self).error,
            old(self).wf() ==> final(self).wf(),
            if rc >= events@.len() {
                &&& res.end matches BatchEnd::Failed(IoError::Other(text))
                &&& text@ == "epoll_wait returned garbage"@
                &&& !res.wake
                &&& final(self).ready == old(self).ready
                &&& final(self).waiting == old(self).waiting
            } else {
                let run = run_events(old(self).ready, old(self).waiting, events@.take(rc as int));
                &&& final(self).ready == run.ready
                &&& final(self).waiting == run.waiting
                &&& res.wake == run.wake
                &&& match run.end {
                    RunEnd::Wait => res.end == BatchEnd::Wait,
                    RunEnd::Finish => res.end == BatchEnd::Finish,
                    RunEnd::Unexpected => {
                        &&& res.end matches BatchEnd::Failed(IoError::Other(text))
                        &&& text@ == "epoll_wait returned unexpected events"@
                    },
                }
            },
    {
        if rc >= events.len() {
            return Batch {
                wake: false,
                end: BatchEnd::Failed(IoError::Other("epoll_wait returned garbage".to_owned())),
            };
        }
        let batch = slice_subrange(events, 0, rc);
        let ghost all = run_events(self.ready, self.waiting, batch@);
        proof {
            lemma_events_keep_fin_err(self.ready, self.waiting, batch@);
        }
        let mut wake = false;
        let mut i: usize = 0;
        assert(batch@.skip(0) == batch@);
        while i < batch.len()
            invariant
                i <= batch@.len(),
                rc < events@.len(),
                batch@ == events@.take(rc as int),
                all == run_events(old(self).ready, old(self).waiting, batch@),
                all.ready & READY_FIN_ERR == old(self).ready & READY_FIN_ERR,
                self.error == old(self).error,
                ({
                    let rest = run_events(self.ready, self.waiting, batch@.skip(i as int));
                    all == RunView { wake: wake || rest.wake, ..rest }
                }),
            decreases batch@.len() - i,
        {
            let event = &batch[i];
            proof {
                assert(batch@.skip(i as int)[0] == batch@[i as int]);
                assert(batch@.skip(i as int).drop_first() == batch@.skip(i + 1));
            }
            if event.data == FINISH_TOKEN {
                // the reactor was told to end, we just stop at this point
                return Batch { wake, end: BatchEnd::Finish };
            }
            if event.data != TOKEN {
                return Batch {
                    wake,
                    end: BatchEnd::Failed(
                        IoError::Other("epoll_wait returned unexpected events".to_owned()),
                    ),
                };
            }
            // fuse fd has something to read, set the ready bits and wake up any waiters
            self.ready = self.ready | epoll_to_ready(event.events);
            if event.events & EPOLLERR != 0 {
                // The fuse file system was unmounted, let's finish up!
                return Batch { wake, end: BatchEnd::Finish };
            }
            if self.waiting {
                self.waiting = false;
                wake = true;
            }
            i = i + 1;
        }
        Batch { wake, end: BatchEnd::Wait }
    }

    /// The reactor has ended, well or with an error. Returns whether a task is to be woken.
    pub fn finish(&mut self, result: Result<(), IoError>) -> (res: bool)
        ensures
            res == old(self).waiting,
            !final(self).waiting,
            old(self).wf() ==> final(self).wf(),
            match result {
                Ok(()) => {
                    &&& final(self).ready == old(self).ready | READY_FIN
                    &&& final(self).error == old(self).error
                },
                Err(err) => {
                    &&& final(self).ready == old(self).ready | READY_ERR | READY_FIN_ERR | READY_FIN
                    &&& final(self).error == Some(err)
                },
            },
    {
        proof {
            let r = self.ready;
            assert((r | 0b100u32) & 0b1000u32 == r & 0b1000u32) by (bit_vector);
        }
        match result {
            Ok(()) => {},
            Err(err) => {
                self.error = Some(err);
                self.ready = self.ready | READY_ERR | READY_FIN_ERR;
            },
        }
        self.ready = self.ready | READY_FIN;
        let wake = self.waiting;
        self.waiting = false;
        wake
    }
}

/// An event that `epoll_wait` reported.
#[derive(Clone, Copy, Debug, PartialEq, Eq, Structural)]
pub struct EpollEvent {
    /// `EPOLL*` bits.
    pub events: u32,

    /// Which file descriptor the event is of.
    pub data: u64,
}

/// How a batch of events ended.
#[derive(Debug)]
pub enum BatchEnd {
    /// Wait for further events.
    Wait,

    /// The thread ends.
    Finish,

    /// The thread ends with an error.
    Failed(IoError),
}

/// What came of a batch of events.
#[derive(Debug)]
pub struct Batch {
    /// Whether the task that waited is to be woken.
    pub wake: bool,

    /// How to go on.
    pub end: BatchEnd,
}

/// How handling events ended.
pub enum RunEnd {
    /// All were handled.
    Wait,

    /// One of them ends the thread.
    Finish,

    /// One of them is of no known file descriptor.
    Unexpected,
}

/// What came of handling events.
pub struct RunView {
    pub ready: u32,
    pub waiting: bool,
    pub wake: bool,
    pub end: RunEnd,
}

/// Handles events in order: an event of the fuse file descriptor adds its ready bits, and wakes
/// the task that waits unless it tells of an error, which ends the thread.
pub open spec fn run_events(ready: u32, waiting: bool, events: Seq<EpollEvent>) -> RunView
    decreases events.len(),
{
    if events.len() == 0 {
        RunView { ready, waiting, wake: false, end: RunEnd::Wait }
    } else if events[0].data == FINISH_TOKEN {
        RunView { ready, waiting, wake: false, end: RunEnd::Finish }
    } else if events[0].data != TOKEN {
        RunView { ready, waiting, wake: false, end: RunEnd::Unexpected }
    } else {
        let ready = ready | spec_epoll_to_ready(events[0].events);
        if events[0].events & EPOLLERR != 0 {
            RunView { ready, waiting, wake: false, end: RunEnd::Finish }
        } else {
            let rest = run_events(ready, false, events.drop_first());
            RunView { wake: waiting || rest.wake, ..rest }
        }
    }
}

/// Events of the file descriptor do not tell that the reactor failed.
proof fn lemma_events_keep_fin_err(ready: u32, waiting: bool, events: Seq<EpollEvent>)
    ensures
        run_events(ready, waiting, events).ready & READY_FIN_ERR == ready & READY_FIN_ERR,
    decreases events.len(),
{
    if events.len() > 0 {
        let bits = spec_epoll_to_ready(events[0].events);
        law_event_makes_ready(events[0].events);
        assert(bits & (0b1u32 | 0b10u32) == bits ==> (ready | bits) & 0b1000u32 == ready
            & 0b1000u32) by (bit_vector);
        lemma_events_keep_fin_err(ready | bits, false, events.drop_first());
    }
}

/// What a system call gives: its return value, or the error number where that is negative.
pub open spec fn spec_os_result(rc: i32, errno: i32) -> Result<i32, IoError> {
    if rc < 0 {
        Err(IoError::Os(errno))
    } else {
        Ok(rc)
    }
}

/// What a system call gives: its return value, or the error number where that is negative.
fn os_result(rc: i32, errno: i32) -> (res: Result<i32, IoError>)
    ensures
        res == spec_os_result(rc, errno),
{
    if rc < 0 {
        Err(IoError::Os(errno))
    } else {
        Ok(rc)
    }
}

/// A file descriptor to wait for: what `epoll_ctl` gets.
#[derive(Clone, Copy, Debug, PartialEq, Eq, Structural)]
pub struct Registration {
    /// The file descriptor.
    pub fd: i32,

    /// `EPOLL*` bits.
    pub events: u32,

    /// What marks its events.
    pub data: u64,
}

/// An `epoll` file descriptor with an `eventfd` used to "wake up" the reactor. A negative number
/// is no file descriptor.
#[derive(Debug)]
pub struct Epoll {
    /// the epoll fd
    pub epfd: i32,

    /// eventfd used to wake up the polling thread when we close the fuse fd
    pub finish: i32,
}

/// The file descriptors among two numbers.
pub open spec fn open_fds(epfd: i32, finish: i32) -> Seq<i32> {
    (if epfd >= 0 {
        seq![epfd]
    } else {
        seq![]
    }) + (if finish >= 0 {
        seq![finish]
    } else {
        seq![]
    })
}

impl Epoll {
    /// Create a new instance, without file descriptors yet.
    pub fn new() -> (res: Epoll)
        ensures
            res.epfd == -1,
            res.finish == -1,
    {
        Epoll { epfd: -1, finish: -1 }
    }

    /// `epoll_create1` returned `rc`, and set `errno` if that is negative.
    pub fn created(&mut self, rc: i32, errno: i32) -> (res: Result<(), IoError>)
        ensures
            *final(self) == (Epoll { epfd: rc, ..*old(self) }),
            res == (if rc < 0 {
                Err::<(), IoError>(IoError::Os(errno))
            } else {
                Ok(())
            }),
    {
        self.epfd = rc;
        match os_result(rc, errno) {
            Ok(_) => Ok(()),
            Err(err) => Err(err),
        }
    }

    /// `eventfd` returned `rc`, and set `errno` if that is negative.
    pub fn finish_created(&mut self, rc: i32, errno: i32) -> (res: Result<(), IoError>)
        ensures
            *final(self) == (Epoll { finish: rc, ..*old(self) }),
            res == (if rc < 0 {
                Err::<(), IoError>(IoError::Os(errno))
            } else {
                Ok(())
            }),
    {
        self.finish = rc;
        match os_result(rc, errno) {
            Ok(_) => Ok(()),
            Err(err) => Err(err),
        }
    }

    /// Which file descriptors are to be closed, in this order.
    pub fn on_drop(self) -> (res: Vec<i32>)
        ensures
            res@ == open_fds(self.epfd, self.finish),
    {
        let mut fds = Vec::new();
        if self.epfd >= 0 {
            fds.push(self.epfd);
        }
        if self.finish >= 0 {
            fds.push(self.finish);
        }
        proof {
            assert(fds@ == open_fds(self.epfd, self.finish));
        }
        fds
    }

    /// Wake up and shutdown the reactor: the write of eight bytes to `finish` returned `rc`.
    pub fn signal_finish(&self, rc: isize, errno: i32) -> (res: Result<(), IoError>)
        ensures
            res == (if rc != 8 {
                Err::<(), IoError>(IoError::Os(errno))
            } else {
                Ok(())
            }),
    {
        if rc != 8 {
            return Err(IoError::Os(errno));
        }
        Ok(())
    }

    /// `epoll_ctl` returned `rc`.
    pub fn ctl(&self, rc: i32, errno: i32) -> (res: Result<(), IoError>)
        ensures
            res == (if rc < 0 {
                Err::<(), IoError>(IoError::Os(errno))
            } else {
                Ok(())
            }),
    {
        match os_result(rc, errno) {
            Ok(_) => Ok(()),
            Err(err) => Err(err),
        }
    }

    /// `epoll_wait` returned `rc`: how many events there are, or an error.
    pub fn wait(&self, rc: i32, errno: i32) -> (res: Result<usize, IoError>)
        ensures
            res == (if rc < 0 {
                Err::<usize, IoError>(IoError::Os(errno))
            } else {
                Ok(rc as usize)
            }),
    {
        match os_result(rc, errno) {
            Ok(count) => Ok(count as usize),
            Err(err) => Err(err),
        }
    }
}

/// What the reactor thread does next.
#[derive(Clone, Copy, Debug, PartialEq, Eq, Structural)]
pub enum ThreadAction {
    /// Call `epoll_ctl`, to wait for a file descriptor from now on.
    Add(Registration),

    /// Call `epoll_wait`.
    Wait,

    /// The thread has ended.
    End,
}

/// The reactor: it waits for the fuse file descriptor, and for the one that ends it, and handles
/// what comes until it ends.
#[derive(Debug)]
pub struct PollThread {
    /// What is to be called next.
    pub action: ThreadAction,

    /// The file descriptors to wait for that come after the one being added, the next one last.
    pub to_add: Vec<Registration>,
}

impl PollThread {
    /// Setup the fuse fd and eventfd for wake-ups on input.
    pub fn new(poll: &Epoll, fd: i32) -> (res: PollThread)
        ensures
            res.action == ThreadAction::Add(
                Registration { fd, events: EPOLLIN | EPOLLERR | EPOLLET, data: TOKEN },
            ),
            res.to_add@ == seq![
                Registration { fd: poll.finish, events: EPOLLIN | EPOLLET, data: FINISH_TOKEN },
            ],
    {
        let mut to_add = Vec::new();
        to_add.push(
            Registration { fd: poll.finish, events: EPOLLIN | EPOLLET, data: FINISH_TOKEN },
        );
        PollThread {
            action: ThreadAction::Add(
                Registration { fd, events: EPOLLIN | EPOLLERR | EPOLLET, data: TOKEN },
            ),
            to_add,
        }
    }

    /// `epoll_ctl` was called: the next file descriptor is added, or the thread waits, or it ends
    /// with the error. Returns whether a task is to be woken.
    pub fn added(&mut self, state: &mut PollState, result: Result<(), IoError>) -> (wake: bool)
        requires
            old(self).action is Add,
        ensures
            old(state).wf() ==> final(state).wf(),
            match result {
                Err(err) => {
                    &&& final(self).action == ThreadAction::End
                    &&& final(self).to_add@ == old(self).to_add@
                    &&& ended_with(*final(state), old(state).ready)
                    &&& final(state).error == Some(err)
                    &&& wake == old(state).waiting
                },
                Ok(()) => {
                    &&& *final(state) == *old(state)
                    &&& !wake
                    &&& if old(self).to_add@.len() == 0 {
                        &&& final(self).action == ThreadAction::Wait
                        &&& final(self).to_add@ == old(self).to_add@
                    } else {
                        &&& final(self).action == ThreadAction::Add(old(self).to_add@.last())
                        &&& final(self).to_add@ == old(self).to_add@.drop_last()
                    }
                },
            },
            result is Err ==> forall|guard: Option<u32>| #[trigger]
                old(state).flow(guard, false).after(FlowStep::Fail)
                    == final(state).flow(guard, final(self).action is End),
    {
        match result {
            Err(err) => {
                self.action = ThreadAction::End;
                state.finish(Err(err))
            },
            Ok(()) => {
                match self.to_add.pop() {
                    Some(next) => {
                        self.action = ThreadAction::Add(next);
                    },
                    None => {
                        self.action = ThreadAction::Wait;
                    },
                }
                false
            },
        }
    }

    /// `epoll_wait` was called, and filled in so many of `events`: they are handled, and the
    /// thread waits again or ends. Returns whether a task is to be woken.
    pub fn waited(
        &mut self,
        state: &mut PollState,
        result: Result<usize, IoError>,
        events: &[EpollEvent],
    ) -> (wake: bool)
        requires
            old(self).action == ThreadAction::Wait,
        ensures
            final(self).to_add@ == old(self).to_add@,
            old(state).wf() ==> final(state).wf(),
            match result {
                Err(err) => {
                    &&& final(self).action == ThreadAction::End
                    &&& ended_with(*final(state), old(state).ready)
                    &&& final(state).error == Some(err)
                    &&& wake == old(state).waiting
                },
                Ok(count) => if count >= events@.len() {
                    &&& final(self).action == ThreadAction::End
                    &&& ended_with(*final(state), old(state).ready)
                    &&& final(state).error matches Some(IoError::Other(text))
                    &&& text@ == "epoll_wait returned garbage"@
                    &&& wake == old(state).waiting
                } else {
                    let run = run_events(
                        old(state).ready,
                        old(state).waiting,
                        events@.take(count as int),
                    );
                    match run.end {
                        RunEnd::Wait => {
                            &&& final(self).action == ThreadAction::Wait
                            &&& final(state).ready == run.ready
                            &&& final(state).waiting == run.waiting
                            &&& final(state).error == old(state).error
                            &&& wake == run.wake
                        },
                        RunEnd::Finish => {
                            &&& final(self).action == ThreadAction::End
                            &&& final(state).ready == run.ready | READY_FIN
                            &&& !final(state).waiting
                            &&& final(state).error == old(state).error
                            &&& wake == (run.wake || run.waiting)
                        },
                        RunEnd::Unexpected => {
                            &&& final(self).action == ThreadAction::End
                            &&& ended_with(*final(state), run.ready)
                            &&& final(state).error matches Some(IoError::Other(text))
                            &&& text@ == "epoll_wait returned unexpected events"@
                            &&& wake == (run.wake || run.waiting)
                        },
                    }
                },
            },
            forall|guard: Option<u32>| #[trigger]
                old(state).flow(guard, false).after(wait_step(result, events@))
                    == final(state).flow(guard, final(self).action is End),
    {
        let count = match result {
            Err(err) => {
                self.action = ThreadAction::End;
                return state.finish(Err(err));
            },
            Ok(count) => count,
        };
        let batch = state.handle_events(count, events);
        match batch.end {
            BatchEnd::Wait => batch.wake,
            BatchEnd::Finish => {
                self.action = ThreadAction::End;
                let waited = state.finish(Ok(()));
                batch.wake || waited
            },
            BatchEnd::Failed(err) => {
                self.action = ThreadAction::End;
                let waited = state.finish(Err(err));
                batch.wake || waited
            },
        }
    }
}

/// What happens to the ready state when `epoll_wait` was called: events are handled, unless there
/// was an error or there are more events than there can be.
pub open spec fn wait_step(result: Result<usize, IoError>, events: Seq<EpollEvent>) -> FlowStep {
    match result {
        Ok(count) if count < events.len() => FlowStep::Events(events.take(count as int)),
        _ => FlowStep::Fail,
    }
}

/// Whether the state tells that the reactor ended with an error, when the ready bits were `ready`
/// before.
pub open spec fn ended_with(after: PollState, ready: u32) -> bool {
    &&& after.ready == ready | READY_ERR | READY_FIN_ERR | READY_FIN
    &&& after.error is Some
    &&& !after.waiting
}

/// A call that ends something of a reactor.
#[derive(Clone, Copy, Debug, PartialEq, Eq, Structural)]
pub enum CleanupCall {
    /// Write a one, as eight bytes, to the file descriptor that ends the thread.
    SignalFinish(i32),

    /// Wait until the thread has ended.
    Join,

    /// `close`.
    Close(i32),
}

/// The file descriptors of a reactor are closed.
pub open spec fn epoll_cleanup(epoll: Epoll) -> Seq<CleanupCall> {
    open_fds(epoll.epfd, epoll.finish).map_values(|fd: i32| CleanupCall::Close(fd))
}

/// The thread of a reactor is ended before its file descriptors are closed.
pub open spec fn fd_cleanup(epoll: Epoll) -> Seq<CleanupCall> {
    seq![CleanupCall::SignalFinish(epoll.finish), CleanupCall::Join] + epoll_cleanup(epoll)
}

/// What is to be called to close the file descriptors of a reactor.
fn close_calls(epoll: Epoll) -> (res: Vec<CleanupCall>)
    ensures
        res@ == epoll_cleanup(epoll),
{
    let fds = epoll.on_drop();
    let mut calls = Vec::new();
    let mut i: usize = 0;
    while i < fds.len()
        invariant
            i <= fds@.len(),
            calls@ == fds@.take(i as int).map_values(|fd: i32| CleanupCall::Close(fd)),
        decreases fds@.len() - i,
    {
        calls.push(CleanupCall::Close(fds[i]));
        i = i + 1;
        assert(calls@ == fds@.take(i as int).map_values(|fd: i32| CleanupCall::Close(fd)));
    }
    assert(fds@.take(i as int) == fds@);
    calls
}

/// A call that sets up polling of the fuse file descriptor.
#[derive(Clone, Copy, Debug, PartialEq, Eq, Structural)]
pub enum SetupCall {
    /// `epoll_create1`.
    EpollCreate,

    /// `eventfd`.
    EventFd,

    /// Start the thread. This returns zero.
    Spawn,

    /// `fcntl`, which returns the flags of the fuse file descriptor.
    GetFlags,

    /// `fcntl`, which sets the flags of the fuse file descriptor.
    SetFlags(i32),
}

/// Polling of the fuse file descriptor is being set up.
#[derive(Debug)]
pub struct Setup {
    /// The fuse file descriptor.
    pub fd: i32,

    /// What the reactor has so far.
    pub epoll: Epoll,

    /// What is to be called next. What it returned goes into `returned`.
    pub call: SetupCall,
}

/// What comes of a call that sets up polling.
#[derive(Debug)]
pub enum SetupStep {
    /// Another call follows.
    Call(Setup),

    /// Polling is set up.
    Ready(FuseFd),

    /// A call failed: the others are undone by these calls.
    Failed { error: IoError, cleanup: Vec<CleanupCall> },
}

impl Setup {
    /// The call returned `rc`, and set `errno` if it failed.
    pub fn returned(self, rc: i32, errno: i32) -> (res: SetupStep)
        ensures
            match self.call {
                SetupCall::EpollCreate => {
                    let epoll = Epoll { epfd: rc, ..self.epoll };
                    if rc < 0 {
                        &&& res matches SetupStep::Failed { error, cleanup }
                        &&& error == IoError::Os(errno)
                        &&& cleanup@ == epoll_cleanup(epoll)
                    } else {
                        res == SetupStep::Call(Setup { epoll, call: SetupCall::EventFd, ..self })
                    }
                },
                SetupCall::EventFd => {
                    let epoll = Epoll { finish: rc, ..self.epoll };
                    if rc < 0 {
                        &&& res matches SetupStep::Failed { error, cleanup }
                        &&& error == IoError::Os(errno)
                        &&& cleanup@ == epoll_cleanup(epoll)
                    } else {
                        res == SetupStep::Call(Setup { epoll, call: SetupCall::Spawn, ..self })
                    }
                },
                SetupCall::Spawn => res == SetupStep::Call(
                    Setup { call: SetupCall::GetFlags, ..self },
                ),
                SetupCall::GetFlags => if rc == -1 {
                    &&& res matches SetupStep::Failed { error, cleanup }
                    &&& error == IoError::Os(errno)
                    &&& cleanup@ == fd_cleanup(self.epoll)
                } else {
                    res == SetupStep::Call(
                        Setup { call: SetupCall::SetFlags(rc | O_NONBLOCK), ..self },
                    )
                },
                SetupCall::SetFlags(_) => if rc == -1 {
                    &&& res matches SetupStep::Failed { error, cleanup }
                    &&& error == IoError::Os(errno)
                    &&& cleanup@ == fd_cleanup(self.epoll)
                } else {
                    res == SetupStep::Ready(FuseFd { fd: self.fd, epoll: self.epoll })
                },
            },
    {
        let fd = self.fd;
        let mut epoll = self.epoll;
        match self.call {
            SetupCall::EpollCreate => match epoll.created(rc, errno) {
                Err(error) => SetupStep::Failed { error, cleanup: close_calls(epoll) },
                Ok(()) => SetupStep::Call(Setup { fd, epoll, call: SetupCall::EventFd }),
            },
            SetupCall::EventFd => match epoll.finish_created(rc, errno) {
                Err(error) => SetupStep::Failed { error, cleanup: close_calls(epoll) },
                Ok(()) => SetupStep::Call(Setup { fd, epoll, call: SetupCall::Spawn }),
            },
            SetupCall::Spawn => SetupStep::Call(Setup { fd, epoll, call: SetupCall::GetFlags }),
            // make sure it is nonblocking
            SetupCall::GetFlags => {
                if rc == -1 {
                    let cleanup = FuseFd { fd, epoll }.on_drop();
                    return SetupStep::Failed { error: IoError::Os(errno), cleanup };
                }
                SetupStep::Call(Setup { fd, epoll, call: SetupCall::SetFlags(rc | O_NONBLOCK) })
            },
            SetupCall::SetFlags(_) => {
                if rc == -1 {
                    let cleanup = FuseFd { fd, epoll }.on_drop();
                    return SetupStep::Failed { error: IoError::Os(errno), cleanup };
                }
                SetupStep::Ready(FuseFd { fd, epoll })
            },
        }
    }
}

/// The fuse file descriptor, with a reactor thread in the background. The file descriptor is not
/// closed when this is dropped: it is considered to be "borrowing" from libfuse.
#[derive(Debug)]
pub struct FuseFd {
    pub fd: i32,
    pub epoll: Epoll,
}

impl FuseFd {
    /// Create a `FuseFd` handle from a raw file descriptor: gives the first call that sets up
    /// polling.
    pub fn from_raw(fd: i32) -> (res: Setup)
        ensures
            res.fd == fd,
            res.epoll.epfd == -1,
            res.epoll.finish == -1,
            res.call == SetupCall::EpollCreate,
    {
        Setup { fd, epoll: Epoll::new(), call: SetupCall::EpollCreate }
    }

    /// The raw file descriptor.
    pub fn as_raw_fd(&self) -> (res: i32)
        ensures
            res == self.fd,
    {
        self.fd
    }

    /// What is to be called when this is dropped, in this order.
    pub fn on_drop(self) -> (res: Vec<CleanupCall>)
        ensures
            res@ == fd_cleanup(self.epoll),
    {
        let mut calls = Vec::new();
        calls.push(CleanupCall::SignalFinish(self.epoll.finish));
        calls.push(CleanupCall::Join);
        let mut closes = close_calls(self.epoll);
        calls.append(&mut closes);
        proof {
            assert(calls@ == fd_cleanup(self.epoll));
        }
        calls
    }
}

/// A reactor that is dropped leaves nothing behind: its thread is told to end and waited for, and
/// then each of its file descriptors is closed. One that was not set up closes what it opened.
pub proof fn law_reactor_leaves_nothing(epoll: Epoll)
    ensures
        epoll.epfd >= 0 && epoll.finish >= 0 ==> fd_cleanup(epoll) == seq![
            CleanupCall::SignalFinish(epoll.finish),
            CleanupCall::Join,
            CleanupCall::Close(epoll.epfd),
            CleanupCall::Close(epoll.finish),
        ],
        epoll.epfd >= 0 && epoll.finish < 0 ==> epoll_cleanup(epoll) == seq![
            CleanupCall::Close(epoll.epfd),
        ],
        epoll.epfd < 0 && epoll.finish < 0 ==> epoll_cleanup(epoll) == Seq::<CleanupCall>::empty(),
{
    if epoll.epfd >= 0 && epoll.finish >= 0 {
        assert(fd_cleanup(epoll) =~= seq![
            CleanupCall::SignalFinish(epoll.finish),
            CleanupCall::Join,
            CleanupCall::Close(epoll.epfd),
            CleanupCall::Close(epoll.finish),
        ]);
    }
    if epoll.finish < 0 {
        assert(epoll_cleanup(epoll) =~= if epoll.epfd >= 0 {
            seq![CleanupCall::Close(epoll.epfd)]
        } else {
            seq![]
        });
    }
}

/// Ready bits that are taken and put back, because the guard was not cleared, are all set again,
/// and so are those that the reactor added in between.
pub proof fn law_uncleared_bits_come_back(ready: u32, added: u32)
    ensures
        (bits_left(ready) | added) | ready == ready | added,
{
    assert(((ready & !(0b1u32 | 0b10u32)) | added) | ready == ready | added) by (bit_vector);
}

/// Ready bits that are taken and cleared are gone, unless the reactor added them in between; what
/// it added is set, and so is what tells that the reactor ended.
pub proof fn law_cleared_bits_are_gone(ready: u32, added: u32)
    ensures
        (bits_left(ready) | added) | 0 == bits_left(ready) | added,
        (bits_left(ready) | added) & READY_IN == added & READY_IN,
        (bits_left(ready) | added) & READY_ERR == added & READY_ERR,
        (bits_left(ready) | added) & READY_FIN == (ready | added) & READY_FIN,
        (bits_left(ready) | added) & READY_FIN_ERR == (ready | added) & READY_FIN_ERR,
        (bits_left(ready) | added) & added == added,
{
    assert({
        let left = ready & !(0b1u32 | 0b10u32);
        &&& (left | added) | 0u32 == left | added
        &&& (left | added) & 0b1u32 == added & 0b1u32
        &&& (left | added) & 0b10u32 == added & 0b10u32
        &&& (left | added) & 0b100u32 == (ready | added) & 0b100u32
        &&& (left | added) & 0b1000u32 == (ready | added) & 0b1000u32
        &&& (left | added) & added == added
    }) by (bit_vector);
}

/// Whether every event is of the fuse file descriptor and tells of no error, so that the reactor
/// goes on.
pub open spec fn goes_on(events: Seq<EpollEvent>) -> bool {
    forall|i: int|
        0 <= i < events.len() ==> (#[trigger] events[i]).data == TOKEN && events[i].events
            & EPOLLERR == 0
}

/// Handling events never takes ready bits away, and never makes a task wait. The reactor goes on
/// exactly if every event is of the fuse file descriptor and tells of no error.
pub proof fn law_events_only_add(ready: u32, waiting: bool, events: Seq<EpollEvent>)
    ensures
        run_events(ready, waiting, events).ready & ready == ready,
        run_events(ready, waiting, events).waiting ==> waiting,
        run_events(ready, waiting, events).end == RunEnd::Wait <==> goes_on(events),
    decreases events.len(),
{
    if events.len() == 0 {
        assert(ready & ready == ready) by (bit_vector);
    } else {
        let first = events[0];
        let more = spec_epoll_to_ready(first.events);
        let rest = events.drop_first();
        law_events_only_add(ready | more, false, rest);
        let end = run_events(ready | more, false, rest).ready;
        assert(end & (ready | more) == (ready | more) ==> end & ready == ready) by (bit_vector);
        assert((ready | more) & ready == ready) by (bit_vector);
        assert(ready & ready == ready) by (bit_vector);
        if first.data == TOKEN && first.events & EPOLLERR == 0 {
            assert forall|i: int| 0 <= i < rest.len() implies rest[i] == events[i + 1] by {}
            if goes_on(rest) {
                assert forall|i: int| 0 <= i < events.len() implies (#[trigger] events[i]).data
                    == TOKEN && events[i].events & EPOLLERR == 0 by {
                    if i > 0 {
                        assert(rest[i - 1] == events[i]);
                    }
                }
            }
            if goes_on(events) {
                assert forall|i: int| 0 <= i < rest.len() implies (#[trigger] rest[i]).data == TOKEN
                    && rest[i].events & EPOLLERR == 0 by {
                    assert(rest[i] == events[i + 1]);
                }
            }
        }
    }
}

/// A task that waits is woken by whatever comes next: as soon as the reactor has handled at least
/// one event and goes on, and otherwise when it ends, no task waits any more, and one that did is
/// woken.
pub proof fn law_no_wakeup_is_lost(ready: u32, waiting: bool, events: Seq<EpollEvent>)
    ensures
        ({
            let run = run_events(ready, waiting, events);
            &&& run.wake ==> waiting
            &&& waiting ==> run.wake || run.waiting
            &&& run.end == RunEnd::Wait && events.len() > 0 ==> !run.waiting
        }),
    decreases events.len(),
{
    if events.len() > 0 {
        let more = ready | spec_epoll_to_ready(events[0].events);
        law_no_wakeup_is_lost(more, false, events.drop_first());
    }
}

/// The ready state together with the guard that a poll handed out, and whether the reactor has
/// ended.
pub struct Flow {
    pub ready: u32,
    pub waiting: bool,
    pub guard: Option<u32>,
    pub ended: bool,
}

/// What can happen to the ready state.
pub enum FlowStep {
    /// The task polls; it does so only when it has put the last guard back.
    Poll,

    /// The task clears its guard.
    Clear,

    /// The task puts its guard back.
    Restore,

    /// The reactor handles events.
    Events(Seq<EpollEvent>),

    /// The reactor ends with an error.
    Fail,
}

impl Flow {
    /// Nothing has happened yet.
    pub open spec fn start() -> Flow {
        Flow { ready: 0, waiting: false, guard: None, ended: false }
    }

    /// A task waits only while it has no guard, nothing is ready, and the reactor goes on; and
    /// once the reactor has ended, that stays known.
    pub open spec fn inv(self) -> bool {
        &&& self.waiting ==> self.guard is None && self.ready == 0 && !self.ended
        &&& self.ended ==> self.ready & READY_FIN != 0
    }

    /// The state after a step; a step that cannot be taken changes nothing.
    pub open spec fn after(self, step: FlowStep) -> Flow {
        match step {
            FlowStep::Poll => if self.guard is Some {
                self
            } else if self.ready & READY_FIN_ERR != 0 {
                Flow { ready: bits_left(self.ready), ..self }
            } else if self.ready != 0 {
                Flow { ready: bits_left(self.ready), guard: Some(self.ready), ..self }
            } else {
                Flow { waiting: true, ..self }
            },
            FlowStep::Clear => match self.guard {
                Some(_) => Flow { guard: Some(0), ..self },
                None => self,
            },
            FlowStep::Restore => match self.guard {
                Some(bits) => Flow { ready: self.ready | bits, guard: None, ..self },
                None => self,
            },
            FlowStep::Events(events) => if self.ended {
                self
            } else {
                let run = run_events(self.ready, self.waiting, events);
                match run.end {
                    RunEnd::Wait => Flow { ready: run.ready, waiting: run.waiting, ..self },
                    RunEnd::Finish => Flow {
                        ready: run.ready | READY_FIN,
                        waiting: false,
                        ended: true,
                        ..self
                    },
                    RunEnd::Unexpected => Flow {
                        ready: run.ready | READY_ERR | READY_FIN_ERR | READY_FIN,
                        waiting: false,
                        ended: true,
                        ..self
                    },
                }
            },
            FlowStep::Fail => if self.ended {
                self
            } else {
                Flow {
                    ready: self.ready | READY_ERR | READY_FIN_ERR | READY_FIN,
                    waiting: false,
                    ended: true,
                    ..self
                }
            },
        }
    }

    /// The state after steps, taken in order.
    pub open spec fn after_all(self, steps: Seq<FlowStep>) -> Flow
        decreases steps.len(),
    {
        if steps.len() == 0 {
            self
        } else {
            self.after_all(steps.drop_last()).after(steps.last())
        }
    }
}

/// However the task's steps and those of the reactor follow each other, a task never waits while
/// the file descriptor is ready or after the reactor has ended: no event is lost to it.
///
/// The steps are those of `PollState::poll_read_ready`, `ReadyGuard::clear_ready`,
/// `PollState::restore`, `PollThread::added` and `PollThread::waited`.
pub proof fn law_waiting_task_misses_nothing(steps: Seq<FlowStep>)
    ensures
        Flow::start().after_all(steps).inv(),
    decreases steps.len(),
{
    if steps.len() > 0 {
        law_waiting_task_misses_nothing(steps.drop_last());
        lemma_flow_step(Flow::start().after_all(steps.drop_last()), steps.last());
    }
}

/// Each step keeps the invariant.
proof fn lemma_flow_step(flow: Flow, step: FlowStep)
    requires
        flow.inv(),
    ensures
        flow.after(step).inv(),
{
    let r = flow.ready;
    assert((r & !(0b1u32 | 0b10u32)) & 0b100u32 == r & 0b100u32) by (bit_vector);
    assert(0u32 & 0b100u32 == 0u32 && 0u32 & !(0b1u32 | 0b10u32) == 0u32) by (bit_vector);
    match step {
        FlowStep::Restore => {
            if let Some(bits) = flow.guard {
                assert(r & 0b100u32 != 0 ==> (r | bits) & 0b100u32 != 0) by (bit_vector);
            }
        },
        FlowStep::Events(events) => {
            law_no_wakeup_is_lost(r, flow.waiting, events);
            let more = run_events(r, flow.waiting, events).ready;
            assert((more | 0b100u32) & 0b100u32 != 0) by (bit_vector);
            assert((more | 0b10u32 | 0b1000u32 | 0b100u32) & 0b100u32 != 0) by (bit_vector);
        },
        FlowStep::Fail => {
            assert((r | 0b10u32 | 0b1000u32 | 0b100u32) & 0b100u32 != 0) by (bit_vector);
        },
        _ => {},
    }
}

/// An event that tells of input, or of an error, makes the file descriptor ready.
pub proof fn law_event_makes_ready(events: u32)
    ensures
        events & EPOLLIN != 0 <==> spec_epoll_to_ready(events) & READY_IN != 0,
        events & EPOLLERR != 0 <==> spec_epoll_to_ready(events) & READY_ERR != 0,
        spec_epoll_to_ready(events) & taken_bits() == spec_epoll_to_ready(events),
{
    assert({
        &&& (0u32 | 0u32) & 0b1u32 == 0 && (0u32 | 0u32) & 0b10u32 == 0
        &&& (0b1u32 | 0u32) & 0b1u32 != 0 && (0b1u32 | 0u32) & 0b10u32 == 0
        &&& (0u32 | 0b10u32) & 0b1u32 == 0 && (0u32 | 0b10u32) & 0b10u32 != 0
        &&& (0b1u32 | 0b10u32) & 0b1u32 != 0 && (0b1u32 | 0b10u32) & 0b10u32 != 0
        &&& (0u32 | 0u32) & (0b1u32 | 0b10u32) == 0u32 | 0u32
        &&& (0b1u32 | 0u32) & (0b1u32 | 0b10u32) == 0b1u32 | 0u32
        &&& (0u32 | 0b10u32) & (0b1u32 | 0b10u32) == 0u32 | 0b10u32
        &&& (0b1u32 | 0b10u32) & (0b1u32 | 0b10u32) == 0b1u32 | 0b10u32
    }) by (bit_vector);
}

/// No bits are set in zero.
proof fn lemma_zero_bits()
    ensures
        0u32 & READY_FIN_ERR == 0,
{
    assert(0u32 & 0b1000u32 == 0) by (bit_vector);
}

/// Events are handled one after the other until one does not go on, which is the one at place `n`
/// if there is one. Input that was told of makes the file descriptor ready for input, an error
/// makes it ready with an error, and no other bit changes. The thread ends where it is told to or
/// where there was an error, and fails where an event is of no known file descriptor. A task that
/// waits is woken by the first event that goes on.
pub proof fn law_events_are_handled_in_order(
    ready: u32,
    waiting: bool,
    events: Seq<EpollEvent>,
    n: int,
)
    requires
        0 <= n <= events.len(),
        forall|i: int|
            0 <= i < n ==> (#[trigger] events[i]).data == TOKEN && events[i].events & EPOLLERR == 0,
        n < events.len() ==> events[n].data != TOKEN || events[n].events & EPOLLERR != 0,
    ensures
        ({
            let run = run_events(ready, waiting, events);
            let error = n < events.len() && events[n].data == TOKEN;
            let input = exists|i: int|
                0 <= i < events.len() && (i < n || i == n && error) && (
                #[trigger] events[i]).events & EPOLLIN != 0;
            &&& run.ready & READY_IN != 0 <==> ready & READY_IN != 0 || input
            &&& run.ready & READY_ERR != 0 <==> ready & READY_ERR != 0 || error
            &&& run.ready & !(READY_IN | READY_ERR) == ready & !(READY_IN | READY_ERR)
            &&& run.wake == (waiting && n > 0)
            &&& run.waiting == (waiting && n == 0)
            &&& run.end == if n == events.len() {
                RunEnd::Wait
            } else if error || events[n].data == FINISH_TOKEN {
                RunEnd::Finish
            } else {
                RunEnd::Unexpected
            }
        }),
    decreases n,
{
    if events.len() > 0 {
        let first = events[0];
        let bits = spec_epoll_to_ready(first.events);
        let more = ready | bits;
        law_event_makes_ready(first.events);
        assert({
            &&& more == ready | bits
            &&& bits & (0b1u32 | 0b10u32) == bits
        } ==> {
            &&& more & 0b1u32 != 0 <==> ready & 0b1u32 != 0 || bits & 0b1u32 != 0
            &&& more & 0b10u32 != 0 <==> ready & 0b10u32 != 0 || bits & 0b10u32 != 0
            &&& more & !(0b1u32 | 0b10u32) == ready & !(0b1u32 | 0b10u32)
        }) by (bit_vector);
        if n > 0 {
            let rest = events.drop_first();
            assert forall|i: int| 0 <= i < n - 1 implies (#[trigger] rest[i]).data == TOKEN
                && rest[i].events & EPOLLERR == 0 by {
                assert(rest[i] == events[i + 1]);
            }
            law_events_are_handled_in_order(more, false, rest, n - 1);
            let error = n < events.len() && events[n].data == TOKEN;
            if exists|i: int|
                0 <= i < events.len() && (i < n || i == n && error) && (#[trigger] events[i]).events
                    & EPOLLIN != 0 {
                let i = choose|i: int|
                    0 <= i < events.len() && (i < n || i == n && error) && (
                    #[trigger] events[i]).events & EPOLLIN != 0;
                if i > 0 {
                    assert(rest[i - 1] == events[i]);
                }
            }
            if exists|i: int|
                0 <= i < rest.len() && (i < n - 1 || i == n - 1 && error) && (
                #[trigger] rest[i]).events & EPOLLIN != 0 {
                let i = choose|i: int|
                    0 <= i < rest.len() && (i < n - 1 || i == n - 1 && error) && (
                    #[trigger] rest[i]).events & EPOLLIN != 0;
                assert(events[i + 1] == rest[i]);
            }
        }
    }
}

/// A thread that ended with an error has all the bits that tell of it, and those that were there.
pub proof fn law_error_is_told(after: PollState, ready: u32)
    requires
        ended_with(after, ready),
    ensures
        after.ready & READY_ERR != 0,
        after.ready & READY_FIN != 0,
        after.ready & READY_FIN_ERR != 0,
        after.ready & READY_IN == ready & READY_IN,
        after.ready & ready == ready,
        after.error is Some,
        !after.waiting,
{
    assert({
        let all = ready | 0b10u32 | 0b1000u32 | 0b100u32;
        &&& all & 0b10u32 != 0
        &&& all & 0b100u32 != 0
        &&& all & 0b1000u32 != 0
        &&& all & 0b1u32 == ready & 0b1u32
        &&& all & ready == ready
    }) by (bit_vector);
}

} // verus!
