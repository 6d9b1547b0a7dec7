use proxmox_fuse::error::IoError;
use proxmox_fuse::fuse_fd::{
    epoll_to_ready, BatchEnd, CleanupCall, Epoll, EpollEvent, FuseFd, PollState, PollThread,
    ReadPoll, ReadyGuard, Registration, Setup, SetupCall, SetupStep, ThreadAction, EPOLLERR,
    EPOLLET, EPOLLIN, FINISH_TOKEN, READY_ERR, READY_FIN, READY_FIN_ERR, READY_IN, TOKEN,
};

fn event(events: u32, data: u64) -> EpollEvent {
    EpollEvent { events, data }
}

/// Space for eight events, of which the first are given.
fn space(events: &[EpollEvent]) -> Vec<EpollEvent> {
    let mut all = events.to_vec();
    while all.len() < 8 {
        all.push(event(0, 0));
    }
    all
}

fn guard_of(poll: ReadPoll) -> ReadyGuard {
    match poll {
        ReadPoll::Ready(guard) => guard,
        other => panic!("{:?}", other),
    }
}

#[test]
fn epoll_bits_are_mapped() {
    assert_eq!(epoll_to_ready(0), 0);
    assert_eq!(epoll_to_ready(EPOLLIN), READY_IN);
    assert_eq!(epoll_to_ready(EPOLLERR), READY_ERR);
    assert_eq!(epoll_to_ready(EPOLLIN | EPOLLERR | 0x10), READY_IN | READY_ERR);
    assert_eq!(epoll_to_ready(EPOLLET | 0x4), 0);
}

#[test]
fn polling_waits_until_an_event() {
    let mut state = PollState::new();
    assert!(matches!(state.poll_read_ready(), ReadPoll::Pending));
    assert!(state.waiting);
    let batch = state.handle_events(1, &space(&[event(EPOLLIN, TOKEN)]));
    assert!(batch.wake);
    assert!(matches!(batch.end, BatchEnd::Wait));
    assert!(!state.waiting);
    let guard = guard_of(state.poll_read_ready());
    assert_eq!(guard.ready, READY_IN);
    assert!(!guard.is_unmounted());
    assert!(!guard.is_eof());
    assert_eq!(state.ready, 0);
}

#[test]
fn uncleared_bits_come_back() {
    let mut state = PollState::new();
    let _ = state.handle_events(1, &space(&[event(EPOLLIN, TOKEN)]));
    let guard = guard_of(state.poll_read_ready());
    state.restore(guard);
    assert_eq!(state.ready, READY_IN);
}

#[test]
fn cleared_bits_are_gone_unless_added() {
    let mut state = PollState::new();
    let _ = state.handle_events(1, &space(&[event(EPOLLIN, TOKEN)]));
    let mut guard = guard_of(state.poll_read_ready());
    guard.clear_ready();
    state.restore(guard);
    assert_eq!(state.ready, 0);

    let _ = state.handle_events(1, &space(&[event(EPOLLIN, TOKEN)]));
    let mut guard = guard_of(state.poll_read_ready());
    // the reactor reports another edge before the guard is done with
    let _ = state.handle_events(1, &space(&[event(EPOLLIN, TOKEN)]));
    guard.clear_ready();
    state.restore(guard);
    assert_eq!(state.ready, READY_IN);
}

#[test]
fn unmounting_ends_the_reactor() {
    let mut state = PollState::new();
    let _ = state.poll_read_ready();
    let batch = state.handle_events(
        2,
        &space(&[event(EPOLLIN | EPOLLERR, TOKEN), event(EPOLLIN, 99)]),
    );
    assert!(matches!(batch.end, BatchEnd::Finish));
    // the task is woken when the reactor has ended
    assert!(!batch.wake);
    assert!(state.finish(Ok(())));
    assert_eq!(state.ready, READY_IN | READY_ERR | READY_FIN);
    let guard = guard_of(state.poll_read_ready());
    assert!(guard.is_unmounted());
    assert!(guard.is_eof());
    // that the reactor has ended stays known
    assert_eq!(state.ready, READY_FIN);
}

#[test]
fn finish_token_ends_the_reactor() {
    let mut state = PollState::new();
    let batch = state.handle_events(
        3,
        &space(&[
            event(EPOLLIN, TOKEN),
            event(EPOLLIN, FINISH_TOKEN),
            event(EPOLLERR, TOKEN),
        ]),
    );
    assert!(matches!(batch.end, BatchEnd::Finish));
    assert_eq!(state.ready, READY_IN);
    assert!(!state.finish(Ok(())));
}

#[test]
fn unknown_events_are_an_error() {
    let mut state = PollState::new();
    let batch = state.handle_events(1, &space(&[event(EPOLLIN, 2)]));
    match batch.end {
        BatchEnd::Failed(IoError::Other(text)) => {
            assert_eq!(text, "epoll_wait returned unexpected events")
        }
        other => panic!("{:?}", other),
    }
    assert_eq!(state.ready, 0);
}

#[test]
fn more_events_than_space_are_an_error() {
    let mut state = PollState::new();
    let batch = state.handle_events(8, &space(&[event(EPOLLIN, TOKEN)]));
    match batch.end {
        BatchEnd::Failed(IoError::Other(text)) => assert_eq!(text, "epoll_wait returned garbage"),
        other => panic!("{:?}", other),
    }
    assert_eq!(state.ready, 0);
    let batch = state.handle_events(7, &space(&[event(EPOLLIN, TOKEN)]));
    assert!(matches!(batch.end, BatchEnd::Wait));
}

#[test]
fn error_of_the_reactor_is_reported() {
    let mut state = PollState::new();
    let _ = state.poll_read_ready();
    assert!(state.finish(Err(IoError::Os(4))));
    assert_eq!(state.ready, READY_ERR | READY_FIN | READY_FIN_ERR);
    assert!(matches!(state.poll_read_ready(), ReadPoll::Failed(IoError::Os(4))));
    assert!(state.error.is_none());
    assert_eq!(state.ready, READY_FIN | READY_FIN_ERR);
}

#[test]
fn epoll_closes_what_it_opened() {
    assert_eq!(Epoll::new().on_drop(), Vec::<i32>::new());

    let mut epoll = Epoll::new();
    assert!(matches!(epoll.created(-1, 24), Err(IoError::Os(24))));
    assert_eq!(epoll.on_drop(), Vec::<i32>::new());

    let mut epoll = Epoll::new();
    assert!(epoll.created(5, 0).is_ok());
    assert!(matches!(epoll.finish_created(-1, 23), Err(IoError::Os(23))));
    assert_eq!(epoll.on_drop(), vec![5]);

    let mut epoll = Epoll::new();
    assert!(epoll.created(0, 0).is_ok());
    assert!(epoll.finish_created(6, 0).is_ok());
    assert_eq!(epoll.on_drop(), vec![0, 6]);
}

#[test]
fn epoll_results_are_checked() {
    let mut epoll = Epoll::new();
    assert!(epoll.created(5, 0).is_ok());
    assert!(epoll.finish_created(6, 0).is_ok());
    assert!(epoll.signal_finish(8, 0).is_ok());
    assert!(matches!(epoll.signal_finish(4, 11), Err(IoError::Os(11))));
    assert!(matches!(epoll.signal_finish(-1, 9), Err(IoError::Os(9))));
    assert!(epoll.ctl(0, 0).is_ok());
    assert!(matches!(epoll.ctl(-1, 17), Err(IoError::Os(17))));
    assert!(matches!(epoll.wait(3, 0), Ok(3)));
    assert!(matches!(epoll.wait(-1, 4), Err(IoError::Os(4))));
}

fn next_call(step: SetupStep) -> Setup {
    match step {
        SetupStep::Call(setup) => setup,
        other => panic!("{:?}", other),
    }
}

fn failure_of(step: SetupStep) -> (i32, Vec<CleanupCall>) {
    match step {
        SetupStep::Failed { error: IoError::Os(errno), cleanup } => (errno, cleanup),
        other => panic!("{:?}", other),
    }
}

/// Setting up for the descriptor 3, with the descriptors 5 and 6 and a thread.
fn with_thread() -> Setup {
    let setup = next_call(FuseFd::from_raw(3).returned(5, 0));
    let setup = next_call(setup.returned(6, 0));
    assert_eq!(setup.call, SetupCall::Spawn);
    next_call(setup.returned(0, 0))
}

fn all_cleanup() -> Vec<CleanupCall> {
    vec![
        CleanupCall::SignalFinish(6),
        CleanupCall::Join,
        CleanupCall::Close(5),
        CleanupCall::Close(6),
    ]
}

#[test]
fn descriptor_is_made_nonblocking() {
    let setup = with_thread();
    assert_eq!(setup.call, SetupCall::GetFlags);
    let setup = next_call(setup.returned(0o2, 0));
    assert_eq!(setup.call, SetupCall::SetFlags(0o4002));
    match setup.returned(0, 0) {
        SetupStep::Ready(fd) => {
            assert_eq!(fd.as_raw_fd(), 3);
            assert_eq!((fd.epoll.epfd, fd.epoll.finish), (5, 6));
            assert_eq!(fd.on_drop(), all_cleanup());
        }
        other => panic!("{:?}", other),
    }
}

#[test]
fn failed_setup_is_undone() {
    let setup = FuseFd::from_raw(3);
    assert_eq!(setup.call, SetupCall::EpollCreate);
    assert_eq!(failure_of(setup.returned(-1, 24)), (24, vec![]));

    let setup = next_call(FuseFd::from_raw(3).returned(5, 0));
    assert_eq!(setup.call, SetupCall::EventFd);
    assert_eq!(failure_of(setup.returned(-1, 23)), (23, vec![CleanupCall::Close(5)]));

    assert_eq!(failure_of(with_thread().returned(-1, 9)), (9, all_cleanup()));

    let setup = next_call(with_thread().returned(0, 0));
    assert_eq!(failure_of(setup.returned(-1, 8)), (8, all_cleanup()));
}

fn thread() -> PollThread {
    PollThread::new(&Epoll { epfd: 5, finish: 6 }, 3)
}

/// A thread that waits for events.
fn waiting_thread(state: &mut PollState) -> PollThread {
    let mut thread = thread();
    assert!(!thread.added(state, Ok(())));
    assert!(!thread.added(state, Ok(())));
    thread
}

#[test]
fn reactor_adds_both_descriptors_and_waits() {
    let mut state = PollState::new();
    let mut thread = thread();
    assert_eq!(
        thread.action,
        ThreadAction::Add(Registration {
            fd: 3,
            events: EPOLLIN | EPOLLERR | EPOLLET,
            data: TOKEN,
        })
    );
    assert!(!thread.added(&mut state, Ok(())));
    assert_eq!(
        thread.action,
        ThreadAction::Add(Registration {
            fd: 6,
            events: EPOLLIN | EPOLLET,
            data: FINISH_TOKEN,
        })
    );
    assert!(!thread.added(&mut state, Ok(())));
    assert_eq!(thread.action, ThreadAction::Wait);
    assert_eq!(state.ready, 0);
}

#[test]
fn reactor_ends_when_a_descriptor_cannot_be_added() {
    let mut state = PollState::new();
    let _ = state.poll_read_ready();
    let mut thread = thread();
    assert!(thread.added(&mut state, Err(IoError::Os(9))));
    assert_eq!(thread.action, ThreadAction::End);
    assert_eq!(state.ready, READY_ERR | READY_FIN | READY_FIN_ERR);
    assert!(matches!(state.error, Some(IoError::Os(9))));
    assert!(matches!(state.poll_read_ready(), ReadPoll::Failed(IoError::Os(9))));
}

#[test]
fn reactor_goes_on_after_input() {
    let mut state = PollState::new();
    let mut thread = waiting_thread(&mut state);
    let _ = state.poll_read_ready();
    assert!(thread.waited(&mut state, Ok(1), &space(&[event(EPOLLIN, TOKEN)])));
    assert_eq!(thread.action, ThreadAction::Wait);
    assert_eq!(state.ready, READY_IN);
    assert!(!thread.waited(&mut state, Ok(0), &space(&[])));
    assert_eq!(thread.action, ThreadAction::Wait);
}

#[test]
fn reactor_ends_and_wakes() {
    // unmounted
    let mut state = PollState::new();
    let mut thread = waiting_thread(&mut state);
    let _ = state.poll_read_ready();
    assert!(thread.waited(&mut state, Ok(1), &space(&[event(EPOLLERR, TOKEN)])));
    assert_eq!(thread.action, ThreadAction::End);
    assert_eq!(state.ready, READY_ERR | READY_FIN);

    // told to end
    let mut state = PollState::new();
    let mut thread = waiting_thread(&mut state);
    let _ = state.poll_read_ready();
    assert!(thread.waited(&mut state, Ok(1), &space(&[event(EPOLLIN, FINISH_TOKEN)])));
    assert_eq!(thread.action, ThreadAction::End);
    assert_eq!(state.ready, READY_FIN);

    // an error, with no task that waits
    let mut state = PollState::new();
    let mut thread = waiting_thread(&mut state);
    assert!(!thread.waited(&mut state, Err(IoError::Os(4)), &space(&[])));
    assert_eq!(thread.action, ThreadAction::End);
    assert!(matches!(state.error, Some(IoError::Os(4))));

    // garbage
    let mut state = PollState::new();
    let mut thread = waiting_thread(&mut state);
    assert!(!thread.waited(&mut state, Ok(8), &space(&[])));
    assert_eq!(state.ready, READY_ERR | READY_FIN | READY_FIN_ERR);
    assert!(matches!(&state.error, Some(IoError::Other(text))
        if text == "epoll_wait returned garbage"));

    // an unknown event after input
    let mut state = PollState::new();
    let mut thread = waiting_thread(&mut state);
    let _ = state.poll_read_ready();
    let events = space(&[event(EPOLLIN, TOKEN), event(EPOLLIN, 7)]);
    assert!(thread.waited(&mut state, Ok(2), &events));
    assert_eq!(state.ready, READY_IN | READY_ERR | READY_FIN | READY_FIN_ERR);
    assert!(matches!(&state.error, Some(IoError::Other(text))
        if text == "epoll_wait returned unexpected events"));
}

#[test]
fn polling_after_the_end_never_waits() {
    let mut state = PollState::new();
    assert!(!state.finish(Ok(())));
    for _ in 0..3 {
        let mut guard = guard_of(state.poll_read_ready());
        assert!(guard.is_eof());
        guard.clear_ready();
        state.restore(guard);
    }
    assert!(!state.waiting);
}
