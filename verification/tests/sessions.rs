use proxmox_fuse::errno::{EAGAIN, EIO, ENOENT, ENOSYS, ERANGE, O_NONBLOCK};
use proxmox_fuse::error::{Error, IoError};
use proxmox_fuse::reply::{Reply, ReplyCall};
use proxmox_fuse::requests::{FuseRequest, Request};
use proxmox_fuse::session::{
    default_operations, FuseData, MountFailure, SessionCall, StreamAction, StreamEvent,
};
use proxmox_fuse::sys::{self, FuseFileInfo, Operations};
use proxmox_fuse::util::{CString, Stat};
use proxmox_fuse::{Fuse, FuseSession, FuseSessionBuilder};

fn handle(raw: usize) -> sys::Request {
    sys::Request { raw }
}

fn builder() -> FuseSessionBuilder {
    Fuse::builder("mytmpfs").unwrap()
}

fn args_of(builder: &FuseSessionBuilder) -> Vec<Vec<u8>> {
    builder.args.iter().map(|arg| arg.to_bytes().to_vec()).collect()
}

fn file_info(fh: u64) -> FuseFileInfo {
    FuseFileInfo { flags: 0o2, bits: 0, fh, lock_owner: 0, poll_events: 0 }
}

fn zero_stat() -> Stat {
    Stat {
        st_dev: 0,
        st_ino: 0,
        st_nlink: 0,
        st_mode: 0,
        st_uid: 0,
        st_gid: 0,
        st_rdev: 0,
        st_size: 0,
        st_blksize: 0,
        st_blocks: 0,
        st_atime: 0,
        st_atime_nsec: 0,
        st_mtime: 0,
        st_mtime_nsec: 0,
        st_ctime: 0,
        st_ctime_nsec: 0,
    }
}

fn new_session() -> FuseSession {
    builder().build().created(0x77).unwrap()
}

fn fuse() -> Fuse {
    let mounting = new_session().mount(Ok(b"/mnt".to_vec())).unwrap();
    mounting.mounted(0).unwrap().with_fd(3).unwrap().attached(Ok(())).unwrap()
}

fn is_wait(action: &StreamAction) -> bool {
    matches!(action, StreamAction::WaitReadable)
}

#[test]
fn numbers_are_those_of_libc() {
    assert_eq!(ENOENT, libc::ENOENT);
    assert_eq!(EIO, libc::EIO);
    assert_eq!(EAGAIN, libc::EAGAIN);
    assert_eq!(ERANGE, libc::ERANGE);
    assert_eq!(ENOSYS, libc::ENOSYS);
    assert_eq!(O_NONBLOCK, libc::O_NONBLOCK);
    assert_eq!(proxmox_fuse::fuse_fd::EPOLLIN, libc::EPOLLIN as u32);
    assert_eq!(proxmox_fuse::fuse_fd::EPOLLERR, libc::EPOLLERR as u32);
    assert_eq!(proxmox_fuse::fuse_fd::EPOLLET, libc::EPOLLET as u32);
    assert_eq!(proxmox_fuse::ROOT_ID, 1);
}

#[test]
fn builder_collects_arguments() {
    let b = builder().options("ro").unwrap().debug().options_os(b"x=\xff").unwrap();
    let expected: Vec<&[u8]> = vec![b"mytmpfs", b"-o", b"ro", b"--debug", b"-o", b"x=\xff"];
    assert_eq!(args_of(&b), expected);

    let c = builder().options_c(CString::new(b"opt".to_vec()).unwrap());
    let expected: Vec<&[u8]> = vec![b"mytmpfs", b"-o", b"opt"];
    assert_eq!(args_of(&c), expected);

    let new = c.build();
    assert_eq!(new.args.argc, 3);
    assert_eq!(new.args.argv.len(), 3);
    assert_eq!(new.args.allocated, 0);
    assert!(new.fuse_data.pending_requests.is_empty());
    assert!(new.fuse_data.fbuf.mem.is_empty());
}

#[test]
fn debug_is_given_unless_it_was() {
    let mut b = builder();
    b.has_debug = true;
    let b = b.debug();
    assert_eq!(args_of(&b), vec![b"mytmpfs".to_vec()]);
    assert_eq!(builder().debug().args.len(), 2);
}

#[test]
fn zero_bytes_are_refused() {
    match Fuse::builder("a\0").unwrap_err() {
        Error::BadName(err) => assert_eq!(err.position, 1),
        other => panic!("{:?}", other),
    }
    match builder().options("\u{e9}\0x").unwrap_err() {
        Error::BadOption(err) => assert_eq!(err.position, 2),
        other => panic!("{:?}", other),
    }
    match builder().options_os(b"\0").unwrap_err() {
        Error::BadOption(err) => assert_eq!(err.position, 0),
        other => panic!("{:?}", other),
    }
}

#[test]
fn only_getattr_is_on_by_default() {
    let ops = builder().operations;
    assert_eq!(ops, default_operations());
    assert_eq!(ops, Operations { getattr: true, ..Operations::none() });
}

#[test]
fn readdirplus_comes_with_lookup_and_forget() {
    let mut b = builder();
    b.operations = Operations::none();
    assert_eq!(
        b.enable_readdirplus().operations,
        Operations { readdirplus: true, lookup: true, forget: true, ..Operations::none() }
    );
}

#[test]
fn each_operation_can_be_enabled() {
    let base = default_operations();
    assert_eq!(builder().enable_readdir().operations, Operations { readdir: true, ..base });
    assert_eq!(
        builder().enable_readdirplus().operations,
        Operations { readdirplus: true, lookup: true, forget: true, ..base }
    );
    assert_eq!(builder().enable_mkdir().operations, Operations { mkdir: true, ..base });
    assert_eq!(
        builder().enable_create().operations,
        Operations { create: true, open: true, release: true, ..base }
    );
    assert_eq!(builder().enable_mknod().operations, Operations { mknod: true, ..base });
    assert_eq!(
        builder().enable_open().operations,
        Operations { open: true, release: true, ..base }
    );
    assert_eq!(builder().enable_setattr().operations, Operations { setattr: true, ..base });
    assert_eq!(builder().enable_unlink().operations, Operations { unlink: true, ..base });
    assert_eq!(builder().enable_rmdir().operations, Operations { rmdir: true, ..base });
    assert_eq!(builder().enable_read().operations, Operations { read: true, ..base });
    assert_eq!(builder().enable_write().operations, Operations { write: true, ..base });
    assert_eq!(builder().enable_readlink().operations, Operations { readlink: true, ..base });
    assert_eq!(
        builder().enable_read_xattr().operations,
        Operations { listxattr: true, getxattr: true, ..base }
    );
    // one after the other, in any order
    assert_eq!(
        builder().enable_read().enable_write().operations,
        builder().enable_write().enable_read().operations
    );
}

#[test]
fn session_that_is_not_created_is_an_error() {
    assert!(matches!(builder().build().created(0), Err(Error::NoSession)));
}

#[test]
fn failed_mounts_are_cleaned_up() {
    let destroy = vec![SessionCall::Destroy(0x77)];
    let both = vec![SessionCall::Unmount(0x77), SessionCall::Destroy(0x77)];

    assert_eq!(new_session().on_drop().calls, destroy);
    assert!(new_session().on_drop().replies.is_empty());

    let MountFailure { error, session } = new_session().mount(Err(IoError::Os(2))).unwrap_err();
    assert!(matches!(error, Error::Io(IoError::Os(2))));
    assert_eq!(session.on_drop().calls, destroy);

    let MountFailure { error, session } = new_session().mount(Ok(b"/a\0".to_vec())).unwrap_err();
    assert!(matches!(error, Error::BadMountPoint(err) if err.position == 2));
    assert_eq!(session.on_drop().calls, destroy);

    let mounting = new_session().mount(Ok(b"/mnt".to_vec())).unwrap();
    assert_eq!(mounting.mountpoint.to_bytes(), b"/mnt");
    let MountFailure { error, session } = mounting.mounted(-1).unwrap_err();
    assert!(matches!(error, Error::MountFailed));
    assert_eq!(session.on_drop().calls, destroy);

    let mounted = new_session().mount(Ok(b"/mnt".to_vec())).unwrap().mounted(0).unwrap();
    let MountFailure { error, session } = mounted.with_fd(-1).unwrap_err();
    assert!(matches!(error, Error::NoFileDescriptor));
    assert_eq!(session.on_drop().calls, both);

    let mounted = new_session().mount(Ok(b"/mnt".to_vec())).unwrap().mounted(0).unwrap();
    let attaching = mounted.with_fd(0).unwrap();
    assert_eq!(attaching.fd, 0);
    let MountFailure { error, session } = attaching.attached(Err(IoError::Os(24))).unwrap_err();
    assert!(matches!(error, Error::Io(IoError::Os(24))));
    assert_eq!(session.on_drop().calls, both);

    assert_eq!(fuse().on_drop().calls, both);
}

#[test]
fn requests_come_in_order() {
    let mut fuse = fuse();
    assert!(is_wait(&fuse.poll_next(StreamEvent::Polled)));
    fuse.fuse_data.lookup(handle(1), 10, b"a".to_vec());
    fuse.fuse_data.forget(handle(2), 11, 3);
    fuse.fuse_data.getattr(handle(3), 12);
    match fuse.poll_next(StreamEvent::Processed) {
        StreamAction::Yield(Request::Lookup(r)) => {
            assert_eq!(r.request.raw, handle(1));
            assert_eq!((r.parent, r.file_name), (10, b"a".to_vec()));
        }
        other => panic!("{:?}", other),
    }
    // one that is queued meanwhile comes last
    fuse.fuse_data.readlink(handle(4), 13);
    match fuse.poll_next(StreamEvent::Polled) {
        StreamAction::Yield(Request::Forget(r)) => {
            assert_eq!((r.inode, r.count), (11, 3));
        }
        other => panic!("{:?}", other),
    }
    assert!(matches!(
        fuse.poll_next(StreamEvent::Cleared),
        StreamAction::Yield(Request::Getattr(r)) if r.inode == 12
    ));
    assert!(matches!(
        fuse.poll_next(StreamEvent::Polled),
        StreamAction::Yield(Request::Readlink(r)) if r.inode == 13
    ));
    assert!(is_wait(&fuse.poll_next(StreamEvent::Polled)));
}

#[test]
fn stream_receives_and_processes() {
    let mut fuse = fuse();
    assert!(matches!(fuse.poll_next(StreamEvent::NotReady), StreamAction::Pending));
    assert!(matches!(fuse.poll_next(StreamEvent::Ready), StreamAction::Receive));
    let again = StreamEvent::Received { rc: -EAGAIN, data: Vec::new() };
    assert!(matches!(fuse.poll_next(again), StreamAction::ClearReady));
    let gone = StreamEvent::Received { rc: -19, data: Vec::new() };
    assert!(matches!(fuse.poll_next(gone), StreamAction::Fail(IoError::Os(19))));
    assert!(matches!(
        fuse.poll_next(StreamEvent::WaitFailed(IoError::Os(9))),
        StreamAction::Fail(IoError::Os(9))
    ));
    assert!(matches!(
        fuse.poll_next(StreamEvent::ClearFailed(IoError::Os(8))),
        StreamAction::Fail(IoError::Os(8))
    ));
    let got = StreamEvent::Received { rc: 3, data: vec![1, 2, 3] };
    assert!(matches!(fuse.poll_next(got), StreamAction::Process));
    assert_eq!(fuse.fuse_data.fbuf.mem, vec![1, 2, 3]);
    let nothing = StreamEvent::Received { rc: 0, data: Vec::new() };
    assert!(matches!(fuse.poll_next(nothing), StreamAction::Process));
}

#[test]
fn write_keeps_its_buffer() {
    let mut data = FuseData::new();
    data.received(vec![0, 1, 2, 3, 4]);
    data.write(handle(1), 7, 1, 3, 4096, &file_info(5));
    data.received(vec![9, 9, 9, 9, 9]);
    match data.pending_requests.pop_front() {
        Some(Request::Write(w)) => {
            assert_eq!(w.data(), &[1, 2, 3]);
            assert_eq!((w.inode, w.fh, w.size, w.offset), (7, 5, 3, 4096));
        }
        other => panic!("{:?}", other),
    }
}

#[test]
fn callbacks_make_requests() {
    let mut data = FuseData::new();
    data.readdir(handle(1), 2, 128, 3);
    data.readdirplus(handle(2), 2, 64, 4);
    data.mkdir(handle(3), 1, b"d".to_vec(), 0o755);
    data.create(handle(4), 1, b"f".to_vec(), 0o644, &file_info(0));
    data.mknod(handle(5), 1, b"n".to_vec(), 0o600, 6);
    data.open(handle(6), 8, &file_info(0));
    data.release(handle(7), 8, &file_info(77));
    data.read(handle(8), 8, 100, -1, &file_info(77));
    data.setattr(handle(9), 8, &zero_stat(), 1, Some(file_info(77)));
    data.setattr(handle(10), 8, &zero_stat(), 2, None);
    data.unlink(handle(11), 1, b"f".to_vec());
    data.rmdir(handle(12), 1, b"d".to_vec());
    let queue: Vec<Request> = data.pending_requests.into_iter().collect();
    assert_eq!(queue.len(), 12);
    assert!(matches!(&queue[0], Request::Readdir(r)
        if r.inode == 2 && r.offset == 3 && r.reply_buffer.room() == 128));
    assert!(matches!(&queue[1], Request::ReaddirPlus(r)
        if r.inode == 2 && r.offset == 4 && r.reply_buffer.room() == 64));
    assert!(matches!(&queue[2], Request::Mkdir(r)
        if r.parent == 1 && r.dir_name == b"d" && r.mode == 0o755));
    assert!(matches!(&queue[3], Request::Create(r)
        if r.file_name == b"f" && r.mode == 0o644 && r.file_info == file_info(0)));
    assert!(matches!(&queue[4], Request::Mknod(r)
        if r.file_name == b"n" && r.mode == 0o600 && r.dev == 6));
    assert!(matches!(&queue[5], Request::Open(r) if r.inode == 8 && r.flags == 2));
    assert!(matches!(&queue[6], Request::Release(r) if r.fh == 77 && r.flags == 2));
    assert!(matches!(&queue[7], Request::Read(r)
        if r.fh == 77 && r.size == 100 && r.offset == u64::MAX));
    assert!(matches!(&queue[8], Request::Setattr(r) if r.fh == Some(77) && r.to_set == 1));
    assert!(matches!(&queue[9], Request::Setattr(r) if r.fh.is_none() && r.to_set == 2));
    assert!(matches!(&queue[10], Request::Unlink(r) if r.file_name == b"f"));
    assert!(matches!(&queue[11], Request::Rmdir(r) if r.dir_name == b"d"));
    for (i, request) in queue.into_iter().enumerate() {
        let reply = request.fail(EIO).unwrap();
        assert_eq!(reply.request, handle(i + 1));
    }
}

#[test]
fn xattr_requests_without_room_ask_for_the_size() {
    let mut data = FuseData::new();
    data.listxattr(handle(1), 4, 0);
    data.listxattr(handle(2), 4, 100);
    data.getxattr(handle(3), 4, b"user.x".to_vec(), 0);
    data.getxattr(handle(4), 4, b"user.x".to_vec(), 9);
    let queue: Vec<Request> = data.pending_requests.into_iter().collect();
    assert!(matches!(&queue[0], Request::ListXAttrSize(r) if r.inode == 4));
    assert!(matches!(&queue[1], Request::ListXAttr(r) if r.size == 100 && r.response.is_empty()));
    assert!(matches!(&queue[2], Request::GetXAttrSize(r) if r.attr_name == b"user.x"));
    assert!(matches!(&queue[3], Request::GetXAttr(r) if r.attr_name == b"user.x" && r.size == 9));
}

fn queue_three(fuse: &mut Fuse) {
    fuse.fuse_data.getattr(handle(1), 10);
    fuse.fuse_data.readdir(handle(2), 10, 100, 0);
    fuse.fuse_data.forget(handle(3), 10, 1);
}

fn errors_of(replies: &[Reply]) -> Vec<(usize, i32)> {
    replies
        .iter()
        .map(|reply| match reply.call {
            ReplyCall::Error { errno } => (reply.request.raw, errno),
            _ => panic!("{:?}", reply),
        })
        .collect()
}

#[test]
fn queued_requests_are_answered_when_dropped() {
    let expected = vec![(1, ENOSYS), (2, EIO), (3, ENOSYS)];

    let mut dropped = fuse();
    queue_three(&mut dropped);
    let dropped = dropped.on_drop();
    assert_eq!(errors_of(&dropped.replies), expected);
    assert_eq!(
        dropped.calls,
        vec![SessionCall::Unmount(0x77), SessionCall::Destroy(0x77)]
    );
    for reply in dropped.replies {
        let finished = reply.finish(-1);
        assert!(finished.result.is_ok());
        assert!(finished.guard.is_none());
    }

    let mut fuse = fuse();
    queue_three(&mut fuse);
    let _ = fuse.poll_next(StreamEvent::Polled);
    // one without a handle has no answer
    fuse.fuse_data.getattr(handle(0), 10);
    assert_eq!(errors_of(&fuse.drop_replies()), expected[1..]);
    assert!(fuse.fuse_data.pending_requests.is_empty());
    assert!(fuse.drop_replies().is_empty());
    assert_eq!(fuse.session, 0x77);
}
