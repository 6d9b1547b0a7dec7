use proxmox_fuse::errno::{EIO, ENOSYS, ERANGE};
use proxmox_fuse::error::IoError;
use proxmox_fuse::reply::{reply_err, Reply, ReplyCall, RequestGuard};
use proxmox_fuse::requests::{
    c_duration, Create, Forget, FuseRequest, GetXAttr, GetXAttrSize, Getattr, ListXAttr,
    ListXAttrSize, Lookup, Mkdir, Mknod, Open, Read, Readdir, ReaddirPlus, Readlink, Release,
    Request, Rmdir, SetTime, Setattr, Unlink, Write,
};
use proxmox_fuse::sys::setattr;
use proxmox_fuse::sys::{
    self, DirentryAttr, EntryParam, FuseBuf, FuseFileInfo, ReplyBuf, ReplyBufState,
};
use proxmox_fuse::util::{CString, Duration, Stat, Timeout, TIMEOUT_MAX_BITS};
use std::sync::Arc;

const HANDLE: sys::Request = sys::Request { raw: 0x1234 };

fn guard() -> RequestGuard {
    RequestGuard::from_raw(HANDLE)
}

fn stat(ino: u64) -> Stat {
    Stat {
        st_dev: 1,
        st_ino: ino,
        st_nlink: 2,
        st_mode: 0o100644,
        st_uid: 1000,
        st_gid: 1001,
        st_rdev: 0,
        st_size: 42,
        st_blksize: 4096,
        st_blocks: 8,
        st_atime: 10,
        st_atime_nsec: 11,
        st_mtime: 20,
        st_mtime_nsec: 21,
        st_ctime: 30,
        st_ctime_nsec: 31,
    }
}

fn file_info() -> FuseFileInfo {
    FuseFileInfo { flags: 2, bits: 5, fh: 0, lock_owner: 7, poll_events: 9 }
}

fn errno_of(reply: &Reply) -> i32 {
    match &reply.call {
        ReplyCall::Error { errno } => *errno,
        other => panic!("not an error reply: {:?}", other),
    }
}

fn bytes_of(reply: &Reply) -> Vec<u8> {
    match &reply.call {
        ReplyCall::Buf { data } => data.clone(),
        other => panic!("not a buffer: {:?}", other),
    }
}

fn simple_requests() -> Vec<Request> {
    vec![
        Request::Lookup(Lookup { request: guard(), parent: 1, file_name: b"a".to_vec() }),
        Request::Getattr(Getattr { request: guard(), inode: 1 }),
        Request::Setattr(Setattr {
            request: guard(),
            inode: 1,
            fh: None,
            to_set: 0,
            stat: stat(1),
        }),
        Request::Mkdir(Mkdir { request: guard(), parent: 1, dir_name: b"d".to_vec(), mode: 0o755 }),
        Request::Create(Create {
            request: guard(),
            parent: 1,
            file_name: b"f".to_vec(),
            mode: 0o644,
            file_info: file_info(),
        }),
        Request::Mknod(Mknod {
            request: guard(),
            parent: 1,
            file_name: b"f".to_vec(),
            mode: 0o644,
            dev: 3,
        }),
        Request::Open(Open { request: guard(), inode: 1, flags: 2, file_info: file_info() }),
        Request::Release(Release { request: guard(), inode: 1, fh: 4, flags: 2 }),
        Request::Read(Read { request: guard(), inode: 1, fh: 4, size: 10, offset: 0 }),
        Request::Unlink(Unlink { request: guard(), parent: 1, file_name: b"f".to_vec() }),
        Request::Rmdir(Rmdir { request: guard(), parent: 1, dir_name: b"d".to_vec() }),
        Request::Write(Write {
            request: guard(),
            inode: 1,
            fh: 4,
            data: 0,
            size: 0,
            offset: 0,
            buffer: Arc::new(FuseBuf::new()),
        }),
        Request::Readlink(Readlink { request: guard(), inode: 1 }),
        Request::ListXAttrSize(ListXAttrSize { request: guard(), inode: 1 }),
        Request::ListXAttr(ListXAttr::new(guard(), 1, 10)),
        Request::GetXAttrSize(GetXAttrSize {
            request: guard(),
            inode: 1,
            attr_name: b"user.a".to_vec(),
        }),
        Request::GetXAttr(GetXAttr {
            request: guard(),
            inode: 1,
            attr_name: b"user.a".to_vec(),
            size: 10,
        }),
    ]
}

fn listings() -> Vec<Request> {
    vec![
        Request::Readdir(Readdir::new(guard(), 1, 64, 0)),
        Request::ReaddirPlus(ReaddirPlus::new(guard(), 1, 64, 0)),
    ]
}

#[test]
fn dropped_requests_are_answered_with_enosys() {
    for request in simple_requests() {
        let reply = request.on_drop().expect("a reply");
        assert_eq!(reply.request, HANDLE);
        assert_eq!(errno_of(&reply), ENOSYS);
        assert!(!reply.armed);
    }
}

#[test]
fn dropped_listings_are_answered_with_eio() {
    for request in listings() {
        let reply = request.on_drop().expect("a reply");
        assert_eq!(reply.request, HANDLE);
        assert_eq!(errno_of(&reply), EIO);
    }
}

#[test]
fn failing_answers_with_the_error() {
    let all: Vec<Request> = simple_requests().into_iter().chain(listings()).collect();
    for request in all {
        let reply = request.fail(13).expect("a reply");
        assert_eq!(reply.request, HANDLE);
        assert_eq!(errno_of(&reply), 13);
        let finished = reply.finish(-5);
        assert!(matches!(finished.result, Err(IoError::Os(5))));
        assert!(finished.guard.is_none());
    }
}

#[test]
fn io_fail_uses_eio_without_a_number() {
    let other = Getattr { request: guard(), inode: 1 };
    let reply = other.io_fail(IoError::Other("broken".to_string())).unwrap();
    assert_eq!(errno_of(&reply), EIO);

    let os = Getattr { request: guard(), inode: 1 };
    assert_eq!(errno_of(&os.io_fail(IoError::Os(2)).unwrap()), 2);
    assert_eq!(IoError::Os(2).raw_os_error(), Some(2));
    assert_eq!(IoError::Other(String::new()).raw_os_error(), None);
}

#[test]
fn forget_cannot_fail() {
    let forget = Request::Forget(Forget { request: guard(), inode: 5, count: 2 });
    let reply = forget.fail(1).unwrap();
    assert!(matches!(reply.call, ReplyCall::Nothing));
    let finished = reply.finish(0);
    assert!(finished.result.is_ok());
    assert!(finished.guard.is_none());

    // the request itself leaves the answer to its guard
    let reply = Forget { request: guard(), inode: 5, count: 2 }.fail(1).unwrap();
    assert_eq!(errno_of(&reply), ENOSYS);
    assert!(reply.finish(-1).result.is_ok());

    let reply = Forget { request: guard(), inode: 5, count: 2 }.reply();
    assert!(matches!(reply.call, ReplyCall::Nothing));
    assert_eq!(reply.request, HANDLE);
}

#[test]
fn guard_of_no_request_is_silent() {
    assert!(RequestGuard::from_raw(sys::Request::null()).on_drop().is_none());
    assert!(sys::Request::null().is_null());
    assert!(!HANDLE.is_null());
    assert_eq!(guard().into_raw(), HANDLE);
}

#[test]
fn failed_reply_is_followed_by_enosys() {
    let reply = ListXAttrSize { request: guard(), inode: 1 }.reply(77);
    assert!(matches!(reply.call, ReplyCall::XAttr { size: 77 }));
    let finished = reply.finish(-22);
    assert!(matches!(finished.result, Err(IoError::Os(22))));
    let after = finished.guard.unwrap();
    assert_eq!(after.request, HANDLE);
    assert_eq!(errno_of(&after), ENOSYS);
    let last = after.finish(-22);
    assert!(last.result.is_ok());
    assert!(last.guard.is_none());
}

#[test]
fn sent_reply_is_the_only_one() {
    let finished = Read { request: guard(), inode: 1, fh: 0, size: 4, offset: 0 }
        .reply(&[1, 2, 3])
        .finish(0);
    assert!(finished.result.is_ok());
    assert!(finished.guard.is_none());
}

#[test]
fn error_reply_is_the_last() {
    let finished = reply_err(guard(), 1).finish(-9);
    assert!(matches!(finished.result, Err(IoError::Os(9))));
    assert!(finished.guard.is_none());
}

#[test]
fn replies_carry_their_values() {
    let entry = EntryParam::simple(9, stat(9));
    assert_eq!(entry.generation, 1);
    assert_eq!(entry.attr_timeout.bits, f64::MAX.to_bits());
    assert_eq!(entry.entry_timeout.bits, f64::MAX.to_bits());
    assert_eq!(TIMEOUT_MAX_BITS, f64::MAX.to_bits());

    let reply =
        Lookup { request: guard(), parent: 1, file_name: b"x".to_vec() }.reply(&entry);
    assert!(matches!(reply.call, ReplyCall::Entry { entry: e } if e == entry));
    assert!(reply.armed);

    let reply = Mkdir { request: guard(), parent: 1, dir_name: b"x".to_vec(), mode: 0 }
        .reply(&entry);
    assert!(matches!(reply.call, ReplyCall::Entry { entry: e } if e == entry));

    let reply = Mknod { request: guard(), parent: 1, file_name: b"x".to_vec(), mode: 0, dev: 0 }
        .reply(&entry);
    assert!(matches!(reply.call, ReplyCall::Entry { entry: e } if e == entry));

    let timeout = Timeout { bits: 1.5f64.to_bits() };
    let reply = Getattr { request: guard(), inode: 9 }.reply(&stat(9), timeout);
    assert!(matches!(
        reply.call,
        ReplyCall::Attr { stat: s, timeout: t } if s == stat(9) && t == timeout
    ));

    let reply = Write {
        request: guard(),
        inode: 1,
        fh: 0,
        data: 0,
        size: 0,
        offset: 0,
        buffer: Arc::new(FuseBuf::new()),
    }
    .reply(33);
    assert!(matches!(reply.call, ReplyCall::Write { count: 33 }));

    let reply = Read { request: guard(), inode: 1, fh: 0, size: 4, offset: 0 }.reply(&[7, 8]);
    assert_eq!(bytes_of(&reply), vec![7, 8]);

    let reply =
        GetXAttrSize { request: guard(), inode: 1, attr_name: b"a".to_vec() }.reply(12);
    assert!(matches!(reply.call, ReplyCall::XAttr { size: 12 }));
}

#[test]
fn requests_without_a_result_succeed_with_zero() {
    let release = Release { request: guard(), inode: 1, fh: 0, flags: 0 }.reply();
    let unlink = Unlink { request: guard(), parent: 1, file_name: b"x".to_vec() }.reply();
    let rmdir = Rmdir { request: guard(), parent: 1, dir_name: b"x".to_vec() }.reply();
    for reply in vec![release, unlink, rmdir] {
        assert_eq!(errno_of(&reply), 0);
        assert!(!reply.armed);
    }
}

#[test]
fn file_handle_is_part_of_the_reply() {
    let entry = EntryParam::simple(9, stat(9));
    let create = Create {
        request: guard(),
        parent: 1,
        file_name: b"x".to_vec(),
        mode: 0,
        file_info: file_info(),
    };
    match create.reply(&entry, 99).call {
        ReplyCall::Create { entry: e, file_info: fi } => {
            assert_eq!(e, entry);
            assert_eq!(fi, FuseFileInfo { fh: 99, ..file_info() });
        }
        other => panic!("{:?}", other),
    }
    let open = Open { request: guard(), inode: 9, flags: 2, file_info: file_info() };
    match open.reply(&entry, 98).call {
        ReplyCall::Open { file_info: fi } => {
            assert_eq!(fi, FuseFileInfo { fh: 98, ..file_info() });
        }
        other => panic!("{:?}", other),
    }
}

#[test]
fn link_with_a_zero_byte_is_refused() {
    let refused = Readlink { request: guard(), inode: 1 }.reply(b"a\0b").unwrap_err();
    match refused.error {
        IoError::Other(text) => assert_eq!(text, "tried to reply with invalid link"),
        other => panic!("{:?}", other),
    }
    assert_eq!(errno_of(&refused.guard.unwrap()), ENOSYS);

    let reply = Readlink { request: guard(), inode: 1 }.reply(b"target").unwrap();
    match reply.call {
        ReplyCall::Readlink { link } => assert_eq!(link.to_bytes(), b"target"),
        other => panic!("{:?}", other),
    }
}

#[test]
fn directory_entries_fill_the_buffer() {
    let mut listing = Readdir::new(guard(), 3, 10, 5);
    assert_eq!(listing.offset, 5);
    let call = listing.add_entry(b"name", &stat(8), 6).unwrap();
    assert_eq!(call.request, HANDLE);
    assert_eq!(call.bufsize, 10);
    assert_eq!(call.name.to_bytes(), b"name");
    assert_eq!(call.attr, DirentryAttr::Plain(stat(8)));
    assert_eq!(call.off, 6);
    assert_eq!(listing.entry_added(6, &[1, 2, 3, 4, 5, 6]), ReplyBufState::Added);

    // does not fit, and is not added
    assert_eq!(listing.add_entry(b"more", &stat(9), 7).unwrap().bufsize, 4);
    assert!(listing.entry_added(5, &[]).is_full());
    assert!(listing.entry_added(usize::MAX, &[]).is_full());

    // fits exactly
    assert!(!listing.entry_added(4, &[7, 8, 9, 10]).is_full());
    let reply = listing.reply();
    assert_eq!(bytes_of(&reply), vec![1, 2, 3, 4, 5, 6, 7, 8, 9, 10]);
    assert_eq!(reply.request, HANDLE);
    let finished = reply.finish(-1);
    assert!(matches!(finished.result, Err(IoError::Os(1))));
    assert!(finished.guard.is_none());
}

#[test]
fn listing_without_entries_succeeds() {
    assert_eq!(bytes_of(&Readdir::new(guard(), 3, 10, 0).reply()), Vec::<u8>::new());
    assert_eq!(bytes_of(&ReaddirPlus::new(guard(), 3, 10, 0).reply()), Vec::<u8>::new());
}

#[test]
fn entries_with_lookups_carry_an_entry() {
    let mut listing = ReaddirPlus::new(guard(), 3, 100, 0);
    let (a, b) = (Timeout { bits: 1 }, Timeout { bits: 2 });
    let call = listing.add_entry(b"x", &stat(8), 0x1_0000_0003, 4, a, b).unwrap();
    assert_eq!(
        call.attr,
        DirentryAttr::Plus(EntryParam {
            inode: 8,
            generation: 4,
            attr: stat(8),
            attr_timeout: a,
            entry_timeout: b,
        })
    );
    // the offset is cut to 32 bits
    assert_eq!(call.off, 3);
    assert_eq!(listing.add_entry(b"x", &stat(8), -1, 4, a, b).unwrap().off, -1);
    assert_eq!(listing.add_entry(b"x", &stat(8), 0x8000_0000, 4, a, b).unwrap().off, i32::MIN);
    assert_eq!(listing.entry_added(1, &[5]), ReplyBufState::Added);
    assert_eq!(bytes_of(&listing.reply()), vec![5]);
}

#[test]
fn entry_name_with_a_zero_byte_is_refused() {
    let listing = Readdir::new(guard(), 3, 100, 0);
    match listing.add_entry(b"\0", &stat(8), 1).unwrap_err() {
        IoError::Other(text) => assert_eq!(text, "tried to reply with invalid file name"),
        other => panic!("{:?}", other),
    }
    let t = Timeout::max();
    let listing = ReaddirPlus::new(guard(), 3, 100, 0);
    match listing.add_entry(b"ab\0c", &stat(8), 1, 1, t, t).unwrap_err() {
        IoError::Other(text) => assert_eq!(text, "tried to reply with invalid file name"),
        other => panic!("{:?}", other),
    }
}

#[test]
fn reply_buffer_reports_its_room() {
    let mut buf = ReplyBuf::new(HANDLE, 3);
    assert_eq!(buf.room(), 3);
    assert_eq!(buf.after_add(2, &[1, 2]), ReplyBufState::Added);
    assert_eq!(buf.room(), 1);
    assert_eq!(buf.request(), HANDLE);
    let reply = buf.reply();
    assert_eq!(reply.request, HANDLE);
    assert_eq!(bytes_of(&reply), vec![1, 2]);
}

#[test]
fn xattr_names_are_listed_with_zeroes() {
    let mut list = ListXAttr::new(guard(), 1, 12);
    assert_eq!(list.add(b"user.a"), ReplyBufState::Added);
    // five bytes are left: a name of five needs six
    assert!(list.add(b"12345").is_full());
    assert_eq!(list.add(b"ab"), ReplyBufState::Added);
    let two = CString::new(b"z".to_vec()).unwrap();
    assert_eq!(list.add_c_string(&two), ReplyBufState::Added);
    assert!(list.add(b"").is_full());
    assert_eq!(bytes_of(&list.reply()), b"user.a\0ab\0z\0".to_vec());
}

#[test]
fn xattr_names_with_zero_fit_exactly() {
    let mut list = ListXAttr::new(guard(), 1, 3);
    assert!(list.add_bytes_with_zero(b"abc\0").is_full());
    assert_eq!(list.add_bytes_with_zero(b"ab\0"), ReplyBufState::Added);
    assert!(list.check_add(0));
    assert!(!list.check_add(1));
    let mut list = ListXAttr::new(guard(), 1, 3);
    assert!(list.add_bytes_without_zero(b"abc").is_full());
    assert_eq!(list.add_bytes_without_zero(b"ab"), ReplyBufState::Added);
    assert_eq!(list.response, b"ab\0".to_vec());
}

#[test]
fn raw_xattr_replies_must_fit() {
    let mut list = ListXAttr::new(guard(), 1, 3);
    assert_eq!(list.set_raw_reply(vec![1, 2, 3, 4]), Err(vec![1, 2, 3, 4]));
    assert_eq!(list.set_raw_reply(vec![1, 2, 3]), Ok(()));
    assert_eq!(bytes_of(&list.reply()), vec![1, 2, 3]);

    let mut list = ListXAttr::new(guard(), 1, 3);
    let _ = list.add(b"a");
    assert_eq!(bytes_of(&list.reply_raw(&[9])), vec![9]);
    assert_eq!(errno_of(&ListXAttr::new(guard(), 1, 3).reply_raw(&[1, 2, 3, 4])), ERANGE);
    assert_eq!(errno_of(&ListXAttr::new(guard(), 1, 3).fail_full()), ERANGE);
}

#[test]
fn xattr_value_must_fit() {
    let get = |size: usize| GetXAttr {
        request: guard(),
        inode: 1,
        attr_name: b"user.a".to_vec(),
        size,
    };
    assert_eq!(bytes_of(&get(2).reply(&[1, 2])), vec![1, 2]);
    assert_eq!(errno_of(&get(1).reply(&[1, 2])), ERANGE);
}

fn setattr(to_set: i32, stat: Stat) -> Setattr {
    Setattr { request: guard(), inode: 1, fh: None, to_set, stat }
}

#[test]
fn setattr_tells_what_to_set() {
    let none = setattr(0, stat(1));
    assert_eq!(none.mode(), None);
    assert_eq!(none.uid(), None);
    assert_eq!(none.gid(), None);
    assert_eq!(none.size(), None);
    assert_eq!(none.atime(), None);
    assert_eq!(none.mtime(), None);
    assert_eq!(none.ctime(), None);

    assert_eq!(setattr(setattr::MODE, stat(1)).mode(), Some(0o100644));
    assert_eq!(setattr(setattr::UID, stat(1)).uid(), Some(1000));
    assert_eq!(setattr(setattr::GID, stat(1)).gid(), Some(1001));
    assert_eq!(setattr(setattr::SIZE, stat(1)).size(), Some(42));
    let mut negative = stat(1);
    negative.st_size = -1;
    assert_eq!(setattr(setattr::SIZE, negative).size(), Some(u64::MAX));

    let all = setattr(setattr::ATIME | setattr::MTIME | setattr::CTIME, stat(1));
    assert_eq!(all.atime(), Some(SetTime::Time(Duration { secs: 10, nanos: 11 })));
    assert_eq!(all.mtime(), Some(SetTime::Time(Duration { secs: 20, nanos: 21 })));
    assert_eq!(all.ctime(), Some(Duration { secs: 30, nanos: 31 }));

    let now = setattr(setattr::ATIME_NOW | setattr::MTIME_NOW, stat(1));
    assert_eq!(now.atime(), Some(SetTime::Now));
    assert_eq!(now.mtime(), Some(SetTime::Now));

    // an explicit time wins over the current one
    let both = setattr(setattr::ATIME | setattr::ATIME_NOW, stat(1));
    assert_eq!(both.atime(), Some(SetTime::Time(Duration { secs: 10, nanos: 11 })));

    let reply = setattr(0, stat(1)).reply(&stat(2), Timeout::max());
    assert!(matches!(reply.call, ReplyCall::Attr { stat: s, .. } if s == stat(2)));
}

#[test]
fn setattr_bits_are_those_of_fuse() {
    assert_eq!(setattr::MODE, 1);
    assert_eq!(setattr::UID, 2);
    assert_eq!(setattr::GID, 4);
    assert_eq!(setattr::SIZE, 8);
    assert_eq!(setattr::ATIME, 16);
    assert_eq!(setattr::MTIME, 32);
    assert_eq!(setattr::ATIME_NOW, 128);
    assert_eq!(setattr::MTIME_NOW, 256);
    assert_eq!(setattr::CTIME, 1024);
}

#[test]
fn durations_carry_nanoseconds_over() {
    assert_eq!(Duration::new(1, 2_500_000_000), Duration { secs: 3, nanos: 500_000_000 });
    assert_eq!(Duration::new(u64::MAX, 999_999_999).secs, u64::MAX);
    // nanoseconds are cut to 32 bits, seconds are taken as unsigned
    assert_eq!(c_duration(5, 0x1_0000_0007), Duration { secs: 5, nanos: 7 });
    assert_eq!(c_duration(-1, 3), Duration { secs: u64::MAX, nanos: 3 });
    assert_eq!(c_duration(0, -1), Duration { secs: 4, nanos: 294_967_295 });
    let std = std::time::Duration::new(1, 2_500_000_000);
    assert_eq!((std.as_secs(), std.subsec_nanos()), (3, 500_000_000));
}

#[test]
fn write_data_lies_in_its_buffer() {
    let buffer = Arc::new(FuseBuf { mem: vec![0, 1, 2, 3, 4, 5] });
    let write =
        Write { request: guard(), inode: 1, fh: 0, data: 2, size: 3, offset: 100, buffer };
    assert_eq!(write.data(), &[2, 3, 4]);
}

#[test]
fn c_strings_hold_no_zero() {
    assert_eq!(CString::new(vec![1, 0, 2, 0]).unwrap_err().position, 1);
    let c = CString::new(vec![1, 2]).unwrap();
    assert_eq!(c.to_bytes(), &[1, 2]);
    assert_eq!(c.to_bytes_with_nul(), vec![1, 2, 0]);
    assert_eq!(c.duplicate().to_bytes(), &[1, 2]);
}
