use proxmox_fuse::errno::{
    EBADF, EEXIST, EIO, EISDIR, ENOENT, ENOSYS, ENOTDIR, ENOTEMPTY, S_IFDIR, S_IFMT, S_IFREG,
};
use proxmox_fuse::reply::{Reply, ReplyCall, RequestGuard};
use proxmox_fuse::requests::{
    Create, Forget, Getattr, Lookup, Mkdir, Mknod, Open, Read, Readdir, Readlink, Release,
    Request, Rmdir, Setattr, Unlink, Write,
};
use proxmox_fuse::sys::{self, setattr, DirentryAttr, FuseBuf, FuseFileInfo};
use proxmox_fuse::tmpfs::block_file::BlockFile;
use proxmox_fuse::tmpfs::dir::Dir;
use proxmox_fuse::tmpfs::fs::{new_stat, Fs, FsContent, FsError};
use proxmox_fuse::tmpfs::handler::{
    acceptable, handle, list_entry, set_attributes, to_entry_param, Fatal, Handled, ListStep,
};
use proxmox_fuse::util::{Duration, Stat, TIMEOUT_MAX_BITS};
use std::sync::Arc;

const NOW: Duration = Duration { secs: 1000, nanos: 7 };

fn guard() -> RequestGuard {
    RequestGuard::from_raw(sys::Request { raw: 5 })
}

fn fs() -> Fs {
    Fs::new(NOW)
}

fn lookups(fs: &Fs, inode: u64) -> usize {
    fs.get(inode).unwrap().lookups
}

fn links(fs: &Fs, inode: u64) -> usize {
    fs.get(inode).unwrap().links
}

#[test]
fn more_numbers_are_those_of_libc() {
    assert_eq!(EBADF, libc::EBADF);
    assert_eq!(EEXIST, libc::EEXIST);
    assert_eq!(ENOTDIR, libc::ENOTDIR);
    assert_eq!(EISDIR, libc::EISDIR);
    assert_eq!(ENOTEMPTY, libc::ENOTEMPTY);
    assert_eq!(S_IFMT, libc::S_IFMT);
    assert_eq!(S_IFDIR, libc::S_IFDIR);
    assert_eq!(S_IFREG, libc::S_IFREG);
}

#[test]
fn empty_file_has_no_bytes() {
    let file = BlockFile::new(4096);
    assert_eq!(file.size(), 0);
    assert_eq!(file.read(10, 0), Vec::<u8>::new());
}

#[test]
fn written_bytes_are_read() {
    let mut file = BlockFile::new(4096);
    file.write(b"hello world", 0);
    assert_eq!(file.size(), 11);
    assert_eq!(file.read(100, 0), b"hello world");
    assert_eq!(file.read(5, 6), b"world");
    assert_eq!(file.read(5, 11), b"");
    file.write(b"W", 6);
    file.write(b"!!", 11);
    assert_eq!(file.read(100, 0), b"hello World!!");
}

#[test]
fn what_was_not_written_is_zero() {
    let mut file = BlockFile::new(4096);
    file.write(b"x", 10);
    assert_eq!(file.size(), 11);
    assert_eq!(file.read(11, 0), b"\0\0\0\0\0\0\0\0\0\0x");
    file.write(b"y", 20);
    assert_eq!(file.read(11, 10), b"x\0\0\0\0\0\0\0\0\0y");
}

#[test]
fn earlier_bytes_can_be_written_later() {
    let mut file = BlockFile::new(4096);
    file.write(b"late", 100_000);
    file.write(b"early", 0);
    assert_eq!(file.size(), 100_004);
    assert_eq!(file.read(5, 0), b"early");
    assert_eq!(file.read(4, 100_000), b"late");
    let all = file.read(usize::MAX, 0);
    assert_eq!(all.len(), 100_004);
    assert!(all[5..100_000].iter().all(|b| *b == 0));
    // into a gap, and over its end
    file.write(&[7; 200_000], 50_000);
    assert_eq!(file.size(), 250_000);
    let all = file.read(usize::MAX, 0);
    assert!(all[5..50_000].iter().all(|b| *b == 0));
    assert!(all[50_000..].iter().all(|b| *b == 7));
}

#[test]
fn far_apart_bytes_take_no_space_between() {
    let mut file = BlockFile::new(4096);
    file.write(b"a", 0);
    file.write(b"b", 1 << 40);
    file.write(b"c", (1 << 50) + 5);
    assert_eq!(file.size(), (1 << 50) + 6);
    assert_eq!(file.read(3, 0), b"a\0\0");
    assert_eq!(file.read(3, (1 << 40) - 1), b"\0b\0");
    assert_eq!(file.read(3, (1 << 50) + 4), b"\0c");
    assert_eq!(file.read(4, 1 << 45), b"\0\0\0\0");
}

#[test]
fn writing_nothing_makes_a_file_longer() {
    let mut file = BlockFile::new(4096);
    file.write(b"", 100);
    assert_eq!(file.size(), 100);
    file.write(b"", 20_000);
    assert_eq!(file.size(), 20_000);
    file.write(b"", 5);
    assert_eq!(file.size(), 20_000);
}

#[test]
fn pieces_make_the_whole() {
    let data: Vec<u8> = (0..30_000u32).map(|i| (i % 251) as u8).collect();
    let mut whole = BlockFile::new(4096);
    whole.write(&data, 123);
    let mut pieces = BlockFile::new(4096);
    pieces.write(&data[10_000..], 10_123);
    pieces.write(&data[..10_000], 123);
    assert_eq!(whole.read(usize::MAX, 0), pieces.read(usize::MAX, 0));
    assert_eq!(whole.read(30_000, 123), data);
}

#[test]
fn truncating_drops_the_end() {
    let mut file = BlockFile::new(4096);
    file.write(b"0123456789", 0);
    file.truncate(20);
    assert_eq!(file.size(), 10);
    file.truncate(4);
    assert_eq!(file.read(100, 0), b"0123");
    file.write(b"z", 1 << 40);
    // ends where the data before it ends
    file.truncate(1 << 39);
    assert_eq!(file.size(), 4);
    file.truncate(0);
    assert_eq!(file.size(), 0);
    // zeroes that were written are data
    file.write(&[0; 4], 0);
    file.truncate(2);
    assert_eq!(file.read(10, 0), b"\0\0");
}

#[test]
fn names_are_in_the_order_of_their_bytes() {
    let mut dir = Dir::new();
    assert!(dir.is_empty());
    for (i, name) in [&b"b"[..], b"a", b"ab", b"\xff", b"", b"B"].into_iter().enumerate() {
        dir.insert(name.to_vec(), i as u64);
    }
    let names: Vec<&[u8]> = dir.files.iter().map(|file| &file.name[..]).collect();
    let expected: Vec<&[u8]> = vec![b"", b"B", b"a", b"ab", b"b", b"\xff"];
    assert_eq!(names, expected);
    assert_eq!(dir.get(b"ab"), Some(2));
    assert_eq!(dir.get(b"abc"), None);
    assert_eq!(dir.remove(b"ab"), Some(2));
    assert_eq!(dir.remove(b"ab"), None);
    assert_eq!(dir.get(b"ab"), None);
    assert_eq!(dir.get(b"b"), Some(0));
    assert!(!dir.is_empty());
}

#[test]
fn new_file_system_has_a_root() {
    let mut fs = fs();
    let root = fs.get(1).unwrap();
    assert_eq!((root.inode, root.parent, root.lookups, root.links), (1, 1, 1, 1));
    assert_eq!(root.stat, new_stat(1, 0o40755, 0, 0, NOW));
    assert_eq!(fs.get(0).unwrap_err(), FsError::Os(ENOENT));
    assert_eq!(fs.get(2).unwrap_err(), FsError::NeverAdvertised(2));
    assert_eq!(fs.lookup(9), Err(FsError::NeverAdvertised(9)));
    assert_eq!(fs.forget(9, 1), Err(FsError::NeverLookedUp));
    assert_eq!(fs.forget(0, 1), Err(FsError::Os(ENOENT)));
    assert_eq!(FsError::NeverLookedUp.errno(), EIO);
    assert_eq!(FsError::NeverAdvertised(3).errno(), EIO);
    assert_eq!(FsError::Os(7).errno(), 7);
    // the root stays
    assert_eq!(fs.forget(1, 100), Ok(()));
    assert_eq!(lookups(&fs, 1), 0);
}

#[test]
fn new_attributes_have_the_current_time() {
    let stat = new_stat(3, 0o644, 10, 20, NOW);
    assert_eq!((stat.st_ino, stat.st_mode, stat.st_uid, stat.st_gid), (3, 0o644, 10, 20));
    assert_eq!((stat.st_atime, stat.st_mtime, stat.st_ctime), (1000, 1000, 1000));
    assert_eq!((stat.st_atime_nsec, stat.st_mtime_nsec, stat.st_ctime_nsec), (7, 7, 7));
    assert_eq!((stat.st_size, stat.st_nlink, stat.st_blocks), (0, 0, 0));
}

#[test]
fn created_is_found() {
    let mut fs = fs();
    assert_eq!(fs.create(1, b"f".to_vec(), 0o644, NOW), Ok(2));
    assert_eq!(fs.mkdir(1, b"d".to_vec(), 0o755, NOW), Ok(3));
    assert_eq!(fs.create(3, b"f".to_vec(), 0o600, NOW), Ok(4));
    assert_eq!(fs.get(2).unwrap().stat.st_mode, 0o100644);
    assert_eq!(fs.get(3).unwrap().stat.st_mode, 0o040755);
    assert_eq!(fs.stat(4).st_ino, 4);
    assert_eq!((lookups(&fs, 2), links(&fs, 2)), (1, 1));
    assert_eq!(fs.lookup_at(1, b"f"), Ok(2));
    assert_eq!(lookups(&fs, 2), 2);
    assert_eq!(fs.lookup_at(3, b"f"), Ok(4));
    assert_eq!(fs.lookup_at(3, b".."), Ok(1));
    assert_eq!(fs.lookup_at(3, b"."), Ok(3));
    assert_eq!(fs.lookup_at(2, b"."), Ok(2));
    assert_eq!(fs.lookup_at(1, b"x"), Err(FsError::Os(ENOENT)));
    assert_eq!(fs.lookup_at(2, b"x"), Err(FsError::Os(ENOTDIR)));
    assert_eq!(fs.lookup_at(2, b".."), Err(FsError::Os(ENOTDIR)));
    assert_eq!(fs.lookup_at(99, b"."), Err(FsError::NeverAdvertised(99)));
    assert_eq!(fs.create(1, b"d".to_vec(), 0, NOW), Err(FsError::Os(EEXIST)));
    assert_eq!(fs.mkdir(2, b"d".to_vec(), 0, NOW), Err(FsError::Os(ENOTDIR)));
    assert_eq!(fs.mkdir(0, b"d".to_vec(), 0, NOW), Err(FsError::Os(ENOENT)));
}

#[test]
fn unlinked_is_gone() {
    let mut fs = fs();
    assert_eq!(fs.create(1, b"f".to_vec(), 0o644, NOW), Ok(2));
    assert_eq!(fs.mkdir(1, b"d".to_vec(), 0o755, NOW), Ok(3));
    assert_eq!(fs.create(3, b"g".to_vec(), 0o644, NOW), Ok(4));
    assert_eq!(fs.unlink(1, b"x", false), Err(FsError::Os(ENOENT)));
    assert_eq!(fs.unlink(1, b"d", false), Err(FsError::Os(EISDIR)));
    assert_eq!(fs.unlink(1, b"d", true), Err(FsError::Os(ENOTEMPTY)));
    assert_eq!(fs.unlink(1, b"f", true), Err(FsError::Os(ENOTDIR)));
    assert_eq!(fs.unlink(2, b"f", false), Err(FsError::Os(ENOTDIR)));
    // still there
    assert_eq!(fs.lookup_at(1, b"d"), Ok(3));

    assert_eq!(fs.write(2, b"data", 0), Ok(()));
    assert_eq!(fs.unlink(1, b"f", false), Ok(()));
    assert_eq!(fs.lookup_at(1, b"f"), Err(FsError::Os(ENOENT)));
    // the kernel refers to it, so it is still usable
    assert_eq!(fs.read(2, 10, 0), Ok(b"data".to_vec()));
    assert_eq!((lookups(&fs, 2), links(&fs, 2)), (1, 0));
    assert_eq!(fs.forget(2, 1), Ok(()));
    assert_eq!(fs.get(2).unwrap_err(), FsError::Os(ENOENT));
    assert_eq!(fs.forget(2, 1), Err(FsError::Os(ENOENT)));
    // its inode is used again
    assert_eq!(fs.create(1, b"n".to_vec(), 0o644, NOW), Ok(2));
    assert_eq!(fs.read(2, 10, 0), Ok(Vec::new()));
}

#[test]
fn what_nobody_refers_to_goes_with_its_name() {
    let mut fs = fs();
    assert_eq!(fs.create(1, b"f".to_vec(), 0o644, NOW), Ok(2));
    assert_eq!(fs.forget(2, 1), Ok(()));
    assert_eq!(lookups(&fs, 2), 0);
    assert_eq!(fs.unlink(1, b"f", false), Ok(()));
    assert_eq!(fs.get(2).unwrap_err(), FsError::Os(ENOENT));
    assert_eq!(fs.free_inodes, vec![2]);
}

#[test]
fn many_references_are_forgotten_at_once() {
    let mut fs = fs();
    assert_eq!(fs.create(1, b"f".to_vec(), 0o644, NOW), Ok(2));
    for _ in 0..4 {
        assert_eq!(fs.lookup(2), Ok(()));
    }
    assert_eq!(lookups(&fs, 2), 5);
    assert_eq!(fs.unlink(1, b"f", false), Ok(()));
    assert_eq!(fs.forget(2, 2), Ok(()));
    assert_eq!(lookups(&fs, 2), 3);
    assert_eq!(fs.forget(2, 3), Ok(()));
    assert_eq!(fs.get(2).unwrap_err(), FsError::Os(ENOENT));
}

#[test]
fn directory_goes_with_all_that_is_in_it() {
    let mut fs = fs();
    assert_eq!(fs.mkdir(1, b"d".to_vec(), 0o755, NOW), Ok(2));
    assert_eq!(fs.unlink(1, b"d", true), Ok(()));
    // something is put into the directory that has no name any more
    assert_eq!(fs.mkdir(2, b"sub".to_vec(), 0o755, NOW), Ok(3));
    assert_eq!(fs.create(3, b"x".to_vec(), 0o644, NOW), Ok(4));
    assert_eq!(fs.create(3, b"kept".to_vec(), 0o644, NOW), Ok(5));
    assert_eq!(fs.forget(3, 1), Ok(()));
    assert_eq!(fs.forget(4, 1), Ok(()));
    assert_eq!(fs.forget(2, 1), Ok(()));
    for inode in 2..5 {
        assert_eq!(fs.get(inode).unwrap_err(), FsError::Os(ENOENT));
    }
    assert_eq!((lookups(&fs, 5), links(&fs, 5)), (1, 0));
    assert_eq!(fs.free_inodes, vec![4, 3, 2]);
    assert_eq!(fs.forget(5, 1), Ok(()));
    assert_eq!(fs.free_inodes, vec![4, 3, 2, 5]);
}

#[test]
fn writes_set_the_size() {
    let mut fs = fs();
    assert_eq!(fs.create(1, b"f".to_vec(), 0o644, NOW), Ok(2));
    assert_eq!(fs.write(2, b"abc", 10), Ok(()));
    assert_eq!(fs.stat(2).st_size, 13);
    assert_eq!(fs.read(2, 3, 10), Ok(b"abc".to_vec()));
    assert_eq!(fs.write(1, b"abc", 0), Err(FsError::Os(EBADF)));
    assert_eq!(fs.read(1, 3, 0), Err(FsError::Os(EBADF)));
    assert_eq!(fs.read(7, 3, 0), Err(FsError::NeverAdvertised(7)));
    let stat = new_stat(2, 0o600, 1, 2, NOW);
    assert_eq!(fs.set_stat(2, stat), Ok(()));
    assert_eq!(fs.stat(2), stat);
    assert_eq!(fs.set_stat(0, stat), Err(FsError::Os(ENOENT)));
    assert!(matches!(fs.get(2).unwrap().content, FsContent::File(_)));
}

fn file_info() -> FuseFileInfo {
    FuseFileInfo { flags: 1, bits: 2, fh: 3, lock_owner: 4, poll_events: 5 }
}

fn lookup(parent: u64, name: &[u8]) -> Request {
    Request::Lookup(Lookup { request: guard(), parent, file_name: name.to_vec() })
}

fn reply_of(handled: Handled) -> Reply {
    match handled {
        Handled::Reply(reply) => reply,
        other => panic!("{:?}", other),
    }
}

fn failure_of(handled: Handled) -> (FsError, Reply) {
    match handled {
        Handled::Failed { error, reply: Some(reply) } => (error, reply),
        other => panic!("{:?}", other),
    }
}

fn errno_of(reply: &Reply) -> i32 {
    match reply.call {
        ReplyCall::Error { errno } => errno,
        _ => panic!("{:?}", reply),
    }
}

fn create(fs: &mut Fs, parent: u64, name: &[u8]) -> u64 {
    let request = Request::Create(Create {
        request: guard(),
        parent,
        file_name: name.to_vec(),
        mode: 0o644,
        file_info: file_info(),
    });
    match reply_of(handle(fs, request, NOW)).call {
        ReplyCall::Create { entry, file_info: fi } => {
            assert_eq!(fi, FuseFileInfo { fh: 0, ..file_info() });
            assert_eq!(entry.attr.st_mode, 0o100644);
            entry.inode
        }
        other => panic!("{:?}", other),
    }
}

#[test]
fn requests_are_handled() {
    let mut fs = fs();
    let inode = create(&mut fs, 1, b"f");
    assert_eq!(inode, 2);
    assert_eq!(lookups(&fs, 2), 2);

    let reply = reply_of(handle(&mut fs, lookup(1, b"f"), NOW));
    assert!(matches!(reply.call, ReplyCall::Entry { entry }
        if entry == to_entry_param(&fs.stat(2))));
    assert_eq!(lookups(&fs, 2), 3);

    let getattr = Request::Getattr(Getattr { request: guard(), inode: 2 });
    let reply = reply_of(handle(&mut fs, getattr, NOW));
    assert!(matches!(reply.call, ReplyCall::Attr { stat, timeout }
        if stat == fs.stat(2) && timeout.bits == TIMEOUT_MAX_BITS));
    assert_eq!(lookups(&fs, 2), 3);

    let open =
        Request::Open(Open { request: guard(), inode: 2, flags: 0, file_info: file_info() });
    let reply = reply_of(handle(&mut fs, open, NOW));
    assert!(matches!(reply.call, ReplyCall::Open { file_info } if file_info.fh == 0));
    assert_eq!(lookups(&fs, 2), 4);

    let release = Request::Release(Release { request: guard(), inode: 2, fh: 0, flags: 0 });
    assert_eq!(errno_of(&reply_of(handle(&mut fs, release, NOW))), 0);
    assert_eq!(lookups(&fs, 2), 3);

    let buffer = Arc::new(FuseBuf { mem: b"..hello..".to_vec() });
    let write = Request::Write(Write {
        request: guard(),
        inode: 2,
        fh: 0,
        data: 2,
        size: 5,
        offset: 3,
        buffer,
    });
    assert!(acceptable(&fs, &write));
    let reply = reply_of(handle(&mut fs, write, NOW));
    assert!(matches!(reply.call, ReplyCall::Write { count: 5 }));

    let read =
        Request::Read(Read { request: guard(), inode: 2, fh: 0, size: 1 << 30, offset: 1 });
    assert!(acceptable(&fs, &read));
    match reply_of(handle(&mut fs, read, NOW)).call {
        ReplyCall::Buf { data } => assert_eq!(data, b"\0\0hello"),
        other => panic!("{:?}", other),
    }

    let unlink =
        Request::Unlink(Unlink { request: guard(), parent: 1, file_name: b"f".to_vec() });
    assert_eq!(errno_of(&reply_of(handle(&mut fs, unlink, NOW))), 0);
    let (error, reply) = failure_of(handle(&mut fs, lookup(1, b"f"), NOW));
    assert_eq!(error, FsError::Os(ENOENT));
    assert_eq!(errno_of(&reply), ENOENT);

    let forget = Request::Forget(Forget { request: guard(), inode: 2, count: 3 });
    assert!(matches!(reply_of(handle(&mut fs, forget, NOW)).call, ReplyCall::Nothing));
    assert_eq!(fs.get(2).unwrap_err(), FsError::Os(ENOENT));
    let forget = Request::Forget(Forget { request: guard(), inode: 2, count: 1 });
    let (error, reply) = failure_of(handle(&mut fs, forget, NOW));
    assert_eq!(error, FsError::Os(ENOENT));
    assert_eq!(errno_of(&reply), ENOSYS);

    let mkdir =
        Request::Mkdir(Mkdir { request: guard(), parent: 1, dir_name: b"d".to_vec(), mode: 0o700 });
    let reply = reply_of(handle(&mut fs, mkdir, NOW));
    assert!(matches!(reply.call, ReplyCall::Entry { entry }
        if entry.inode == 2 && entry.attr.st_mode == 0o40700));
    let mknod = Request::Mknod(Mknod {
        request: guard(),
        parent: 2,
        file_name: b"n".to_vec(),
        mode: 0o600,
        dev: 0,
    });
    let reply = reply_of(handle(&mut fs, mknod, NOW));
    assert!(matches!(reply.call, ReplyCall::Entry { entry } if entry.inode == 3));
    assert_eq!(lookups(&fs, 3), 1);
    let rmdir = Request::Rmdir(Rmdir { request: guard(), parent: 1, dir_name: b"d".to_vec() });
    let (error, reply) = failure_of(handle(&mut fs, rmdir, NOW));
    assert_eq!(error, FsError::Os(ENOTEMPTY));
    assert_eq!(errno_of(&reply), ENOTEMPTY);

    let getattr = Request::Getattr(Getattr { request: guard(), inode: 77 });
    let (error, reply) = failure_of(handle(&mut fs, getattr, NOW));
    assert_eq!(error, FsError::NeverAdvertised(77));
    assert_eq!(errno_of(&reply), EIO);
}

#[test]
fn unknown_requests_end_the_file_system() {
    let mut fs = fs();
    let readlink = Request::Readlink(Readlink { request: guard(), inode: 1 });
    match handle(&mut fs, readlink, NOW) {
        Handled::End { fatal, reply } => {
            assert_eq!(fatal, Fatal::UnknownRequest);
            assert_eq!(errno_of(&reply.unwrap()), ENOSYS);
        }
        other => panic!("{:?}", other),
    }
}

#[test]
fn unacceptable_requests_are_told() {
    let mut fs = fs();
    create(&mut fs, 1, b"f");
    let read = Request::Read(Read { request: guard(), inode: 2, fh: 0, size: 1, offset: 1 });
    assert!(!acceptable(&fs, &read));
    let read = Request::Read(Read { request: guard(), inode: 2, fh: 0, size: 1, offset: 0 });
    assert!(acceptable(&fs, &read));
    let write = |data: usize, offset: u64| {
        Request::Write(Write {
            request: guard(),
            inode: 2,
            fh: 0,
            data,
            size: 2,
            offset,
            buffer: Arc::new(FuseBuf { mem: vec![1, 2, 3] }),
        })
    };
    assert!(acceptable(&fs, &write(1, 0)));
    assert!(!acceptable(&fs, &write(2, 0)));
    assert!(!acceptable(&fs, &write(usize::MAX, 0)));
    assert!(!acceptable(&fs, &write(0, u64::MAX - 1)));
    let mut stat = new_stat(2, 0, 0, 0, NOW);
    stat.st_atime = -1;
    stat.st_atime_nsec = 1_000_000_000;
    let set = |to_set: i32| {
        Request::Setattr(Setattr { request: guard(), inode: 2, fh: None, to_set, stat })
    };
    assert!(acceptable(&fs, &set(0)));
    assert!(!acceptable(&fs, &set(setattr::ATIME)));
}

#[test]
fn requests_for_what_is_not_there_fail_whatever_they_hold() {
    let mut fs = fs();
    let mut stat = new_stat(2, 0, 0, 0, NOW);
    stat.st_atime = -1;
    stat.st_atime_nsec = 1_000_000_000;
    let set = Request::Setattr(Setattr {
        request: guard(),
        inode: 9,
        fh: None,
        to_set: setattr::ATIME,
        stat,
    });
    assert!(acceptable(&fs, &set));
    let (error, reply) = failure_of(handle(&mut fs, set, NOW));
    assert_eq!(error, FsError::NeverAdvertised(9));
    assert_eq!(errno_of(&reply), EIO);

    for (inode, expected) in [(0, ENOENT), (1, EBADF)] {
        let write = Request::Write(Write {
            request: guard(),
            inode,
            fh: 0,
            data: 0,
            size: 3,
            offset: u64::MAX,
            buffer: Arc::new(FuseBuf { mem: vec![1, 2, 3] }),
        });
        assert!(acceptable(&fs, &write));
        let (error, reply) = failure_of(handle(&mut fs, write, NOW));
        assert_eq!(error, FsError::Os(expected));
        assert_eq!(errno_of(&reply), expected);
    }
}

#[test]
fn attributes_are_set() {
    let mut fs = fs();
    create(&mut fs, 1, b"f");
    let new = Stat { st_size: 99, ..new_stat(0, 0o7777, 3, 4, Duration { secs: 50, nanos: 6 }) };
    let request = |to_set: i32| Setattr {
        request: guard(),
        inode: 2,
        fh: None,
        to_set,
        stat: new,
    };
    let old = fs.stat(2);
    let later = Duration { secs: 2000, nanos: 8 };
    assert_eq!(set_attributes(&old, &request(0), later), old);
    // the kind of file stays
    assert_eq!(
        set_attributes(&old, &request(setattr::MODE), later),
        Stat { st_mode: 0o107777, ..old }
    );
    assert_eq!(
        set_attributes(&old, &request(setattr::UID | setattr::GID | setattr::SIZE), later),
        Stat { st_uid: 3, st_gid: 4, st_size: 99, ..old }
    );
    assert_eq!(
        set_attributes(&old, &request(setattr::ATIME | setattr::MTIME_NOW), later),
        Stat {
            st_atime: 50,
            st_atime_nsec: 6,
            st_mtime: 2000,
            st_mtime_nsec: 8,
            ..old
        }
    );
    assert_eq!(
        set_attributes(&old, &request(setattr::ATIME_NOW | setattr::MTIME | setattr::CTIME), later),
        Stat {
            st_atime: 2000,
            st_atime_nsec: 8,
            st_mtime: 50,
            st_mtime_nsec: 6,
            st_ctime: 50,
            st_ctime_nsec: 6,
            ..old
        }
    );
    let reply = reply_of(handle(&mut fs, Request::Setattr(request(setattr::UID)), later));
    assert!(matches!(reply.call, ReplyCall::Attr { stat, .. } if stat.st_uid == 3));
    assert_eq!(fs.stat(2).st_uid, 3);
    assert_eq!(lookups(&fs, 2), 2);
}

/// Lists a directory from an offset, with entries that take as many bytes as their names.
fn list(fs: &mut Fs, inode: u64, size: usize, offset: i64) -> (Vec<u8>, Vec<(Vec<u8>, u64, i32)>) {
    let request = Request::Readdir(Readdir::new(guard(), inode, size, offset));
    let mut listing = match handle(fs, request, NOW) {
        Handled::List(listing) => listing,
        other => panic!("{:?}", other),
    };
    let mut entries = Vec::new();
    loop {
        let reply = match listing.advance(fs) {
            ListStep::Add(call, next) => {
                let name = call.name.to_bytes().to_vec();
                match next.added(name.len(), &name) {
                    Ok(more) => {
                        let stat = match call.attr {
                            DirentryAttr::Plain(stat) => stat,
                            other => panic!("{:?}", other),
                        };
                        entries.push((name, stat.st_ino, call.off));
                        listing = more;
                        continue;
                    }
                    Err(reply) => reply,
                }
            }
            ListStep::Done(reply) => reply,
            other => panic!("{:?}", other),
        };
        return match reply.call {
            ReplyCall::Buf { data } => (data, entries),
            other => panic!("{:?}", other),
        };
    }
}

#[test]
fn directories_are_listed_in_order() {
    let mut fs = fs();
    assert_eq!(fs.mkdir(1, b"d".to_vec(), 0o755, NOW), Ok(2));
    assert_eq!(fs.create(2, b"bb".to_vec(), 0o644, NOW), Ok(3));
    assert_eq!(fs.create(2, b"a".to_vec(), 0o644, NOW), Ok(4));
    let (data, entries) = list(&mut fs, 2, 100, 0);
    assert_eq!(data, b"abb...");
    let expected = vec![
        (b"a".to_vec(), 4, 1),
        (b"bb".to_vec(), 3, 2),
        (b"..".to_vec(), 1, 3),
        (b".".to_vec(), 2, 4),
    ];
    assert_eq!(entries, expected);
    // in pieces
    assert_eq!(list(&mut fs, 2, 1, 0).1, expected[..1]);
    assert_eq!(list(&mut fs, 2, 4, 1).1, expected[1..3]);
    assert_eq!(list(&mut fs, 2, 4, 3).1, expected[3..]);
    for offset in [4, 5, -1, i64::MAX, i64::MIN] {
        assert_eq!(list(&mut fs, 2, 100, offset).1, Vec::new());
    }
}

#[test]
fn what_is_no_directory_is_not_listed() {
    let mut fs = fs();
    create(&mut fs, 1, b"f");
    for (inode, expected) in [(2, FsError::Os(ENOTDIR)), (9, FsError::NeverAdvertised(9))] {
        let request = Request::Readdir(Readdir::new(guard(), inode, 100, 0));
        match handle(&mut fs, request, NOW) {
            Handled::List(listing) => match listing.advance(&fs) {
                ListStep::Failed { error, reply } => {
                    assert_eq!(error, expected);
                    assert_eq!(errno_of(&reply.unwrap()), expected.errno());
                }
                other => panic!("{:?}", other),
            },
            other => panic!("{:?}", other),
        }
    }
}

#[test]
fn names_that_cannot_be_listed_fail() {
    let mut fs = fs();
    assert_eq!(fs.create(1, b"a\0b".to_vec(), 0o644, NOW), Ok(2));
    assert_eq!(list_entry(&fs, 1, 0).unwrap().unwrap().name, b"a\0b");
    let request = Request::Readdir(Readdir::new(guard(), 1, 100, 0));
    match handle(&mut fs, request, NOW) {
        Handled::List(listing) => match listing.advance(&fs) {
            ListStep::BadName { text, reply } => {
                assert_eq!(text, "tried to reply with invalid file name");
                assert_eq!(errno_of(&reply.unwrap()), EIO);
            }
            other => panic!("{:?}", other),
        },
        other => panic!("{:?}", other),
    }
}
