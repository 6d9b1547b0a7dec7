//! The requests that the kernel sends, and how each of them is answered.
//!
//! Answering consumes a request and gives the libfuse call to make, as a `Reply`. What the call
//! returned goes into `Reply::finish`.

use std::sync::Arc;

use vstd::prelude::*;
use vstd::slice::{slice_subrange, slice_to_vec};

use crate::errno::{EIO, ENOSYS, ERANGE};
use crate::error::IoError;
pub use crate::reply::RequestGuard;
use crate::reply::{
    buffer_reply, err_reply, guard_reply, guarded_reply, opt_view, reply_err, reply_guarded,
    spec_finish, Reply, ReplyCall, ReplyCallView, ReplyView,
};
use crate::sys::{
    self, AddDirentry, DirentryAttr, EntryParam, FuseBuf, FuseFileInfo, ReplyBuf, ReplyBufState,
};
use crate::util::{
    lemma_i64_as_u32, lemma_i64_as_u64, two32, two64, wrap_i32, wrap_i64, CString, Duration, Stat,
    Timeout, NANOS_PER_SEC,
};

verus! {

/// The methods that all request types have, so that they can be called after a request has been
/// moved out of the `Request` enum, without requiring the exact type.
pub trait FuseRequest: Sized {
    /// The handle by which libfuse knows the request.
    spec fn handle(self) -> sys::Request;

    /// What is sent when the request is failed with `errno`; nothing, and no error, for `None`.
    spec fn fail_view(self, errno: i32) -> Option<ReplyView>;

    /// What is sent when the request is dropped without an answer. Its result is ignored.
    spec fn drop_view(self) -> Option<ReplyView>;

    /// Send an error reply.
    fn fail(self, errno: i32) -> (res: Option<Reply>)
        ensures
            opt_view(res) == self.fail_view(errno),
    ;

    /// Convenience method to use an `IoError` as a response.
    fn io_fail(self, error: IoError) -> (res: Option<Reply>)
        ensures
            opt_view(res) == self.fail_view(error.spec_errno()),
    {
        self.fail(error.errno())
    }

    /// What is sent when the request is dropped without an answer.
    fn on_drop(&self) -> (res: Option<Reply>)
        ensures
            opt_view(res) == self.drop_view(),
    ;
}

/// A reply could not be made from what the request was to be answered with.
#[derive(Debug)]
pub struct Refused {
    /// What was wrong.
    pub error: IoError,

    /// What the request's guard sends.
    pub guard: Option<Reply>,
}

/// Any request.
#[derive(Debug)]
pub enum Request {
    Lookup(Lookup),
    Forget(Forget),
    Getattr(Getattr),
    Setattr(Setattr),
    Readdir(Readdir),
    ReaddirPlus(ReaddirPlus),
    Mkdir(Mkdir),
    Create(Create),
    Mknod(Mknod),
    Open(Open),
    Release(Release),
    Read(Read),
    Unlink(Unlink),
    Rmdir(Rmdir),
    Write(Write),
    Readlink(Readlink),
    ListXAttrSize(ListXAttrSize),
    ListXAttr(ListXAttr),
    GetXAttrSize(GetXAttrSize),
    GetXAttr(GetXAttr),
}

impl FuseRequest for Request {
    open spec fn handle(self) -> sys::Request {
        match self {
            Request::Lookup(r) => r.handle(),
            Request::Forget(r) => r.handle(),
            Request::Getattr(r) => r.handle(),
            Request::Setattr(r) => r.handle(),
            Request::Readdir(r) => r.handle(),
            Request::ReaddirPlus(r) => r.handle(),
            Request::Mkdir(r) => r.handle(),
            Request::Create(r) => r.handle(),
            Request::Mknod(r) => r.handle(),
            Request::Open(r) => r.handle(),
            Request::Release(r) => r.handle(),
            Request::Read(r) => r.handle(),
            Request::Unlink(r) => r.handle(),
            Request::Rmdir(r) => r.handle(),
            Request::Write(r) => r.handle(),
            Request::Readlink(r) => r.handle(),
            Request::ListXAttrSize(r) => r.handle(),
            Request::ListXAttr(r) => r.handle(),
            Request::GetXAttrSize(r) => r.handle(),
            Request::GetXAttr(r) => r.handle(),
        }
    }

    open spec fn fail_view(self, errno: i32) -> Option<ReplyView> {
        match self {
            Request::Lookup(r) => r.fail_view(errno),
            Request::Forget(r) => Some(forget_reply(r.request.raw)),
            Request::Getattr(r) => r.fail_view(errno),
            Request::Setattr(r) => r.fail_view(errno),
            Request::Readdir(r) => r.fail_view(errno),
            Request::ReaddirPlus(r) => r.fail_view(errno),
            Request::Mkdir(r) => r.fail_view(errno),
            Request::Create(r) => r.fail_view(errno),
            Request::Mknod(r) => r.fail_view(errno),
            Request::Open(r) => r.fail_view(errno),
            Request::Release(r) => r.fail_view(errno),
            Request::Read(r) => r.fail_view(errno),
            Request::Unlink(r) => r.fail_view(errno),
            Request::Rmdir(r) => r.fail_view(errno),
            Request::Write(r) => r.fail_view(errno),
            Request::Readlink(r) => r.fail_view(errno),
            Request::ListXAttrSize(r) => r.fail_view(errno),
            Request::ListXAttr(r) => r.fail_view(errno),
            Request::GetXAttrSize(r) => r.fail_view(errno),
            Request::GetXAttr(r) => r.fail_view(errno),
        }
    }

    open spec fn drop_view(self) -> Option<ReplyView> {
        match self {
            Request::Lookup(r) => r.drop_view(),
            Request::Forget(r) => r.drop_view(),
            Request::Getattr(r) => r.drop_view(),
            Request::Setattr(r) => r.drop_view(),
            Request::Readdir(r) => r.drop_view(),
            Request::ReaddirPlus(r) => r.drop_view(),
            Request::Mkdir(r) => r.drop_view(),
            Request::Create(r) => r.drop_view(),
            Request::Mknod(r) => r.drop_view(),
            Request::Open(r) => r.drop_view(),
            Request::Release(r) => r.drop_view(),
            Request::Read(r) => r.drop_view(),
            Request::Unlink(r) => r.drop_view(),
            Request::Rmdir(r) => r.drop_view(),
            Request::Write(r) => r.drop_view(),
            Request::Readlink(r) => r.drop_view(),
            Request::ListXAttrSize(r) => r.drop_view(),
            Request::ListXAttr(r) => r.drop_view(),
            Request::GetXAttrSize(r) => r.drop_view(),
            Request::GetXAttr(r) => r.drop_view(),
        }
    }

    fn fail(self, errno: i32) -> (res: Option<Reply>) {
        match self {
            Request::Lookup(r) => r.fail(errno),
            Request::Forget(r) => Some(r.reply()),
            Request::Getattr(r) => r.fail(errno),
            Request::Setattr(r) => r.fail(errno),
            Request::Readdir(r) => r.fail(errno),
            Request::ReaddirPlus(r) => r.fail(errno),
            Request::Mkdir(r) => r.fail(errno),
            Request::Create(r) => r.fail(errno),
            Request::Mknod(r) => r.fail(errno),
            Request::Open(r) => r.fail(errno),
            Request::Release(r) => r.fail(errno),
            Request::Read(r) => r.fail(errno),
            Request::Unlink(r) => r.fail(errno),
            Request::Rmdir(r) => r.fail(errno),
            Request::Write(r) => r.fail(errno),
            Request::Readlink(r) => r.fail(errno),
            Request::ListXAttrSize(r) => r.fail(errno),
            Request::ListXAttr(r) => r.fail(errno),
            Request::GetXAttrSize(r) => r.fail(errno),
            Request::GetXAttr(r) => r.fail(errno),
        }
    }

    fn on_drop(&self) -> (res: Option<Reply>) {
        match self {
            Request::Lookup(r) => r.on_drop(),
            Request::Forget(r) => r.on_drop(),
            Request::Getattr(r) => r.on_drop(),
            Request::Setattr(r) => r.on_drop(),
            Request::Readdir(r) => r.on_drop(),
            Request::ReaddirPlus(r) => r.on_drop(),
            Request::Mkdir(r) => r.on_drop(),
            Request::Create(r) => r.on_drop(),
            Request::Mknod(r) => r.on_drop(),
            Request::Open(r) => r.on_drop(),
            Request::Release(r) => r.on_drop(),
            Request::Read(r) => r.on_drop(),
            Request::Unlink(r) => r.on_drop(),
            Request::Rmdir(r) => r.on_drop(),
            Request::Write(r) => r.on_drop(),
            Request::Readlink(r) => r.on_drop(),
            Request::ListXAttrSize(r) => r.on_drop(),
            Request::ListXAttr(r) => r.on_drop(),
            Request::GetXAttrSize(r) => r.on_drop(),
            Request::GetXAttr(r) => r.on_drop(),
        }
    }
}

/// What answers a `Forget` request: nothing is sent.
pub open spec fn forget_reply(request: sys::Request) -> ReplyView {
    ReplyView { request, call: ReplyCallView::Nothing, armed: false, reported: false }
}

/// A lookup for an entry in a directory. This should increase the lookup count for the inode,
/// as from then on the kernel will refer to the looked-up entry only via the inode..
#[derive(Debug)]
pub struct Lookup {
    pub request: RequestGuard,
    pub parent: u64,
    pub file_name: Vec<u8>,
}

impl FuseRequest for Lookup {
    open spec fn handle(self) -> sys::Request {
        self.request.raw
    }

    open spec fn fail_view(self, errno: i32) -> Option<ReplyView> {
        Some(err_reply(self.request.raw, errno))
    }

    open spec fn drop_view(self) -> Option<ReplyView> {
        guard_reply(self.request.raw)
    }

    fn fail(self, errno: i32) -> (res: Option<Reply>) {
        Some(reply_err(self.request, errno))
    }

    fn on_drop(&self) -> (res: Option<Reply>) {
        self.request.on_drop()
    }
}

impl Lookup {
    /// Answer with the entry.
    pub fn reply(self, entry: &EntryParam) -> (res: Reply)
        ensures
            res@ == guarded_reply(self.request.raw, ReplyCallView::Entry { entry: *entry }),
    {
        reply_guarded(self.request, ReplyCall::Entry { entry: *entry })
    }
}

/// Forget references (lookup count) for an inode. Once an inode reaches a lookup count of zero,
/// the kernel will not refer to the inode anymore, meaning any cached information to access it may
/// be released.
#[derive(Debug)]
pub struct Forget {
    pub request: RequestGuard,
    pub inode: u64,
    pub count: u64,
}

impl FuseRequest for Forget {
    open spec fn handle(self) -> sys::Request {
        self.request.raw
    }

    /// Forget cannot fail: only the guard answers.
    open spec fn fail_view(self, errno: i32) -> Option<ReplyView> {
        guard_reply(self.request.raw)
    }

    open spec fn drop_view(self) -> Option<ReplyView> {
        guard_reply(self.request.raw)
    }

    fn fail(self, errno: i32) -> (res: Option<Reply>) {
        self.request.on_drop()
    }

    fn on_drop(&self) -> (res: Option<Reply>) {
        self.request.on_drop()
    }
}

impl Forget {
    /// Done with the request; nothing is sent.
    pub fn reply(self) -> (res: Reply)
        ensures
            res@ == forget_reply(self.request.raw),
    {
        Reply {
            request: self.request.into_raw(),
            call: ReplyCall::Nothing,
            armed: false,
            reported: false,
        }
    }
}

/// This is the equivalent of a `stat` call.
///
/// The inode is already known, so no changes to the lookup count occur.
#[derive(Debug)]
pub struct Getattr {
    pub request: RequestGuard,
    pub inode: u64,
}

impl FuseRequest for Getattr {
    open spec fn handle(self) -> sys::Request {
        self.request.raw
    }

    open spec fn fail_view(self, errno: i32) -> Option<ReplyView> {
        Some(err_reply(self.request.raw, errno))
    }

    open spec fn drop_view(self) -> Option<ReplyView> {
        guard_reply(self.request.raw)
    }

    fn fail(self, errno: i32) -> (res: Option<Reply>) {
        Some(reply_err(self.request, errno))
    }

    fn on_drop(&self) -> (res: Option<Reply>) {
        self.request.on_drop()
    }
}

impl Getattr {
    /// Send a reply for a `Getattr` request.
    pub fn reply(self, stat: &Stat, timeout: Timeout) -> (res: Reply)
        ensures
            res@ == guarded_reply(self.request.raw, ReplyCallView::Attr { stat: *stat, timeout }),
    {
        reply_guarded(self.request, ReplyCall::Attr { stat: *stat, timeout })
    }
}

/// Get the contents of a directory without changing any lookup counts. (Contrary to
/// `ReaddirPlus`).
#[derive(Debug)]
pub struct Readdir {
    pub inode: u64,
    pub offset: i64,

    /// The entries so far, with the handle of the request.
    pub reply_buffer: ReplyBuf,
}

impl FuseRequest for Readdir {
    open spec fn handle(self) -> sys::Request {
        self.reply_buffer.spec_request()
    }

    open spec fn fail_view(self, errno: i32) -> Option<ReplyView> {
        Some(err_reply(self.handle(), errno))
    }

    open spec fn drop_view(self) -> Option<ReplyView> {
        Some(ReplyView { reported: false, ..err_reply(self.handle(), EIO) })
    }

    fn fail(self, errno: i32) -> (res: Option<Reply>) {
        let request = RequestGuard::from_raw(self.reply_buffer.request());
        Some(reply_err(request, errno))
    }

    fn on_drop(&self) -> (res: Option<Reply>) {
        Some(
            Reply {
                request: self.reply_buffer.request(),
                call: ReplyCall::Error { errno: EIO },
                armed: false,
                reported: false,
            },
        )
    }
}

impl Readdir {
    /// A request to list the directory `inode` from `offset` on, in at most `size` bytes.
    pub fn new(request: RequestGuard, inode: u64, size: usize, offset: i64) -> (res: Readdir)
        ensures
            res.handle() == request.raw,
            res.inode == inode,
            res.offset == offset,
            res.reply_buffer.limit() == size,
            res.reply_buffer@ == Seq::<u8>::empty(),
    {
        Readdir { inode, offset, reply_buffer: ReplyBuf::new(request.into_raw(), size) }
    }

    /// Add a reply entry: gives the call that has libfuse write it. What the call returned goes
    /// into `entry_added`. Note that unless you also consume the `Readdir` object with a call to
    /// the `reply()` method, this will produce an `EIO` error.
    pub fn add_entry(
        &self,
        name: &[u8],
        stat: &Stat,
        next: isize,
    ) -> (res: Result<AddDirentry, IoError>)
        ensures
            match res {
                Ok(call) => {
                    &&& !name@.contains(0u8)
                    &&& call.request == self.handle()
                    &&& call.bufsize == self.reply_buffer.limit() - self.reply_buffer@.len()
                    &&& call.name@ == name@
                    &&& call.attr == DirentryAttr::Plain(*stat)
                    &&& call.off == wrap_i32(next as int)
                },
                Err(error) => {
                    &&& name@.contains(0u8)
                    &&& error matches IoError::Other(text)
                    &&& text@ == "tried to reply with invalid file name"@
                },
            },
    {
        let name = match CString::new(slice_to_vec(name)) {
            Ok(name) => name,
            Err(err) => {
                return Err(IoError::Other("tried to reply with invalid file name".to_owned()));
            },
        };
        Ok(self.reply_buffer.add_readdir(&name, stat, next))
    }

    /// libfuse returned `entry_size` for an entry. Where that is no more than the room that was
    /// left, `entry` is what libfuse wrote, and is added. Where it is more, the entry did not fit,
    /// and nothing changes.
    pub fn entry_added(&mut self, entry_size: usize, entry: &[u8]) -> (res: ReplyBufState)
        requires
            entry_size <= old(self).reply_buffer.limit() - old(self).reply_buffer@.len()
                ==> entry@.len() == entry_size,
        ensures
            final(self).handle() == old(self).handle(),
            final(self).inode == old(self).inode,
            final(self).offset == old(self).offset,
            final(self).reply_buffer.limit() == old(self).reply_buffer.limit(),
            if entry_size <= old(self).reply_buffer.limit() - old(self).reply_buffer@.len() {
                &&& res == ReplyBufState::Added
                &&& final(self).reply_buffer@ == old(self).reply_buffer@ + entry@
            } else {
                &&& res == ReplyBufState::Full
                &&& final(self).reply_buffer@ == old(self).reply_buffer@
            },
    {
        self.reply_buffer.after_add(entry_size, entry)
    }

    /// Send a successful reply. This also works if no entries have been added via `add_entry`,
    /// indicating an empty directory without `.` or `..` present.
    pub fn reply(self) -> (res: Reply)
        ensures
            res@ == buffer_reply(self.handle(), self.reply_buffer@),
            self.reply_buffer@.len() <= self.reply_buffer.limit(),
    {
        self.reply_buffer.reply()
    }
}

/// Lookup all the contents of a directory. On success, the lookup count of all the returned
/// entries should be increased by 1.
#[derive(Debug)]
pub struct ReaddirPlus {
    pub inode: u64,
    pub offset: i64,

    /// The entries so far, with the handle of the request.
    pub reply_buffer: ReplyBuf,
}

impl FuseRequest for ReaddirPlus {
    open spec fn handle(self) -> sys::Request {
        self.reply_buffer.spec_request()
    }

    open spec fn fail_view(self, errno: i32) -> Option<ReplyView> {
        Some(err_reply(self.handle(), errno))
    }

    open spec fn drop_view(self) -> Option<ReplyView> {
        Some(ReplyView { reported: false, ..err_reply(self.handle(), EIO) })
    }

    fn fail(self, errno: i32) -> (res: Option<Reply>) {
        let request = RequestGuard::from_raw(self.reply_buffer.request());
        Some(reply_err(request, errno))
    }

    fn on_drop(&self) -> (res: Option<Reply>) {
        Some(
            Reply {
                request: self.reply_buffer.request(),
                call: ReplyCall::Error { errno: EIO },
                armed: false,
                reported: false,
            },
        )
    }
}

impl ReaddirPlus {
    /// A request to list the directory `inode` from `offset` on, in at most `size` bytes.
    pub fn new(request: RequestGuard, inode: u64, size: usize, offset: i64) -> (res: ReaddirPlus)
        ensures
            res.handle() == request.raw,
            res.inode == inode,
            res.offset == offset,
            res.reply_buffer.limit() == size,
            res.reply_buffer@ == Seq::<u8>::empty(),
    {
        ReaddirPlus { inode, offset, reply_buffer: ReplyBuf::new(request.into_raw(), size) }
    }

    /// Add a reply entry: gives the call that has libfuse write it. What the call returned goes
    /// into `entry_added`. Note that unless you also consume the `ReaddirPlus` object with a call
    /// to the `reply()` method, this will produce an `EIO` error.
    pub fn add_entry(
        &self,
        name: &[u8],
        stat: &Stat,
        next: isize,
        generation: u64,
        attr_timeout: Timeout,
        entry_timeout: Timeout,
    ) -> (res: Result<AddDirentry, IoError>)
        ensures
            match res {
                Ok(call) => {
                    &&& !name@.contains(0u8)
                    &&& call.request == self.handle()
                    &&& call.bufsize == self.reply_buffer.limit() - self.reply_buffer@.len()
                    &&& call.name@ == name@
                    &&& call.attr == DirentryAttr::Plus(
                        EntryParam {
                            inode: stat.st_ino,
                            generation,
                            attr: *stat,
                            attr_timeout,
                            entry_timeout,
                        },
                    )
                    &&& call.off == wrap_i32(next as int)
                },
                Err(error) => {
                    &&& name@.contains(0u8)
                    &&& error matches IoError::Other(text)
                    &&& text@ == "tried to reply with invalid file name"@
                },
            },
    {
        let name = match CString::new(slice_to_vec(name)) {
            Ok(name) => name,
            Err(err) => {
                return Err(IoError::Other("tried to reply with invalid file name".to_owned()));
            },
        };
        let entry = EntryParam {
            inode: stat.st_ino,
            generation,
            attr: *stat,
            attr_timeout,
            entry_timeout,
        };
        Ok(self.reply_buffer.add_readdir_plus(&name, &entry, next))
    }

    /// libfuse returned `entry_size` for an entry. Where that is no more than the room that was
    /// left, `entry` is what libfuse wrote, and is added. Where it is more, the entry did not fit,
    /// and nothing changes.
    pub fn entry_added(&mut self, entry_size: usize, entry: &[u8]) -> (res: ReplyBufState)
        requires
            entry_size <= old(self).reply_buffer.limit() - old(self).reply_buffer@.len()
                ==> entry@.len() == entry_size,
        ensures
            final(self).handle() == old(self).handle(),
            final(self).inode == old(self).inode,
            final(self).offset == old(self).offset,
            final(self).reply_buffer.limit() == old(self).reply_buffer.limit(),
            if entry_size <= old(self).reply_buffer.limit() - old(self).reply_buffer@.len() {
                &&& res == ReplyBufState::Added
                &&& final(self).reply_buffer@ == old(self).reply_buffer@ + entry@
            } else {
                &&& res == ReplyBufState::Full
                &&& final(self).reply_buffer@ == old(self).reply_buffer@
            },
    {
        self.reply_buffer.after_add(entry_size, entry)
    }

    /// Send a successful reply. This also works if no entries have been added via `add_entry`,
    /// indicating an empty directory without `.` or `..` present.
    pub fn reply(self) -> (res: Reply)
        ensures
            res@ == buffer_reply(self.handle(), self.reply_buffer@),
            self.reply_buffer@.len() <= self.reply_buffer.limit(),
    {
        self.reply_buffer.reply()
    }
}

/// Create a new directory with a lookup count of 1.
#[derive(Debug)]
pub struct Mkdir {
    pub request: RequestGuard,
    pub parent: u64,
    pub dir_name: Vec<u8>,
    pub mode: u32,
}

impl FuseRequest for Mkdir {
    open spec fn handle(self) -> sys::Request {
        self.request.raw
    }

    open spec fn fail_view(self, errno: i32) -> Option<ReplyView> {
        Some(err_reply(self.request.raw, errno))
    }

    open spec fn drop_view(self) -> Option<ReplyView> {
        guard_reply(self.request.raw)
    }

    fn fail(self, errno: i32) -> (res: Option<Reply>) {
        Some(reply_err(self.request, errno))
    }

    fn on_drop(&self) -> (res: Option<Reply>) {
        self.request.on_drop()
    }
}

impl Mkdir {
    /// Answer with the new directory's entry.
    pub fn reply(self, entry: &EntryParam) -> (res: Reply)
        ensures
            res@ == guarded_reply(self.request.raw, ReplyCallView::Entry { entry: *entry }),
    {
        reply_guarded(self.request, ReplyCall::Entry { entry: *entry })
    }
}

/// Create a new file with a lookup count of 1.
#[derive(Debug)]
pub struct Create {
    pub request: RequestGuard,
    pub parent: u64,
    pub file_name: Vec<u8>,
    pub mode: u32,
    pub file_info: FuseFileInfo,
}

impl FuseRequest for Create {
    open spec fn handle(self) -> sys::Request {
        self.request.raw
    }

    open spec fn fail_view(self, errno: i32) -> Option<ReplyView> {
        Some(err_reply(self.request.raw, errno))
    }

    open spec fn drop_view(self) -> Option<ReplyView> {
        guard_reply(self.request.raw)
    }

    fn fail(self, errno: i32) -> (res: Option<Reply>) {
        Some(reply_err(self.request, errno))
    }

    fn on_drop(&self) -> (res: Option<Reply>) {
        self.request.on_drop()
    }
}

impl Create {
    /// The `fh` provided here will be available in later requests for this file handle.
    pub fn reply(self, entry: &EntryParam, fh: u64) -> (res: Reply)
        ensures
            res@ == guarded_reply(
                self.request.raw,
                ReplyCallView::Create {
                    entry: *entry,
                    file_info: FuseFileInfo { fh, ..self.file_info },
                },
            ),
    {
        let mut file_info = self.file_info;
        file_info.fh = fh;
        reply_guarded(self.request, ReplyCall::Create { entry: *entry, file_info })
    }
}

/// Create a new node (file or device) with a lookup count of 1.
#[derive(Debug)]
pub struct Mknod {
    pub request: RequestGuard,
    pub parent: u64,
    pub file_name: Vec<u8>,
    pub mode: u32,
    pub dev: u64,
}

impl FuseRequest for Mknod {
    open spec fn handle(self) -> sys::Request {
        self.request.raw
    }

    open spec fn fail_view(self, errno: i32) -> Option<ReplyView> {
        Some(err_reply(self.request.raw, errno))
    }

    open spec fn drop_view(self) -> Option<ReplyView> {
        guard_reply(self.request.raw)
    }

    fn fail(self, errno: i32) -> (res: Option<Reply>) {
        Some(reply_err(self.request, errno))
    }

    fn on_drop(&self) -> (res: Option<Reply>) {
        self.request.on_drop()
    }
}

impl Mknod {
    /// The lookup count should be bumped by this reply.
    pub fn reply(self, entry: &EntryParam) -> (res: Reply)
        ensures
            res@ == guarded_reply(self.request.raw, ReplyCallView::Entry { entry: *entry }),
    {
        reply_guarded(self.request, ReplyCall::Entry { entry: *entry })
    }
}

/// Open a file. This counts as one reference to the file and can be tracked separately or as part
/// of the lookup count. If dealing with opened files requires a kind of state, the `fh` parameter
/// on the `reply` method should point to that state, as it will be included in all requests
/// related to this handle.
#[derive(Debug)]
pub struct Open {
    pub request: RequestGuard,
    pub inode: u64,
    pub flags: i32,
    pub file_info: FuseFileInfo,
}

impl FuseRequest for Open {
    open spec fn handle(self) -> sys::Request {
        self.request.raw
    }

    open spec fn fail_view(self, errno: i32) -> Option<ReplyView> {
        Some(err_reply(self.request.raw, errno))
    }

    open spec fn drop_view(self) -> Option<ReplyView> {
        guard_reply(self.request.raw)
    }

    fn fail(self, errno: i32) -> (res: Option<Reply>) {
        Some(reply_err(self.request, errno))
    }

    fn on_drop(&self) -> (res: Option<Reply>) {
        self.request.on_drop()
    }
}

impl Open {
    /// The `fh` provided here will be available in later requests for this file handle. libfuse
    /// is not told of the entry.
    pub fn reply(self, _entry: &EntryParam, fh: u64) -> (res: Reply)
        ensures
            res@ == guarded_reply(
                self.request.raw,
                ReplyCallView::Open { file_info: FuseFileInfo { fh, ..self.file_info } },
            ),
    {
        let mut file_info = self.file_info;
        file_info.fh = fh;
        reply_guarded(self.request, ReplyCall::Open { file_info })
    }
}

/// Release a reference to a file.
#[derive(Debug)]
pub struct Release {
    pub request: RequestGuard,
    pub inode: u64,
    pub fh: u64,
    pub flags: i32,
}

impl FuseRequest for Release {
    open spec fn handle(self) -> sys::Request {
        self.request.raw
    }

    open spec fn fail_view(self, errno: i32) -> Option<ReplyView> {
        Some(err_reply(self.request.raw, errno))
    }

    open spec fn drop_view(self) -> Option<ReplyView> {
        guard_reply(self.request.raw)
    }

    fn fail(self, errno: i32) -> (res: Option<Reply>) {
        Some(reply_err(self.request, errno))
    }

    fn on_drop(&self) -> (res: Option<Reply>) {
        self.request.on_drop()
    }
}

impl Release {
    /// The reference is gone.
    pub fn reply(self) -> (res: Reply)
        ensures
            res@ == err_reply(self.request.raw, 0),
    {
        reply_err(self.request, 0)
    }
}

/// Read from a file.
#[derive(Debug)]
pub struct Read {
    pub request: RequestGuard,
    pub inode: u64,
    pub fh: u64,
    pub size: usize,
    pub offset: u64,
}

impl FuseRequest for Read {
    open spec fn handle(self) -> sys::Request {
        self.request.raw
    }

    open spec fn fail_view(self, errno: i32) -> Option<ReplyView> {
        Some(err_reply(self.request.raw, errno))
    }

    open spec fn drop_view(self) -> Option<ReplyView> {
        guard_reply(self.request.raw)
    }

    fn fail(self, errno: i32) -> (res: Option<Reply>) {
        Some(reply_err(self.request, errno))
    }

    fn on_drop(&self) -> (res: Option<Reply>) {
        self.request.on_drop()
    }
}

impl Read {
    /// Answer with what was read.
    pub fn reply(self, data: &[u8]) -> (res: Reply)
        ensures
            res@ == guarded_reply(self.request.raw, ReplyCallView::Buf { data: data@ }),
    {
        reply_guarded(self.request, ReplyCall::Buf { data: slice_to_vec(data) })
    }
}

/// Whether the time of `secs` seconds and `nsecs` nanoseconds, taken as unsigned numbers of 64 and
/// 32 bits, can be represented after nanoseconds are carried over into seconds.
pub open spec fn c_time_fits(secs: i64, nsecs: i64) -> bool {
    secs as int % two64() + (nsecs as int % two32()) / (NANOS_PER_SEC as int) < two64()
}

/// The time of `secs` seconds and `nsecs` nanoseconds, taken as unsigned numbers of 64 and 32
/// bits, in nanoseconds.
pub open spec fn c_time_nanos(secs: i64, nsecs: i64) -> int {
    (secs as int % two64()) * NANOS_PER_SEC + nsecs as int % two32()
}

/// The time since the epoch that a C structure gives.
pub open spec fn spec_c_duration(secs: i64, nsecs: i64) -> Duration {
    Duration {
        secs: (c_time_nanos(secs, nsecs) / NANOS_PER_SEC as int) as u64,
        nanos: (c_time_nanos(secs, nsecs) % NANOS_PER_SEC as int) as u32,
    }
}

/// The time since the epoch that a C structure gives.
pub fn c_duration(secs: i64, nsecs: i64) -> (res: Duration)
    requires
        c_time_fits(secs, nsecs),
    ensures
        res.wf(),
        res@ == c_time_nanos(secs, nsecs),
        res == spec_c_duration(secs, nsecs),
{
    proof {
        lemma_i64_as_u64(secs);
        lemma_i64_as_u32(nsecs);
    }
    Duration::new(#[verifier::truncate] (secs as u64), #[verifier::truncate] (nsecs as u32))
}

/// What a time is to be set to.
#[derive(Clone, Copy, Debug, PartialEq, Eq, Structural)]
pub enum SetTime {
    /// The time should be set to the current time.
    Now,

    /// Time since the epoch.
    Time(Duration),
}

impl SetTime {
    /// Truncates nsecs!
    pub fn from_c(secs: i64, nsecs: i64) -> (res: SetTime)
        requires
            c_time_fits(secs, nsecs),
        ensures
            res == SetTime::Time(spec_c_duration(secs, nsecs)),
    {
        SetTime::Time(c_duration(secs, nsecs))
    }
}

/// Set attributes of a file.
#[derive(Debug)]
pub struct Setattr {
    pub request: RequestGuard,
    pub inode: u64,
    pub fh: Option<u64>,

    /// Which attributes to set: bits of `sys::setattr`.
    pub to_set: i32,

    /// The attributes' new values.
    pub stat: Stat,
}

impl FuseRequest for Setattr {
    open spec fn handle(self) -> sys::Request {
        self.request.raw
    }

    open spec fn fail_view(self, errno: i32) -> Option<ReplyView> {
        Some(err_reply(self.request.raw, errno))
    }

    open spec fn drop_view(self) -> Option<ReplyView> {
        guard_reply(self.request.raw)
    }

    fn fail(self, errno: i32) -> (res: Option<Reply>) {
        Some(reply_err(self.request, errno))
    }

    fn on_drop(&self) -> (res: Option<Reply>) {
        self.request.on_drop()
    }
}

impl Setattr {
    /// `Some` if the mode field should be modified.
    pub open spec fn spec_mode(self) -> Option<u32> {
        if self.to_set & sys::setattr::MODE != 0 {
            Some(self.stat.st_mode)
        } else {
            None
        }
    }

    /// `Some` if the mode field should be modified.
    pub fn mode(&self) -> (res: Option<u32>)
        ensures
            res == self.spec_mode(),
    {
        if (self.to_set & sys::setattr::MODE) != 0 {
            Some(self.stat.st_mode)
        } else {
            None
        }
    }

    /// `Some` if the uid field should be modified.
    pub open spec fn spec_uid(self) -> Option<u32> {
        if self.to_set & sys::setattr::UID != 0 {
            Some(self.stat.st_uid)
        } else {
            None
        }
    }

    /// `Some` if the uid field should be modified.
    pub fn uid(&self) -> (res: Option<u32>)
        ensures
            res == self.spec_uid(),
    {
        if (self.to_set & sys::setattr::UID) != 0 {
            Some(self.stat.st_uid)
        } else {
            None
        }
    }

    /// `Some` if the gid field should be modified.
    pub open spec fn spec_gid(self) -> Option<u32> {
        if self.to_set & sys::setattr::GID != 0 {
            Some(self.stat.st_gid)
        } else {
            None
        }
    }

    /// `Some` if the gid field should be modified.
    pub fn gid(&self) -> (res: Option<u32>)
        ensures
            res == self.spec_gid(),
    {
        if (self.to_set & sys::setattr::GID) != 0 {
            Some(self.stat.st_gid)
        } else {
            None
        }
    }

    /// `Some` if the size field should be modified.
    pub open spec fn spec_size(self) -> Option<u64> {
        if self.to_set & sys::setattr::SIZE != 0 {
            Some((self.stat.st_size as int % two64()) as u64)
        } else {
            None
        }
    }

    /// `Some` if the size field should be modified.
    pub fn size(&self) -> (res: Option<u64>)
        ensures
            res == self.spec_size(),
    {
        proof {
            lemma_i64_as_u64(self.stat.st_size);
        }
        if (self.to_set & sys::setattr::SIZE) != 0 {
            Some(#[verifier::truncate] (self.stat.st_size as u64))
        } else {
            None
        }
    }

    /// `Some` if the atime field should be modified.
    pub open spec fn spec_atime(self) -> Option<SetTime> {
        if self.to_set & sys::setattr::ATIME != 0 {
            Some(SetTime::Time(spec_c_duration(self.stat.st_atime, self.stat.st_atime_nsec)))
        } else if self.to_set & sys::setattr::ATIME_NOW != 0 {
            Some(SetTime::Now)
        } else {
            None
        }
    }

    /// `Some` if the atime field should be modified.
    pub fn atime(&self) -> (res: Option<SetTime>)
        requires
            self.to_set & sys::setattr::ATIME != 0 ==> c_time_fits(
                self.stat.st_atime,
                self.stat.st_atime_nsec,
            ),
        ensures
            res == self.spec_atime(),
    {
        if (self.to_set & sys::setattr::ATIME) != 0 {
            Some(SetTime::from_c(self.stat.st_atime, self.stat.st_atime_nsec))
        } else if (self.to_set & sys::setattr::ATIME_NOW) != 0 {
            Some(SetTime::Now)
        } else {
            None
        }
    }

    /// `Some` if the mtime field should be modified.
    pub open spec fn spec_mtime(self) -> Option<SetTime> {
        if self.to_set & sys::setattr::MTIME != 0 {
            Some(SetTime::Time(spec_c_duration(self.stat.st_mtime, self.stat.st_mtime_nsec)))
        } else if self.to_set & sys::setattr::MTIME_NOW != 0 {
            Some(SetTime::Now)
        } else {
            None
        }
    }

    /// `Some` if the mtime field should be modified.
    pub fn mtime(&self) -> (res: Option<SetTime>)
        requires
            self.to_set & sys::setattr::MTIME != 0 ==> c_time_fits(
                self.stat.st_mtime,
                self.stat.st_mtime_nsec,
            ),
        ensures
            res == self.spec_mtime(),
    {
        if (self.to_set & sys::setattr::MTIME) != 0 {
            Some(SetTime::from_c(self.stat.st_mtime, self.stat.st_mtime_nsec))
        } else if (self.to_set & sys::setattr::MTIME_NOW) != 0 {
            Some(SetTime::Now)
        } else {
            None
        }
    }

    /// `Some` if the ctime field should be modified.
    pub open spec fn spec_ctime(self) -> Option<Duration> {
        if self.to_set & sys::setattr::CTIME != 0 {
            Some(spec_c_duration(self.stat.st_ctime, self.stat.st_ctime_nsec))
        } else {
            None
        }
    }

    /// `Some` if the ctime field should be modified.
    pub fn ctime(&self) -> (res: Option<Duration>)
        requires
            self.to_set & sys::setattr::CTIME != 0 ==> c_time_fits(
                self.stat.st_ctime,
                self.stat.st_ctime_nsec,
            ),
        ensures
            res == self.spec_ctime(),
    {
        if (self.to_set & sys::setattr::CTIME) != 0 {
            Some(c_duration(self.stat.st_ctime, self.stat.st_ctime_nsec))
        } else {
            None
        }
    }

    /// Send a reply for a `Setattr` request.
    pub fn reply(self, stat: &Stat, timeout: Timeout) -> (res: Reply)
        ensures
            res@ == guarded_reply(self.request.raw, ReplyCallView::Attr { stat: *stat, timeout }),
    {
        reply_guarded(self.request, ReplyCall::Attr { stat: *stat, timeout })
    }
}

/// Remove a hard-link to a file. Note that the removed file may still have active references which
/// should still be usable. This only unlinks the file from one directory.
#[derive(Debug)]
pub struct Unlink {
    pub request: RequestGuard,
    pub parent: u64,
    pub file_name: Vec<u8>,
}

impl FuseRequest for Unlink {
    open spec fn handle(self) -> sys::Request {
        self.request.raw
    }

    open spec fn fail_view(self, errno: i32) -> Option<ReplyView> {
        Some(err_reply(self.request.raw, errno))
    }

    open spec fn drop_view(self) -> Option<ReplyView> {
        guard_reply(self.request.raw)
    }

    fn fail(self, errno: i32) -> (res: Option<Reply>) {
        Some(reply_err(self.request, errno))
    }

    fn on_drop(&self) -> (res: Option<Reply>) {
        self.request.on_drop()
    }
}

impl Unlink {
    /// The link is gone.
    pub fn reply(self) -> (res: Reply)
        ensures
            res@ == err_reply(self.request.raw, 0),
    {
        reply_err(self.request, 0)
    }
}

/// Remove a directory entry. Note that the removed directory may still have active references
/// which should still be usable. Only its hard link into the directory hierarchy is dropped.
#[derive(Debug)]
pub struct Rmdir {
    pub request: RequestGuard,
    pub parent: u64,
    pub dir_name: Vec<u8>,
}

impl FuseRequest for Rmdir {
    open spec fn handle(self) -> sys::Request {
        self.request.raw
    }

    open spec fn fail_view(self, errno: i32) -> Option<ReplyView> {
        Some(err_reply(self.request.raw, errno))
    }

    open spec fn drop_view(self) -> Option<ReplyView> {
        guard_reply(self.request.raw)
    }

    fn fail(self, errno: i32) -> (res: Option<Reply>) {
        Some(reply_err(self.request, errno))
    }

    fn on_drop(&self) -> (res: Option<Reply>) {
        self.request.on_drop()
    }
}

impl Rmdir {
    /// The entry is gone.
    pub fn reply(self) -> (res: Reply)
        ensures
            res@ == err_reply(self.request.raw, 0),
    {
        reply_err(self.request, 0)
    }
}

/// Write to a file.
#[derive(Debug)]
pub struct Write {
    pub request: RequestGuard,
    pub inode: u64,
    pub fh: u64,

    /// Where in the buffer the data to write starts.
    pub data: usize,

    /// How many bytes of data there are.
    pub size: usize,

    /// Where in the file to write them.
    pub offset: u64,

    /// The buffer is shared, so that its bytes stay until the requests that borrow data from it are
    /// used up.
    pub buffer: Arc<FuseBuf>,
}

impl FuseRequest for Write {
    open spec fn handle(self) -> sys::Request {
        self.request.raw
    }

    open spec fn fail_view(self, errno: i32) -> Option<ReplyView> {
        Some(err_reply(self.request.raw, errno))
    }

    open spec fn drop_view(self) -> Option<ReplyView> {
        guard_reply(self.request.raw)
    }

    fn fail(self, errno: i32) -> (res: Option<Reply>) {
        Some(reply_err(self.request, errno))
    }

    fn on_drop(&self) -> (res: Option<Reply>) {
        self.request.on_drop()
    }
}

impl Write {
    /// Whether the data lies in the buffer.
    pub open spec fn wf(self) -> bool {
        self.data + self.size <= self.buffer.mem@.len()
    }

    /// Answer with how many bytes were written.
    pub fn reply(self, size: usize) -> (res: Reply)
        ensures
            res@ == guarded_reply(self.request.raw, ReplyCallView::Write { count: size }),
    {
        reply_guarded(self.request, ReplyCall::Write { count: size })
    }

    /// The data to write.
    pub open spec fn spec_data(self) -> Seq<u8> {
        self.buffer.mem@.subrange(self.data as int, self.data + self.size)
    }

    /// The data to write.
    pub fn data(&self) -> (res: &[u8])
        requires
            self.wf(),
        ensures
            res@ == self.spec_data(),
    {
        assert(self.data + self.size <= self.buffer.mem.len());
        slice_subrange(self.buffer.mem.as_slice(), self.data, self.data + self.size)
    }
}

/// Read a symbolic link.
#[derive(Debug)]
pub struct Readlink {
    pub request: RequestGuard,
    pub inode: u64,
}

impl FuseRequest for Readlink {
    open spec fn handle(self) -> sys::Request {
        self.request.raw
    }

    open spec fn fail_view(self, errno: i32) -> Option<ReplyView> {
        Some(err_reply(self.request.raw, errno))
    }

    open spec fn drop_view(self) -> Option<ReplyView> {
        guard_reply(self.request.raw)
    }

    fn fail(self, errno: i32) -> (res: Option<Reply>) {
        Some(reply_err(self.request, errno))
    }

    fn on_drop(&self) -> (res: Option<Reply>) {
        self.request.on_drop()
    }
}

impl Readlink {
    /// Answer with where the link points; a path with a zero byte is refused.
    pub fn reply(self, data: &[u8]) -> (res: Result<Reply, Refused>)
        ensures
            match res {
                Ok(reply) => {
                    &&& !data@.contains(0u8)
                    &&& reply@ == guarded_reply(
                        self.request.raw,
                        ReplyCallView::Readlink { link: data@ },
                    )
                },
                Err(refused) => {
                    &&& data@.contains(0u8)
                    &&& refused.error matches IoError::Other(text)
                    &&& text@ == "tried to reply with invalid link"@
                    &&& opt_view(refused.guard) == guard_reply(self.request.raw)
                },
            },
    {
        match CString::new(slice_to_vec(data)) {
            Ok(link) => Ok(self.c_reply(&link)),
            Err(err) => Err(
                Refused {
                    error: IoError::Other("tried to reply with invalid link".to_owned()),
                    guard: self.request.on_drop(),
                },
            ),
        }
    }

    /// Answer with where the link points.
    pub fn c_reply(self, data: &CString) -> (res: Reply)
        ensures
            res@ == guarded_reply(self.request.raw, ReplyCallView::Readlink { link: data@ }),
    {
        reply_guarded(self.request, ReplyCall::Readlink { link: data.duplicate() })
    }
}

/// Get the size of the extended attribute list.
#[derive(Debug)]
pub struct ListXAttrSize {
    pub request: RequestGuard,
    pub inode: u64,
}

impl FuseRequest for ListXAttrSize {
    open spec fn handle(self) -> sys::Request {
        self.request.raw
    }

    open spec fn fail_view(self, errno: i32) -> Option<ReplyView> {
        Some(err_reply(self.request.raw, errno))
    }

    open spec fn drop_view(self) -> Option<ReplyView> {
        guard_reply(self.request.raw)
    }

    fn fail(self, errno: i32) -> (res: Option<Reply>) {
        Some(reply_err(self.request, errno))
    }

    fn on_drop(&self) -> (res: Option<Reply>) {
        self.request.on_drop()
    }
}

impl ListXAttrSize {
    /// Answer with the size of the list.
    pub fn reply(self, size: usize) -> (res: Reply)
        ensures
            res@ == guarded_reply(self.request.raw, ReplyCallView::XAttr { size }),
    {
        reply_guarded(self.request, ReplyCall::XAttr { size })
    }
}

/// List extended attributes.
#[derive(Debug)]
pub struct ListXAttr {
    pub request: RequestGuard,
    pub inode: u64,

    /// How many bytes the caller has room for.
    pub size: usize,

    /// The reply so far.
    pub response: Vec<u8>,
}

impl View for ListXAttr {
    type V = Seq<u8>;

    /// The reply so far.
    open spec fn view(&self) -> Seq<u8> {
        self.response@
    }
}

/// What adding an entry to a reply of at most `size` bytes does: the entry comes last if it fits,
/// and the reply stays as it is if not.
pub open spec fn add_xattr(response: Seq<u8>, entry: Seq<u8>, size: nat) -> (
    ReplyBufState,
    Seq<u8>,
) {
    if response.len() + entry.len() <= size {
        (ReplyBufState::Added, response + entry)
    } else {
        (ReplyBufState::Full, response)
    }
}

impl FuseRequest for ListXAttr {
    open spec fn handle(self) -> sys::Request {
        self.request.raw
    }

    open spec fn fail_view(self, errno: i32) -> Option<ReplyView> {
        Some(err_reply(self.request.raw, errno))
    }

    open spec fn drop_view(self) -> Option<ReplyView> {
        guard_reply(self.request.raw)
    }

    fn fail(self, errno: i32) -> (res: Option<Reply>) {
        Some(reply_err(self.request, errno))
    }

    fn on_drop(&self) -> (res: Option<Reply>) {
        self.request.on_drop()
    }
}

impl ListXAttr {
    /// Whether the caller has room for the reply so far.
    pub open spec fn wf(self) -> bool {
        self.response@.len() <= self.size
    }

    /// A request to list the attributes of `inode` in at most `size` bytes.
    pub fn new(request: RequestGuard, inode: u64, size: usize) -> (res: ListXAttr)
        ensures
            res.wf(),
            res.request == request,
            res.inode == inode,
            res.size == size,
            res@ == Seq::<u8>::empty(),
    {
        ListXAttr { request, inode, size, response: Vec::new() }
    }

    /// Check whether we can add `len` bytes to the buffer. This must already include the
    /// terminating zero.
    pub fn check_add(&self, len: usize) -> (res: bool)
        ensures
            res == (self@.len() + len <= self.size),
    {
        self.response.len() <= self.size && len <= self.size - self.response.len()
    }

    /// Add an extended attribute entry to the response list.
    ///
    /// This returns `Full` if the entry would overflow the caller's buffer, but will not fail the
    /// request. Use `fail_full()` to send the default reply for a too-small buffer, or `reply()`
    /// to reply with success.
    pub fn add(&mut self, name: &[u8]) -> (res: ReplyBufState)
        ensures
            old(self).wf() ==> final(self).wf(),
            final(self).request == old(self).request,
            final(self).inode == old(self).inode,
            final(self).size == old(self).size,
            (res, final(self)@) == add_xattr(old(self)@, name@.push(0u8), old(self).size as nat),
    {
        self.add_bytes_without_zero(name)
    }

    /// Add a raw attribute name the response list. It must not contain any zeroes.
    ///
    /// See `add` for details.
    pub fn add_bytes_without_zero(&mut self, name: &[u8]) -> (res: ReplyBufState)
        ensures
            old(self).wf() ==> final(self).wf(),
            final(self).request == old(self).request,
            final(self).inode == old(self).inode,
            final(self).size == old(self).size,
            (res, final(self)@) == add_xattr(old(self)@, name@.push(0u8), old(self).size as nat),
    {
        if name.len() == usize::MAX || !self.check_add(name.len() + 1) {
            return ReplyBufState::Full;
        }
        self.response.reserve(name.len() + 1);
        self.response.extend_from_slice(name);
        self.response.push(0);
        proof {
            assert(self@ == old(self)@ + name@.push(0u8));
        }
        ReplyBufState::Added
    }

    /// Add a raw attribute name which is already zero terminated to the response list.
    ///
    /// See `add` for details.
    pub fn add_bytes_with_zero(&mut self, name: &[u8]) -> (res: ReplyBufState)
        ensures
            old(self).wf() ==> final(self).wf(),
            final(self).request == old(self).request,
            final(self).inode == old(self).inode,
            final(self).size == old(self).size,
            (res, final(self)@) == add_xattr(old(self)@, name@, old(self).size as nat),
    {
        if !self.check_add(name.len()) {
            return ReplyBufState::Full;
        }
        self.response.extend_from_slice(name);
        proof {
            assert(self@ == old(self)@ + name@);
        }
        ReplyBufState::Added
    }

    /// Add a raw attribute name which is already zero terminated to the response list.
    ///
    /// See `add` for details.
    pub fn add_c_string(&mut self, name: &CString) -> (res: ReplyBufState)
        ensures
            old(self).wf() ==> final(self).wf(),
            final(self).request == old(self).request,
            final(self).inode == old(self).inode,
            final(self).size == old(self).size,
            (res, final(self)@) == add_xattr(old(self)@, name@.push(0u8), old(self).size as nat),
    {
        let bytes = name.to_bytes_with_nul();
        self.add_bytes_with_zero(bytes.as_slice())
    }

    /// Try to replace the current reply buffer with a raw data buffer. If the provided data is too
    /// large it will be returned as an error.
    pub fn set_raw_reply(&mut self, data: Vec<u8>) -> (res: Result<(), Vec<u8>>)
        ensures
            old(self).wf() ==> final(self).wf(),
            final(self).request == old(self).request,
            final(self).inode == old(self).inode,
            final(self).size == old(self).size,
            if data@.len() > old(self).size {
                res == Err::<(), Vec<u8>>(data) && final(self)@ == old(self)@
            } else {
                res == Ok::<(), Vec<u8>>(()) && final(self)@ == data@
            },
    {
        if data.len() > self.size {
            return Err(data);
        }
        self.response = data;
        Ok(())
    }

    /// Reply with the standard error for a too-small size.
    pub fn fail_full(self) -> (res: Reply)
        ensures
            res@ == err_reply(self.request.raw, ERANGE),
    {
        reply_err(self.request, ERANGE)
    }

    /// Reply to the request with the current data buffer.
    pub fn reply(self) -> (res: Reply)
        ensures
            res@ == guarded_reply(self.request.raw, ReplyCallView::Buf { data: self@ }),
    {
        reply_guarded(self.request, ReplyCall::Buf { data: self.response })
    }

    /// Reply to the request with either an error (`ERANGE` if the data doesn't fit) or with the
    /// provided raw buffer discarding anything previously added to the reply.
    pub fn reply_raw(self, data: &[u8]) -> (res: Reply)
        ensures
            res@ == (if data@.len() > self.size {
                err_reply(self.request.raw, ERANGE)
            } else {
                guarded_reply(self.request.raw, ReplyCallView::Buf { data: data@ })
            }),
    {
        if data.len() > self.size {
            return self.fail_full();
        }
        reply_guarded(self.request, ReplyCall::Buf { data: slice_to_vec(data) })
    }
}

/// Get the size of an extended attribute.
#[derive(Debug)]
pub struct GetXAttrSize {
    pub request: RequestGuard,
    pub inode: u64,
    pub attr_name: Vec<u8>,
}

impl FuseRequest for GetXAttrSize {
    open spec fn handle(self) -> sys::Request {
        self.request.raw
    }

    open spec fn fail_view(self, errno: i32) -> Option<ReplyView> {
        Some(err_reply(self.request.raw, errno))
    }

    open spec fn drop_view(self) -> Option<ReplyView> {
        guard_reply(self.request.raw)
    }

    fn fail(self, errno: i32) -> (res: Option<Reply>) {
        Some(reply_err(self.request, errno))
    }

    fn on_drop(&self) -> (res: Option<Reply>) {
        self.request.on_drop()
    }
}

impl GetXAttrSize {
    /// Answer with the size of the attribute's value.
    pub fn reply(self, size: usize) -> (res: Reply)
        ensures
            res@ == guarded_reply(self.request.raw, ReplyCallView::XAttr { size }),
    {
        reply_guarded(self.request, ReplyCall::XAttr { size })
    }
}

/// Get an extended attribute.
#[derive(Debug)]
pub struct GetXAttr {
    pub request: RequestGuard,
    pub inode: u64,
    pub attr_name: Vec<u8>,

    /// How many bytes the caller has room for.
    pub size: usize,
}

impl FuseRequest for GetXAttr {
    open spec fn handle(self) -> sys::Request {
        self.request.raw
    }

    open spec fn fail_view(self, errno: i32) -> Option<ReplyView> {
        Some(err_reply(self.request.raw, errno))
    }

    open spec fn drop_view(self) -> Option<ReplyView> {
        guard_reply(self.request.raw)
    }

    fn fail(self, errno: i32) -> (res: Option<Reply>) {
        Some(reply_err(self.request, errno))
    }

    fn on_drop(&self) -> (res: Option<Reply>) {
        self.request.on_drop()
    }
}

impl GetXAttr {
    /// Reply to the request either with an error (`ERANGE` if the buffer doesn't fit), or with the
    /// provided data.
    pub fn reply(self, data: &[u8]) -> (res: Reply)
        ensures
            res@ == (if data@.len() > self.size {
                err_reply(self.request.raw, ERANGE)
            } else {
                guarded_reply(self.request.raw, ReplyCallView::Buf { data: data@ })
            }),
    {
        if data.len() > self.size {
            return reply_err(self.request, ERANGE);
        }
        reply_guarded(self.request, ReplyCall::Buf { data: slice_to_vec(data) })
    }
}

/// What is sent for a request that is dropped without an answer is an error, under its own handle:
/// `EIO` for listings of directories, `ENOSYS` for all others.
pub proof fn law_dropped_request_is_answered(request: Request)
    requires
        !request.handle().spec_is_null(),
    ensures
        ({
            &&& request.drop_view() matches Some(reply)
            &&& reply.request == request.handle()
            &&& !reply.armed
            &&& reply.call == (ReplyCallView::Error {
                errno: if request is Readdir || request is ReaddirPlus {
                    EIO
                } else {
                    ENOSYS
                },
            })
        }),
{
}

/// Failing a request answers it under its own handle, with the given error number, and ends it: no
/// guard sends anything after that. `Forget` cannot fail, so nothing is sent for it.
pub proof fn law_failed_request_is_answered(request: Request, errno: i32, rc: int)
    ensures
        ({
            &&& request.fail_view(errno) matches Some(reply)
            &&& reply.request == request.handle()
            &&& reply.call == (if request is Forget {
                ReplyCallView::Nothing
            } else {
                ReplyCallView::Error { errno }
            })
            &&& spec_finish(reply, rc).1 is None
            &&& request is Forget ==> spec_finish(reply, rc).0 == Ok::<(), IoError>(())
        }),
{
}

/// The attributes of a `Setattr` request do not get in each other's way: each has a bit of its
/// own.
pub proof fn law_setattr_bits_are_distinct()
    ensures
        ({
            let bits = seq![
                sys::setattr::MODE,
                sys::setattr::UID,
                sys::setattr::GID,
                sys::setattr::SIZE,
                sys::setattr::ATIME,
                sys::setattr::MTIME,
                sys::setattr::ATIME_NOW,
                sys::setattr::MTIME_NOW,
                sys::setattr::CTIME,
            ];
            forall|i: int, j: int|
                0 <= i < bits.len() && 0 <= j < bits.len() ==> (#[trigger] bits[i]
                    & #[trigger] bits[j] != 0 <==> i == j)
        }),
{
    let bits = seq![
        sys::setattr::MODE,
        sys::setattr::UID,
        sys::setattr::GID,
        sys::setattr::SIZE,
        sys::setattr::ATIME,
        sys::setattr::MTIME,
        sys::setattr::ATIME_NOW,
        sys::setattr::MTIME_NOW,
        sys::setattr::CTIME,
    ];
    let shifts = seq![0u32, 1u32, 2u32, 3u32, 4u32, 5u32, 7u32, 8u32, 10u32];
    assert forall|i: int, j: int| 0 <= i < bits.len() && 0 <= j < bits.len() implies (
    #[trigger] bits[i] & #[trigger] bits[j] != 0 <==> i == j) by {
        assert(bits[i] == 1i32 << shifts[i]);
        assert(bits[j] == 1i32 << shifts[j]);
        lemma_single_bits(shifts[i], shifts[j]);
    }
}

/// Two single bits meet where they are the same.
proof fn lemma_single_bits(i: u32, j: u32)
    requires
        i <= 10,
        j <= 10,
    ensures
        (1i32 << i) & (1i32 << j) != 0 <==> i == j,
{
    assert(i <= 10 && j <= 10 ==> ((1i32 << i) & (1i32 << j) != 0 <==> i == j)) by (bit_vector);
}

/// Adding to a list of attributes never makes it longer than the caller's buffer, and never
/// changes what was added before.
pub proof fn law_xattr_list_stays_within_size(response: Seq<u8>, entry: Seq<u8>, size: nat)
    requires
        response.len() <= size,
    ensures
        add_xattr(response, entry, size).1.len() <= size,
        response.is_prefix_of(add_xattr(response, entry, size).1),
{
}

/// Attribute names, each followed by a zero, one after the other.
pub open spec fn join_names(names: Seq<Seq<u8>>) -> Seq<u8>
    decreases names.len(),
{
    if names.len() == 0 {
        Seq::empty()
    } else {
        join_names(names.drop_last()) + names.last().push(0u8)
    }
}

/// Names that all fit are listed one after the other, each followed by a zero.
pub proof fn law_xattr_names_are_listed(names: Seq<Seq<u8>>, name: Seq<u8>, size: nat)
    requires
        join_names(names.push(name)).len() <= size,
    ensures
        add_xattr(join_names(names), name.push(0u8), size) == (
            ReplyBufState::Added,
            join_names(names.push(name)),
        ),
{
    assert(names.push(name).drop_last() == names);
}

/// A list of names tells them apart: as no name holds a zero, no other names give the same list.
pub proof fn law_xattr_list_tells_names(a: Seq<Seq<u8>>, b: Seq<Seq<u8>>)
    requires
        forall|i: int| 0 <= i < a.len() ==> !(#[trigger] a[i]).contains(0u8),
        forall|i: int| 0 <= i < b.len() ==> !(#[trigger] b[i]).contains(0u8),
        join_names(a) == join_names(b),
    ensures
        a == b,
    decreases a.len(),
{
    if a.len() == 0 || b.len() == 0 {
        assert(a.len() == 0 ==> join_names(b).len() == 0);
        assert(b.len() == 0 ==> join_names(a).len() == 0);
        assert(a == b);
    } else {
        let joined = join_names(a);
        let (ra, la) = (join_names(a.drop_last()), a.last());
        let (rb, lb) = (join_names(b.drop_last()), b.last());
        assert(joined == ra + la.push(0u8));
        assert(joined == rb + lb.push(0u8));
        lemma_join_ends_with_zero(a.drop_last());
        lemma_join_ends_with_zero(b.drop_last());
        // what comes before the last name ends with a zero, or is nothing
        if la.len() < lb.len() {
            let at = ra.len() - 1;
            assert(at >= 0 && joined[at] == 0);
            assert(joined[at] == lb.push(0u8)[at - rb.len()]);
            assert(lb[at - rb.len()] == 0);
            assert(lb.contains(0u8));
        }
        if lb.len() < la.len() {
            let at = rb.len() - 1;
            assert(at >= 0 && joined[at] == 0);
            assert(joined[at] == la.push(0u8)[at - ra.len()]);
            assert(la[at - ra.len()] == 0);
            assert(la.contains(0u8));
        }
        assert(ra == joined.take(ra.len() as int));
        assert(rb == joined.take(rb.len() as int));
        assert(la == joined.subrange(ra.len() as int, joined.len() - 1));
        assert(lb == joined.subrange(rb.len() as int, joined.len() - 1));
        assert forall|i: int| 0 <= i < a.drop_last().len() implies !(
        #[trigger] a.drop_last()[i]).contains(0u8) by {
            assert(a.drop_last()[i] == a[i]);
        }
        assert forall|i: int| 0 <= i < b.drop_last().len() implies !(
        #[trigger] b.drop_last()[i]).contains(0u8) by {
            assert(b.drop_last()[i] == b[i]);
        }
        law_xattr_list_tells_names(a.drop_last(), b.drop_last());
        assert(a == a.drop_last().push(la));
        assert(b == b.drop_last().push(lb));
    }
}

/// A list of names is nothing, or ends with a zero.
proof fn lemma_join_ends_with_zero(names: Seq<Seq<u8>>)
    ensures
        join_names(names).len() == 0 || join_names(names).last() == 0,
{
}

/// A time is taken as it is: its seconds, and its nanoseconds where they are less than a second.
/// Taken together, they are kept in any case where they are not negative.
pub proof fn law_times_are_taken_as_they_are(secs: i64, nsecs: i64)
    ensures
        0 <= nsecs < NANOS_PER_SEC ==> {
            let time = spec_c_duration(secs, nsecs);
            &&& time.nanos == nsecs
            &&& wrap_i64(time.secs as int) == secs
            &&& secs >= 0 ==> time.secs == secs
        },
        0 <= secs && 0 <= nsecs <= u32::MAX ==> spec_c_duration(secs, nsecs)@ == secs
            * 1_000_000_000 + nsecs,
        0 <= secs && 0 <= nsecs <= u32::MAX ==> c_time_fits(secs, nsecs),
{
}

/// What a request to set attributes sets is what it says: where an attribute's bit is set, the
/// value that comes with it, and nothing otherwise. A time that is given wins over the current one.
pub proof fn law_setattr_sets_what_it_says(request: Setattr)
    ensures
        request.spec_mode() == if request.to_set & sys::setattr::MODE != 0 {
            Some(request.stat.st_mode)
        } else {
            None
        },
        request.spec_uid() == if request.to_set & sys::setattr::UID != 0 {
            Some(request.stat.st_uid)
        } else {
            None
        },
        request.spec_gid() == if request.to_set & sys::setattr::GID != 0 {
            Some(request.stat.st_gid)
        } else {
            None
        },
        request.to_set & sys::setattr::SIZE == 0 <==> request.spec_size() is None,
        request.to_set & sys::setattr::SIZE != 0 && request.stat.st_size >= 0
            ==> request.spec_size() == Some(request.stat.st_size as u64),
        request.to_set & sys::setattr::ATIME != 0 ==> (request.spec_atime() matches Some(
            SetTime::Time(time),
        ) && time == spec_c_duration(request.stat.st_atime, request.stat.st_atime_nsec)),
        request.to_set & sys::setattr::ATIME == 0 && request.to_set & sys::setattr::ATIME_NOW != 0
            ==> request.spec_atime() == Some(SetTime::Now),
        request.to_set & sys::setattr::ATIME == 0 && request.to_set & sys::setattr::ATIME_NOW == 0
            ==> request.spec_atime() is None,
        request.to_set & sys::setattr::MTIME != 0 ==> (request.spec_mtime() matches Some(
            SetTime::Time(time),
        ) && time == spec_c_duration(request.stat.st_mtime, request.stat.st_mtime_nsec)),
        request.to_set & sys::setattr::MTIME == 0 && request.to_set & sys::setattr::MTIME_NOW != 0
            ==> request.spec_mtime() == Some(SetTime::Now),
        request.to_set & sys::setattr::MTIME == 0 && request.to_set & sys::setattr::MTIME_NOW == 0
            ==> request.spec_mtime() is None,
        request.to_set & sys::setattr::CTIME != 0 ==> request.spec_ctime() == Some(
            spec_c_duration(request.stat.st_ctime, request.stat.st_ctime_nsec),
        ),
        request.to_set & sys::setattr::CTIME == 0 ==> request.spec_ctime() is None,
{
}

/// The data to write is what lies in the buffer from where the request says, as many bytes as it
/// says.
pub proof fn law_data_to_write(request: Write)
    requires
        request.wf(),
    ensures
        request.data + request.size <= request.buffer.mem@.len(),
        request.spec_data().len() == request.size,
        forall|i: int|
            0 <= i < request.size ==> #[trigger] request.spec_data()[i]
                == request.buffer.mem@[request.data + i],
{
}

/// A name is refused exactly if the caller has no room for it after what was added before. One
/// that is refused changes nothing, and one that is added comes after all others.
pub proof fn law_xattr_is_added_where_there_is_room(
    response: Seq<u8>,
    entry: Seq<u8>,
    size: nat,
)
    ensures
        ({
            let (state, after) = add_xattr(response, entry, size);
            &&& state == ReplyBufState::Full <==> response.len() + entry.len() > size
            &&& state == ReplyBufState::Full ==> after == response
            &&& state == ReplyBufState::Added ==> {
                &&& after.len() == response.len() + entry.len()
                &&& forall|i: int| 0 <= i < response.len() ==> after[i] == response[i]
                &&& forall|i: int|
                    0 <= i < entry.len() ==> #[trigger] after[response.len() + i] == entry[i]
            }
        }),
{
}

/// Every request is known to libfuse by the handle that it came with.
pub proof fn law_requests_keep_their_handle(request: Request)
    ensures
        request.handle() == match request {
            Request::Lookup(r) => r.request.raw,
            Request::Forget(r) => r.request.raw,
            Request::Getattr(r) => r.request.raw,
            Request::Setattr(r) => r.request.raw,
            Request::Readdir(r) => r.reply_buffer.spec_request(),
            Request::ReaddirPlus(r) => r.reply_buffer.spec_request(),
            Request::Mkdir(r) => r.request.raw,
            Request::Create(r) => r.request.raw,
            Request::Mknod(r) => r.request.raw,
            Request::Open(r) => r.request.raw,
            Request::Release(r) => r.request.raw,
            Request::Read(r) => r.request.raw,
            Request::Unlink(r) => r.request.raw,
            Request::Rmdir(r) => r.request.raw,
            Request::Write(r) => r.request.raw,
            Request::Readlink(r) => r.request.raw,
            Request::ListXAttrSize(r) => r.request.raw,
            Request::ListXAttr(r) => r.request.raw,
            Request::GetXAttrSize(r) => r.request.raw,
            Request::GetXAttr(r) => r.request.raw,
        },
{
}

/// Failing a `Forget` request by itself makes no difference to dropping it, whatever the error.
pub proof fn law_forget_cannot_fail(request: Forget, errno: i32)
    ensures
        request.fail_view(errno) == request.drop_view(),
        !request.request.raw.spec_is_null() ==> request.drop_view() is Some,
{
}

} // verus!
