//! A session with the kernel: how it is set up and mounted, and how requests come out of it.

use std::collections::VecDeque;
use std::sync::Arc;

use vstd::prelude::*;
use vstd::slice::slice_to_vec;

use crate::errno::EAGAIN;
use crate::error::{Error, IoError};
use crate::reply::{Reply, ReplyView};
use crate::requests::{
    Create, Forget, FuseRequest, GetXAttr, GetXAttrSize, Getattr, ListXAttr, ListXAttrSize, Lookup,
    Mkdir, Mknod, Open, Read, Readdir, ReaddirPlus, Readlink, Release, Request, RequestGuard, Rmdir,
    Setattr, Unlink, Write,
};
use crate::sys::{self, FuseArgs, FuseBuf, FuseFileInfo, Operations};
use crate::util::{is_first_nul, lemma_i64_as_u64, two64, wrap_i32, CString, Stat};

verus! {

/// The default set of operations enabled when nothing else is set via the `FuseSessionBuilder`
/// methods.
///
/// By default the stream can only yield `Getattr` requests.
pub open spec fn spec_default_operations() -> Operations {
    Operations { getattr: true, ..Operations::spec_none() }
}

/// The default set of operations enabled when nothing else is set via the `FuseSessionBuilder`
/// methods.
///
/// By default the stream can only yield `Getattr` requests.
pub fn default_operations() -> (res: Operations)
    ensures
        res == spec_default_operations(),
{
    let mut operations = Operations::none();
    operations.getattr = true;
    operations
}

/// The views of replies.
pub open spec fn replies_view(replies: Seq<Reply>) -> Seq<ReplyView> {
    replies.map_values(|reply: Reply| reply@)
}

/// What is sent for requests that are dropped without an answer, one after the other.
pub open spec fn drop_views(queue: Seq<Request>) -> Seq<ReplyView>
    decreases queue.len(),
{
    if queue.len() == 0 {
        Seq::empty()
    } else {
        (match queue[0].drop_view() {
            Some(reply) => seq![reply],
            None => seq![],
        }) + drop_views(queue.drop_first())
    }
}

/// The requests that libfuse's callbacks made of what was received.
#[derive(Debug)]
pub struct FuseData {
    /// One received buffer may trigger multiple callbacks, so all their requests are queued, and
    /// then yielded in that order.
    pub pending_requests: VecDeque<Request>,

    /// What was received last.
    pub fbuf: Arc<FuseBuf>,
}

impl FuseData {
    /// Nothing was received yet.
    pub fn new() -> (res: FuseData)
        ensures
            res.pending_requests@ == Seq::<Request>::empty(),
            res.fbuf.mem@ == Seq::<u8>::empty(),
    {
        FuseData { pending_requests: VecDeque::new(), fbuf: Arc::new(FuseBuf::new()) }
    }

    /// Keep what was received. Requests that borrow data from an earlier buffer keep that one.
    pub fn received(&mut self, mem: Vec<u8>)
        ensures
            final(self).pending_requests == old(self).pending_requests,
            *final(self).fbuf == (FuseBuf { mem }),
    {
        self.fbuf = Arc::new(FuseBuf { mem });
    }

    /// Drop the requests that were not yielded. What is sent for them, in this order, has no one
    /// who waits for the result.
    pub fn drop_replies(&mut self) -> (res: Vec<Reply>)
        ensures
            replies_view(res@) == drop_views(old(self).pending_requests@),
            final(self).pending_requests@ == Seq::<Request>::empty(),
            final(self).fbuf == old(self).fbuf,
    {
        let mut replies: Vec<Reply> = Vec::new();
        let ghost all = drop_views(self.pending_requests@);
        assert(replies_view(replies@) + all =~= all);
        while self.pending_requests.len() > 0
            invariant
                self.fbuf == old(self).fbuf,
                all == drop_views(old(self).pending_requests@),
                all == replies_view(replies@) + drop_views(self.pending_requests@),
            decreases self.pending_requests@.len(),
        {
            let ghost queue = self.pending_requests@;
            let ghost sent = replies_view(replies@);
            match self.pending_requests.pop_front() {
                Some(request) => {
                    assert(self.pending_requests@ == queue.drop_first());
                    match request.on_drop() {
                        Some(reply) => {
                            replies.push(reply);
                            proof {
                                assert(replies_view(replies@) =~= sent.push(reply@));
                                assert(all =~= replies_view(replies@) + drop_views(
                                    queue.drop_first(),
                                ));
                            }
                        },
                        None => {
                            assert(all =~= sent + drop_views(queue.drop_first()));
                        },
                    }
                },
                None => {},
            }
        }
        proof {
            assert(self.pending_requests@ =~= Seq::<Request>::empty());
            assert(all =~= replies_view(replies@));
        }
        replies
    }

    /// libfuse called back for `lookup`.
    pub fn lookup(&mut self, request: sys::Request, parent: u64, file_name: Vec<u8>)
        ensures
            final(self).fbuf == old(self).fbuf,
            final(self).pending_requests@ == old(self).pending_requests@.push(
                Request::Lookup(
                    Lookup { request: RequestGuard { raw: request }, parent, file_name },
                ),
            ),
    {
        self.pending_requests.push_back(
            Request::Lookup(
                Lookup { request: RequestGuard::from_raw(request), parent, file_name },
            ),
        );
    }

    /// libfuse called back for `forget`.
    pub fn forget(&mut self, request: sys::Request, inode: u64, nlookup: u64)
        ensures
            final(self).fbuf == old(self).fbuf,
            final(self).pending_requests@ == old(self).pending_requests@.push(
                Request::Forget(
                    Forget { request: RequestGuard { raw: request }, inode, count: nlookup },
                ),
            ),
    {
        self.pending_requests.push_back(
            Request::Forget(
                Forget { request: RequestGuard::from_raw(request), inode, count: nlookup },
            ),
        );
    }

    /// libfuse called back for `getattr`.
    pub fn getattr(&mut self, request: sys::Request, inode: u64)
        ensures
            final(self).fbuf == old(self).fbuf,
            final(self).pending_requests@ == old(self).pending_requests@.push(
                Request::Getattr(
                    Getattr { request: RequestGuard { raw: request }, inode },
                ),
            ),
    {
        self.pending_requests.push_back(
            Request::Getattr(
                Getattr { request: RequestGuard::from_raw(request), inode },
            ),
        );
    }

    /// libfuse called back for `readdir`.
    pub fn readdir(&mut self, request: sys::Request, inode: u64, size: usize, offset: i64)
        ensures
            final(self).fbuf == old(self).fbuf,
            final(self).pending_requests@.len() == old(self).pending_requests@.len() + 1,
            final(self).pending_requests@.drop_last() == old(self).pending_requests@,
            ({
                &&& final(self).pending_requests@.last() matches Request::Readdir(listing)
                &&& listing.handle() == request
                &&& listing.inode == inode
                &&& listing.offset == offset
                &&& listing.reply_buffer.limit() == size
                &&& listing.reply_buffer@ == Seq::<u8>::empty()
            }),
    {
        self.pending_requests.push_back(
            Request::Readdir(Readdir::new(RequestGuard::from_raw(request), inode, size, offset)),
        );
        proof {
            assert(self.pending_requests@.drop_last() == old(self).pending_requests@);
        }
    }

    /// libfuse called back for `readdirplus`.
    pub fn readdirplus(&mut self, request: sys::Request, inode: u64, size: usize, offset: i64)
        ensures
            final(self).fbuf == old(self).fbuf,
            final(self).pending_requests@.len() == old(self).pending_requests@.len() + 1,
            final(self).pending_requests@.drop_last() == old(self).pending_requests@,
            ({
                &&& final(self).pending_requests@.last() matches Request::ReaddirPlus(listing)
                &&& listing.handle() == request
                &&& listing.inode == inode
                &&& listing.offset == offset
                &&& listing.reply_buffer.limit() == size
                &&& listing.reply_buffer@ == Seq::<u8>::empty()
            }),
    {
        self.pending_requests.push_back(
            Request::ReaddirPlus(
                ReaddirPlus::new(RequestGuard::from_raw(request), inode, size, offset),
            ),
        );
        proof {
            assert(self.pending_requests@.drop_last() == old(self).pending_requests@);
        }
    }

    /// libfuse called back for `mkdir`.
    pub fn mkdir(&mut self, request: sys::Request, parent: u64, dir_name: Vec<u8>, mode: u32)
        ensures
            final(self).fbuf == old(self).fbuf,
            final(self).pending_requests@ == old(self).pending_requests@.push(
                Request::Mkdir(
                    Mkdir { request: RequestGuard { raw: request }, parent, dir_name, mode },
                ),
            ),
    {
        self.pending_requests.push_back(
            Request::Mkdir(
                Mkdir { request: RequestGuard::from_raw(request), parent, dir_name, mode },
            ),
        );
    }

    /// libfuse called back for `create`.
    pub fn create(
        &mut self,
        request: sys::Request,
        parent: u64,
        file_name: Vec<u8>,
        mode: u32,
        file_info: &FuseFileInfo,
    )
        ensures
            final(self).fbuf == old(self).fbuf,
            final(self).pending_requests@ == old(self).pending_requests@.push(
                Request::Create(
                    Create {
                        request: RequestGuard { raw: request },
                        parent,
                        file_name,
                        mode,
                        file_info: *file_info,
                    },
                ),
            ),
    {
        self.pending_requests.push_back(
            Request::Create(
                Create {
                    request: RequestGuard::from_raw(request),
                    parent,
                    file_name,
                    mode,
                    file_info: *file_info,
                },
            ),
        );
    }

    /// libfuse called back for `mknod`.
    pub fn mknod(
        &mut self,
        request: sys::Request,
        parent: u64,
        file_name: Vec<u8>,
        mode: u32,
        dev: u64,
    )
        ensures
            final(self).fbuf == old(self).fbuf,
            final(self).pending_requests@ == old(self).pending_requests@.push(
                Request::Mknod(
                    Mknod { request: RequestGuard { raw: request }, parent, file_name, mode, dev },
                ),
            ),
    {
        self.pending_requests.push_back(
            Request::Mknod(
                Mknod { request: RequestGuard::from_raw(request), parent, file_name, mode, dev },
            ),
        );
    }

    /// libfuse called back for `open`.
    pub fn open(&mut self, request: sys::Request, inode: u64, file_info: &FuseFileInfo)
        ensures
            final(self).fbuf == old(self).fbuf,
            final(self).pending_requests@ == old(self).pending_requests@.push(
                Request::Open(
                    Open {
                        request: RequestGuard { raw: request },
                        inode,
                        flags: file_info.flags,
                        file_info: *file_info,
                    },
                ),
            ),
    {
        self.pending_requests.push_back(
            Request::Open(
                Open {
                    request: RequestGuard::from_raw(request),
                    inode,
                    flags: file_info.flags,
                    file_info: *file_info,
                },
            ),
        );
    }

    /// libfuse called back for `release`.
    pub fn release(&mut self, request: sys::Request, inode: u64, file_info: &FuseFileInfo)
        ensures
            final(self).fbuf == old(self).fbuf,
            final(self).pending_requests@ == old(self).pending_requests@.push(
                Request::Release(
                    Release {
                        request: RequestGuard { raw: request },
                        inode,
                        flags: file_info.flags,
                        fh: file_info.fh,
                    },
                ),
            ),
    {
        self.pending_requests.push_back(
            Request::Release(
                Release {
                    request: RequestGuard::from_raw(request),
                    inode,
                    flags: file_info.flags,
                    fh: file_info.fh,
                },
            ),
        );
    }

    /// libfuse called back for `read`.
    pub fn read(
        &mut self,
        request: sys::Request,
        inode: u64,
        size: usize,
        offset: i64,
        file_info: &FuseFileInfo,
    )
        ensures
            final(self).fbuf == old(self).fbuf,
            final(self).pending_requests@ == old(self).pending_requests@.push(
                Request::Read(
                    Read {
                        request: RequestGuard { raw: request },
                        fh: file_info.fh,
                        inode,
                        size,
                        offset: (offset as int % two64()) as u64,
                    },
                ),
            ),
    {
        proof {
            lemma_i64_as_u64(offset);
        }
        self.pending_requests.push_back(
            Request::Read(
                Read {
                    request: RequestGuard::from_raw(request),
                    fh: file_info.fh,
                    inode,
                    size,
                    offset: #[verifier::truncate] (offset as u64),
                },
            ),
        );
    }

    /// libfuse called back for `readlink`.
    pub fn readlink(&mut self, request: sys::Request, inode: u64)
        ensures
            final(self).fbuf == old(self).fbuf,
            final(self).pending_requests@ == old(self).pending_requests@.push(
                Request::Readlink(
                    Readlink { request: RequestGuard { raw: request }, inode },
                ),
            ),
    {
        self.pending_requests.push_back(
            Request::Readlink(
                Readlink { request: RequestGuard::from_raw(request), inode },
            ),
        );
    }

    /// libfuse called back for `setattr`.
    pub fn setattr(
        &mut self,
        request: sys::Request,
        inode: u64,
        stat: &Stat,
        to_set: i32,
        file_info: Option<FuseFileInfo>,
    )
        ensures
            final(self).fbuf == old(self).fbuf,
            final(self).pending_requests@ == old(self).pending_requests@.push(
                Request::Setattr(
                    Setattr {
                        request: RequestGuard { raw: request },
                        inode,
                        to_set,
                        stat: *stat,
                        fh: match file_info {
                            Some(file_info) => Some(file_info.fh),
                            None => None,
                        },
                    },
                ),
            ),
    {
        let fh = match file_info {
            Some(file_info) => Some(file_info.fh),
            None => None,
        };
        self.pending_requests.push_back(
            Request::Setattr(
                Setattr {
                    request: RequestGuard::from_raw(request),
                    inode,
                    to_set,
                    stat: *stat,
                    fh,
                },
            ),
        );
    }

    /// libfuse called back for `unlink`.
    pub fn unlink(&mut self, request: sys::Request, parent: u64, file_name: Vec<u8>)
        ensures
            final(self).fbuf == old(self).fbuf,
            final(self).pending_requests@ == old(self).pending_requests@.push(
                Request::Unlink(
                    Unlink { request: RequestGuard { raw: request }, parent, file_name },
                ),
            ),
    {
        self.pending_requests.push_back(
            Request::Unlink(
                Unlink { request: RequestGuard::from_raw(request), parent, file_name },
            ),
        );
    }

    /// libfuse called back for `rmdir`.
    pub fn rmdir(&mut self, request: sys::Request, parent: u64, dir_name: Vec<u8>)
        ensures
            final(self).fbuf == old(self).fbuf,
            final(self).pending_requests@ == old(self).pending_requests@.push(
                Request::Rmdir(
                    Rmdir { request: RequestGuard { raw: request }, parent, dir_name },
                ),
            ),
    {
        self.pending_requests.push_back(
            Request::Rmdir(
                Rmdir { request: RequestGuard::from_raw(request), parent, dir_name },
            ),
        );
    }

    /// libfuse called back for `write`, with `size` bytes of data that start at `data` in the
    /// buffer that was received last.
    pub fn write(
        &mut self,
        request: sys::Request,
        inode: u64,
        data: usize,
        size: usize,
        offset: i64,
        file_info: &FuseFileInfo,
    )
        ensures
            final(self).fbuf == old(self).fbuf,
            final(self).pending_requests@ == old(self).pending_requests@.push(
                Request::Write(
                    Write {
                        request: RequestGuard { raw: request },
                        fh: file_info.fh,
                        inode,
                        data,
                        size,
                        offset: (offset as int % two64()) as u64,
                        buffer: old(self).fbuf,
                    },
                ),
            ),
    {
        proof {
            lemma_i64_as_u64(offset);
        }
        self.pending_requests.push_back(
            Request::Write(
                Write {
                    request: RequestGuard::from_raw(request),
                    fh: file_info.fh,
                    inode,
                    data,
                    size,
                    offset: #[verifier::truncate] (offset as u64),
                    buffer: Arc::clone(&self.fbuf),
                },
            ),
        );
    }

    /// libfuse called back for `listxattr`. Without room for a reply, only its size is asked for.
    pub fn listxattr(&mut self, request: sys::Request, inode: u64, size: usize)
        ensures
            final(self).fbuf == old(self).fbuf,
            final(self).pending_requests@.len() == old(self).pending_requests@.len() + 1,
            final(self).pending_requests@.drop_last() == old(self).pending_requests@,
            if size == 0 {
                final(self).pending_requests@.last() == Request::ListXAttrSize(
                    ListXAttrSize { request: RequestGuard { raw: request }, inode },
                )
            } else {
                &&& final(self).pending_requests@.last() matches Request::ListXAttr(wanted)
                &&& wanted.request == (RequestGuard { raw: request })
                &&& wanted.inode == inode
                &&& wanted.size == size
                &&& wanted@ == Seq::<u8>::empty()
            },
    {
        let request = RequestGuard::from_raw(request);
        self.pending_requests.push_back(
            if size == 0 {
                Request::ListXAttrSize(ListXAttrSize { request, inode })
            } else {
                Request::ListXAttr(ListXAttr::new(request, inode, size))
            },
        );
        proof {
            assert(self.pending_requests@.drop_last() == old(self).pending_requests@);
        }
    }

    /// libfuse called back for `getxattr`. Without room for a reply, only its size is asked for.
    pub fn getxattr(&mut self, request: sys::Request, inode: u64, attr_name: Vec<u8>, size: usize)
        ensures
            final(self).fbuf == old(self).fbuf,
            final(self).pending_requests@.len() == old(self).pending_requests@.len() + 1,
            final(self).pending_requests@.drop_last() == old(self).pending_requests@,
            if size == 0 {
                final(self).pending_requests@.last() == Request::GetXAttrSize(
                    GetXAttrSize { request: RequestGuard { raw: request }, inode, attr_name },
                )
            } else {
                &&& final(self).pending_requests@.last() matches Request::GetXAttr(wanted)
                &&& wanted.request == (RequestGuard { raw: request })
                &&& wanted.inode == inode
                &&& wanted.size == size
                &&& wanted.attr_name == attr_name
            },
    {
        let request = RequestGuard::from_raw(request);
        self.pending_requests.push_back(
            if size == 0 {
                Request::GetXAttrSize(GetXAttrSize { request, inode, attr_name })
            } else {
                Request::GetXAttr(GetXAttr { request, inode, attr_name, size })
            },
        );
        proof {
            assert(self.pending_requests@.drop_last() == old(self).pending_requests@);
        }
    }
}

/// A session that is being set up.
#[derive(Debug)]
pub struct FuseSessionBuilder {
    pub args: Vec<CString>,
    pub has_debug: bool,
    pub operations: Operations,
}

/// The command line option `-o`.
pub open spec fn spec_option_flag() -> Seq<u8> {
    seq![0x2du8, 0x6fu8]
}

/// The command line option `--debug`.
pub open spec fn spec_debug_flag() -> Seq<u8> {
    seq![0x2du8, 0x2du8, 0x64u8, 0x65u8, 0x62u8, 0x75u8, 0x67u8]
}

/// The command line option `-o`.
fn option_flag() -> (res: CString)
    ensures
        res@ == spec_option_flag(),
{
    let bytes: Vec<u8> = vec![0x2d, 0x6f];
    assert(bytes@ == spec_option_flag());
    CString::from_nonzero(bytes)
}

/// The command line option `--debug`.
fn debug_flag() -> (res: CString)
    ensures
        res@ == spec_debug_flag(),
{
    let bytes: Vec<u8> = vec![0x2d, 0x2d, 0x64, 0x65, 0x62, 0x75, 0x67];
    assert(bytes@ == spec_debug_flag());
    CString::from_nonzero(bytes)
}

/// The bytes of text.
pub open spec fn text_bytes(text: Seq<char>) -> Seq<u8> {
    vstd::utf8::encode_utf8(text)
}

/// The bytes of each of the arguments.
pub open spec fn args_view(args: Seq<CString>) -> Seq<Seq<u8>> {
    args.map_values(|arg: CString| arg@)
}

impl FuseSessionBuilder {
    /// The bytes of each of the arguments.
    pub open spec fn spec_args(self) -> Seq<Seq<u8>> {
        args_view(self.args@)
    }

    /// Mount with an option. One with a zero byte is refused.
    pub fn options(self, option: &str) -> (res: Result<FuseSessionBuilder, Error>)
        ensures
            match res {
                Ok(builder) => {
                    &&& !text_bytes(option@).contains(0u8)
                    &&& builder.spec_args() == self.spec_args().push(spec_option_flag()).push(
                        text_bytes(option@),
                    )
                    &&& builder.has_debug == self.has_debug
                    &&& builder.operations == self.operations
                },
                Err(error) => {
                    &&& error matches Error::BadOption(err)
                    &&& is_first_nul(text_bytes(option@), err.position as int)
                },
            },
    {
        self.options_os(option.as_bytes())
    }

    /// Mount with an option that need not be text. One with a zero byte is refused.
    pub fn options_os(self, option: &[u8]) -> (res: Result<FuseSessionBuilder, Error>)
        ensures
            match res {
                Ok(builder) => {
                    &&& !option@.contains(0u8)
                    &&& builder.spec_args() == self.spec_args().push(spec_option_flag()).push(
                        option@,
                    )
                    &&& builder.has_debug == self.has_debug
                    &&& builder.operations == self.operations
                },
                Err(error) => {
                    &&& error matches Error::BadOption(err)
                    &&& is_first_nul(option@, err.position as int)
                },
            },
    {
        match CString::new(slice_to_vec(option)) {
            Ok(option) => Ok(self.options_c(option)),
            Err(err) => Err(Error::BadOption(err)),
        }
    }

    /// Mount with an option.
    pub fn options_c(self, option: CString) -> (res: FuseSessionBuilder)
        ensures
            res.spec_args() == self.spec_args().push(spec_option_flag()).push(option@),
            res.has_debug == self.has_debug,
            res.operations == self.operations,
    {
        let mut args = self.args;
        args.reserve(2);
        args.push(option_flag());
        args.push(option);
        proof {
            assert(args_view(args@) == self.spec_args().push(spec_option_flag()).push(option@));
        }
        FuseSessionBuilder { args, has_debug: self.has_debug, operations: self.operations }
    }

    /// Have libfuse print what it does.
    pub fn debug(self) -> (res: FuseSessionBuilder)
        ensures
            res.spec_args() == (if self.has_debug {
                self.spec_args()
            } else {
                self.spec_args().push(spec_debug_flag())
            }),
            res.has_debug == self.has_debug,
            res.operations == self.operations,
    {
        let mut args = self.args;
        if !self.has_debug {
            args.push(debug_flag());
            proof {
                assert(args_view(args@) == self.spec_args().push(spec_debug_flag()));
            }
        }
        FuseSessionBuilder { args, has_debug: self.has_debug, operations: self.operations }
    }

    /// Create the session: gives what `fuse_session_new` gets. What it returned goes into
    /// `NewSession::created`.
    pub fn build(self) -> (res: NewSession)
        ensures
            res.args.argv == self.args,
            res.args.argc == wrap_i32(self.args@.len() as int),
            res.args.allocated == 0,
            res.operations == self.operations,
            res.fuse_data.pending_requests@ == Seq::<Request>::empty(),
            res.fuse_data.fbuf.mem@ == Seq::<u8>::empty(),
    {
        NewSession {
            args: FuseArgs::from(self.args),
            operations: self.operations,
            fuse_data: FuseData::new(),
        }
    }

    /// Enable `Readdir` requests.
    pub fn enable_readdir(self) -> (res: FuseSessionBuilder)
        ensures
            res == (FuseSessionBuilder {
                operations: Operations { readdir: true, ..self.operations },
                ..self
            }),
    {
        let mut operations = self.operations;
        operations.readdir = true;
        FuseSessionBuilder { operations, ..self }
    }

    /// Enables all of `ReaddirPlus`, `Lookup` and `Forget` requests.
    ///
    /// The `Lookup` and `Forget` requests are required for reference counting implied by
    /// `ReaddirPlus`. The kernel should send `Forget` requests for references created via
    /// `ReaddirPlus`. Not handling them wouldn't make much sense.
    pub fn enable_readdirplus(self) -> (res: FuseSessionBuilder)
        ensures
            res == (FuseSessionBuilder {
                operations: Operations {
                    readdirplus: true,
                    lookup: true,
                    forget: true,
                    ..self.operations
                },
                ..self
            }),
    {
        let mut operations = self.operations;
        operations.readdirplus = true;
        operations.lookup = true;
        operations.forget = true;
        FuseSessionBuilder { operations, ..self }
    }

    /// Enable `Mkdir` requests.
    ///
    /// Note that the lookup count of newly created directory should be 1.
    pub fn enable_mkdir(self) -> (res: FuseSessionBuilder)
        ensures
            res == (FuseSessionBuilder {
                operations: Operations { mkdir: true, ..self.operations },
                ..self
            }),
    {
        let mut operations = self.operations;
        operations.mkdir = true;
        FuseSessionBuilder { operations, ..self }
    }

    /// Enable `Create`, `Open` and `Release` requests.
    ///
    /// Create and open a file.
    pub fn enable_create(self) -> (res: FuseSessionBuilder)
        ensures
            res == (FuseSessionBuilder {
                operations: Operations {
                    create: true,
                    open: true,
                    release: true,
                    ..self.operations
                },
                ..self
            }),
    {
        let mut operations = self.operations;
        operations.create = true;
        FuseSessionBuilder { operations, ..self }.enable_open()
    }

    /// Enable `Mknod`.
    ///
    /// This may be used by the kernel instead of `Create`.
    pub fn enable_mknod(self) -> (res: FuseSessionBuilder)
        ensures
            res == (FuseSessionBuilder {
                operations: Operations { mknod: true, ..self.operations },
                ..self
            }),
    {
        let mut operations = self.operations;
        operations.mknod = true;
        FuseSessionBuilder { operations, ..self }
    }

    /// Enable `Open` and `Release` requests.
    ///
    /// Open a file.
    pub fn enable_open(self) -> (res: FuseSessionBuilder)
        ensures
            res == (FuseSessionBuilder {
                operations: Operations { open: true, release: true, ..self.operations },
                ..self
            }),
    {
        let mut operations = self.operations;
        operations.open = true;
        operations.release = true;
        FuseSessionBuilder { operations, ..self }
    }

    /// Enable `Setattr` requests.
    pub fn enable_setattr(self) -> (res: FuseSessionBuilder)
        ensures
            res == (FuseSessionBuilder {
                operations: Operations { setattr: true, ..self.operations },
                ..self
            }),
    {
        let mut operations = self.operations;
        operations.setattr = true;
        FuseSessionBuilder { operations, ..self }
    }

    /// Enable `Unlink` requests.
    pub fn enable_unlink(self) -> (res: FuseSessionBuilder)
        ensures
            res == (FuseSessionBuilder {
                operations: Operations { unlink: true, ..self.operations },
                ..self
            }),
    {
        let mut operations = self.operations;
        operations.unlink = true;
        FuseSessionBuilder { operations, ..self }
    }

    /// Enable `Rmdir` requests.
    pub fn enable_rmdir(self) -> (res: FuseSessionBuilder)
        ensures
            res == (FuseSessionBuilder {
                operations: Operations { rmdir: true, ..self.operations },
                ..self
            }),
    {
        let mut operations = self.operations;
        operations.rmdir = true;
        FuseSessionBuilder { operations, ..self }
    }

    /// Enable `Read` requests.
    pub fn enable_read(self) -> (res: FuseSessionBuilder)
        ensures
            res == (FuseSessionBuilder {
                operations: Operations { read: true, ..self.operations },
                ..self
            }),
    {
        let mut operations = self.operations;
        operations.read = true;
        FuseSessionBuilder { operations, ..self }
    }

    /// Enable `Write` requests.
    pub fn enable_write(self) -> (res: FuseSessionBuilder)
        ensures
            res == (FuseSessionBuilder {
                operations: Operations { write: true, ..self.operations },
                ..self
            }),
    {
        let mut operations = self.operations;
        operations.write = true;
        FuseSessionBuilder { operations, ..self }
    }

    /// Enable `Readlink` requests.
    pub fn enable_readlink(self) -> (res: FuseSessionBuilder)
        ensures
            res == (FuseSessionBuilder {
                operations: Operations { readlink: true, ..self.operations },
                ..self
            }),
    {
        let mut operations = self.operations;
        operations.readlink = true;
        FuseSessionBuilder { operations, ..self }
    }

    /// Enable requests to list extended attributes:
    ///
    /// * `ListXAttrSize`
    /// * `ListXAttr`
    /// * `GetXAttrSize`
    /// * `GetXAttr`
    pub fn enable_read_xattr(self) -> (res: FuseSessionBuilder)
        ensures
            res == (FuseSessionBuilder {
                operations: Operations { listxattr: true, getxattr: true, ..self.operations },
                ..self
            }),
    {
        let mut operations = self.operations;
        operations.listxattr = true;
        operations.getxattr = true;
        FuseSessionBuilder { operations, ..self }
    }
}

/// A session that libfuse is to create.
#[derive(Debug)]
pub struct NewSession {
    /// The command line.
    pub args: FuseArgs,

    /// Which callbacks there are.
    pub operations: Operations,

    /// What the callbacks work on.
    pub fuse_data: FuseData,
}

impl NewSession {
    /// `fuse_session_new` returned the address `session`, or zero for a failure.
    pub fn created(self, session: usize) -> (res: Result<FuseSession, Error>)
        ensures
            res == (if session == 0 {
                Err::<FuseSession, Error>(Error::NoSession)
            } else {
                Ok(FuseSession { session, fuse_data: self.fuse_data, mounted: false })
            }),
    {
        if session == 0 {
            return Err(Error::NoSession);
        }
        Ok(FuseSession { session, fuse_data: self.fuse_data, mounted: false })
    }
}

/// A call that ends something of a session.
#[derive(Clone, Copy, Debug, PartialEq, Eq, Structural)]
pub enum SessionCall {
    /// `fuse_session_unmount`.
    Unmount(usize),

    /// `fuse_session_destroy`.
    Destroy(usize),
}

/// What is to be done when a session or a mounted file system is dropped: send the replies, and
/// then make the calls.
#[derive(Debug)]
pub struct Dropped {
    /// What is sent for the requests that were not yielded. Results are ignored.
    pub replies: Vec<Reply>,

    /// The calls that end the session.
    pub calls: Vec<SessionCall>,
}

/// A session that is not handed over to a `Fuse` yet.
#[derive(Debug)]
pub struct FuseSession {
    /// The session's address, or zero for none.
    pub session: usize,

    /// What the callbacks work on.
    pub fuse_data: FuseData,

    /// Whether the session was mounted.
    pub mounted: bool,
}

/// What is to be called when a session is dropped: it is unmounted if it was mounted, and
/// destroyed if there is one.
pub open spec fn session_cleanup(session: usize, mounted: bool) -> Seq<SessionCall> {
    (if mounted {
        seq![SessionCall::Unmount(session)]
    } else {
        seq![]
    }) + (if session != 0 {
        seq![SessionCall::Destroy(session)]
    } else {
        seq![]
    })
}

impl FuseSession {
    /// What is to be done when the session is dropped.
    pub fn on_drop(self) -> (res: Dropped)
        ensures
            res.calls@ == session_cleanup(self.session, self.mounted),
            replies_view(res.replies@) == drop_views(self.fuse_data.pending_requests@),
    {
        let mut fuse_data = self.fuse_data;
        let replies = fuse_data.drop_replies();
        let mut calls = Vec::new();
        if self.mounted {
            calls.push(SessionCall::Unmount(self.session));
        }
        if self.session != 0 {
            calls.push(SessionCall::Destroy(self.session));
        }
        proof {
            assert(calls@ == session_cleanup(self.session, self.mounted));
        }
        Dropped { replies, calls }
    }

    /// Mount the session at a path of which the bytes are given, or the error of making it
    /// canonical. Gives what `fuse_session_mount` gets; what it returned goes into
    /// `Mounting::mounted`.
    pub fn mount(self, mountpoint: Result<Vec<u8>, IoError>) -> (res: Result<
        Mounting,
        MountFailure,
    >)
        ensures
            match (mountpoint, res) {
                (Err(err), res) => res == Err::<Mounting, MountFailure>(
                    MountFailure { error: Error::Io(err), session: self },
                ),
                (Ok(path), Ok(mounting)) => {
                    &&& !path@.contains(0u8)
                    &&& mounting.session == self
                    &&& mounting.mountpoint@ == path@
                },
                (Ok(path), Err(failure)) => {
                    &&& failure.session == self
                    &&& failure.error matches Error::BadMountPoint(err)
                    &&& is_first_nul(path@, err.position as int)
                },
            },
    {
        let path = match mountpoint {
            Ok(path) => path,
            Err(err) => {
                return Err(MountFailure { error: Error::Io(err), session: self });
            },
        };
        match CString::new(path) {
            Ok(mountpoint) => Ok(Mounting { session: self, mountpoint }),
            Err(err) => Err(MountFailure { error: Error::BadMountPoint(err), session: self }),
        }
    }
}

/// A session could not be mounted. It is dropped then.
#[derive(Debug)]
pub struct MountFailure {
    /// What was wrong.
    pub error: Error,

    /// The session as it was left.
    pub session: FuseSession,
}

/// `fuse_session_mount` is to be called.
#[derive(Debug)]
pub struct Mounting {
    pub session: FuseSession,
    pub mountpoint: CString,
}

impl Mounting {
    /// `fuse_session_mount` returned `rc`, zero for success. Gives the session of which
    /// `fuse_session_fd` is to tell the file descriptor, which goes into
    /// `Mounted::with_fd`.
    pub fn mounted(self, rc: i32) -> (res: Result<Mounted, MountFailure>)
        ensures
            res == (if rc != 0 {
                Err::<Mounted, MountFailure>(
                    MountFailure { error: Error::MountFailed, session: self.session },
                )
            } else {
                Ok(Mounted { session: FuseSession { mounted: true, ..self.session } })
            }),
    {
        if rc != 0 {
            return Err(MountFailure { error: Error::MountFailed, session: self.session });
        }
        Ok(Mounted { session: FuseSession { mounted: true, ..self.session } })
    }
}

/// `fuse_session_fd` is to be called.
#[derive(Debug)]
pub struct Mounted {
    pub session: FuseSession,
}

impl Mounted {
    /// `fuse_session_fd` returned `fd`. Gives the file descriptor that is to be polled; whether
    /// that could be set up goes into `Attaching::attached`.
    pub fn with_fd(self, fd: i32) -> (res: Result<Attaching, MountFailure>)
        ensures
            res == (if fd < 0 {
                Err::<Attaching, MountFailure>(
                    MountFailure { error: Error::NoFileDescriptor, session: self.session },
                )
            } else {
                Ok(Attaching { session: self.session, fd })
            }),
    {
        if fd < 0 {
            return Err(MountFailure { error: Error::NoFileDescriptor, session: self.session });
        }
        Ok(Attaching { session: self.session, fd })
    }
}

/// Polling of the file descriptor is to be set up.
#[derive(Debug)]
pub struct Attaching {
    pub session: FuseSession,
    pub fd: i32,
}

impl Attaching {
    /// Polling was set up, or could not be.
    pub fn attached(self, result: Result<(), IoError>) -> (res: Result<Fuse, MountFailure>)
        ensures
            res == (match result {
                Ok(()) => Ok::<Fuse, MountFailure>(
                    Fuse { session: self.session.session, fuse_data: self.session.fuse_data },
                ),
                Err(err) => Err(MountFailure { error: Error::Io(err), session: self.session }),
            }),
    {
        match result {
            Ok(()) => Ok(
                Fuse { session: self.session.session, fuse_data: self.session.fuse_data },
            ),
            Err(err) => Err(MountFailure { error: Error::Io(err), session: self.session }),
        }
    }
}

/// A mounted fuse file system.
#[derive(Debug)]
pub struct Fuse {
    /// The session's address.
    pub session: usize,

    /// What the callbacks work on.
    pub fuse_data: FuseData,
}

/// What happens to a stream of requests.
#[derive(Debug)]
pub enum StreamEvent {
    /// The next request is wanted.
    Polled,

    /// The file descriptor is not ready; the task will be woken when it is.
    NotReady,

    /// The file descriptor may have something to read.
    Ready,

    /// Waiting for the file descriptor failed.
    WaitFailed(IoError),

    /// `fuse_session_receive_buf` returned `rc`: a negated error number, or how many bytes `data`
    /// holds.
    Received { rc: i32, data: Vec<u8> },

    /// The file descriptor was marked as not ready.
    Cleared,

    /// The file descriptor could not be marked as not ready.
    ClearFailed(IoError),

    /// `fuse_session_process_buf` has made its callbacks.
    Processed,
}

/// What a stream of requests does next.
#[derive(Debug)]
pub enum StreamAction {
    /// Yield a request.
    Yield(Request),

    /// Yield nothing until the task is woken.
    Pending,

    /// Yield an error.
    Fail(IoError),

    /// Ask whether the file descriptor is ready.
    WaitReadable,

    /// Call `fuse_session_receive_buf`.
    Receive,

    /// Mark the file descriptor as not ready.
    ClearReady,

    /// Call `fuse_session_process_buf`.
    Process,
}

/// What is to be called when a mounted file system is dropped.
pub open spec fn fuse_cleanup(session: usize) -> Seq<SessionCall> {
    seq![SessionCall::Unmount(session), SessionCall::Destroy(session)]
}

impl Fuse {
    /// A session for the file system `name`. A name with a zero byte is refused.
    pub fn builder(name: &str) -> (res: Result<FuseSessionBuilder, Error>)
        ensures
            match res {
                Ok(builder) => {
                    &&& !text_bytes(name@).contains(0u8)
                    &&& builder.spec_args() == seq![text_bytes(name@)]
                    &&& !builder.has_debug
                    &&& builder.operations == spec_default_operations()
                },
                Err(error) => {
                    &&& error matches Error::BadName(err)
                    &&& is_first_nul(text_bytes(name@), err.position as int)
                },
            },
    {
        match CString::new(slice_to_vec(name.as_bytes())) {
            Ok(name_arg) => {
                let mut args = Vec::new();
                args.push(name_arg);
                proof {
                    assert(args_view(args@) == seq![text_bytes(name@)]);
                }
                Ok(FuseSessionBuilder { args, has_debug: false, operations: default_operations() })
            },
            Err(err) => Err(Error::BadName(err)),
        }
    }

    /// Drop the requests that were not yielded. What is sent for them, in this order, has no one
    /// who waits for the result.
    pub fn drop_replies(&mut self) -> (res: Vec<Reply>)
        ensures
            replies_view(res@) == drop_views(old(self).fuse_data.pending_requests@),
            final(self).fuse_data.pending_requests@ == Seq::<Request>::empty(),
            final(self).fuse_data.fbuf == old(self).fuse_data.fbuf,
            final(self).session == old(self).session,
    {
        self.fuse_data.drop_replies()
    }

    /// What is to be done when the file system is dropped.
    pub fn on_drop(self) -> (res: Dropped)
        ensures
            res.calls@ == fuse_cleanup(self.session),
            replies_view(res.replies@) == drop_views(self.fuse_data.pending_requests@),
    {
        let mut fuse = self;
        let replies = fuse.drop_replies();
        let mut calls = Vec::new();
        calls.push(SessionCall::Unmount(fuse.session));
        calls.push(SessionCall::Destroy(fuse.session));
        proof {
            assert(calls@ == fuse_cleanup(self.session));
        }
        Dropped { replies, calls }
    }

    /// One step of the stream of requests.
    ///
    /// A queued request is yielded before anything more is received. Otherwise the stream waits
    /// for the file descriptor, receives a buffer, and has it processed, which queues requests. A
    /// buffer that is not there yet (`EAGAIN`) clears the readiness and waits again.
    pub fn poll_next(&mut self, event: StreamEvent) -> (res: StreamAction)
        requires
            event matches StreamEvent::Received { rc, .. } ==> rc != i32::MIN,
        ensures
            final(self).session == old(self).session,
            match event {
                StreamEvent::Polled | StreamEvent::Cleared | StreamEvent::Processed => {
                    &&& final(self).fuse_data.fbuf == old(self).fuse_data.fbuf
                    &&& if old(self).fuse_data.pending_requests@.len() == 0 {
                        &&& res == StreamAction::WaitReadable
                        &&& final(self).fuse_data.pending_requests@
                            == old(self).fuse_data.pending_requests@
                    } else {
                        &&& res == StreamAction::Yield(
                            old(self).fuse_data.pending_requests@[0],
                        )
                        &&& final(self).fuse_data.pending_requests@
                            == old(self).fuse_data.pending_requests@.drop_first()
                    }
                },
                StreamEvent::NotReady => {
                    res == StreamAction::Pending && *final(self) == *old(self)
                },
                StreamEvent::Ready => {
                    res == StreamAction::Receive && *final(self) == *old(self)
                },
                StreamEvent::WaitFailed(err) | StreamEvent::ClearFailed(err) => {
                    res == StreamAction::Fail(err) && *final(self) == *old(self)
                },
                StreamEvent::Received { rc, data } => if rc == -EAGAIN {
                    res == StreamAction::ClearReady && *final(self) == *old(self)
                } else if rc < 0 {
                    &&& res == StreamAction::Fail(IoError::Os((-rc) as i32))
                    &&& *final(self) == *old(self)
                } else {
                    &&& res == StreamAction::Process
                    &&& *final(self).fuse_data.fbuf == (FuseBuf { mem: data })
                    &&& final(self).fuse_data.pending_requests
                        == old(self).fuse_data.pending_requests
                },
            },
    {
        match event {
            StreamEvent::Polled | StreamEvent::Cleared | StreamEvent::Processed => {
                match self.fuse_data.pending_requests.pop_front() {
                    Some(request) => {
                        proof {
                            assert(self.fuse_data.pending_requests@
                                == old(self).fuse_data.pending_requests@.drop_first());
                        }
                        StreamAction::Yield(request)
                    },
                    None => StreamAction::WaitReadable,
                }
            },
            StreamEvent::NotReady => StreamAction::Pending,
            StreamEvent::Ready => StreamAction::Receive,
            StreamEvent::WaitFailed(err) => StreamAction::Fail(err),
            StreamEvent::ClearFailed(err) => StreamAction::Fail(err),
            StreamEvent::Received { rc, data } => {
                if rc == -EAGAIN {
                    StreamAction::ClearReady
                } else if rc < 0 {
                    StreamAction::Fail(IoError::Os(-rc))
                } else {
                    self.fuse_data.received(data);
                    StreamAction::Process
                }
            },
        }
    }
}

/// A session that is dropped is destroyed once, and unmounted before that if and only if it was
/// mounted. Nothing is left to do for one that became a `Fuse`, whose drop does the same as that
/// of a mounted session.
pub proof fn law_cleanup(session: usize)
    requires
        session != 0,
    ensures
        session_cleanup(session, false) == seq![SessionCall::Destroy(session)],
        session_cleanup(session, true) == seq![
            SessionCall::Unmount(session),
            SessionCall::Destroy(session),
        ],
        fuse_cleanup(session) == session_cleanup(session, true),
{
    assert(session_cleanup(session, false) =~= seq![SessionCall::Destroy(session)]);
    assert(session_cleanup(session, true) =~= seq![
        SessionCall::Unmount(session),
        SessionCall::Destroy(session),
    ]);
}

/// When a file system is dropped, each request that was not yielded gets the answer of one that is
/// dropped, in the order in which they were queued: none of them is left out.
pub proof fn law_queued_requests_are_answered(queue: Seq<Request>)
    requires
        forall|i: int| 0 <= i < queue.len() ==> !(#[trigger] queue[i]).handle().spec_is_null(),
    ensures
        drop_views(queue).len() == queue.len(),
        forall|i: int|
            0 <= i < queue.len() ==> Some(#[trigger] drop_views(queue)[i]) == queue[i].drop_view(),
    decreases queue.len(),
{
    if queue.len() > 0 {
        let rest = queue.drop_first();
        assert forall|i: int| 0 <= i < rest.len() implies !(
        #[trigger] rest[i]).handle().spec_is_null() by {
            assert(rest[i] == queue[i + 1]);
        }
        law_queued_requests_are_answered(rest);
        assert(!queue[0].handle().spec_is_null());
        let first = queue[0].drop_view()->0;
        assert(drop_views(queue) == seq![first] + drop_views(rest));
        assert forall|i: int| 0 <= i < queue.len() implies Some(
            #[trigger] drop_views(queue)[i],
        ) == queue[i].drop_view() by {
            if i > 0 {
                assert(drop_views(queue)[i] == drop_views(rest)[i - 1]);
                assert(rest[i - 1] == queue[i]);
            }
        }
    }
}

/// What is left of a queue after `count` requests were yielded: each poll takes the first.
pub open spec fn after_polls(queue: Seq<Request>, count: nat) -> Seq<Request>
    decreases count,
{
    if count == 0 {
        queue
    } else {
        after_polls(queue, (count - 1) as nat).drop_first()
    }
}

/// Requests come out of a session in the order in which libfuse called back for them, each of them
/// once: the one that was queued at place `count` is first after `count` polls. A request that is
/// queued in between does not change that.
pub proof fn law_requests_come_in_order(queue: Seq<Request>, count: nat, request: Request)
    requires
        count <= queue.len(),
    ensures
        after_polls(queue, count) == queue.skip(count as int),
        count < queue.len() ==> after_polls(queue, count)[0] == queue[count as int],
        after_polls(queue.push(request), count) == after_polls(queue, count).push(request),
        after_polls(queue.push(request), queue.len())[0] == request,
{
    lemma_after_polls(queue, count);
    lemma_after_polls(queue.push(request), count);
    lemma_after_polls(queue.push(request), queue.len());
    assert(queue.push(request).skip(count as int) == queue.skip(count as int).push(request));
}

/// Polls take requests from the front.
proof fn lemma_after_polls(queue: Seq<Request>, count: nat)
    requires
        count <= queue.len(),
    ensures
        after_polls(queue, count) == queue.skip(count as int),
    decreases count,
{
    if count > 0 {
        lemma_after_polls(queue, (count - 1) as nat);
        assert(queue.skip(count - 1).drop_first() == queue.skip(count as int));
    } else {
        assert(queue.skip(0) == queue);
    }
}

/// The operations that are on by default stay on, whatever is enabled: each of the
/// `FuseSessionBuilder` methods only adds callbacks.
pub proof fn law_enabling_only_adds(operations: Operations)
    ensures
        spec_default_operations().getattr,
        operations.within(Operations { readdir: true, ..operations }),
        operations.within(
            Operations { readdirplus: true, lookup: true, forget: true, ..operations },
        ),
        operations.within(Operations { mkdir: true, ..operations }),
        operations.within(Operations { create: true, open: true, release: true, ..operations }),
        operations.within(Operations { mknod: true, ..operations }),
        operations.within(Operations { open: true, release: true, ..operations }),
        operations.within(Operations { setattr: true, ..operations }),
        operations.within(Operations { unlink: true, ..operations }),
        operations.within(Operations { rmdir: true, ..operations }),
        operations.within(Operations { read: true, ..operations }),
        operations.within(Operations { write: true, ..operations }),
        operations.within(Operations { readlink: true, ..operations }),
        operations.within(Operations { listxattr: true, getxattr: true, ..operations }),
{
}

/// What is on before several of the `FuseSessionBuilder` methods is on after all of them: lying
/// within a table is transitive.
pub proof fn law_within_is_transitive(a: Operations, b: Operations, c: Operations)
    requires
        a.within(b),
        b.within(c),
    ensures
        a.within(c),
{
}

/// By default there is a callback for `getattr`, and for nothing else.
pub proof fn law_only_getattr_by_default(operations: Operations)
    requires
        operations.within(spec_default_operations()),
    ensures
        spec_default_operations().getattr,
        operations == (Operations { getattr: operations.getattr, ..Operations::spec_none() }),
{
}

/// What is said of arguments is said of each of them, in order.
pub proof fn law_arguments_are_seen_as_they_are(args: Seq<CString>)
    ensures
        args_view(args).len() == args.len(),
        forall|i: int| 0 <= i < args.len() ==> #[trigger] args_view(args)[i] == args[i]@,
{
}

/// What is said of replies is said of each of them, in order.
pub proof fn law_replies_are_seen_in_order(replies: Seq<Reply>)
    ensures
        replies_view(replies).len() == replies.len(),
        forall|i: int|
            0 <= i < replies.len() ==> #[trigger] replies_view(replies)[i] == replies[i]@,
{
}

/// The command line options are what their text says.
pub proof fn law_text_of_options()
    ensures
        spec_option_flag().len() == "-o"@.len(),
        forall|i: int|
            0 <= i < spec_option_flag().len() ==> #[trigger] spec_option_flag()[i]
                == "-o"@[i] as u8,
        spec_debug_flag().len() == "--debug"@.len(),
        forall|i: int|
            0 <= i < spec_debug_flag().len() ==> #[trigger] spec_debug_flag()[i]
                == "--debug"@[i] as u8,
{
    reveal_strlit("-o");
    reveal_strlit("--debug");
}

} // verus!
