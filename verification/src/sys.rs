//! The values that are exchanged with libfuse.

use vstd::prelude::*;

use crate::reply::{buffer_reply, Reply, ReplyCall};
use crate::util::{lemma_isize_as_i32, lemma_usize_as_i32, wrap_i32, CString, Stat, Timeout};

pub mod setattr;

verus! {

/// Node ID of the root i-node. This is fixed according to the FUSE API.
pub const ROOT_ID: u64 = 1;

/// A handle by which libfuse knows a request: the address of its record, or zero for none.
#[derive(Clone, Copy, Debug, PartialEq, Eq, Structural)]
pub struct Request {
    pub raw: usize,
}

impl Request {
    /// The handle of no request.
    pub fn null() -> (res: Request)
        ensures
            res == (Request { raw: 0 }),
            res.spec_is_null(),
    {
        Request { raw: 0 }
    }

    /// Whether this is the handle of no request.
    pub open spec fn spec_is_null(self) -> bool {
        self.raw == 0
    }

    /// Whether this is the handle of no request.
    pub fn is_null(&self) -> (res: bool)
        ensures
            res == self.spec_is_null(),
    {
        self.raw == 0
    }
}

/// Command line arguments passed to fuse.
#[derive(Debug)]
pub struct FuseArgs {
    /// How many arguments there are.
    pub argc: i32,

    /// The arguments.
    pub argv: Vec<CString>,

    /// Whether libfuse allocated `argv`; zero for no.
    pub allocated: i32,
}

impl From<Vec<CString>> for FuseArgs {
    fn from(args: Vec<CString>) -> (res: FuseArgs) {
        proof {
            lemma_usize_as_i32(args.len());
        }
        FuseArgs { argc: #[verifier::truncate] (args.len() as i32), argv: args, allocated: 0 }
    }
}

impl vstd::std_specs::convert::FromSpecImpl<Vec<CString>> for FuseArgs {
    open spec fn obeys_from_spec() -> bool {
        true
    }

    open spec fn from_spec(args: Vec<CString>) -> FuseArgs {
        FuseArgs { argc: wrap_i32(args.len() as int) as i32, argv: args, allocated: 0 }
    }
}

/// Which operations have a callback in the table that libfuse gets. Operations that never have
/// one are not listed.
#[derive(Clone, Copy, Debug, PartialEq, Eq, Structural)]
pub struct Operations {
    pub lookup: bool,
    pub forget: bool,
    pub getattr: bool,
    pub setattr: bool,
    pub readlink: bool,
    pub mknod: bool,
    pub mkdir: bool,
    pub unlink: bool,
    pub rmdir: bool,
    pub open: bool,
    pub read: bool,
    pub write: bool,
    pub release: bool,
    pub readdir: bool,
    pub getxattr: bool,
    pub listxattr: bool,
    pub create: bool,
    pub readdirplus: bool,
}

impl Operations {
    /// The table without any callback.
    pub open spec fn spec_none() -> Operations {
        Operations {
            lookup: false,
            forget: false,
            getattr: false,
            setattr: false,
            readlink: false,
            mknod: false,
            mkdir: false,
            unlink: false,
            rmdir: false,
            open: false,
            read: false,
            write: false,
            release: false,
            readdir: false,
            getxattr: false,
            listxattr: false,
            create: false,
            readdirplus: false,
        }
    }

    /// The table without any callback.
    pub fn none() -> (res: Operations)
        ensures
            res == Operations::spec_none(),
    {
        Operations {
            lookup: false,
            forget: false,
            getattr: false,
            setattr: false,
            readlink: false,
            mknod: false,
            mkdir: false,
            unlink: false,
            rmdir: false,
            open: false,
            read: false,
            write: false,
            release: false,
            readdir: false,
            getxattr: false,
            listxattr: false,
            create: false,
            readdirplus: false,
        }
    }

    /// Whether every callback of this table is in `other` too.
    pub open spec fn within(self, other: Operations) -> bool {
        &&& self.lookup ==> other.lookup
        &&& self.forget ==> other.forget
        &&& self.getattr ==> other.getattr
        &&& self.setattr ==> other.setattr
        &&& self.readlink ==> other.readlink
        &&& self.mknod ==> other.mknod
        &&& self.mkdir ==> other.mkdir
        &&& self.unlink ==> other.unlink
        &&& self.rmdir ==> other.rmdir
        &&& self.open ==> other.open
        &&& self.read ==> other.read
        &&& self.write ==> other.write
        &&& self.release ==> other.release
        &&& self.readdir ==> other.readdir
        &&& self.getxattr ==> other.getxattr
        &&& self.listxattr ==> other.listxattr
        &&& self.create ==> other.create
        &&& self.readdirplus ==> other.readdirplus
    }
}

/// FUSE entry for the reply to a lookup.
#[derive(Clone, Copy, Debug, PartialEq, Eq, Structural)]
pub struct EntryParam {
    pub inode: u64,
    pub generation: u64,
    pub attr: Stat,
    pub attr_timeout: Timeout,
    pub entry_timeout: Timeout,
}

impl EntryParam {
    /// A simple entry has a maximum attribute/entry timeout value and always a generation of 1.
    /// This is a convenience method for static, unchangeable archives.
    pub fn simple(inode: u64, attr: Stat) -> (res: EntryParam)
        ensures
            res == (EntryParam {
                inode,
                generation: 1,
                attr,
                attr_timeout: Timeout::spec_max(),
                entry_timeout: Timeout::spec_max(),
            }),
    {
        EntryParam {
            inode,
            generation: 1,
            attr,
            attr_timeout: Timeout::max(),
            entry_timeout: Timeout::max(),
        }
    }
}

/// The bytes that were received from the kernel.
#[derive(Debug)]
pub struct FuseBuf {
    pub mem: Vec<u8>,
}

impl FuseBuf {
    /// A buffer without memory.
    pub fn new() -> (res: FuseBuf)
        ensures
            res.mem@ == Seq::<u8>::empty(),
    {
        FuseBuf { mem: Vec::new() }
    }
}

/// This is used to communicate the result of an `Open` request.
#[derive(Clone, Copy, Debug, PartialEq, Eq, Structural)]
pub struct FuseFileInfo {
    /// Open flags. Available in open() and release()
    pub flags: i32,

    /// Various bit fields, in the order of the C compiler.
    pub bits: u64,

    /// File handle.  May be filled in by filesystem in open().
    /// Available in all other file operations
    pub fh: u64,

    /// Lock owner id. Available in locking operations and flush.
    pub lock_owner: u64,

    /// Requested poll events. Available in ->poll. Only set on kernels
    /// which support it.  If unsupported, this field is set to zero.
    pub poll_events: u32,
}

/// State of ReplyBuf after last add_entry call
#[must_use]
#[derive(Clone, Copy, Debug, PartialEq, Eq, Structural)]
pub enum ReplyBufState {
    /// Entry was successfully added to ReplyBuf
    Added,
    /// Entry did not fit into ReplyBuf, was not added
    Full,
}

impl ReplyBufState {
    /// Whether the entry did not fit.
    pub fn is_full(&self) -> (res: bool)
        ensures
            res == (*self == ReplyBufState::Full),
    {
        matches!(self, ReplyBufState::Full)
    }
}

/// What libfuse is told of the file of a directory entry.
#[derive(Clone, Copy, Debug, PartialEq, Eq, Structural)]
pub enum DirentryAttr {
    /// `fuse_add_direntry` gets the file's `stat`.
    Plain(Stat),

    /// `fuse_add_direntry_plus` gets what the reply to a lookup of the file would hold.
    Plus(EntryParam),
}

/// A call that has libfuse write a directory entry into a buffer. It returns the size that the
/// entry needs, and writes the entry if that is not more than `bufsize`.
#[derive(Debug)]
pub struct AddDirentry {
    /// The request that lists the directory.
    pub request: Request,

    /// How many bytes there are for the entry.
    pub bufsize: usize,

    /// The entry's name.
    pub name: CString,

    /// The file's attributes.
    pub attr: DirentryAttr,

    /// From where to list on after this entry.
    pub off: i32,
}

/// Used to correctly fill and reply the buffer for the callbacks that list a directory
#[derive(Debug)]
pub struct ReplyBuf {
    /// The entries so far.
    buffer: Vec<u8>,

    /// How many bytes of entries there may be.
    size: usize,

    /// fuse request the buffer is used to reply to
    request: Request,
}

impl View for ReplyBuf {
    type V = Seq<u8>;

    /// The entries so far.
    closed spec fn view(&self) -> Seq<u8> {
        self.buffer@
    }
}

impl ReplyBuf {
    /// How many bytes of entries there may be.
    pub closed spec fn limit(self) -> nat {
        self.size as nat
    }

    /// The request that the buffer answers.
    pub closed spec fn spec_request(self) -> Request {
        self.request
    }

    #[verifier::type_invariant]
    spec fn inv(self) -> bool {
        self.buffer@.len() <= self.size
    }

    /// Create a new empty `ReplyBuf` of `size`.
    pub fn new(request: Request, size: usize) -> (res: ReplyBuf)
        ensures
            res@ == Seq::<u8>::empty(),
            res.limit() == size,
            res.spec_request() == request,
    {
        ReplyBuf { buffer: Vec::new(), size, request }
    }

    /// How many bytes are left for further entries.
    pub fn room(&self) -> (res: usize)
        ensures
            res == self.limit() - self@.len(),
    {
        proof {
            use_type_invariant(self);
        }
        self.size - self.buffer.len()
    }

    /// The call that has libfuse write an entry of a plain listing.
    pub fn add_readdir(&self, name: &CString, attr: &Stat, next: isize) -> (res: AddDirentry)
        ensures
            res.request == self.spec_request(),
            res.bufsize == self.limit() - self@.len(),
            res.name@ == name@,
            res.attr == DirentryAttr::Plain(*attr),
            res.off == wrap_i32(next as int),
    {
        proof {
            lemma_isize_as_i32(next);
        }
        AddDirentry {
            request: self.request,
            bufsize: self.room(),
            name: name.duplicate(),
            attr: DirentryAttr::Plain(*attr),
            off: #[verifier::truncate] (next as i32),
        }
    }

    /// The call that has libfuse write an entry of a listing with lookups.
    pub fn add_readdir_plus(&self, name: &CString, attr: &EntryParam, next: isize) -> (res:
        AddDirentry)
        ensures
            res.request == self.spec_request(),
            res.bufsize == self.limit() - self@.len(),
            res.name@ == name@,
            res.attr == DirentryAttr::Plus(*attr),
            res.off == wrap_i32(next as int),
    {
        proof {
            lemma_isize_as_i32(next);
        }
        AddDirentry {
            request: self.request,
            bufsize: self.room(),
            name: name.duplicate(),
            attr: DirentryAttr::Plus(*attr),
            off: #[verifier::truncate] (next as i32),
        }
    }

    /// Take in the entry for which libfuse reported a size of `entry_size`. Where that is no
    /// more than the room left, `entry` is what libfuse wrote. Where it is more, nothing was
    /// written, and nothing changes.
    pub fn after_add(&mut self, entry_size: usize, entry: &[u8]) -> (res: ReplyBufState)
        requires
            entry_size <= old(self).limit() - old(self)@.len() ==> entry@.len() == entry_size,
        ensures
            final(self).limit() == old(self).limit(),
            final(self).spec_request() == old(self).spec_request(),
            if entry_size <= old(self).limit() - old(self)@.len() {
                res == ReplyBufState::Added && final(self)@ == old(self)@ + entry@
            } else {
                res == ReplyBufState::Full && final(self)@ == old(self)@
            },
    {
        if entry_size > self.room() {
            return ReplyBufState::Full;
        }
        proof {
            use_type_invariant(&*self);
        }
        let mut buffer = Vec::new();
        std::mem::swap(&mut buffer, &mut self.buffer);
        buffer.extend_from_slice(entry);
        proof {
            assert(buffer@ == old(self)@ + entry@);
        }
        self.buffer = buffer;
        ReplyBufState::Added
    }

    /// The request that the buffer answers.
    pub fn request(&self) -> (res: Request)
        ensures
            res == self.spec_request(),
    {
        self.request
    }

    /// Send the reply with what we have buffered so far.
    pub fn reply(self) -> (res: Reply)
        ensures
            res@ == buffer_reply(self.spec_request(), self@),
            self@.len() <= self.limit(),
    {
        proof {
            use_type_invariant(&self);
        }
        Reply {
            request: self.request,
            call: ReplyCall::Buf { data: self.buffer },
            armed: false,
            reported: true,
        }
    }
}

/// libfuse is told how many arguments there are, which are those that were given, and that they
/// are not its own.
pub proof fn law_arguments_are_handed_over(args: Vec<CString>)
    requires
        args@.len() <= i32::MAX,
    ensures
        ({
            let handed = <FuseArgs as vstd::std_specs::convert::FromSpec<
                Vec<CString>,
            >>::from_spec(args);
            &&& handed.argc == args@.len()
            &&& handed.argv == args
            &&& handed.allocated == 0
        }),
{
}

/// A request has a handle unless that is zero.
pub proof fn law_handles_are_not_zero(request: Request)
    ensures
        request.spec_is_null() <==> request.raw == 0,
{
}

/// The table without any callback has none.
pub proof fn law_no_callback_in_the_empty_table(other: Operations)
    ensures
        Operations::spec_none().within(other),
        other.within(Operations::spec_none()) ==> other == Operations::spec_none(),
        !Operations::spec_none().lookup && !Operations::spec_none().getattr,
{
}

} // verus!
