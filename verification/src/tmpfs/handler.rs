//! How the file system answers requests.

use vstd::prelude::*;
use vstd::slice::slice_to_vec;

use crate::errno::{EIO, ENOENT, ENOTDIR, S_IFDIR, S_IFMT, S_IFREG};
use crate::error::IoError;
use crate::reply::{
    buffer_reply, err_reply, guard_reply, opt_view, Reply, ReplyCallView, ReplyView,
};
use crate::requests::{
    c_time_fits, law_data_to_write, law_times_are_taken_as_they_are, Create, Forget, FuseRequest,
    Getattr, Lookup, Mkdir, Mknod, Open, Read, Readdir, Release, Request, Rmdir, SetTime, Setattr,
    Unlink, Write,
};
use crate::sys::{setattr, AddDirentry, DirentryAttr, EntryParam, FuseFileInfo, ReplyBufState};
use crate::tmpfs::dir::{inode_of, is_at, lemma_inode_of};
use crate::tmpfs::fs::{
    dot, dot_dot, empty_fs, law_forgetting_undoes_lookup, law_only_what_is_inside_goes,
    law_what_a_write_changes, law_what_is_created, law_what_removing_a_name_changes, lemma_created,
    lemma_entry_changed, link_dropped, names_total, spec_new_stat, ContentView, Fs, FsContent,
    FsError, FsView,
};
use crate::util::{
    lemma_i64_as_u32, lemma_i64_as_u64, lemma_u64_as_i64, wrap_i32, wrap_i64, Duration, Stat,
    Timeout, NANOS_PER_SEC, TIMEOUT_MAX_BITS,
};

verus! {

/// For simplicity we just limit reads to 1 MiB for now...
pub const MAX_READ: usize = 1024 * 1024;

/// A request that ends the file system.
#[derive(Clone, Copy, Debug, PartialEq, Eq, Structural)]
pub enum Fatal {
    /// A directory was to be listed from an offset that is out of range.
    BadOffset,

    /// A request that was not enabled.
    UnknownRequest,
}

/// What is to be done about a request.
#[derive(Debug)]
pub enum Handled {
    /// Send this reply.
    Reply(Reply),

    /// The request failed: send this reply, if there is one.
    Failed { error: FsError, reply: Option<Reply> },

    /// List a directory.
    List(Listing),

    /// The file system ends, and so much is sent for the request.
    End { fatal: Fatal, reply: Option<Reply> },
}

impl Handled {
    /// Whether this is a reply.
    pub open spec fn replies(self, reply: ReplyView) -> bool {
        self matches Handled::Reply(r) && r@ == reply
    }

    /// Whether this is a failure with an error, of which the error number is sent.
    pub open spec fn fails(self, error: FsError, reply: Option<ReplyView>) -> bool {
        self matches Handled::Failed { error: e, reply: r } && e == error && opt_view(r) == reply
    }
}

/// What the kernel is told of a file or directory that it looked up.
pub open spec fn spec_entry_param(stat: Stat) -> EntryParam {
    EntryParam {
        inode: stat.st_ino,
        generation: 1,
        attr: stat,
        attr_timeout: Timeout::spec_max(),
        entry_timeout: Timeout::spec_max(),
    }
}

/// What the kernel is told of a file or directory that it looked up.
pub fn to_entry_param(stat: &Stat) -> (res: EntryParam)
    ensures
        res == spec_entry_param(*stat),
{
    EntryParam::simple(stat.st_ino, *stat)
}

/// The time to set, given what time it is.
pub open spec fn time_to_set(time: SetTime, now: Duration) -> Duration {
    match time {
        SetTime::Now => now,
        SetTime::Time(time) => time,
    }
}

/// The attributes after a `Setattr` request. Of the mode, the kind of file stays.
pub open spec fn spec_set_attributes(stat: Stat, request: Setattr, now: Duration) -> Stat {
    Stat {
        st_mode: match request.spec_mode() {
            Some(mode) => (stat.st_mode & S_IFMT) | mode,
            None => stat.st_mode,
        },
        st_uid: match request.spec_uid() {
            Some(uid) => uid,
            None => stat.st_uid,
        },
        st_gid: match request.spec_gid() {
            Some(gid) => gid,
            None => stat.st_gid,
        },
        st_size: match request.spec_size() {
            Some(size) => wrap_i64(size as int) as i64,
            None => stat.st_size,
        },
        st_atime: match request.spec_atime() {
            Some(time) => wrap_i64(time_to_set(time, now).secs as int) as i64,
            None => stat.st_atime,
        },
        st_atime_nsec: match request.spec_atime() {
            Some(time) => time_to_set(time, now).nanos as i64,
            None => stat.st_atime_nsec,
        },
        st_mtime: match request.spec_mtime() {
            Some(time) => wrap_i64(time_to_set(time, now).secs as int) as i64,
            None => stat.st_mtime,
        },
        st_mtime_nsec: match request.spec_mtime() {
            Some(time) => time_to_set(time, now).nanos as i64,
            None => stat.st_mtime_nsec,
        },
        st_ctime: match request.spec_ctime() {
            Some(time) => wrap_i64(time.secs as int) as i64,
            None => stat.st_ctime,
        },
        st_ctime_nsec: match request.spec_ctime() {
            Some(time) => time.nanos as i64,
            None => stat.st_ctime_nsec,
        },
        ..stat
    }
}

/// Whether every time that is to be set can be represented.
pub open spec fn times_fit(request: Setattr) -> bool {
    let stat = request.stat;
    &&& request.to_set & setattr::ATIME != 0 ==> c_time_fits(
        stat.st_atime,
        stat.st_atime_nsec,
    )
    &&& request.to_set & setattr::MTIME != 0 ==> c_time_fits(
        stat.st_mtime,
        stat.st_mtime_nsec,
    )
    &&& request.to_set & setattr::CTIME != 0 ==> c_time_fits(
        stat.st_ctime,
        stat.st_ctime_nsec,
    )
}

/// A number as it is in attributes, which are signed.
fn attr_value(x: u64) -> (res: i64)
    ensures
        res == wrap_i64(x as int),
{
    proof {
        lemma_u64_as_i64(x);
    }
    #[verifier::truncate]
    (x as i64)
}

/// The attributes after a `Setattr` request.
pub fn set_attributes(stat: &Stat, request: &Setattr, now: Duration) -> (res: Stat)
    requires
        times_fit(*request),
    ensures
        res == spec_set_attributes(*stat, *request, now),
{
    let mut stat = *stat;
    if let Some(mode) = request.mode() {
        stat.st_mode = (stat.st_mode & S_IFMT) | mode;
    }
    if let Some(uid) = request.uid() {
        stat.st_uid = uid;
    }
    if let Some(gid) = request.gid() {
        stat.st_gid = gid;
    }
    if let Some(size) = request.size() {
        stat.st_size = attr_value(size);
    }
    if let Some(time) = request.atime() {
        let time = match time {
            SetTime::Now => now,
            SetTime::Time(time) => time,
        };
        stat.st_atime = attr_value(time.secs);
        stat.st_atime_nsec = time.nanos as i64;
    }
    if let Some(time) = request.mtime() {
        let time = match time {
            SetTime::Now => now,
            SetTime::Time(time) => time,
        };
        stat.st_mtime = attr_value(time.secs);
        stat.st_mtime_nsec = time.nanos as i64;
    }
    if let Some(time) = request.ctime() {
        stat.st_ctime = attr_value(time.secs);
        stat.st_ctime_nsec = time.nanos as i64;
    }
    stat
}

/// What comes at a place in the list of a directory.
pub enum ListView {
    /// An entry; the list goes on at `next`.
    Entry { name: Seq<u8>, stat: Stat, next: int },

    /// The list has ended.
    End,

    /// The list could not be made.
    Fail(FsError),
}

/// What comes at a place in the list of a directory: the names in their order, then `..`, then
/// `.`. A place that has no next one is past the end.
pub open spec fn list_at(v: FsView, inode: u64, pos: int) -> ListView {
    match v.look(inode) {
        Err(err) => ListView::Fail(err),
        Ok(()) => match v.entry(inode as int).content {
            ContentView::File(_) => ListView::Fail(FsError::Os(ENOTDIR)),
            ContentView::Dir(files) => if pos < 0 || pos >= isize::MAX {
                ListView::End
            } else if pos < files.len() {
                ListView::Entry {
                    name: files[pos].0,
                    stat: v.entry(files[pos].1 as int).stat,
                    next: pos + 1,
                }
            } else if pos == files.len() {
                match v.look(v.entry(inode as int).parent) {
                    Ok(()) => ListView::Entry {
                        name: dot_dot(),
                        stat: v.entry(v.entry(inode as int).parent as int).stat,
                        next: pos + 1,
                    },
                    Err(err) => ListView::Fail(err),
                }
            } else if pos == files.len() + 1 {
                ListView::Entry { name: dot(), stat: v.entry(inode as int).stat, next: pos + 1 }
            } else {
                ListView::End
            },
        },
    }
}

/// An entry in the list of a directory.
#[derive(Debug)]
pub struct ListEntry {
    pub name: Vec<u8>,
    pub stat: Stat,

    /// Where the list goes on.
    pub next: isize,
}

/// What comes at a place in the list of a directory.
pub fn list_entry(fs: &Fs, inode: u64, pos: isize) -> (res: Result<Option<ListEntry>, FsError>)
    requires
        fs.wf(),
    ensures
        match list_at(fs@, inode, pos as int) {
            ListView::Entry { name, stat, next } => {
                &&& res matches Ok(Some(entry))
                &&& entry.name@ == name
                &&& entry.stat == stat
                &&& entry.next == next
            },
            ListView::End => res == Ok::<Option<ListEntry>, FsError>(None),
            ListView::Fail(err) => res == Err::<Option<ListEntry>, FsError>(err),
        },
{
    let dir = match fs.get(inode) {
        Ok(dir) => dir,
        Err(err) => {
            return Err(err);
        },
    };
    let files = match &dir.content {
        FsContent::Dir(content) => &content.files,
        FsContent::File(_) => {
            return Err(FsError::Os(ENOTDIR));
        },
    };
    if pos < 0 || pos == isize::MAX {
        return Ok(None);
    }
    let at = pos as usize;
    if at < files.len() {
        let file = &files[at];
        proof {
            assert(fs@.live(inode as int));
            assert(fs@.is_name(inode as int, at as int));
            assert(fs@.target(inode as int, at as int) == file.inode);
        }
        match fs.get(file.inode) {
            Ok(child) => Ok(
                Some(
                    ListEntry {
                        name: slice_to_vec(file.name.as_slice()),
                        stat: child.stat,
                        next: pos + 1,
                    },
                ),
            ),
            Err(err) => Err(err),
        }
    } else if at == files.len() {
        match fs.get(dir.parent) {
            Ok(parent) => {
                let name: Vec<u8> = vec![0x2e, 0x2e];
                assert(name@ =~= dot_dot());
                Ok(Some(ListEntry { name, stat: parent.stat, next: pos + 1 }))
            },
            Err(err) => Err(err),
        }
    } else if at - 1 == files.len() {
        let name: Vec<u8> = vec![0x2e];
        assert(name@ =~= dot());
        Ok(Some(ListEntry { name, stat: dir.stat, next: pos + 1 }))
    } else {
        Ok(None)
    }
}

/// A directory that is being listed.
#[derive(Debug)]
pub struct Listing {
    /// The request, with the entries so far.
    pub request: Readdir,

    /// Where the list goes on.
    pub pos: isize,
}

/// What listing a directory does next.
#[derive(Debug)]
pub enum ListStep {
    /// Have libfuse write an entry. What came of it goes into `Listing::added`.
    Add(AddDirentry, Listing),

    /// Send this reply: the list has ended, or is full.
    Done(Reply),

    /// The list could not be made: send this reply.
    Failed { error: FsError, reply: Option<Reply> },

    /// A name cannot be put into the list: send this reply.
    BadName { text: String, reply: Option<Reply> },
}

impl Listing {
    /// The next entry, if there is one.
    pub fn advance(self, fs: &Fs) -> (res: ListStep)
        requires
            fs.wf(),
        ensures
            match list_at(fs@, self.request.inode, self.pos as int) {
                ListView::End => {
                    &&& res matches ListStep::Done(reply)
                    &&& reply@ == buffer_reply(
                        self.request.handle(),
                        self.request.reply_buffer@,
                    )
                },
                ListView::Fail(err) => {
                    &&& res matches ListStep::Failed { error, reply }
                    &&& error == err
                    &&& opt_view(reply) == self.request.fail_view(err.spec_errno())
                },
                ListView::Entry { name, stat, next } => if name.contains(0u8) {
                    &&& res matches ListStep::BadName { text, reply }
                    &&& opt_view(reply) == self.request.fail_view(EIO)
                    &&& text@ == "tried to reply with invalid file name"@
                } else {
                    &&& res matches ListStep::Add(call, listing)
                    &&& listing == (Listing { pos: next as isize, ..self })
                    &&& call.request == self.request.handle()
                    &&& call.bufsize == self.request.reply_buffer.limit()
                        - self.request.reply_buffer@.len()
                    &&& call.name@ == name
                    &&& call.attr == DirentryAttr::Plain(stat)
                    &&& call.off == wrap_i32(next)
                },
            },
    {
        match list_entry(fs, self.request.inode, self.pos) {
            Err(error) => ListStep::Failed { error, reply: self.request.fail(error.errno()) },
            Ok(None) => ListStep::Done(self.request.reply()),
            Ok(Some(entry)) => {
                match self.request.add_entry(entry.name.as_slice(), &entry.stat, entry.next) {
                    Ok(call) => ListStep::Add(call, Listing { pos: entry.next, ..self }),
                    Err(IoError::Other(text)) => ListStep::BadName {
                        text,
                        reply: self.request.fail(EIO),
                    },
                    Err(IoError::Os(errno)) => ListStep::Failed {
                        error: FsError::Os(errno),
                        reply: self.request.fail(errno),
                    },
                }
            },
        }
    }

    /// libfuse returned `entry_size` for an entry, and wrote `entry` if that fits. The list goes
    /// on, or is full.
    pub fn added(self, entry_size: usize, entry: &[u8]) -> (res: Result<Listing, Reply>)
        requires
            entry_size <= self.request.reply_buffer.limit() - self.request.reply_buffer@.len()
                ==> entry@.len() == entry_size,
        ensures
            if entry_size <= self.request.reply_buffer.limit() - self.request.reply_buffer@.len() {
                &&& res matches Ok(listing)
                &&& listing.pos == self.pos
                &&& listing.request.handle() == self.request.handle()
                &&& listing.request.inode == self.request.inode
                &&& listing.request.offset == self.request.offset
                &&& listing.request.reply_buffer.limit() == self.request.reply_buffer.limit()
                &&& listing.request.reply_buffer@ == self.request.reply_buffer@ + entry@
            } else {
                &&& res matches Err(reply)
                &&& reply@ == buffer_reply(self.request.handle(), self.request.reply_buffer@)
            },
    {
        let mut request = self.request;
        match request.entry_added(entry_size, entry) {
            ReplyBufState::Added => Ok(Listing { request, pos: self.pos }),
            ReplyBufState::Full => Err(request.reply()),
        }
    }
}

/// What a request must be like, so that it can be handled: times that are set can be represented,
/// bytes that are written lie in the request's buffer, those that are written to a file do so at
/// offsets that can be represented, and nothing is read from beyond the end of a file.
pub open spec fn spec_acceptable(v: FsView, request: Request) -> bool {
    match request {
        Request::Setattr(request) => v.look(request.inode) is Ok ==> times_fit(request),
        Request::Write(request) => {
            &&& request.wf()
            &&& v.bytes(request.inode) is Ok ==> request.offset + request.size <= u64::MAX
        },
        Request::Read(request) => v.bytes(request.inode) matches Ok(bytes) ==> request.offset
            <= bytes.len(),
        _ => true,
    }
}

/// Whether the time that a C structure gives can be represented.
fn time_fits(secs: i64, nsecs: i64) -> (res: bool)
    ensures
        res == c_time_fits(secs, nsecs),
{
    proof {
        lemma_i64_as_u64(secs);
        lemma_i64_as_u32(nsecs);
    }
    let secs = #[verifier::truncate] (secs as u64);
    let nanos = #[verifier::truncate] (nsecs as u32);
    (nanos / NANOS_PER_SEC) as u64 <= u64::MAX - secs
}

/// Whether a request is such that it can be handled.
pub fn acceptable(fs: &Fs, request: &Request) -> (res: bool)
    requires
        fs.wf(),
    ensures
        res == spec_acceptable(fs@, *request),
{
    match request {
        Request::Setattr(request) => {
            let stat = &request.stat;
            let times_fit = (request.to_set & setattr::ATIME == 0 || time_fits(
                stat.st_atime,
                stat.st_atime_nsec,
            )) && (request.to_set & setattr::MTIME == 0 || time_fits(
                stat.st_mtime,
                stat.st_mtime_nsec,
            )) && (request.to_set & setattr::CTIME == 0 || time_fits(
                stat.st_ctime,
                stat.st_ctime_nsec,
            ));
            match fs.get(request.inode) {
                Ok(_) => times_fit,
                Err(_) => true,
            }
        },
        Request::Write(request) => {
            let is_file = match fs.get(request.inode) {
                Ok(node) => matches!(node.content, FsContent::File(_)),
                Err(_) => false,
            };
            request.size <= request.buffer.mem.len() && request.data <= request.buffer.mem.len()
                - request.size && (!is_file || request.offset <= u64::MAX - request.size as u64)
        },
        Request::Read(request) => match fs.get(request.inode) {
            Ok(node) => match &node.content {
                FsContent::File(file) => request.offset <= file.size(),
                FsContent::Dir(_) => true,
            },
            Err(_) => true,
        },
        _ => true,
    }
}

/// What the file system makes of a request.
pub open spec fn after(v: FsView, request: Request, now: Duration) -> FsView {
    match request {
        Request::Setattr(r) if v.look(r.inode) is Ok => v.with_stat(
            r.inode,
            spec_set_attributes(v.entry(r.inode as int).stat, r, now),
        ),
        Request::Lookup(r) => match v.look_at(r.parent, r.file_name@) {
            Ok(inode) => v.looked_up(inode),
            Err(_) => v,
        },
        Request::Forget(r) if v.look(r.inode) is Ok => v.forgot(r.inode, r.count),
        Request::Open(r) if v.look(r.inode) is Ok => v.looked_up(r.inode),
        Request::Release(r) if v.look(r.inode) is Ok => v.forgot(r.inode, 1),
        Request::Mkdir(r) if v.can_create(r.parent, r.dir_name@) is Ok => v.created(
            r.parent,
            r.dir_name@,
            r.mode | S_IFDIR,
            ContentView::Dir(Seq::empty()),
            now,
        ),
        // CREATE acts as `Lookup` + `Open`
        Request::Create(r) if v.can_create(r.parent, r.file_name@) is Ok => v.created(
            r.parent,
            r.file_name@,
            r.mode | S_IFREG,
            ContentView::File(Seq::empty()),
            now,
        ).looked_up(v.next_inode()),
        Request::Mknod(r) if v.can_create(r.parent, r.file_name@) is Ok => v.created(
            r.parent,
            r.file_name@,
            r.mode | S_IFREG,
            ContentView::File(Seq::empty()),
            now,
        ),
        Request::Unlink(r) => match v.can_unlink(r.parent, r.file_name@, false) {
            Ok(inode) => link_dropped(
                v.without_name(r.parent, r.file_name@),
                inode,
                names_total(v.entries),
            ),
            Err(_) => v,
        },
        Request::Rmdir(r) => match v.can_unlink(r.parent, r.dir_name@, true) {
            Ok(inode) => link_dropped(
                v.without_name(r.parent, r.dir_name@),
                inode,
                names_total(v.entries),
            ),
            Err(_) => v,
        },
        Request::Write(r) if v.bytes(r.inode) is Ok => v.written(r.inode, r.spec_data(), r.offset),
        _ => v,
    }
}

/// What a request is answered with.
pub open spec fn answer(v: FsView, request: Request, now: Duration) -> Result<
    ReplyCallView,
    FsError,
> {
    let max = Timeout::spec_max();
    match request {
        Request::Getattr(r) => match v.look(r.inode) {
            Ok(()) => Ok(ReplyCallView::Attr { stat: v.entry(r.inode as int).stat, timeout: max }),
            Err(err) => Err(err),
        },
        Request::Setattr(r) => match v.look(r.inode) {
            Ok(()) => Ok(
                ReplyCallView::Attr {
                    stat: spec_set_attributes(v.entry(r.inode as int).stat, r, now),
                    timeout: max,
                },
            ),
            Err(err) => Err(err),
        },
        Request::Lookup(r) => match v.look_at(r.parent, r.file_name@) {
            Ok(inode) => Ok(
                ReplyCallView::Entry { entry: spec_entry_param(v.entry(inode as int).stat) },
            ),
            Err(err) => Err(err),
        },
        Request::Forget(r) => match v.look(r.inode) {
            Ok(()) => Ok(ReplyCallView::Nothing),
            Err(FsError::NeverAdvertised(_)) => Err(FsError::NeverLookedUp),
            Err(err) => Err(err),
        },
        Request::Release(r) => match v.look(r.inode) {
            Ok(()) => Ok(ReplyCallView::Error { errno: 0 }),
            Err(FsError::NeverAdvertised(_)) => Err(FsError::NeverLookedUp),
            Err(err) => Err(err),
        },
        Request::Open(r) => match v.look(r.inode) {
            Ok(()) => Ok(ReplyCallView::Open { file_info: FuseFileInfo { fh: 0, ..r.file_info } }),
            Err(err) => Err(err),
        },
        Request::Mkdir(r) => match v.can_create(r.parent, r.dir_name@) {
            Ok(()) => Ok(
                ReplyCallView::Entry {
                    entry: spec_entry_param(
                        spec_new_stat(v.next_inode(), r.mode | S_IFDIR, 0, 0, now),
                    ),
                },
            ),
            Err(err) => Err(err),
        },
        Request::Create(r) => match v.can_create(r.parent, r.file_name@) {
            Ok(()) => Ok(
                ReplyCallView::Create {
                    entry: spec_entry_param(
                        spec_new_stat(v.next_inode(), r.mode | S_IFREG, 0, 0, now),
                    ),
                    file_info: FuseFileInfo { fh: 0, ..r.file_info },
                },
            ),
            Err(err) => Err(err),
        },
        Request::Mknod(r) => match v.can_create(r.parent, r.file_name@) {
            Ok(()) => Ok(
                ReplyCallView::Entry {
                    entry: spec_entry_param(
                        spec_new_stat(v.next_inode(), r.mode | S_IFREG, 0, 0, now),
                    ),
                },
            ),
            Err(err) => Err(err),
        },
        Request::Unlink(r) => match v.can_unlink(r.parent, r.file_name@, false) {
            Ok(_) => Ok(ReplyCallView::Error { errno: 0 }),
            Err(err) => Err(err),
        },
        Request::Rmdir(r) => match v.can_unlink(r.parent, r.dir_name@, true) {
            Ok(_) => Ok(ReplyCallView::Error { errno: 0 }),
            Err(err) => Err(err),
        },
        Request::Write(r) => match v.bytes(r.inode) {
            Ok(_) => Ok(ReplyCallView::Write { count: r.size }),
            Err(err) => Err(err),
        },
        Request::Read(r) => match v.bytes(r.inode) {
            Ok(bytes) => {
                let size = if r.size < MAX_READ {
                    r.size
                } else {
                    MAX_READ
                };
                let end = if r.offset + size <= bytes.len() {
                    r.offset + size
                } else {
                    bytes.len() as int
                };
                Ok(ReplyCallView::Buf { data: bytes.subrange(r.offset as int, end) })
            },
            Err(err) => Err(err),
        },
        _ => Ok(ReplyCallView::Nothing),
    }
}

/// Whether the file system knows what to do about a request.
pub open spec fn known(request: Request) -> bool {
    match request {
        Request::ReaddirPlus(_)
        | Request::Readlink(_)
        | Request::ListXAttrSize(_)
        | Request::ListXAttr(_)
        | Request::GetXAttrSize(_)
        | Request::GetXAttr(_) => false,
        _ => true,
    }
}

/// Handles a request.
///
/// Each reference that the kernel is given counts as a lookup, and so does each open file.
pub fn handle(fs: &mut Fs, request: Request, now: Duration) -> (res: Handled)
    requires
        old(fs).wf(),
        spec_acceptable(old(fs)@, request),
    ensures
        final(fs).wf(),
        final(fs)@ == after(old(fs)@, request, now),
        if !known(request) {
            &&& res matches Handled::End { fatal, reply }
            &&& fatal == Fatal::UnknownRequest
            &&& opt_view(reply) == request.drop_view()
        } else if request is Readdir {
            let r = request->Readdir_0;
            if isize::MIN <= r.offset <= isize::MAX {
                res == Handled::List(Listing { request: r, pos: r.offset as isize })
            } else {
                &&& res matches Handled::End { fatal, reply }
                &&& fatal == Fatal::BadOffset
                &&& opt_view(reply) == request.drop_view()
            }
        } else {
            match answer(old(fs)@, request, now) {
                Ok(call) => res.replies(
                    ReplyView {
                        request: request.handle(),
                        call,
                        armed: !(call is Error || call is Nothing),
                        reported: !(call is Nothing),
                    },
                ),
                Err(err) => res.fails(
                    err,
                    // `Forget` has no answer; its guard sends one
                    if request is Forget {
                        guard_reply(request.handle())
                    } else {
                        Some(err_reply(request.handle(), err.spec_errno()))
                    },
                ),
            }
        },
{
    match request {
        Request::Getattr(request) => match fs.get(request.inode) {
            Ok(node) => Handled::Reply(request.reply(&node.stat, Timeout::max())),
            Err(error) => Handled::Failed { error, reply: request.fail(error.errno()) },
        },
        Request::Setattr(request) => {
            let stat = match fs.get(request.inode) {
                Ok(node) => set_attributes(&node.stat, &request, now),
                Err(error) => {
                    return Handled::Failed { error, reply: request.fail(error.errno()) };
                },
            };
            match fs.set_stat(request.inode, stat) {
                Ok(()) => Handled::Reply(request.reply(&stat, Timeout::max())),
                Err(error) => Handled::Failed { error, reply: request.fail(error.errno()) },
            }
        },
        Request::Lookup(request) => match fs.lookup_at(
            request.parent,
            request.file_name.as_slice(),
        ) {
            Ok(inode) => Handled::Reply(request.reply(&to_entry_param(&fs.stat(inode)))),
            Err(error) => Handled::Failed { error, reply: request.fail(error.errno()) },
        },
        Request::Forget(request) => match fs.forget(request.inode, request.count) {
            Ok(()) => Handled::Reply(request.reply()),
            Err(error) => Handled::Failed { error, reply: request.on_drop() },
        },
        Request::Readdir(request) => {
            if request.offset < isize::MIN as i64 || request.offset > isize::MAX as i64 {
                return Handled::End { fatal: Fatal::BadOffset, reply: request.on_drop() };
            }
            let pos = request.offset as isize;
            Handled::List(Listing { request, pos })
        },
        Request::Mkdir(request) => {
            let name = slice_to_vec(request.dir_name.as_slice());
            match fs.mkdir(request.parent, name, request.mode, now) {
                Ok(inode) => Handled::Reply(request.reply(&to_entry_param(&fs.stat(inode)))),
                Err(error) => Handled::Failed { error, reply: request.fail(error.errno()) },
            }
        },
        Request::Create(request) => {
            let name = slice_to_vec(request.file_name.as_slice());
            match fs.create(request.parent, name, request.mode, now) {
                Ok(inode) => {
                    // CREATE acts as `Lookup` + `Open`
                    let _ = fs.lookup(inode);
                    Handled::Reply(request.reply(&to_entry_param(&fs.stat(inode)), 0))
                },
                Err(error) => Handled::Failed { error, reply: request.fail(error.errno()) },
            }
        },
        Request::Mknod(request) => {
            let name = slice_to_vec(request.file_name.as_slice());
            match fs.create(request.parent, name, request.mode, now) {
                Ok(inode) => Handled::Reply(request.reply(&to_entry_param(&fs.stat(inode)))),
                Err(error) => Handled::Failed { error, reply: request.fail(error.errno()) },
            }
        },
        Request::Open(request) => match fs.lookup(request.inode) {
            Ok(()) => {
                let entry = to_entry_param(&fs.stat(request.inode));
                Handled::Reply(request.reply(&entry, 0))
            },
            Err(error) => Handled::Failed { error, reply: request.fail(error.errno()) },
        },
        Request::Release(request) => match fs.forget(request.inode, 1) {
            Ok(()) => Handled::Reply(request.reply()),
            Err(error) => Handled::Failed { error, reply: request.fail(error.errno()) },
        },
        Request::Unlink(request) => match fs.unlink(
            request.parent,
            request.file_name.as_slice(),
            false,
        ) {
            Ok(()) => Handled::Reply(request.reply()),
            Err(error) => Handled::Failed { error, reply: request.fail(error.errno()) },
        },
        Request::Rmdir(request) => match fs.unlink(
            request.parent,
            request.dir_name.as_slice(),
            true,
        ) {
            Ok(()) => Handled::Reply(request.reply()),
            Err(error) => Handled::Failed { error, reply: request.fail(error.errno()) },
        },
        Request::Write(request) => match fs.write(request.inode, request.data(), request.offset) {
            Ok(()) => {
                let len = request.data().len();
                Handled::Reply(request.reply(len))
            },
            Err(error) => Handled::Failed { error, reply: request.fail(error.errno()) },
        },
        Request::Read(request) => {
            let size = if request.size < MAX_READ {
                request.size
            } else {
                MAX_READ
            };
            match fs.read(request.inode, size, request.offset) {
                Ok(data) => Handled::Reply(request.reply(data.as_slice())),
                Err(error) => Handled::Failed { error, reply: request.fail(error.errno()) },
            }
        },
        other => Handled::End { fatal: Fatal::UnknownRequest, reply: other.on_drop() },
    }
}

/// A directory is listed completely, each entry once: whoever goes on where the last entry says
/// gets every name in order, then `..`, then `.`, and then the end.
pub proof fn law_list_is_complete(v: FsView, inode: u64, pos: int)
    requires
        v.wf(),
        v.look(inode) is Ok,
        v.entry(inode as int).content is Dir,
        v.look(v.entry(inode as int).parent) is Ok,
        v.entry(inode as int).content.names().len() + 2 <= isize::MAX,
        0 <= pos <= v.entry(inode as int).content.names().len() + 2,
    ensures
        ({
            let files = v.entry(inode as int).content.names();
            let names = files.map_values(|file: (Seq<u8>, u64)| file.0).push(dot_dot()).push(dot());
            if pos < names.len() {
                &&& list_at(v, inode, pos) matches ListView::Entry { name, next, .. }
                &&& name == names[pos]
                &&& next == pos + 1
            } else {
                list_at(v, inode, pos) is End
            }
        }),
{
}

/// What is listed is there: an entry has the attributes of what its name stands for.
pub proof fn law_listed_is_found(v: FsView, inode: u64, pos: int)
    requires
        v.wf(),
        list_at(v, inode, pos) is Entry,
        pos < v.entry(inode as int).content.names().len(),
        list_at(v, inode, pos)->name != dot(),
        list_at(v, inode, pos)->name != dot_dot(),
    ensures
        ({
            &&& v.look_at(inode, list_at(v, inode, pos)->name) matches Ok(found)
            &&& v.live(found as int)
            &&& list_at(v, inode, pos)->stat == v.entry(found as int).stat
        }),
{
    let files = v.entry(inode as int).content.names();
    let name = files[pos].0;
    assert(v.live(inode as int));
    assert(v.is_name(inode as int, pos));
    assert(is_at(files, name, pos));
    lemma_inode_of(files, name, pos);
}

/// Looking at attributes, listing and reading change nothing.
pub proof fn law_looking_changes_nothing(v: FsView, request: Request, now: Duration)
    requires
        request is Getattr || request is Readdir || request is Read,
    ensures
        after(v, request, now) == v,
{
}

/// A request that fails changes nothing.
pub proof fn law_failure_changes_nothing(v: FsView, request: Request, now: Duration)
    requires
        answer(v, request, now) is Err,
    ensures
        after(v, request, now) == v,
{
}

/// Opening a file and releasing it again leaves no trace, unless the count was full.
pub proof fn law_release_undoes_open(v: FsView, open: Open, release: Release, now: Duration)
    requires
        v.wf(),
        open.inode == release.inode,
        v.look(open.inode) is Ok,
        v.entry(open.inode as int).lookups < usize::MAX,
    ensures
        after(after(v, Request::Open(open), now), Request::Release(release), now) == v,
{
    assert(v.live(open.inode as int));
    law_forgetting_undoes_lookup(v, open.inode);
}

/// What the kernel is told when it looks something up: the attributes as they are, the inode that
/// they tell, and that it may rely on that as long as possible.
pub proof fn law_entry_tells_the_attributes(stat: Stat)
    ensures
        ({
            let entry = spec_entry_param(stat);
            &&& entry.attr == stat
            &&& entry.inode == stat.st_ino
            &&& entry.generation == 1
            &&& entry.attr_timeout.bits == TIMEOUT_MAX_BITS
            &&& entry.entry_timeout.bits == TIMEOUT_MAX_BITS
        }),
{
}

/// Asking for attributes is answered with those of what is there, and otherwise fails.
pub proof fn law_getattr_tells_the_attributes(v: FsView, request: Getattr, now: Duration)
    ensures
        ({
            let inode = request.inode as int;
            if inode >= v.entries.len() {
                answer(v, Request::Getattr(request), now) == Err::<ReplyCallView, FsError>(
                    FsError::NeverAdvertised(request.inode),
                )
            } else {
                match v.entries[inode] {
                    None => answer(v, Request::Getattr(request), now) == Err::<
                        ReplyCallView,
                        FsError,
                    >(FsError::Os(ENOENT)),
                    Some(entry) => {
                        &&& answer(v, Request::Getattr(request), now) matches Ok(call)
                        &&& call matches ReplyCallView::Attr { stat, timeout }
                        &&& stat == entry.stat
                        &&& timeout.bits == TIMEOUT_MAX_BITS
                    },
                }
            }
        }),
{
}

/// Looking up a name is answered with the attributes of what it leads to, all of them as they are
/// told when they are asked for. The kernel has one reference more to it then.
pub proof fn law_lookup_tells_what_getattr_tells(
    v: FsView,
    request: Lookup,
    getattr: Getattr,
    now: Duration,
)
    requires
        v.wf(),
        v.look_at(request.parent, request.file_name@) == Ok::<u64, FsError>(getattr.inode),
    ensures
        ({
            let found = getattr.inode as int;
            let w = after(v, Request::Lookup(request), now);
            &&& answer(v, Request::Lookup(request), now) matches Ok(call)
            &&& call matches ReplyCallView::Entry { entry }
            &&& answer(v, Request::Getattr(getattr), now) matches Ok(told)
            &&& told matches ReplyCallView::Attr { stat, .. }
            &&& entry.attr == stat
            &&& v.entries[found]->0.stat.st_ino == found ==> entry.inode == found
            &&& entry.generation == 1
            &&& entry.attr_timeout.bits == TIMEOUT_MAX_BITS
            &&& entry.entry_timeout.bits == TIMEOUT_MAX_BITS
            &&& v.entries[found]->0.lookups < usize::MAX ==> w.entries[found] is Some
                && w.entries[found]->0.lookups == v.entries[found]->0.lookups + 1
            &&& w.free == v.free
            &&& forall|j: int|
                0 <= j < v.entries.len() && j != found ==> w.entries[j] == v.entries[j]
        }),
{
    lemma_found_is_there(v, request.parent, request.file_name@);
}

/// What a name leads to is there.
proof fn lemma_found_is_there(v: FsView, inode: u64, name: Seq<u8>)
    requires
        v.wf(),
        v.look_at(inode, name) is Ok,
    ensures
        v.live(v.look_at(inode, name)->Ok_0 as int),
{
    let files = v.entry(inode as int).content.names();
    assert(v.live(inode as int));
    if inode_of(files, name) is Some {
        let k = choose|k: int| is_at(files, name, k);
        assert(is_at(files, name, k));
        assert(v.is_name(inode as int, k));
    }
}

/// A name that does not lead anywhere fails the lookup with the same error.
pub proof fn law_lookup_fails_where_the_name_leads_nowhere(
    v: FsView,
    request: Lookup,
    now: Duration,
)
    ensures
        v.look_at(request.parent, request.file_name@) matches Err(err) ==> answer(
            v,
            Request::Lookup(request),
            now,
        ) == Err::<ReplyCallView, FsError>(err),
        v.look_at(request.parent, request.file_name@) is Ok ==> answer(
            v,
            Request::Lookup(request),
            now,
        ) is Ok,
{
}

/// Setting the mode sets all its bits but those that tell the kind of file: those that were there
/// stay. What the permissions were before makes no difference.
pub proof fn law_setting_the_mode(stat: Stat, request: Setattr, now: Duration, permissions: u32)
    ensures
        ({
            let wanted = request.stat.st_mode;
            let mode = spec_set_attributes(stat, request, now).st_mode;
            let other = Stat { st_mode: (stat.st_mode & S_IFMT) | (permissions & !S_IFMT), ..stat };
            &&& request.to_set & setattr::MODE != 0 ==> {
                &&& mode & !S_IFMT == wanted & !S_IFMT
                &&& mode & S_IFMT == (stat.st_mode | wanted) & S_IFMT
                &&& spec_set_attributes(other, request, now).st_mode == mode
            }
            &&& request.to_set & setattr::MODE == 0 ==> mode == stat.st_mode
        }),
{
    let old = stat.st_mode;
    let wanted = request.stat.st_mode;
    assert({
        let mask = 0o170000u32;
        let mode = (old & mask) | wanted;
        &&& mode & !mask == wanted & !mask
        &&& mode & mask == (old | wanted) & mask
        &&& (((old & mask) | (permissions & !mask)) & mask) | wanted == mode
    }) by (bit_vector);
}

/// Owner, group and size are set to what is asked for where they are to be set, and stay otherwise.
pub proof fn law_setting_owner_and_size(stat: Stat, request: Setattr, now: Duration)
    ensures
        ({
            let after = spec_set_attributes(stat, request, now);
            &&& after.st_uid == if request.to_set & setattr::UID != 0 {
                request.stat.st_uid
            } else {
                stat.st_uid
            }
            &&& after.st_gid == if request.to_set & setattr::GID != 0 {
                request.stat.st_gid
            } else {
                stat.st_gid
            }
            &&& after.st_size == if request.to_set & setattr::SIZE != 0 {
                request.stat.st_size
            } else {
                stat.st_size
            }
        }),
{
}

/// Times are set to what is asked for where they are to be set, to the current one where that is
/// asked for, and stay otherwise.
pub proof fn law_setting_times(stat: Stat, request: Setattr, now: Duration)
    requires
        0 <= request.stat.st_atime_nsec < NANOS_PER_SEC,
        0 <= request.stat.st_mtime_nsec < NANOS_PER_SEC,
        0 <= request.stat.st_ctime_nsec < NANOS_PER_SEC,
        now.secs <= i64::MAX,
    ensures
        ({
            let after = spec_set_attributes(stat, request, now);
            &&& if request.to_set & setattr::ATIME != 0 {
                &&& after.st_atime == request.stat.st_atime
                &&& after.st_atime_nsec == request.stat.st_atime_nsec
            } else if request.to_set & setattr::ATIME_NOW != 0 {
                after.st_atime == now.secs && after.st_atime_nsec == now.nanos
            } else {
                after.st_atime == stat.st_atime && after.st_atime_nsec == stat.st_atime_nsec
            }
            &&& if request.to_set & setattr::MTIME != 0 {
                &&& after.st_mtime == request.stat.st_mtime
                &&& after.st_mtime_nsec == request.stat.st_mtime_nsec
            } else if request.to_set & setattr::MTIME_NOW != 0 {
                after.st_mtime == now.secs && after.st_mtime_nsec == now.nanos
            } else {
                after.st_mtime == stat.st_mtime && after.st_mtime_nsec == stat.st_mtime_nsec
            }
            &&& if request.to_set & setattr::CTIME != 0 {
                &&& after.st_ctime == request.stat.st_ctime
                &&& after.st_ctime_nsec == request.stat.st_ctime_nsec
            } else {
                after.st_ctime == stat.st_ctime && after.st_ctime_nsec == stat.st_ctime_nsec
            }
        }),
{
    law_times_are_taken_as_they_are(request.stat.st_atime, request.stat.st_atime_nsec);
    law_times_are_taken_as_they_are(request.stat.st_mtime, request.stat.st_mtime_nsec);
    law_times_are_taken_as_they_are(request.stat.st_ctime, request.stat.st_ctime_nsec);
}

/// What cannot be set stays.
pub proof fn law_other_attributes_stay(stat: Stat, request: Setattr, now: Duration)
    ensures
        ({
            let after = spec_set_attributes(stat, request, now);
            &&& after.st_dev == stat.st_dev
            &&& after.st_ino == stat.st_ino
            &&& after.st_nlink == stat.st_nlink
            &&& after.st_rdev == stat.st_rdev
            &&& after.st_blksize == stat.st_blksize
            &&& after.st_blocks == stat.st_blocks
        }),
{
}

/// Setting attributes is answered with what they are from then on. Nothing but they changes.
pub proof fn law_setattr_answers_what_it_set(
    v: FsView,
    request: Setattr,
    getattr: Getattr,
    now: Duration,
)
    requires
        getattr.inode == request.inode,
    ensures
        ({
            let inode = request.inode as int;
            let w = after(v, Request::Setattr(request), now);
            if inode < v.entries.len() && v.entries[inode] is Some {
                let before = v.entries[inode]->0;
                &&& answer(v, Request::Setattr(request), now) == answer(
                    w,
                    Request::Getattr(getattr),
                    now,
                )
                &&& w.entries[inode] matches Some(entry)
                &&& entry.stat == spec_set_attributes(before.stat, request, now)
                &&& entry.lookups == before.lookups
                &&& entry.links == before.links
                &&& entry.parent == before.parent
                &&& entry.content == before.content
                &&& w.free == v.free
                &&& w.entries.len() == v.entries.len()
                &&& forall|j: int|
                    0 <= j < v.entries.len() && j != inode ==> w.entries[j] == v.entries[j]
            } else {
                &&& w == v
                &&& answer(v, Request::Setattr(request), now) == answer(
                    v,
                    Request::Getattr(getattr),
                    now,
                )
            }
        }),
{
}

/// A read is answered with the bytes from where it says, as many as it asks for, but no more than
/// a MiB and no more than there are. What cannot be read fails.
pub proof fn law_read_answers_what_is_asked_for(v: FsView, request: Read, now: Duration)
    ensures
        match v.bytes(request.inode) {
            Err(err) => answer(v, Request::Read(request), now) == Err::<ReplyCallView, FsError>(
                err,
            ),
            Ok(bytes) => request.offset <= bytes.len() ==> {
                &&& answer(v, Request::Read(request), now) matches Ok(call)
                &&& call matches ReplyCallView::Buf { data }
                &&& data.len() <= request.size
                &&& data.len() <= 1048576
                &&& data.len() <= bytes.len() - request.offset
                &&& data.len() == request.size || data.len() == 1048576 || data.len() == bytes.len()
                    - request.offset
                &&& forall|i: int|
                    0 <= i < data.len() ==> #[trigger] data[i] == bytes[request.offset + i]
            },
        },
{
}

/// A write is answered with how many bytes there were, all of which are then in the file: they are
/// what a read from there is answered with. Every other byte stays, and so does everything else.
pub proof fn law_write_writes_what_it_got(v: FsView, request: Write, read: Read, now: Duration)
    requires
        request.wf(),
        request.offset + request.size <= u64::MAX,
        read.inode == request.inode,
        read.offset == request.offset,
        read.size <= request.size,
        read.size <= 1048576,
    ensures
        match v.bytes(request.inode) {
            Err(err) => answer(v, Request::Write(request), now) == Err::<ReplyCallView, FsError>(
                err,
            ),
            Ok(bytes) => {
                let w = after(v, Request::Write(request), now);
                let end = request.offset + request.size;
                &&& answer(v, Request::Write(request), now) == Ok::<ReplyCallView, FsError>(
                    ReplyCallView::Write { count: request.size },
                )
                &&& w.bytes(request.inode) matches Ok(written)
                &&& written.len() == if bytes.len() < end {
                    end
                } else {
                    bytes.len() as int
                }
                &&& forall|i: int|
                    0 <= i < request.size ==> #[trigger] written[request.offset + i]
                        == request.buffer.mem@[request.data + i]
                &&& forall|pos: int|
                    0 <= pos < bytes.len() && !(request.offset <= pos < end)
                        ==> #[trigger] written[pos] == bytes[pos]
                &&& forall|pos: int|
                    bytes.len() <= pos < request.offset ==> #[trigger] written[pos] == 0
                &&& written.len() <= i64::MAX ==> w.entries[request.inode as int]->0.stat.st_size
                    == written.len()
                &&& w.free == v.free
                &&& w.entries.len() == v.entries.len()
                &&& forall|j: int|
                    0 <= j < v.entries.len() && j != request.inode ==> w.entries[j]
                        == v.entries[j]
                // reading it back
                &&& answer(w, Request::Read(read), now) matches Ok(call)
                &&& call matches ReplyCallView::Buf { data }
                &&& data == request.buffer.mem@.subrange(
                    request.data as int,
                    request.data + read.size,
                )
            },
        },
{
    if let Ok(bytes) = v.bytes(request.inode) {
        let w = after(v, Request::Write(request), now);
        let data = request.spec_data();
        law_data_to_write(request);
        law_what_a_write_changes(v, request.inode, data, request.offset);
        let written = w.bytes(request.inode)->Ok_0;
        assert forall|i: int| 0 <= i < request.size implies #[trigger] written[request.offset + i]
            == request.buffer.mem@[request.data + i] by {
            assert(written[request.offset + i] == data[i]);
        }
        let told = answer(w, Request::Read(read), now)->Ok_0->Buf_data;
        assert forall|i: int| 0 <= i < read.size implies told[i] == request.buffer.mem@[request.data
            + i] by {
            assert(told[i] == written[request.offset + i]);
        }
        assert(told =~= request.buffer.mem@.subrange(
            request.data as int,
            request.data + read.size,
        ));
    }
}

/// Forgetting takes the references off that it says and has no answer; closing a file takes one
/// off. What is not there cannot be forgotten or closed.
pub proof fn law_forgetting_and_releasing(
    v: FsView,
    forget: Forget,
    release: Release,
    now: Duration,
)
    ensures
        ({
            let inode = forget.inode as int;
            let res = answer(v, Request::Forget(forget), now);
            if inode >= v.entries.len() {
                res == Err::<ReplyCallView, FsError>(FsError::NeverLookedUp)
            } else if v.entries[inode] is None {
                res == Err::<ReplyCallView, FsError>(FsError::Os(ENOENT))
            } else {
                &&& res == Ok::<ReplyCallView, FsError>(ReplyCallView::Nothing)
                &&& after(v, Request::Forget(forget), now) == v.forgot(forget.inode, forget.count)
            }
        }),
        ({
            let inode = release.inode as int;
            let res = answer(v, Request::Release(release), now);
            if inode >= v.entries.len() {
                res == Err::<ReplyCallView, FsError>(FsError::NeverLookedUp)
            } else if v.entries[inode] is None {
                res == Err::<ReplyCallView, FsError>(FsError::Os(ENOENT))
            } else {
                &&& res == Ok::<ReplyCallView, FsError>(ReplyCallView::Error { errno: 0 })
                &&& after(v, Request::Release(release), now) == v.forgot(release.inode, 1)
            }
        }),
{
}

/// Opening a file counts as a reference, and is answered with what the kernel gave for it, but
/// without a file handle.
pub proof fn law_opening_counts_one(v: FsView, request: Open, now: Duration)
    ensures
        ({
            let inode = request.inode as int;
            let res = answer(v, Request::Open(request), now);
            let w = after(v, Request::Open(request), now);
            if inode >= v.entries.len() {
                res == Err::<ReplyCallView, FsError>(FsError::NeverAdvertised(request.inode))
            } else if v.entries[inode] is None {
                res == Err::<ReplyCallView, FsError>(FsError::Os(ENOENT))
            } else {
                &&& res matches Ok(call)
                &&& call matches ReplyCallView::Open { file_info }
                &&& file_info.fh == 0
                &&& file_info.flags == request.file_info.flags
                &&& file_info.bits == request.file_info.bits
                &&& file_info.lock_owner == request.file_info.lock_owner
                &&& file_info.poll_events == request.file_info.poll_events
                &&& v.entries[inode]->0.lookups < usize::MAX ==> w.entries[inode] is Some
                    && w.entries[inode]->0.lookups == v.entries[inode]->0.lookups + 1
                &&& w.free == v.free
                &&& w.entries.len() == v.entries.len()
                &&& forall|j: int|
                    0 <= j < v.entries.len() && j != inode ==> w.entries[j] == v.entries[j]
            }
        }),
{
}

/// Whether `w` is `v` with something new in a directory, under a name that was not there: with as
/// many references as given, and the kind and the permissions that make up `mode`. What the kernel
/// is told of it is what a lookup of the name tells it.
pub open spec fn adds(
    v: FsView,
    w: FsView,
    parent: u64,
    name: Seq<u8>,
    mode: u32,
    lookups: nat,
    told: EntryParam,
) -> bool {
    let inode = told.inode as int;
    &&& w.wf()
    &&& if inode < v.entries.len() {
        v.entries[inode] is None && w.entries.len() == v.entries.len()
    } else {
        inode == v.entries.len() && w.entries.len() == inode + 1
    }
    &&& parent < v.entries.len()
    &&& v.entries[parent as int] matches Some(dir)
    &&& dir.content matches ContentView::Dir(before)
    &&& w.entries[parent as int] matches Some(left)
    &&& left.stat == dir.stat
    &&& left.lookups == dir.lookups
    &&& left.links == dir.links
    &&& left.parent == dir.parent
    &&& left.content matches ContentView::Dir(files)
    &&& files.contains((name, told.inode))
    &&& forall|file: (Seq<u8>, u64)| before.contains(file) ==> #[trigger] files.contains(file)
    &&& files.len() == before.len() + 1
    &&& w.entries[inode] matches Some(new)
    &&& new.parent == parent
    &&& new.lookups == lookups
    &&& new.links == 1
    &&& new.stat.st_mode == mode
    &&& new.stat.st_ino == inode
    &&& told.attr == new.stat
    &&& told.generation == 1
    &&& told.attr_timeout.bits == TIMEOUT_MAX_BITS
    &&& told.entry_timeout.bits == TIMEOUT_MAX_BITS
    &&& forall|j: int|
        0 <= j < v.entries.len() && j != inode && j != parent ==> w.entries[j] == v.entries[j]
}

/// What is created satisfies `adds`.
proof fn lemma_created_adds(
    v: FsView,
    parent: u64,
    name: Seq<u8>,
    mode: u32,
    content: ContentView,
    now: Duration,
)
    requires
        v.wf(),
        v.can_create(parent, name) is Ok,
        v.entries.len() < usize::MAX,
        content.names().len() == 0,
    ensures
        ({
            let stat = spec_new_stat(v.next_inode(), mode, 0, 0, now);
            let w = v.created(parent, name, mode, content, now);
            &&& adds(v, w, parent, name, mode, 1, spec_entry_param(stat))
            &&& w.entries[v.next_inode() as int]->0.content == content
            &&& v.next_inode() != parent
        }),
{
    let inode = v.next_inode();
    let w = v.created(parent, name, mode, content, now);
    lemma_created(v, parent, name, mode, content, now);
    law_what_is_created(v, parent, name, mode, content, now, (name, inode));
    let before = v.entries[parent as int]->0.content->Dir_0;
    let files = w.entries[parent as int]->0.content->Dir_0;
    assert forall|file: (Seq<u8>, u64)| before.contains(file) implies #[trigger] files.contains(
        file,
    ) by {
        law_what_is_created(v, parent, name, mode, content, now, file);
    }
}

/// Making a directory makes an empty one, to which the kernel refers once, and tells what it is.
/// Where a name is taken, or the place is no directory, nothing is made.
pub proof fn law_mkdir_makes_a_directory(v: FsView, request: Mkdir, now: Duration)
    requires
        v.wf(),
        v.entries.len() < usize::MAX,
    ensures
        ({
            let w = after(v, Request::Mkdir(request), now);
            match v.can_create(request.parent, request.dir_name@) {
                Err(err) => answer(v, Request::Mkdir(request), now) == Err::<
                    ReplyCallView,
                    FsError,
                >(err),
                Ok(()) => {
                    &&& answer(v, Request::Mkdir(request), now) matches Ok(call)
                    &&& call matches ReplyCallView::Entry { entry }
                    &&& adds(
                        v,
                        w,
                        request.parent,
                        request.dir_name@,
                        request.mode | 0o40000,
                        1,
                        entry,
                    )
                    &&& w.entries[entry.inode as int]->0.content matches ContentView::Dir(files)
                    &&& files.len() == 0
                },
            }
        }),
{
    if v.can_create(request.parent, request.dir_name@) is Ok {
        lemma_created_adds(
            v,
            request.parent,
            request.dir_name@,
            request.mode | S_IFDIR,
            ContentView::Dir(Seq::empty()),
            now,
        );
    }
}

/// Making a node makes an empty file, to which the kernel refers once, and tells what it is.
pub proof fn law_mknod_makes_a_file(v: FsView, request: Mknod, now: Duration)
    requires
        v.wf(),
        v.entries.len() < usize::MAX,
    ensures
        ({
            let w = after(v, Request::Mknod(request), now);
            match v.can_create(request.parent, request.file_name@) {
                Err(err) => answer(v, Request::Mknod(request), now) == Err::<
                    ReplyCallView,
                    FsError,
                >(err),
                Ok(()) => {
                    &&& answer(v, Request::Mknod(request), now) matches Ok(call)
                    &&& call matches ReplyCallView::Entry { entry }
                    &&& adds(
                        v,
                        w,
                        request.parent,
                        request.file_name@,
                        request.mode | 0o100000,
                        1,
                        entry,
                    )
                    &&& w.entries[entry.inode as int]->0.content matches ContentView::File(bytes)
                    &&& bytes.len() == 0
                },
            }
        }),
{
    if v.can_create(request.parent, request.file_name@) is Ok {
        lemma_created_adds(
            v,
            request.parent,
            request.file_name@,
            request.mode | S_IFREG,
            ContentView::File(Seq::empty()),
            now,
        );
    }
}

/// Creating a file makes an empty one and opens it, so that the kernel refers to it twice, and
/// tells what it is. It gets no file handle.
pub proof fn law_create_makes_an_open_file(v: FsView, request: Create, now: Duration)
    requires
        v.wf(),
        v.entries.len() < usize::MAX,
    ensures
        ({
            let w = after(v, Request::Create(request), now);
            match v.can_create(request.parent, request.file_name@) {
                Err(err) => answer(v, Request::Create(request), now) == Err::<
                    ReplyCallView,
                    FsError,
                >(err),
                Ok(()) => {
                    &&& answer(v, Request::Create(request), now) matches Ok(call)
                    &&& call matches ReplyCallView::Create { entry, file_info }
                    &&& file_info == (FuseFileInfo { fh: 0, ..request.file_info })
                    &&& adds(
                        v,
                        w,
                        request.parent,
                        request.file_name@,
                        request.mode | 0o100000,
                        2,
                        entry,
                    )
                    &&& w.entries[entry.inode as int]->0.content matches ContentView::File(bytes)
                    &&& bytes.len() == 0
                },
            }
        }),
{
    if v.can_create(request.parent, request.file_name@) is Ok {
        let inode = v.next_inode() as int;
        let mode = request.mode | S_IFREG;
        let content = ContentView::File(Seq::empty());
        let u = v.created(request.parent, request.file_name@, mode, content, now);
        lemma_created_adds(v, request.parent, request.file_name@, mode, content, now);
        assert(u.live(inode));
        let w = after(v, Request::Create(request), now);
        lemma_entry_changed(u, inode, w.entries[inode]->0);
        assert(w =~= u.put(inode, w.entries[inode]->0));
    }
}

/// A file is removed by its name, and a directory if it is empty. That is answered with success
/// exactly if it can be done; the name leads nowhere then, and all others lead where they did.
pub proof fn law_removing_is_answered(
    v: FsView,
    unlink: Unlink,
    rmdir: Rmdir,
    file: (Seq<u8>, u64),
    now: Duration,
)
    requires
        v.wf(),
    ensures
        match v.can_unlink(unlink.parent, unlink.file_name@, false) {
            Err(err) => answer(v, Request::Unlink(unlink), now) == Err::<ReplyCallView, FsError>(
                err,
            ),
            Ok(inode) => {
                let w = after(v, Request::Unlink(unlink), now);
                &&& answer(v, Request::Unlink(unlink), now) == Ok::<ReplyCallView, FsError>(
                    ReplyCallView::Error { errno: 0 },
                )
                &&& removes(v, w, unlink.parent, unlink.file_name@, inode, file)
            },
        },
        match v.can_unlink(rmdir.parent, rmdir.dir_name@, true) {
            Err(err) => answer(v, Request::Rmdir(rmdir), now) == Err::<ReplyCallView, FsError>(err),
            Ok(inode) => {
                let w = after(v, Request::Rmdir(rmdir), now);
                &&& answer(v, Request::Rmdir(rmdir), now) == Ok::<ReplyCallView, FsError>(
                    ReplyCallView::Error { errno: 0 },
                )
                &&& removes(v, w, rmdir.parent, rmdir.dir_name@, inode, file)
            },
        },
{
    if v.can_unlink(unlink.parent, unlink.file_name@, false) is Ok {
        law_what_removing_a_name_changes(v, unlink.parent, unlink.file_name@, false, file);
    }
    if v.can_unlink(rmdir.parent, rmdir.dir_name@, true) is Ok {
        law_what_removing_a_name_changes(v, rmdir.parent, rmdir.dir_name@, true, file);
    }
}

/// Whether `w` is `v` without a name in a directory, in which another name, `file`, is if it was.
/// What the name stood for is without a link, or not there where nothing referred to it.
pub open spec fn removes(
    v: FsView,
    w: FsView,
    parent: u64,
    name: Seq<u8>,
    inode: u64,
    file: (Seq<u8>, u64),
) -> bool {
    &&& parent < v.entries.len()
    &&& inode < v.entries.len()
    &&& w.entries.len() == v.entries.len()
    &&& v.entries[parent as int] matches Some(dir)
    &&& dir.content matches ContentView::Dir(before)
    &&& before.contains((name, inode))
    &&& w.entries[parent as int] matches Some(left)
    &&& left.stat == dir.stat
    &&& left.lookups == dir.lookups
    &&& left.links == dir.links
    &&& left.parent == dir.parent
    &&& left.content matches ContentView::Dir(files)
    &&& files.contains(file) <==> before.contains(file) && file.0 != name
    &&& v.entries[inode as int] matches Some(child)
    &&& if child.lookups == 0 {
        w.entries[inode as int] is None && w.free == v.free.push(inode)
    } else {
        &&& w.free == v.free
        &&& w.entries[inode as int] matches Some(kept)
        &&& kept.links == 0
        &&& kept.lookups == child.lookups
        &&& kept.parent == child.parent
        &&& kept.stat == child.stat
        &&& kept.content == child.content
    }
    &&& forall|j: int|
        0 <= j < v.entries.len() && j != inode && j != parent ==> w.entries[j] == v.entries[j]
}

/// Whether the attributes of everything tell its inode.
pub open spec fn inodes_are_told(v: FsView) -> bool {
    forall|j: int|
        0 <= j < v.entries.len() && (
        #[trigger] v.entries[j]) is Some ==> v.entries[j]->0.stat.st_ino == j
}

/// The attributes of everything tell its inode, from the beginning and whatever is requested.
pub proof fn law_attributes_tell_the_inode(v: FsView, request: Request, now: Duration)
    requires
        v.wf(),
        v.entries.len() < usize::MAX,
        inodes_are_told(v),
    ensures
        inodes_are_told(empty_fs(now)),
        inodes_are_told(after(v, request, now)),
{
    let w = after(v, request, now);
    match request {
        Request::Setattr(r) => {
            if v.look(r.inode) is Ok {
                law_other_attributes_stay(v.entry(r.inode as int).stat, r, now);
            }
        },
        Request::Forget(r) => {
            if v.look(r.inode) is Ok {
                lemma_forgetting_keeps_inodes(v, r.inode, r.count);
            }
        },
        Request::Release(r) => {
            if v.look(r.inode) is Ok {
                lemma_forgetting_keeps_inodes(v, r.inode, 1);
            }
        },
        Request::Unlink(r) => {
            if v.can_unlink(r.parent, r.file_name@, false) is Ok {
                law_what_removing_a_name_changes(
                    v,
                    r.parent,
                    r.file_name@,
                    false,
                    (Seq::empty(), 0),
                );
            }
        },
        Request::Rmdir(r) => {
            if v.can_unlink(r.parent, r.dir_name@, true) is Ok {
                law_what_removing_a_name_changes(v, r.parent, r.dir_name@, true, (Seq::empty(), 0));
            }
        },
        Request::Mkdir(r) => {
            law_mkdir_makes_a_directory(v, r, now);
        },
        Request::Mknod(r) => {
            law_mknod_makes_a_file(v, r, now);
        },
        Request::Create(r) => {
            law_create_makes_an_open_file(v, r, now);
        },
        Request::Lookup(r) => {
            if let Ok(found) = v.look_at(r.parent, r.file_name@) {
                lemma_found_is_there(v, r.parent, r.file_name@);
            }
        },
        _ => {},
    }
    assert forall|j: int|
        0 <= j < w.entries.len() && (
        #[trigger] w.entries[j]) is Some implies w.entries[j]->0.stat.st_ino == j by {
        if j < v.entries.len() && v.entries[j] is Some {
            assert(v.entries[j]->0.stat.st_ino == j);
        }
    }
}

/// Forgetting leaves the attributes that tell inodes.
proof fn lemma_forgetting_keeps_inodes(v: FsView, inode: u64, count: u64)
    requires
        v.wf(),
        inodes_are_told(v),
        v.look(inode) is Ok,
    ensures
        inodes_are_told(v.forgot(inode, count)),
{
    let entry = v.entries[inode as int]->0;
    if entry.lookups <= count && entry.links == 0 {
        law_only_what_is_inside_goes(v, inode, count);
        let w = v.forgot(inode, count);
        assert forall|j: int|
            0 <= j < w.entries.len() && (
            #[trigger] w.entries[j]) is Some implies w.entries[j]->0.stat.st_ino == j by {
            assert(v.entries[j] is Some);
        }
    }
}

/// A listing tells the attributes of what each name stands for, of the directory in which this one
/// was created for `..`, and of itself for `.`. There is nothing before the beginning or after the
/// end.
pub proof fn law_listing_tells_attributes(v: FsView, inode: u64, pos: int)
    requires
        v.wf(),
        inode < v.entries.len(),
        v.entries[inode as int] is Some,
    ensures
        match v.entries[inode as int]->0.content {
            ContentView::File(_) => list_at(v, inode, pos) == ListView::Fail(FsError::Os(ENOTDIR)),
            ContentView::Dir(files) => if pos < 0 || pos > files.len() + 1 {
                list_at(v, inode, pos) == ListView::End
            } else {
                let parent = v.entries[inode as int]->0.parent;
                pos < isize::MAX ==> if pos < files.len() {
                    &&& list_at(v, inode, pos) matches ListView::Entry { name, stat, next }
                    &&& name == files[pos].0
                    &&& v.entries[files[pos].1 as int] matches Some(child)
                    &&& stat == child.stat
                    &&& next == pos + 1
                } else if pos == files.len() {
                    if parent < v.entries.len() && v.entries[parent as int] is Some {
                        &&& list_at(v, inode, pos) matches ListView::Entry { name, stat, next }
                        &&& name == seq![0x2eu8, 0x2eu8]
                        &&& stat == v.entries[parent as int]->0.stat
                        &&& next == pos + 1
                    } else {
                        list_at(v, inode, pos) is Fail
                    }
                } else {
                    &&& list_at(v, inode, pos) matches ListView::Entry { name, stat, next }
                    &&& name == seq![0x2eu8]
                    &&& stat == v.entries[inode as int]->0.stat
                    &&& next == pos + 1
                }
            },
        },
{
    assert(v.live(inode as int));
    if let ContentView::Dir(files) = v.entries[inode as int]->0.content {
        if 0 <= pos < files.len() {
            assert(v.is_name(inode as int, pos));
        }
    }
}

/// What is not there cannot be listed.
pub proof fn law_nothing_is_not_listed(v: FsView, inode: u64, pos: int)
    ensures
        inode >= v.entries.len() ==> list_at(v, inode, pos) == ListView::Fail(
            FsError::NeverAdvertised(inode),
        ),
        inode < v.entries.len() && v.entries[inode as int] is None ==> list_at(v, inode, pos)
            == ListView::Fail(FsError::Os(ENOENT)),
{
}

/// Which requests can be handled: all but those that would set a time that cannot be represented,
/// write data that is not in their buffer or to where no file can reach, or read from beyond the
/// end of a file.
pub proof fn law_which_requests_are_acceptable(
    v: FsView,
    setattr: Setattr,
    write: Write,
    read: Read,
    other: Request,
)
    ensures
        v.look(setattr.inode) is Err ==> spec_acceptable(v, Request::Setattr(setattr)),
        0 <= setattr.stat.st_atime && 0 <= setattr.stat.st_atime_nsec <= u32::MAX && 0
            <= setattr.stat.st_mtime && 0 <= setattr.stat.st_mtime_nsec <= u32::MAX && 0
            <= setattr.stat.st_ctime && 0 <= setattr.stat.st_ctime_nsec <= u32::MAX
            ==> spec_acceptable(v, Request::Setattr(setattr)),
        spec_acceptable(v, Request::Write(write)) <==> {
            &&& write.data + write.size <= write.buffer.mem@.len()
            &&& v.bytes(write.inode) is Ok ==> write.offset + write.size <= u64::MAX
        },
        spec_acceptable(v, Request::Read(read)) <==> (v.bytes(read.inode) matches Ok(bytes)
            ==> read.offset <= bytes.len()),
        !(other is Setattr || other is Write || other is Read) ==> spec_acceptable(v, other),
{
    law_times_are_taken_as_they_are(setattr.stat.st_atime, setattr.stat.st_atime_nsec);
    law_times_are_taken_as_they_are(setattr.stat.st_mtime, setattr.stat.st_mtime_nsec);
    law_times_are_taken_as_they_are(setattr.stat.st_ctime, setattr.stat.st_ctime_nsec);
}

/// The requests that are answered, and those that end the file system, which change nothing.
pub proof fn law_which_requests_are_known(v: FsView, request: Request, now: Duration)
    ensures
        !known(request) ==> after(v, request, now) == v,
        known(request) <==> request is Lookup || request is Forget || request is Getattr
            || request is Setattr || request is Readdir || request is Mkdir || request is Create
            || request is Mknod || request is Open || request is Release || request is Read
            || request is Unlink || request is Rmdir || request is Write,
{
}

/// What is said of how a request was handled is said of the reply that is sent.
pub proof fn law_handled_is_seen_as_it_is(handled: Handled, error: FsError, reply: ReplyView)
    ensures
        handled.replies(reply) <==> (handled matches Handled::Reply(sent) && sent@ == reply),
        handled.fails(error, Some(reply)) <==> (handled matches Handled::Failed {
            error: e,
            reply: Some(sent),
        } && e == error && sent@ == reply),
{
}

} // verus!
