//! Replies: the libfuse calls that answer requests.

use vstd::prelude::*;

use crate::errno::ENOSYS;
use crate::error::IoError;
use crate::sys::{EntryParam, FuseFileInfo, Request};
use crate::util::{CString, Stat, Timeout};

verus! {

/// A libfuse call that answers a request, without the request's handle.
#[derive(Debug)]
pub enum ReplyCall {
    /// `fuse_reply_err`: an error number, or zero for success.
    Error { errno: i32 },

    /// `fuse_reply_none`: nothing is sent.
    Nothing,

    /// `fuse_reply_attr`.
    Attr { stat: Stat, timeout: Timeout },

    /// `fuse_reply_entry`.
    Entry { entry: EntryParam },

    /// `fuse_reply_create`.
    Create { entry: EntryParam, file_info: FuseFileInfo },

    /// `fuse_reply_open`.
    Open { file_info: FuseFileInfo },

    /// `fuse_reply_buf`.
    Buf { data: Vec<u8> },

    /// `fuse_reply_xattr`.
    XAttr { size: usize },

    /// `fuse_reply_readlink`.
    Readlink { link: CString },

    /// `fuse_reply_write`.
    Write { count: usize },
}

/// What a `ReplyCall` says, with bytes as sequences.
#[verifier::ext_equal]
pub enum ReplyCallView {
    Error { errno: i32 },
    Nothing,
    Attr { stat: Stat, timeout: Timeout },
    Entry { entry: EntryParam },
    Create { entry: EntryParam, file_info: FuseFileInfo },
    Open { file_info: FuseFileInfo },
    Buf { data: Seq<u8> },
    XAttr { size: usize },
    Readlink { link: Seq<u8> },
    Write { count: usize },
}

impl View for ReplyCall {
    type V = ReplyCallView;

    open spec fn view(&self) -> ReplyCallView {
        match *self {
            ReplyCall::Error { errno } => ReplyCallView::Error { errno },
            ReplyCall::Nothing => ReplyCallView::Nothing,
            ReplyCall::Attr { stat, timeout } => ReplyCallView::Attr { stat, timeout },
            ReplyCall::Entry { entry } => ReplyCallView::Entry { entry },
            ReplyCall::Create { entry, file_info } => ReplyCallView::Create { entry, file_info },
            ReplyCall::Open { file_info } => ReplyCallView::Open { file_info },
            ReplyCall::Buf { data } => ReplyCallView::Buf { data: data@ },
            ReplyCall::XAttr { size } => ReplyCallView::XAttr { size },
            ReplyCall::Readlink { link } => ReplyCallView::Readlink { link: link@ },
            ReplyCall::Write { count } => ReplyCallView::Write { count },
        }
    }
}

/// A libfuse call to make for a request, and what hangs on its return code.
#[derive(Debug)]
pub struct Reply {
    /// The handle of the request that the call answers.
    pub request: Request,

    /// The call.
    pub call: ReplyCall,

    /// Whether the request's guard is still armed while the call is made. The guard is disarmed
    /// when the call succeeds, and answers the request when it fails.
    pub armed: bool,

    /// Whether a failure of the call is reported to the one who replies.
    pub reported: bool,
}

/// What a `Reply` says, with bytes as sequences.
#[verifier::ext_equal]
pub struct ReplyView {
    pub request: Request,
    pub call: ReplyCallView,
    pub armed: bool,
    pub reported: bool,
}

impl View for Reply {
    type V = ReplyView;

    open spec fn view(&self) -> ReplyView {
        ReplyView {
            request: self.request,
            call: self.call@,
            armed: self.armed,
            reported: self.reported,
        }
    }
}

/// An error reply for a request whose guard is disarmed.
pub open spec fn err_reply(request: Request, errno: i32) -> ReplyView {
    ReplyView { request, call: ReplyCallView::Error { errno }, armed: false, reported: true }
}

/// A reply for a request whose guard stays armed until the reply is sent.
pub open spec fn guarded_reply(request: Request, call: ReplyCallView) -> ReplyView {
    ReplyView { request, call, armed: true, reported: true }
}

/// A reply of bytes for a request whose guard is disarmed.
pub open spec fn buffer_reply(request: Request, data: Seq<u8>) -> ReplyView {
    ReplyView { request, call: ReplyCallView::Buf { data }, armed: false, reported: true }
}

/// What the guard of an unanswered request sends when it is dropped: `ENOSYS`, unless there is
/// no request.
pub open spec fn guard_reply(request: Request) -> Option<ReplyView> {
    if request.spec_is_null() {
        None
    } else {
        Some(
            ReplyView {
                request,
                call: ReplyCallView::Error { errno: ENOSYS },
                armed: false,
                reported: false,
            },
        )
    }
}

/// The view of an optional reply.
pub open spec fn opt_view(reply: Option<Reply>) -> Option<ReplyView> {
    match reply {
        Some(reply) => Some(reply@),
        None => None,
    }
}

/// How a reply ends whose call returned `rc`: what the one who replied learns, and what the
/// request's guard sends.
pub open spec fn spec_finish(reply: ReplyView, rc: int) -> (
    Result<(), IoError>,
    Option<ReplyView>,
) {
    (
        if rc == 0 || !reply.reported {
            Ok(())
        } else {
            Err(IoError::Os((-rc) as i32))
        },
        if rc != 0 && reply.armed {
            guard_reply(reply.request)
        } else {
            None
        },
    )
}

/// How a reply ended.
#[derive(Debug)]
pub struct Finished {
    /// What the one who replied learns.
    pub result: Result<(), IoError>,

    /// What the request's guard sends because the call failed. Its result is ignored.
    pub guard: Option<Reply>,
}

impl Reply {
    /// The reply's call returned `rc`: zero, or a negated error number.
    pub fn finish(self, rc: i32) -> (res: Finished)
        requires
            rc != i32::MIN,
        ensures
            (res.result, opt_view(res.guard)) == spec_finish(self@, rc as int),
    {
        let result = if rc == 0 || !self.reported {
            Ok(())
        } else {
            Err(IoError::Os(-rc))
        };
        let guard = if rc != 0 && self.armed {
            RequestGuard { raw: self.request }.on_drop()
        } else {
            None
        };
        Finished { result, guard }
    }
}

/// Holds the handle of a request that was not answered yet. A guard that is dropped answers the
/// request with `ENOSYS`.
#[derive(Debug)]
pub struct RequestGuard {
    pub raw: Request,
}

impl RequestGuard {
    /// The guard of a request.
    pub fn from_raw(raw: Request) -> (res: RequestGuard)
        ensures
            res == (RequestGuard { raw }),
    {
        RequestGuard { raw }
    }

    /// Consume the request and to not trigger the automatic `ENOSYS` response.
    pub fn into_raw(self) -> (res: Request)
        ensures
            res == self.raw,
    {
        self.raw
    }

    /// What is sent when the guard is dropped.
    pub fn on_drop(&self) -> (res: Option<Reply>)
        ensures
            opt_view(res) == guard_reply(self.raw),
    {
        if self.raw.is_null() {
            None
        } else {
            Some(
                Reply {
                    request: self.raw,
                    call: ReplyCall::Error { errno: ENOSYS },
                    armed: false,
                    reported: false,
                },
            )
        }
    }
}

/// Fail a request with an error number; zero is how requests that return nothing succeed.
pub fn reply_err(request: RequestGuard, errno: i32) -> (res: Reply)
    ensures
        res@ == err_reply(request.raw, errno),
{
    Reply {
        request: request.into_raw(),
        call: ReplyCall::Error { errno },
        armed: false,
        reported: true,
    }
}

/// A reply whose request stays guarded until the call succeeded.
pub fn reply_guarded(request: RequestGuard, call: ReplyCall) -> (res: Reply)
    ensures
        res@ == guarded_reply(request.raw, call@),
{
    Reply { request: request.raw, call, armed: true, reported: true }
}

/// A reply that was sent ends the matter: whoever replied learns of no error, and the request's
/// guard stays silent.
pub proof fn law_sent_reply_is_the_only_one(reply: ReplyView)
    ensures
        spec_finish(reply, 0) == (Ok::<(), IoError>(()), None::<ReplyView>),
{
}

/// Where a guarded reply could not be sent, the error is reported, and the request is not left
/// without an answer: its guard answers it, once. Whatever comes of that, nothing more is sent.
pub proof fn law_failed_reply_is_followed_by_enosys(
    request: Request,
    call: ReplyCallView,
    rc: int,
    guard_rc: int,
)
    requires
        !request.spec_is_null(),
        rc != 0,
    ensures
        ({
            let (result, guard) = spec_finish(guarded_reply(request, call), rc);
            &&& result == Err::<(), IoError>(IoError::Os((-rc) as i32))
            &&& guard matches Some(reply)
            &&& reply.request == request
            &&& reply.call == (ReplyCallView::Error { errno: ENOSYS })
            &&& spec_finish(reply, guard_rc) == (Ok::<(), IoError>(()), None::<ReplyView>)
        }),
{
}

/// An error reply is the last one for its request, whether it could be sent or not.
pub proof fn law_error_reply_is_the_last(request: Request, errno: i32, rc: int)
    ensures
        spec_finish(err_reply(request, errno), rc).1 is None,
{
}

/// How many calls for a request succeed, when the call of the reply returns `rc`, and that of the
/// guard, if it sends anything, `guard_rc`.
pub open spec fn answers(reply: ReplyView, rc: int, guard_rc: int) -> nat {
    let guard = spec_finish(reply, rc).1;
    (if rc == 0 {
        1nat
    } else {
        0
    }) + (if guard is Some && guard_rc == 0 {
        1nat
    } else {
        0
    })
}

/// A request is answered at most once. One whose guard is armed stays without an answer only if
/// neither the reply nor what the guard sends gets through.
pub proof fn law_request_is_answered_once(reply: ReplyView, rc: int, guard_rc: int)
    ensures
        answers(reply, rc, guard_rc) <= 1,
        reply.armed && !reply.request.spec_is_null() ==> (answers(reply, rc, guard_rc) == 1
            <==> rc == 0 || guard_rc == 0),
        spec_finish(reply, rc).1 matches Some(guard) ==> spec_finish(guard, guard_rc).1 is None,
{
}

/// A reply carries what it is made of, for the request that it is made for. Its failure is told to
/// whoever replies.
pub proof fn law_replies_carry_what_they_are_given(
    request: Request,
    call: ReplyCallView,
    data: Seq<u8>,
    errno: i32,
)
    ensures
        guarded_reply(request, call).request == request,
        guarded_reply(request, call).call == call,
        guarded_reply(request, call).armed,
        guarded_reply(request, call).reported,
        buffer_reply(request, data).request == request,
        buffer_reply(request, data).call == (ReplyCallView::Buf { data }),
        !buffer_reply(request, data).armed,
        buffer_reply(request, data).reported,
        err_reply(request, errno).request == request,
        err_reply(request, errno).call == (ReplyCallView::Error { errno }),
        !err_reply(request, errno).armed,
        err_reply(request, errno).reported,
{
}

/// A guard answers its request with `ENOSYS`, once, and tells no one of a failure; where there is
/// no request it is silent.
pub proof fn law_guard_answers_its_request(request: Request)
    ensures
        request.raw == 0 <==> guard_reply(request) is None,
        guard_reply(request) matches Some(reply) ==> {
            &&& reply.request == request
            &&& reply.call == (ReplyCallView::Error { errno: ENOSYS })
            &&& !reply.armed
            &&& !reply.reported
        },
{
}

/// A reply that is reported ends well exactly if libfuse returned zero, and otherwise with the
/// error number that libfuse negated.
pub proof fn law_results_of_replies(reply: ReplyView, rc: i32)
    requires
        reply.reported,
        rc != i32::MIN,
    ensures
        rc == 0 <==> spec_finish(reply, rc as int).0 == Ok::<(), IoError>(()),
        rc != 0 ==> (spec_finish(reply, rc as int).0 matches Err(IoError::Os(errno)) && errno + rc
            == 0),
{
}

/// What is said of a reply is said of the call that is made.
pub proof fn law_replies_are_seen_as_they_are(reply: Reply)
    ensures
        reply@.request == reply.request,
        reply@.armed == reply.armed,
        reply@.reported == reply.reported,
        match reply.call {
            ReplyCall::Error { errno } => reply@.call == (ReplyCallView::Error { errno }),
            ReplyCall::Nothing => reply@.call == ReplyCallView::Nothing,
            ReplyCall::Attr { stat, timeout } => reply@.call == (ReplyCallView::Attr {
                stat,
                timeout,
            }),
            ReplyCall::Entry { entry } => reply@.call == (ReplyCallView::Entry { entry }),
            ReplyCall::Create { entry, file_info } => reply@.call == (ReplyCallView::Create {
                entry,
                file_info,
            }),
            ReplyCall::Open { file_info } => reply@.call == (ReplyCallView::Open { file_info }),
            ReplyCall::Buf { data } => reply@.call == (ReplyCallView::Buf { data: data@ }),
            ReplyCall::XAttr { size } => reply@.call == (ReplyCallView::XAttr { size }),
            ReplyCall::Readlink { link } => reply@.call == (ReplyCallView::Readlink {
                link: link@,
            }),
            ReplyCall::Write { count } => reply@.call == (ReplyCallView::Write { count }),
        },
        opt_view(Some(reply)) == Some(reply@),
        opt_view(None) is None,
{
}

} // verus!
