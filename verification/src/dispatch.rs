//! How a request to a session is served.
//!
//! While a request is served, the connection blocks. A request that has a place for its answer is
//! answered once, with what came of it; a failure of one that has none is logged.

use crate::failure::Failure;
use crate::requests::{
    CreateDir, DirRequest, Exec, FileRequest, OpenWithMode, Rename, SessionRequest, SetMetadata,
    SftpRequest, SignalChannel, Symlink,
};
use crate::resources::{Resources, SessionWrap};
use crate::session::{invalid_channel, DirId, FileId, SessionInner, SessionView};
use crate::text::decimal;
use camino::Utf8PathBuf;
use vstd::prelude::*;

verus! {

broadcast use vstd::std_specs::hash::group_hash_axioms;

/// Why there is no request.
#[derive(Clone, Copy, Debug, PartialEq, Eq, Structural)]
pub enum RecvError {
    /// None is waiting.
    Empty,
    /// None can come any more.
    Closed,
}

/// An operation of the file transfer subsystem.
pub enum SftpOp<R: Resources> {
    Open(OpenWithMode<R>),
    OpenDir(Utf8PathBuf),
    ReadDir(Utf8PathBuf),
    CreateDir(CreateDir),
    RemoveDir(Utf8PathBuf),
    Metadata(Utf8PathBuf),
    SymlinkMetadata(Utf8PathBuf),
    SetMetadata(SetMetadata<R>),
    Symlink(Symlink),
    ReadLink(Utf8PathBuf),
    Canonicalize(Utf8PathBuf),
    Rename(Rename<R>),
    RemoveFile(Utf8PathBuf),
}

/// An operation on an open file.
pub enum FileOp<R: Resources> {
    /// Write all of the data.
    Write(Vec<u8>),
    /// Read at most that many bytes.
    Read(usize),
    Flush,
    SetMetadata(R::Metadata),
    Metadata,
    Fsync,
}

/// The answer to a request that went well.
pub enum ReplyValue<R: Resources, B> {
    /// What the operation gave.
    Value(R::Value),
    /// The file is open, under this number.
    File(FileId),
    /// The directory is open, under this number.
    Dir(DirId),
    /// What was read.
    Data(B),
    /// It is done.
    Unit,
}

/// What the driver is to do next.
pub enum DispatchAction<R: Resources, B, F> {
    /// Look for a request.
    TryRecv,
    /// Make the connection blocking, or not.
    SetBlocking(bool),
    /// Open a channel with a terminal.
    NewPty(R::NewPty),
    /// Resize a terminal.
    ResizePty(R::ResizePty),
    /// Run a command.
    Exec(Exec),
    /// Send a signal to a channel.
    SendSignal(SignalChannel),
    /// Open the file transfer subsystem.
    OpenSftp,
    /// Have the file transfer subsystem do this.
    Sftp(SftpOp<R>),
    /// Do this on an open file.
    File(FileId, FileOp<R>),
    /// Read the next entry of an open directory.
    ReadDir(DirId),
    /// Send this answer there. If nobody waits for it, it is dropped.
    Reply(R::Reply, Result<ReplyValue<R, B>, F>),
    /// Log this failure of a request that is not answered.
    Report(F),
    /// The request is served; or there was none, or none can come any more.
    Finished(Result<bool, F>),
}

/// An action, with sequences for what it carries.
pub type DispatchActionView<R> = DispatchAction<R, Seq<u8>, Seq<Seq<char>>>;

impl<R: Resources> View for ReplyValue<R, Vec<u8>> {
    type V = ReplyValue<R, Seq<u8>>;

    open spec fn view(&self) -> ReplyValue<R, Seq<u8>> {
        match *self {
            ReplyValue::Value(value) => ReplyValue::Value(value),
            ReplyValue::File(id) => ReplyValue::File(id),
            ReplyValue::Dir(id) => ReplyValue::Dir(id),
            ReplyValue::Data(data) => ReplyValue::Data(data@),
            ReplyValue::Unit => ReplyValue::Unit,
        }
    }
}

/// An answer, with sequences for what it carries.
pub open spec fn reply_view<R: Resources>(r: Result<ReplyValue<R, Vec<u8>>, Failure>) -> Result<
    ReplyValue<R, Seq<u8>>,
    Seq<Seq<char>>,
> {
    match r {
        Ok(value) => Ok(value@),
        Err(failure) => Err(failure@),
    }
}

impl<R: Resources> View for DispatchAction<R, Vec<u8>, Failure> {
    type V = DispatchActionView<R>;

    open spec fn view(&self) -> DispatchActionView<R> {
        match *self {
            DispatchAction::TryRecv => DispatchAction::TryRecv,
            DispatchAction::SetBlocking(on) => DispatchAction::SetBlocking(on),
            DispatchAction::NewPty(pty) => DispatchAction::NewPty(pty),
            DispatchAction::ResizePty(size) => DispatchAction::ResizePty(size),
            DispatchAction::Exec(exec) => DispatchAction::Exec(exec),
            DispatchAction::SendSignal(info) => DispatchAction::SendSignal(info),
            DispatchAction::OpenSftp => DispatchAction::OpenSftp,
            DispatchAction::Sftp(op) => DispatchAction::Sftp(op),
            DispatchAction::File(id, op) => DispatchAction::File(id, op),
            DispatchAction::ReadDir(id) => DispatchAction::ReadDir(id),
            DispatchAction::Reply(to, r) => DispatchAction::Reply(to, reply_view(r)),
            DispatchAction::Report(failure) => DispatchAction::Report(failure@),
            DispatchAction::Finished(Ok(served)) => DispatchAction::Finished(Ok(served)),
            DispatchAction::Finished(Err(failure)) => DispatchAction::Finished(Err(failure@)),
        }
    }
}

/// How the action that was given last came out.
pub enum DispatchEvent<R: Resources> {
    /// What looking for a request gave.
    Received(Result<SessionRequest<R>, RecvError>),
    /// It is done.
    Done,
    /// What opening the file transfer subsystem returned.
    SftpOpened(Result<R::Sftp, Failure>),
    /// What opening a file returned.
    FileOpened(Result<R::File, Failure>),
    /// What opening a directory returned.
    DirOpened(Result<R::Dir, Failure>),
    /// The buffer that data was read into and the number of bytes read.
    FileRead(Result<(Vec<u8>, usize), Failure>),
    /// What any other operation returned.
    Completed(Result<R::Value, Failure>),
}

/// How far the service of a request has come.
pub enum DispatchTask<R: Resources> {
    /// A request is looked for.
    Receive,
    /// The connection is made blocking for this request.
    Block(SessionRequest<R>),
    /// The file transfer subsystem is opened for this operation.
    Sftp(SftpOp<R>, R::Reply),
    /// A file is opened.
    Open(R::Reply),
    /// A directory is opened.
    OpenDir(R::Reply),
    /// Data is read from a file.
    Read(R::Reply),
    /// Another operation runs.
    Operation(Option<R::Reply>),
    /// The answer is sent, or a failure is logged.
    Answer,
    /// The connection is made non-blocking again.
    Unblock,
    /// The request is served.
    Finished,
}

/// What a step comes to: the session, how far the service has come, and the action.
pub type DispatchStep<R> = (SessionView<R>, DispatchTask<R>, DispatchActionView<R>);

/// To answer.
pub open spec fn answered<R: Resources>(
    session: SessionView<R>,
    to: R::Reply,
    r: Result<ReplyValue<R, Seq<u8>>, Seq<Seq<char>>>,
) -> DispatchStep<R> {
    (session, DispatchTask::Answer, DispatchAction::Reply(to, r))
}

/// To log a failure of a request that is not answered.
pub open spec fn reported<R: Resources>(
    session: SessionView<R>,
    failure: Seq<Seq<char>>,
) -> DispatchStep<R> {
    (session, DispatchTask::Answer, DispatchAction::Report(failure))
}

/// To end the service of a request without an answer.
pub open spec fn unblocked<R: Resources>(session: SessionView<R>) -> DispatchStep<R> {
    (session, DispatchTask::Unblock, DispatchAction::SetBlocking(false))
}

/// To have the file transfer subsystem do `op`. `open` tells whether it is there.
pub open spec fn with_sftp<R: Resources>(
    session: SessionView<R>,
    open: bool,
    op: SftpOp<R>,
    to: R::Reply,
) -> DispatchStep<R> {
    if open {
        (session, sftp_task(op, to), DispatchAction::Sftp(op))
    } else {
        (session, DispatchTask::Sftp(op, to), DispatchAction::OpenSftp)
    }
}

/// What is awaited while the file transfer subsystem does `op`.
pub open spec fn sftp_task<R: Resources>(op: SftpOp<R>, to: R::Reply) -> DispatchTask<R> {
    match op {
        SftpOp::Open(_) => DispatchTask::Open(to),
        SftpOp::OpenDir(_) => DispatchTask::OpenDir(to),
        _ => DispatchTask::Operation(Some(to)),
    }
}

/// To do `op` on the file `id`, if it is open.
pub open spec fn on_file<R: Resources>(
    session: SessionView<R>,
    id: FileId,
    op: FileOp<R>,
    to: R::Reply,
) -> DispatchStep<R> {
    if session.files.contains_key(id) {
        (
            session,
            if op is Read {
                DispatchTask::Read(to)
            } else {
                DispatchTask::Operation(Some(to))
            },
            DispatchAction::File(id, op),
        )
    } else {
        answered(session, to, Err(seq!["invalid file_id"@]))
    }
}

/// The first step for a request, once the connection blocks. `sftp` tells whether the file
/// transfer subsystem is open.
pub open spec fn begin<R: Resources>(
    session: SessionView<R>,
    sftp: bool,
    req: SessionRequest<R>,
) -> DispatchStep<R> {
    match req {
        SessionRequest::SessionDropped => unblocked(
            SessionView { session_was_dropped: true, ..session },
        ),
        SessionRequest::NewPty(pty, to) => (
            session,
            DispatchTask::Operation(Some(to)),
            DispatchAction::NewPty(pty),
        ),
        SessionRequest::ResizePty(size, to) => (
            session,
            DispatchTask::Operation(to),
            DispatchAction::ResizePty(size),
        ),
        SessionRequest::Exec(exec, to) => (
            session,
            DispatchTask::Operation(Some(to)),
            DispatchAction::Exec(exec),
        ),
        SessionRequest::SignalChannel(info) => if session.channels.contains_key(info.channel) {
            (session, DispatchTask::Operation(None), DispatchAction::SendSignal(info))
        } else {
            reported(session, invalid_channel(info.channel))
        },
        SessionRequest::Sftp(req) => begin_sftp(session, sftp, req),
    }
}

/// The first step for a request to work on remote files.
pub open spec fn begin_sftp<R: Resources>(
    session: SessionView<R>,
    sftp: bool,
    req: SftpRequest<R>,
) -> DispatchStep<R> {
    match req {
        SftpRequest::OpenWithMode(msg, to) => with_sftp(session, sftp, SftpOp::Open(msg), to),
        SftpRequest::OpenDir(path, to) => with_sftp(session, sftp, SftpOp::OpenDir(path), to),
        SftpRequest::File(req) => begin_file(session, req),
        SftpRequest::Dir(DirRequest::Close(id, to)) => if session.dirs.contains_key(id) {
            answered(
                SessionView { dirs: session.dirs.remove(id), ..session },
                to,
                Ok(ReplyValue::Unit),
            )
        } else {
            answered(session, to, Err(seq!["invalid dir_id"@]))
        },
        SftpRequest::Dir(DirRequest::ReadDir(id, to)) => if session.dirs.contains_key(id) {
            (session, DispatchTask::Operation(Some(to)), DispatchAction::ReadDir(id))
        } else {
            answered(session, to, Err(seq!["invalid dir_id"@]))
        },
        SftpRequest::ReadDir(path, to) => with_sftp(session, sftp, SftpOp::ReadDir(path), to),
        SftpRequest::CreateDir(msg, to) => with_sftp(session, sftp, SftpOp::CreateDir(msg), to),
        SftpRequest::RemoveDir(path, to) => with_sftp(session, sftp, SftpOp::RemoveDir(path), to),
        SftpRequest::Metadata(path, to) => with_sftp(session, sftp, SftpOp::Metadata(path), to),
        SftpRequest::SymlinkMetadata(path, to) => with_sftp(
            session,
            sftp,
            SftpOp::SymlinkMetadata(path),
            to,
        ),
        SftpRequest::SetMetadata(msg, to) => with_sftp(session, sftp, SftpOp::SetMetadata(msg), to),
        SftpRequest::Symlink(msg, to) => with_sftp(session, sftp, SftpOp::Symlink(msg), to),
        SftpRequest::ReadLink(path, to) => with_sftp(session, sftp, SftpOp::ReadLink(path), to),
        SftpRequest::Canonicalize(path, to) => with_sftp(
            session,
            sftp,
            SftpOp::Canonicalize(path),
            to,
        ),
        SftpRequest::Rename(msg, to) => with_sftp(session, sftp, SftpOp::Rename(msg), to),
        SftpRequest::RemoveFile(path, to) => with_sftp(session, sftp, SftpOp::RemoveFile(path), to),
    }
}

/// The first step for a request to work on an open file.
pub open spec fn begin_file<R: Resources>(
    session: SessionView<R>,
    req: FileRequest<R>,
) -> DispatchStep<R> {
    match req {
        FileRequest::Write(msg, to) => on_file(session, msg.file_id, FileOp::Write(msg.data), to),
        FileRequest::Read(msg, to) => on_file(
            session,
            msg.file_id,
            FileOp::Read(msg.max_bytes),
            to,
        ),
        FileRequest::Close(id, to) => answered(
            SessionView { files: session.files.remove(id), ..session },
            to,
            Ok(ReplyValue::Unit),
        ),
        FileRequest::Flush(id, to) => on_file(session, id, FileOp::Flush, to),
        FileRequest::SetMetadata(msg, to) => on_file(
            session,
            msg.file_id,
            FileOp::SetMetadata(msg.metadata),
            to,
        ),
        FileRequest::Metadata(id, to) => on_file(session, id, FileOp::Metadata, to),
        FileRequest::Fsync(id, to) => on_file(session, id, FileOp::Fsync, to),
    }
}

impl<R: Resources> DispatchTask<R> {
    /// Whether `ev` can be the outcome of the awaited action.
    pub open spec fn accepts(self, session: SessionView<R>, ev: DispatchEvent<R>) -> bool {
        match (self, ev) {
            (DispatchTask::Receive, DispatchEvent::Received(_)) => true,
            (DispatchTask::Block(_), DispatchEvent::Done) => true,
            (DispatchTask::Sftp(_, _), DispatchEvent::SftpOpened(_)) => true,
            (DispatchTask::Open(_), DispatchEvent::FileOpened(opened)) => opened is Ok
                ==> session.next_file_id < usize::MAX,
            (DispatchTask::OpenDir(_), DispatchEvent::DirOpened(opened)) => opened is Ok
                ==> session.next_file_id < usize::MAX,
            (DispatchTask::Read(_), DispatchEvent::FileRead(_)) => true,
            (DispatchTask::Operation(_), DispatchEvent::Completed(_)) => true,
            (DispatchTask::Answer, DispatchEvent::Done) => true,
            (DispatchTask::Unblock, DispatchEvent::Done) => true,
            _ => false,
        }
    }
}

/// The bytes that a read into a buffer gave.
pub open spec fn read_data(buf: Seq<u8>, n: usize) -> Seq<u8> {
    if n <= buf.len() {
        buf.take(n as int)
    } else {
        buf
    }
}

/// The next step, given the outcome of the awaited action. `sftp` tells whether the file transfer
/// subsystem is open.
pub open spec fn dispatch_next<R: Resources>(
    session: SessionView<R>,
    sftp: bool,
    task: DispatchTask<R>,
    ev: DispatchEvent<R>,
) -> DispatchStep<R> {
    match (task, ev) {
        (DispatchTask::Receive, DispatchEvent::Received(Ok(req))) => (
            session,
            DispatchTask::Block(req),
            DispatchAction::SetBlocking(true),
        ),
        (DispatchTask::Receive, DispatchEvent::Received(Err(RecvError::Empty))) => (
            session,
            DispatchTask::Finished,
            DispatchAction::Finished(Ok(false)),
        ),
        (DispatchTask::Receive, DispatchEvent::Received(Err(RecvError::Closed))) => (
            session,
            DispatchTask::Finished,
            DispatchAction::Finished(Err(seq!["all clients are closed"@])),
        ),
        (DispatchTask::Block(req), _) => begin(session, sftp, req),
        (DispatchTask::Sftp(op, to), DispatchEvent::SftpOpened(Ok(_))) => (
            session,
            sftp_task(op, to),
            DispatchAction::Sftp(op),
        ),
        (DispatchTask::Sftp(_, to), DispatchEvent::SftpOpened(Err(failure))) => answered(
            session,
            to,
            Err(failure@),
        ),
        (DispatchTask::Open(to), DispatchEvent::FileOpened(Ok(file))) => answered(
            SessionView {
                files: session.files.insert(session.next_file_id, file),
                next_file_id: (session.next_file_id + 1) as usize,
                ..session
            },
            to,
            Ok(ReplyValue::File(session.next_file_id)),
        ),
        (DispatchTask::Open(to), DispatchEvent::FileOpened(Err(failure))) => answered(
            session,
            to,
            Err(failure@),
        ),
        (DispatchTask::OpenDir(to), DispatchEvent::DirOpened(Ok(dir))) => answered(
            SessionView {
                dirs: session.dirs.insert(session.next_file_id, dir),
                next_file_id: (session.next_file_id + 1) as usize,
                ..session
            },
            to,
            Ok(ReplyValue::Dir(session.next_file_id)),
        ),
        (DispatchTask::OpenDir(to), DispatchEvent::DirOpened(Err(failure))) => answered(
            session,
            to,
            Err(failure@),
        ),
        (DispatchTask::Read(to), DispatchEvent::FileRead(Ok((buf, n)))) => answered(
            session,
            to,
            Ok(ReplyValue::Data(read_data(buf@, n))),
        ),
        (DispatchTask::Read(to), DispatchEvent::FileRead(Err(failure))) => answered(
            session,
            to,
            Err(failure@),
        ),
        (DispatchTask::Operation(Some(to)), DispatchEvent::Completed(Ok(value))) => answered(
            session,
            to,
            Ok(ReplyValue::Value(value)),
        ),
        (DispatchTask::Operation(Some(to)), DispatchEvent::Completed(Err(failure))) => answered(
            session,
            to,
            Err(failure@),
        ),
        (DispatchTask::Operation(None), DispatchEvent::Completed(Err(failure))) => reported(
            session,
            failure@,
        ),
        (DispatchTask::Operation(None), _) => unblocked(session),
        (DispatchTask::Answer, _) => unblocked(session),
        _ => (session, DispatchTask::Finished, DispatchAction::Finished(Ok(true))),
    }
}

/// The file transfer subsystem after the outcome of the awaited action.
pub open spec fn sftp_next<R: Resources>(
    sftp: Option<R::Sftp>,
    task: DispatchTask<R>,
    ev: DispatchEvent<R>,
) -> Option<R::Sftp> {
    match (task, ev) {
        (DispatchTask::Sftp(_, _), DispatchEvent::SftpOpened(Ok(opened))) => Some(opened),
        _ => sftp,
    }
}

/// What an exec step returns.
pub type DispatchResult<R> = (DispatchTask<R>, DispatchAction<R, Vec<u8>, Failure>);

fn answer<R: Resources>(to: R::Reply, r: Result<ReplyValue<R, Vec<u8>>, Failure>) -> (res:
    DispatchResult<R>)
    ensures
        res.0 == DispatchTask::<R>::Answer,
        res.1@ == DispatchActionView::<R>::Reply(to, reply_view(r)),
{
    (DispatchTask::Answer, DispatchAction::Reply(to, r))
}

fn run_sftp<R: Resources>(op: SftpOp<R>, to: R::Reply) -> (res: DispatchResult<R>)
    ensures
        res.0 == sftp_task(op, to),
        res.1@ == DispatchActionView::<R>::Sftp(op),
{
    let task = match &op {
        SftpOp::Open(_) => DispatchTask::Open(to),
        SftpOp::OpenDir(_) => DispatchTask::OpenDir(to),
        _ => DispatchTask::Operation(Some(to)),
    };
    (task, DispatchAction::Sftp(op))
}

impl<R: Resources> SessionInner<R> {
    /// Sees to it that the file transfer subsystem of a connection is there, and gives it. `opened`
    /// is what opening it returned, once it was tried; nothing comes back where it is not there and
    /// was not tried: then it is to be opened.
    pub fn init_sftp<'a>(
        &self,
        sess: &'a mut SessionWrap<R>,
        opened: Option<Result<R::Sftp, Failure>>,
    ) -> (r: Result<Option<&'a mut R::Sftp>, Failure>)
        ensures
            final(sess).backend == old(sess).backend,
            final(sess).session == old(sess).session,
            match r {
                Ok(Some(sftp)) => {
                    &&& match old(sess).sftp {
                        Some(there) => *sftp == there,
                        None => opened == Some(Ok::<R::Sftp, Failure>(*sftp)),
                    }
                    &&& final(sess).sftp == Some(*final(sftp))
                },
                Ok(None) => old(sess).sftp is None && opened is None && final(sess).sftp is None,
                Err(failure) => {
                    &&& old(sess).sftp is None
                    &&& opened == Some(Err::<R::Sftp, Failure>(failure))
                    &&& final(sess).sftp is None
                },
            },
    {
        if sess.sftp.is_none() {
            match opened {
                Some(Ok(sftp)) => {
                    sess.sftp = Some(sftp);
                },
                Some(Err(failure)) => return Err(failure),
                None => return Ok(None),
            }
        }
        Ok(sess.sftp.as_mut())
    }

    /// Has the file transfer subsystem do `op`, or has it opened first.
    fn use_sftp(
        &self,
        sess: &mut SessionWrap<R>,
        opened: Option<Result<R::Sftp, Failure>>,
        op: SftpOp<R>,
        to: R::Reply,
    ) -> (res: DispatchResult<R>)
        requires
            opened is Some ==> old(sess).sftp is None,
        ensures
            *final(sess) == (SessionWrap {
                sftp: match opened {
                    Some(Ok(sftp)) => Some(sftp),
                    _ => old(sess).sftp,
                },
                ..*old(sess)
            }),
            opened is None ==> (self@, res.0, res.1@) == with_sftp(
                self@,
                old(sess).sftp is Some,
                op,
                to,
            ),
            opened matches Some(Ok(_)) ==> res.0 == sftp_task(op, to) && res.1@
                == DispatchActionView::<R>::Sftp(op),
            opened matches Some(Err(failure)) ==> res.0 == DispatchTask::<R>::Answer && res.1@
                == DispatchActionView::<R>::Reply(to, Err(failure@)),
    {
        match self.init_sftp(sess, opened) {
            Ok(Some(_)) => run_sftp(op, to),
            Ok(None) => (DispatchTask::Sftp(op, to), DispatchAction::OpenSftp),
            Err(failure) => answer(to, Err(failure)),
        }
    }

    /// Starts to serve a request: gives the first action.
    pub fn dispatch_one_request(&self) -> (r: DispatchResult<R>)
        ensures
            r.0 == DispatchTask::<R>::Receive,
            r.1@ == DispatchActionView::<R>::TryRecv,
    {
        (DispatchTask::Receive, DispatchAction::TryRecv)
    }

    /// Takes in the outcome of the action that was given last, and gives the next one.
    pub fn dispatch_step(
        &mut self,
        sess: &mut SessionWrap<R>,
        task: DispatchTask<R>,
        ev: DispatchEvent<R>,
    ) -> (r: DispatchResult<R>)
        requires
            old(self)@.wf(),
            task.accepts(old(self)@, ev),
            task.opens_none_twice(old(sess).sftp),
        ensures
            r.0.opens_none_twice(final(sess).sftp),
            (final(self)@, r.0, r.1@) == dispatch_next(
                old(self)@,
                old(sess).sftp is Some,
                task,
                ev,
            ),
            *final(sess) == (SessionWrap {
                sftp: sftp_next(old(sess).sftp, task, ev),
                ..*old(sess)
            }),
            final(self)@.wf(),
    {
        match (task, ev) {
            (DispatchTask::Receive, DispatchEvent::Received(Ok(req))) => (
                DispatchTask::Block(req),
                DispatchAction::SetBlocking(true),
            ),
            (DispatchTask::Receive, DispatchEvent::Received(Err(RecvError::Empty))) => (
                DispatchTask::Finished,
                DispatchAction::Finished(Ok(false)),
            ),
            (DispatchTask::Receive, DispatchEvent::Received(Err(RecvError::Closed))) => (
                DispatchTask::Finished,
                DispatchAction::Finished(
                    Err(Failure::message("all clients are closed".to_owned())),
                ),
            ),
            (DispatchTask::Block(req), _) => self.begin_request(sess, req),
            (DispatchTask::Sftp(op, to), DispatchEvent::SftpOpened(opened)) => self.use_sftp(
                sess,
                Some(opened),
                op,
                to,
            ),
            (DispatchTask::Open(to), DispatchEvent::FileOpened(opened)) => {
                match self.open_with_mode(opened) {
                    Ok(id) => answer(to, Ok(ReplyValue::File(id))),
                    Err(failure) => answer(to, Err(failure)),
                }
            },
            (DispatchTask::OpenDir(to), DispatchEvent::DirOpened(opened)) => {
                match self.open_dir(opened) {
                    Ok(id) => answer(to, Ok(ReplyValue::Dir(id))),
                    Err(failure) => answer(to, Err(failure)),
                }
            },
            (DispatchTask::Read(to), DispatchEvent::FileRead(Ok((buf, n)))) => {
                let mut data = buf;
                data.truncate(n);
                assert(data@ == read_data(buf@, n));
                answer(to, Ok(ReplyValue::Data(data)))
            },
            (DispatchTask::Read(to), DispatchEvent::FileRead(Err(failure))) => answer(
                to,
                Err(failure),
            ),
            (DispatchTask::Operation(Some(to)), DispatchEvent::Completed(Ok(value))) => answer(
                to,
                Ok(ReplyValue::Value(value)),
            ),
            (DispatchTask::Operation(Some(to)), DispatchEvent::Completed(Err(failure))) => answer(
                to,
                Err(failure),
            ),
            (DispatchTask::Operation(None), DispatchEvent::Completed(Err(failure))) => (
                DispatchTask::Answer,
                DispatchAction::Report(failure),
            ),
            (DispatchTask::Operation(None), _) => (
                DispatchTask::Unblock,
                DispatchAction::SetBlocking(false),
            ),
            (DispatchTask::Answer, _) => (DispatchTask::Unblock, DispatchAction::SetBlocking(false)),
            _ => (DispatchTask::Finished, DispatchAction::Finished(Ok(true))),
        }
    }

    fn begin_request(&mut self, sess: &mut SessionWrap<R>, req: SessionRequest<R>) -> (r:
        DispatchResult<R>)
        requires
            old(self)@.wf(),
        ensures
            (final(self)@, r.0, r.1@) == begin(old(self)@, old(sess).sftp is Some, req),
            *final(sess) == *old(sess),
            final(self)@.wf(),
    {
        match req {
            SessionRequest::SessionDropped => {
                self.session_was_dropped = true;
                (DispatchTask::Unblock, DispatchAction::SetBlocking(false))
            },
            SessionRequest::NewPty(pty, to) => (
                DispatchTask::Operation(Some(to)),
                DispatchAction::NewPty(pty),
            ),
            SessionRequest::ResizePty(size, to) => (
                DispatchTask::Operation(to),
                DispatchAction::ResizePty(size),
            ),
            SessionRequest::Exec(exec, to) => (
                DispatchTask::Operation(Some(to)),
                DispatchAction::Exec(exec),
            ),
            SessionRequest::SignalChannel(info) => {
                match self.signal_channel(&info) {
                    Ok(_) => (DispatchTask::Operation(None), DispatchAction::SendSignal(info)),
                    Err(failure) => (DispatchTask::Answer, DispatchAction::Report(failure)),
                }
            },
            SessionRequest::Sftp(req) => self.begin_sftp_request(sess, req),
        }
    }

    fn begin_sftp_request(&mut self, sess: &mut SessionWrap<R>, req: SftpRequest<R>) -> (r:
        DispatchResult<R>)
        requires
            old(self)@.wf(),
        ensures
            (final(self)@, r.0, r.1@) == begin_sftp(old(self)@, old(sess).sftp is Some, req),
            *final(sess) == *old(sess),
            final(self)@.wf(),
    {
        match req {
            SftpRequest::OpenWithMode(msg, to) => self.use_sftp(sess, None, SftpOp::Open(msg), to),
            SftpRequest::OpenDir(path, to) => self.use_sftp(sess, None, SftpOp::OpenDir(path), to),
            SftpRequest::File(req) => self.begin_file_request(req),
            SftpRequest::Dir(DirRequest::Close(id, to)) => {
                if self.dirs.remove(&id).is_some() {
                    assert(self@.dirs == old(self)@.dirs.remove(id));
                    answer(to, Ok(ReplyValue::Unit))
                } else {
                    assert(self@.dirs == old(self)@.dirs);
                    answer(to, Err(Failure::message("invalid dir_id".to_owned())))
                }
            },
            SftpRequest::Dir(DirRequest::ReadDir(id, to)) => {
                if self.dirs.contains_key(&id) {
                    (DispatchTask::Operation(Some(to)), DispatchAction::ReadDir(id))
                } else {
                    answer(to, Err(Failure::message("invalid dir_id".to_owned())))
                }
            },
            SftpRequest::ReadDir(path, to) => self.use_sftp(sess, None, SftpOp::ReadDir(path), to),
            SftpRequest::CreateDir(msg, to) => self.use_sftp(sess, None, SftpOp::CreateDir(msg), to),
            SftpRequest::RemoveDir(path, to) => self.use_sftp(sess, None, SftpOp::RemoveDir(path), to),
            SftpRequest::Metadata(path, to) => self.use_sftp(sess, None, SftpOp::Metadata(path), to),
            SftpRequest::SymlinkMetadata(path, to) => self.use_sftp(
                sess,
                None,
                SftpOp::SymlinkMetadata(path),
                to,
            ),
            SftpRequest::SetMetadata(msg, to) => self.use_sftp(sess, None, SftpOp::SetMetadata(msg), to),
            SftpRequest::Symlink(msg, to) => self.use_sftp(sess, None, SftpOp::Symlink(msg), to),
            SftpRequest::ReadLink(path, to) => self.use_sftp(sess, None, SftpOp::ReadLink(path), to),
            SftpRequest::Canonicalize(path, to) => self.use_sftp(sess, None, SftpOp::Canonicalize(path), to),
            SftpRequest::Rename(msg, to) => self.use_sftp(sess, None, SftpOp::Rename(msg), to),
            SftpRequest::RemoveFile(path, to) => self.use_sftp(sess, None, SftpOp::RemoveFile(path), to),
        }
    }

    fn begin_file_request(&mut self, req: FileRequest<R>) -> (r: DispatchResult<R>)
        requires
            old(self)@.wf(),
        ensures
            (final(self)@, r.0, r.1@) == begin_file(old(self)@, req),
            final(self)@.wf(),
    {
        match req {
            FileRequest::Write(msg, to) => self.use_file(msg.file_id, FileOp::Write(msg.data), to),
            FileRequest::Read(msg, to) => self.use_file(
                msg.file_id,
                FileOp::Read(msg.max_bytes),
                to,
            ),
            FileRequest::Close(id, to) => {
                self.files.remove(&id);
                assert(self@.files == old(self)@.files.remove(id));
                answer(to, Ok(ReplyValue::Unit))
            },
            FileRequest::Flush(id, to) => self.use_file(id, FileOp::Flush, to),
            FileRequest::SetMetadata(msg, to) => self.use_file(
                msg.file_id,
                FileOp::SetMetadata(msg.metadata),
                to,
            ),
            FileRequest::Metadata(id, to) => self.use_file(id, FileOp::Metadata, to),
            FileRequest::Fsync(id, to) => self.use_file(id, FileOp::Fsync, to),
        }
    }

    fn use_file(&self, id: FileId, op: FileOp<R>, to: R::Reply) -> (r: DispatchResult<R>)
        ensures
            (self@, r.0, r.1@) == on_file(self@, id, op, to),
    {
        if self.files.contains_key(&id) {
            let reads = matches!(op, FileOp::Read(_));
            (
                if reads {
                    DispatchTask::Read(to)
                } else {
                    DispatchTask::Operation(Some(to))
                },
                DispatchAction::File(id, op),
            )
        } else {
            answer(to, Err(Failure::message("invalid file_id".to_owned())))
        }
    }
}

/// How a request is called in the log.
pub open spec fn label_of<R: Resources>(req: SessionRequest<R>) -> Seq<char> {
    match req {
        SessionRequest::SessionDropped => "session_dropped"@,
        SessionRequest::NewPty(_, _) => "NewPty"@,
        SessionRequest::ResizePty(_, _) => "resize_pty"@,
        SessionRequest::Exec(_, _) => "exec"@,
        SessionRequest::SignalChannel(_) => "signal_channel"@,
        SessionRequest::Sftp(req) => match req {
            SftpRequest::OpenWithMode(_, _) => "OpenWithMode"@,
            SftpRequest::OpenDir(_, _) => "OpenDir"@,
            SftpRequest::File(FileRequest::Write(_, _)) => "write_file"@,
            SftpRequest::File(FileRequest::Read(_, _)) => "read_file"@,
            SftpRequest::File(FileRequest::Close(_, _)) => "close_file"@,
            SftpRequest::File(FileRequest::Flush(_, _)) => "flush_file"@,
            SftpRequest::File(FileRequest::SetMetadata(_, _)) => "set_metadata_file"@,
            SftpRequest::File(FileRequest::Metadata(_, _)) => "metadata_file"@,
            SftpRequest::File(FileRequest::Fsync(_, _)) => "fsync"@,
            SftpRequest::Dir(DirRequest::Close(_, _)) => "close_dir"@,
            SftpRequest::Dir(DirRequest::ReadDir(_, _)) => "read_dir"@,
            SftpRequest::ReadDir(_, _) => "read_dir"@,
            SftpRequest::CreateDir(_, _) => "create_dir"@,
            SftpRequest::RemoveDir(_, _) => "remove_dir"@,
            SftpRequest::Metadata(_, _) => "metadata"@,
            SftpRequest::SymlinkMetadata(_, _) => "symlink_metadata"@,
            SftpRequest::SetMetadata(_, _) => "set_metadata"@,
            SftpRequest::Symlink(_, _) => "symlink"@,
            SftpRequest::ReadLink(_, _) => "read_link"@,
            SftpRequest::Canonicalize(_, _) => "canonicalize"@,
            SftpRequest::Rename(_, _) => "rename"@,
            SftpRequest::RemoveFile(_, _) => "remove_file"@,
        },
    }
}

/// Gives how a request is called in the log.
pub fn request_label<R: Resources>(req: &SessionRequest<R>) -> (label: &'static str)
    ensures
        label@ == label_of(*req),
{
    match req {
        SessionRequest::SessionDropped => "session_dropped",
        SessionRequest::NewPty(_, _) => "NewPty",
        SessionRequest::ResizePty(_, _) => "resize_pty",
        SessionRequest::Exec(_, _) => "exec",
        SessionRequest::SignalChannel(_) => "signal_channel",
        SessionRequest::Sftp(req) => match req {
            SftpRequest::OpenWithMode(_, _) => "OpenWithMode",
            SftpRequest::OpenDir(_, _) => "OpenDir",
            SftpRequest::File(FileRequest::Write(_, _)) => "write_file",
            SftpRequest::File(FileRequest::Read(_, _)) => "read_file",
            SftpRequest::File(FileRequest::Close(_, _)) => "close_file",
            SftpRequest::File(FileRequest::Flush(_, _)) => "flush_file",
            SftpRequest::File(FileRequest::SetMetadata(_, _)) => "set_metadata_file",
            SftpRequest::File(FileRequest::Metadata(_, _)) => "metadata_file",
            SftpRequest::File(FileRequest::Fsync(_, _)) => "fsync",
            SftpRequest::Dir(DirRequest::Close(_, _)) => "close_dir",
            SftpRequest::Dir(DirRequest::ReadDir(_, _)) => "read_dir",
            SftpRequest::ReadDir(_, _) => "read_dir",
            SftpRequest::CreateDir(_, _) => "create_dir",
            SftpRequest::RemoveDir(_, _) => "remove_dir",
            SftpRequest::Metadata(_, _) => "metadata",
            SftpRequest::SymlinkMetadata(_, _) => "symlink_metadata",
            SftpRequest::SetMetadata(_, _) => "set_metadata",
            SftpRequest::Symlink(_, _) => "symlink",
            SftpRequest::ReadLink(_, _) => "read_link",
            SftpRequest::Canonicalize(_, _) => "canonicalize",
            SftpRequest::Rename(_, _) => "rename",
            SftpRequest::RemoveFile(_, _) => "remove_file",
        },
    }
}

/// Where the answer to a request goes, if it is answered.
pub open spec fn reply_of<R: Resources>(req: SessionRequest<R>) -> Option<R::Reply> {
    match req {
        SessionRequest::SessionDropped => None,
        SessionRequest::NewPty(_, to) => Some(to),
        SessionRequest::ResizePty(_, to) => to,
        SessionRequest::Exec(_, to) => Some(to),
        SessionRequest::SignalChannel(_) => None,
        SessionRequest::Sftp(req) => Some(
            match req {
                SftpRequest::OpenWithMode(_, to) => to,
                SftpRequest::OpenDir(_, to) => to,
                SftpRequest::File(FileRequest::Write(_, to)) => to,
                SftpRequest::File(FileRequest::Read(_, to)) => to,
                SftpRequest::File(FileRequest::Close(_, to)) => to,
                SftpRequest::File(FileRequest::Flush(_, to)) => to,
                SftpRequest::File(FileRequest::SetMetadata(_, to)) => to,
                SftpRequest::File(FileRequest::Metadata(_, to)) => to,
                SftpRequest::File(FileRequest::Fsync(_, to)) => to,
                SftpRequest::Dir(DirRequest::Close(_, to)) => to,
                SftpRequest::Dir(DirRequest::ReadDir(_, to)) => to,
                SftpRequest::ReadDir(_, to) => to,
                SftpRequest::CreateDir(_, to) => to,
                SftpRequest::RemoveDir(_, to) => to,
                SftpRequest::Metadata(_, to) => to,
                SftpRequest::SymlinkMetadata(_, to) => to,
                SftpRequest::SetMetadata(_, to) => to,
                SftpRequest::Symlink(_, to) => to,
                SftpRequest::ReadLink(_, to) => to,
                SftpRequest::Canonicalize(_, to) => to,
                SftpRequest::Rename(_, to) => to,
                SftpRequest::RemoveFile(_, to) => to,
            },
        ),
    }
}

impl<R: Resources> DispatchTask<R> {
    /// Where an answer is still owed.
    pub open spec fn owes(self) -> Option<R::Reply> {
        match self {
            DispatchTask::Block(req) => reply_of(req),
            DispatchTask::Sftp(_, to) => Some(to),
            DispatchTask::Open(to) => Some(to),
            DispatchTask::OpenDir(to) => Some(to),
            DispatchTask::Read(to) => Some(to),
            DispatchTask::Operation(to) => to,
            _ => None,
        }
    }

    /// Whether the connection blocks, or is being made to.
    pub open spec fn blocks(self) -> bool {
        !(self is Receive || self is Unblock || self is Finished)
    }

    /// How many steps are left at most, once a request is there.
    pub open spec fn steps_left(self) -> nat {
        match self {
            DispatchTask::Receive => 6,
            DispatchTask::Block(_) => 5,
            DispatchTask::Sftp(_, _) => 4,
            DispatchTask::Open(_) => 3,
            DispatchTask::OpenDir(_) => 3,
            DispatchTask::Read(_) => 3,
            DispatchTask::Operation(_) => 3,
            DispatchTask::Answer => 2,
            DispatchTask::Unblock => 1,
            DispatchTask::Finished => 0,
        }
    }
}

/// The first step for a request takes over where its answer goes, or sends the answer there.
proof fn lemma_begin_owes<R: Resources>(
    session: SessionView<R>,
    sftp: bool,
    req: SessionRequest<R>,
)
    ensures
        ({
            let (_, task, action) = begin(session, sftp, req);
            match action {
                DispatchAction::Reply(to, _) => reply_of(req) == Some(to) && task.owes() is None,
                _ => task.owes() == reply_of(req),
            }
        }),
        begin(session, sftp, req).1.steps_left() < 5,
        begin(session, sftp, req).1.steps_left() > 0,
        !(begin(session, sftp, req).2 is Finished),
        begin(session, sftp, req).1.blocks() || begin(session, sftp, req).2
            == DispatchActionView::<R>::SetBlocking(false),
{
    match req {
        SessionRequest::Sftp(SftpRequest::File(FileRequest::Write(_, _))) => {},
        SessionRequest::Sftp(SftpRequest::File(_)) => {},
        SessionRequest::Sftp(SftpRequest::Dir(_)) => {},
        SessionRequest::Sftp(_) => {},
        _ => {},
    }
}

/// Every request that has a place for its answer is answered there, once: while an answer is owed,
/// a step either still owes it or sends it; when none is owed, a step sends none, and only a new
/// request makes one due.
pub proof fn law_every_request_is_answered_once<R: Resources>(
    session: SessionView<R>,
    sftp: bool,
    task: DispatchTask<R>,
    ev: DispatchEvent<R>,
)
    requires
        task.accepts(session, ev),
    ensures
        ({
            let (_, next, action) = dispatch_next(session, sftp, task, ev);
            match task.owes() {
                Some(to) => match action {
                    DispatchAction::Reply(sent_to, _) => sent_to == to && next.owes() is None,
                    _ => next.owes() == Some(to) && next.steps_left() > 0,
                },
                None => {
                    &&& !(action is Reply)
                    &&& next.owes() is Some ==> (ev matches DispatchEvent::Received(Ok(req))
                        && next.owes() == reply_of(req))
                },
            }
        }),
{
    if let DispatchTask::Block(req) = task {
        lemma_begin_owes(session, sftp, req);
    }
}

/// A request that is not answered does not fail in silence: whatever fails of it is logged, and
/// nothing else is.
pub proof fn law_unanswered_failures_are_logged<R: Resources>(
    session: SessionView<R>,
    sftp: bool,
    task: DispatchTask<R>,
    ev: DispatchEvent<R>,
)
    requires
        task.accepts(session, ev),
    ensures
        dispatch_next(session, sftp, task, ev).2 matches DispatchAction::Report(logged) ==> {
            ||| task == DispatchTask::<R>::Operation(None) && (ev matches DispatchEvent::Completed(
                Err(failure),
            ) && logged == failure@)
            ||| (task matches DispatchTask::Block(SessionRequest::SignalChannel(info))
                && !session.channels.contains_key(info.channel) && logged == invalid_channel(
                info.channel,
            ))
        },
        task == DispatchTask::<R>::Operation(None) && (ev matches DispatchEvent::Completed(Err(_)))
            ==> dispatch_next(session, sftp, task, ev).2 is Report,
        (task matches DispatchTask::Block(SessionRequest::SignalChannel(info))
            && !session.channels.contains_key(info.channel)) ==> dispatch_next(
            session,
            sftp,
            task,
            ev,
        ).2 is Report,
{
}

/// The service of a request comes to its end: each step brings it closer.
pub proof fn law_service_ends<R: Resources>(
    session: SessionView<R>,
    sftp: bool,
    task: DispatchTask<R>,
    ev: DispatchEvent<R>,
)
    requires
        task.accepts(session, ev),
    ensures
        ({
            let (_, next, action) = dispatch_next(session, sftp, task, ev);
            &&& next.steps_left() < task.steps_left()
            &&& action is Finished <==> next is Finished
        }),
{
    if let DispatchTask::Block(req) = task {
        lemma_begin_owes(session, sftp, req);
    }
}

/// The connection is made blocking before a request is served, and non-blocking after it: no step
/// leaves the service but by making it non-blocking.
pub proof fn law_service_unblocks<R: Resources>(
    session: SessionView<R>,
    sftp: bool,
    task: DispatchTask<R>,
    ev: DispatchEvent<R>,
)
    requires
        task.accepts(session, ev),
    ensures
        ({
            let (_, next, action) = dispatch_next(session, sftp, task, ev);
            &&& !task.blocks() && next.blocks() ==> action == DispatchActionView::<
                R,
            >::SetBlocking(true)
            &&& task.blocks() && !next.blocks() ==> action == DispatchActionView::<
                R,
            >::SetBlocking(false) && next is Unblock
            &&& task.blocks() ==> !(action is Finished)
        }),
{
    if let DispatchTask::Block(req) = task {
        lemma_begin_owes(session, sftp, req);
    }
}

/// A file that was closed, or never opened, is no longer worked on: a write to it is answered that
/// its number is invalid. The same holds of the other operations on open files.
pub proof fn law_closed_file_is_invalid<R: Resources>(
    session: SessionView<R>,
    sftp: bool,
    id: FileId,
    closed_to: R::Reply,
    op: FileOp<R>,
    to: R::Reply,
)
    ensures
        ({
            let closed = begin(
                session,
                sftp,
                SessionRequest::Sftp(SftpRequest::File(FileRequest::Close(id, closed_to))),
            ).0;
            on_file(closed, id, op, to) == answered(closed, to, Err(seq!["invalid file_id"@]))
        }),
{
}

/// A directory can be closed once; after that its number is invalid.
pub proof fn law_dir_closes_once<R: Resources>(
    session: SessionView<R>,
    sftp: bool,
    id: DirId,
    first: R::Reply,
    second: R::Reply,
)
    requires
        session.dirs.contains_key(id),
    ensures
        ({
            let close = |to: R::Reply|
                SessionRequest::<R>::Sftp(SftpRequest::Dir(DirRequest::Close(id, to)));
            let once = begin(session, sftp, close(first));
            let twice = begin(once.0, sftp, close(second));
            &&& once == answered(
                SessionView { dirs: session.dirs.remove(id), ..session },
                first,
                Ok(ReplyValue::Unit),
            )
            &&& twice == answered(once.0, second, Err(seq!["invalid dir_id"@]))
        }),
{
}

/// What is opened can be worked on: the number in the answer stands for the file that was opened,
/// no file or directory had it before, and the next one gets another.
pub proof fn law_opened_file_is_usable<R: Resources>(
    session: SessionView<R>,
    sftp: bool,
    to: R::Reply,
    file: R::File,
)
    requires
        session.wf(),
        session.next_file_id < usize::MAX,
    ensures
        ({
            let (after, _, action) = dispatch_next(
                session,
                sftp,
                DispatchTask::Open(to),
                DispatchEvent::FileOpened(Ok(file)),
            );
            &&& action matches DispatchAction::Reply(_, Ok(ReplyValue::File(id))) && {
                &&& !session.files.contains_key(id)
                &&& !session.dirs.contains_key(id)
                &&& after.files.contains_key(id)
                &&& after.files[id] == file
                &&& after.next_file_id > id
            }
            &&& after.wf()
        }),
{
    let after = dispatch_next(
        session,
        sftp,
        DispatchTask::Open(to),
        DispatchEvent::FileOpened(Ok(file)),
    ).0;
    assert(after.files.dom().disjoint(after.dirs.dom()));
}

/// The same of a directory.
pub proof fn law_opened_dir_is_usable<R: Resources>(
    session: SessionView<R>,
    sftp: bool,
    to: R::Reply,
    dir: R::Dir,
)
    requires
        session.wf(),
        session.next_file_id < usize::MAX,
    ensures
        ({
            let (after, _, action) = dispatch_next(
                session,
                sftp,
                DispatchTask::OpenDir(to),
                DispatchEvent::DirOpened(Ok(dir)),
            );
            &&& action matches DispatchAction::Reply(_, Ok(ReplyValue::Dir(id))) && {
                &&& !session.files.contains_key(id)
                &&& !session.dirs.contains_key(id)
                &&& after.dirs.contains_key(id)
                &&& after.dirs[id] == dir
                &&& after.next_file_id > id
            }
            &&& after.wf()
        }),
{
    let after = dispatch_next(
        session,
        sftp,
        DispatchTask::OpenDir(to),
        DispatchEvent::DirOpened(Ok(dir)),
    ).0;
    assert(after.files.dom().disjoint(after.dirs.dom()));
}

impl<R: Resources> DispatchTask<R> {
    /// Whether the file transfer subsystem is opened only where there is none.
    pub open spec fn opens_none_twice(self, sftp: Option<R::Sftp>) -> bool {
        self is Sftp ==> sftp is None
    }
}

/// The file transfer subsystem is opened where there is none and only there, and it is kept. Where
/// it is open, an operation goes to it at once. Where it is not, one attempt is made to open it:
/// what comes of it is kept and does the operation, or there is still none and the failure is the
/// answer. The session itself is not changed by it.
pub proof fn law_sftp_is_opened_where_there_is_none<R: Resources>(
    session: SessionView<R>,
    sftp: Option<R::Sftp>,
    task: DispatchTask<R>,
    ev: DispatchEvent<R>,
)
    requires
        task.accepts(session, ev),
        task.opens_none_twice(sftp),
    ensures
        ({
            let (after, next, action) = dispatch_next(session, sftp is Some, task, ev);
            let kept = sftp_next(sftp, task, ev);
            &&& action is OpenSftp <==> next is Sftp
            &&& action is OpenSftp ==> sftp is None && kept is None && after == session
            &&& sftp is Some ==> kept == sftp
            &&& next.opens_none_twice(kept)
            &&& action is Sftp ==> kept is Some && after == session
            &&& task matches DispatchTask::Sftp(op, to) ==> match ev {
                DispatchEvent::SftpOpened(Ok(opened)) => {
                    &&& kept == Some(opened)
                    &&& after == session
                    &&& action == DispatchActionView::<R>::Sftp(op)
                },
                DispatchEvent::SftpOpened(Err(failure)) => {
                    &&& kept is None
                    &&& after == session
                    &&& action == DispatchActionView::<R>::Reply(to, Err(failure@))
                },
                _ => false,
            }
        }),
{
    if let DispatchTask::Block(req) = task {
        lemma_begin_sftp(session, sftp is Some, req);
    }
}

proof fn lemma_begin_sftp<R: Resources>(
    session: SessionView<R>,
    sftp: bool,
    req: SessionRequest<R>,
)
    ensures
        ({
            let (after, task, action) = begin(session, sftp, req);
            &&& action is OpenSftp <==> task is Sftp
            &&& action is OpenSftp ==> !sftp && after == session
            &&& action is Sftp ==> sftp && after == session
        }),
{
}

/// One connection over any number of requests: what is awaited, its file transfer subsystem, and
/// how often that was opened.
pub struct SftpTrace<R: Resources> {
    /// What is awaited.
    pub task: DispatchTask<R>,
    /// The file transfer subsystem.
    pub sftp: Option<R::Sftp>,
    /// How many times opening it went well.
    pub opened: nat,
    /// How many times it was asked for while it was open.
    pub asked_again: nat,
}

impl<R: Resources> SftpTrace<R> {
    /// A new connection.
    pub open spec fn start() -> SftpTrace<R> {
        SftpTrace { task: DispatchTask::Receive, sftp: None, opened: 0, asked_again: 0 }
    }

    /// After an outcome, taken in while the session is as given. Once a request is served, the next
    /// one is looked for.
    pub open spec fn next(self, session: SessionView<R>, ev: DispatchEvent<R>) -> SftpTrace<R> {
        let (_, next, action) = dispatch_next(session, self.sftp is Some, self.task, ev);
        let sftp = sftp_next(self.sftp, self.task, ev);
        SftpTrace {
            task: if next is Finished {
                DispatchTask::Receive
            } else {
                next
            },
            sftp,
            opened: if self.task is Sftp && (ev matches DispatchEvent::SftpOpened(Ok(_))) {
                self.opened + 1
            } else {
                self.opened
            },
            asked_again: if action is OpenSftp && sftp is Some {
                self.asked_again + 1
            } else {
                self.asked_again
            },
        }
    }

    /// After these outcomes, each with the session as it was then.
    pub open spec fn after(steps: Seq<(SessionView<R>, DispatchEvent<R>)>) -> SftpTrace<R>
        decreases steps.len(),
    {
        if steps.len() == 0 {
            SftpTrace::start()
        } else {
            SftpTrace::after(steps.drop_last()).next(steps.last().0, steps.last().1)
        }
    }

    /// Whether each of these outcomes, in order, can be that of the action that was awaited then.
    pub open spec fn possible(steps: Seq<(SessionView<R>, DispatchEvent<R>)>) -> bool
        decreases steps.len(),
    {
        steps.len() > 0 ==> {
            &&& SftpTrace::possible(steps.drop_last())
            &&& SftpTrace::after(steps.drop_last()).task.accepts(steps.last().0, steps.last().1)
        }
    }
}

/// Over any number of requests, the file transfer subsystem of a connection is opened at most once,
/// and it is never asked for again once it is open.
pub proof fn law_sftp_is_opened_once<R: Resources>(
    steps: Seq<(SessionView<R>, DispatchEvent<R>)>,
)
    requires
        SftpTrace::possible(steps),
    ensures
        ({
            let t = SftpTrace::after(steps);
            &&& t.opened <= 1
            &&& t.opened == 1 <==> t.sftp is Some
            &&& t.asked_again == 0
            &&& t.task.opens_none_twice(t.sftp)
        }),
    decreases steps.len(),
{
    if steps.len() > 0 {
        law_sftp_is_opened_once(steps.drop_last());
        let t = SftpTrace::after(steps.drop_last());
        law_sftp_is_opened_where_there_is_none(
            steps.last().0,
            t.sftp,
            t.task,
            steps.last().1,
        );
    }
}

/// Serving a request leaves the channels alone; what the driver does for it may not.
pub proof fn law_service_keeps_channels<R: Resources>(
    session: SessionView<R>,
    sftp: bool,
    task: DispatchTask<R>,
    ev: DispatchEvent<R>,
)
    requires
        task.accepts(session, ev),
    ensures
        ({
            let after = dispatch_next(session, sftp, task, ev).0;
            &&& after.channels == session.channels
            &&& after.next_channel_id == session.next_channel_id
            &&& after.next_file_id >= session.next_file_id
            &&& session.session_was_dropped ==> after.session_was_dropped
        }),
{
}

/// The operation that the file transfer subsystem is made to do after a step, or that it is opened
/// for, and where the answer goes; if the step is of that kind, and what is awaited fits it.
pub open spec fn operation_in<R: Resources>(step: DispatchStep<R>) -> Option<
    (SftpOp<R>, R::Reply),
> {
    match (step.1, step.2) {
        (DispatchTask::Sftp(op, to), DispatchAction::OpenSftp) => Some((op, to)),
        (DispatchTask::Open(to), DispatchAction::Sftp(op)) => if op is Open {
            Some((op, to))
        } else {
            None
        },
        (DispatchTask::OpenDir(to), DispatchAction::Sftp(op)) => if op is OpenDir {
            Some((op, to))
        } else {
            None
        },
        (DispatchTask::Operation(Some(to)), DispatchAction::Sftp(op)) => if op is Open
            || op is OpenDir {
            None
        } else {
            Some((op, to))
        },
        _ => None,
    }
}

/// What the file transfer subsystem is made to do for a request is what the request asks for, with the
/// request's own values, and the answer goes where the request says: it is done at once where the
/// subsystem is open, and else the subsystem is opened for just that. The session stays as it is.
pub proof fn law_sftp_does_what_is_asked<R: Resources>(
    session: SessionView<R>,
    sftp: bool,
    req: SftpRequest<R>,
)
    requires
        !(req is File),
        !(req is Dir),
    ensures
        ({
            let step = dispatch_next(
                session,
                sftp,
                DispatchTask::Block(SessionRequest::Sftp(req)),
                DispatchEvent::Done,
            );
            &&& step.0 == session
            &&& if sftp {
                step.2 is Sftp
            } else {
                step.2 is OpenSftp
            }
            &&& operation_in(step) matches Some((op, answer)) && match (req, op) {
                (SftpRequest::OpenWithMode(msg, to), SftpOp::Open(done)) => {
                    &&& done.filename == msg.filename && done.opts == msg.opts
                    &&& answer == to
                },
                (SftpRequest::OpenDir(path, to), SftpOp::OpenDir(done)) => {
                    done == path && answer == to
                },
                (SftpRequest::ReadDir(path, to), SftpOp::ReadDir(done)) => {
                    done == path && answer == to
                },
                (SftpRequest::CreateDir(msg, to), SftpOp::CreateDir(done)) => {
                    &&& done.filename == msg.filename && done.mode == msg.mode
                    &&& answer == to
                },
                (SftpRequest::RemoveDir(path, to), SftpOp::RemoveDir(done)) => {
                    done == path && answer == to
                },
                (SftpRequest::Metadata(path, to), SftpOp::Metadata(done)) => {
                    done == path && answer == to
                },
                (SftpRequest::SymlinkMetadata(path, to), SftpOp::SymlinkMetadata(done)) => {
                    done == path && answer == to
                },
                (SftpRequest::SetMetadata(msg, to), SftpOp::SetMetadata(done)) => {
                    &&& done.filename == msg.filename && done.metadata == msg.metadata
                    &&& answer == to
                },
                (SftpRequest::Symlink(msg, to), SftpOp::Symlink(done)) => {
                    &&& done.path == msg.path && done.target == msg.target
                    &&& answer == to
                },
                (SftpRequest::ReadLink(path, to), SftpOp::ReadLink(done)) => {
                    done == path && answer == to
                },
                (SftpRequest::Canonicalize(path, to), SftpOp::Canonicalize(done)) => {
                    done == path && answer == to
                },
                (SftpRequest::Rename(msg, to), SftpOp::Rename(done)) => {
                    &&& done.src == msg.src && done.dst == msg.dst && done.opts == msg.opts
                    &&& answer == to
                },
                (SftpRequest::RemoveFile(path, to), SftpOp::RemoveFile(done)) => {
                    done == path && answer == to
                },
                _ => false,
            }
        }),
{
}

/// Opening the file transfer subsystem for an operation leads to just that operation, or to its
/// failure as the answer.
pub proof fn law_sftp_is_opened_for_the_operation<R: Resources>(
    session: SessionView<R>,
    sftp: bool,
    op: SftpOp<R>,
    to: R::Reply,
    opened: Result<R::Sftp, Failure>,
)
    ensures
        ({
            let step = dispatch_next(
                session,
                sftp,
                DispatchTask::Sftp(op, to),
                DispatchEvent::SftpOpened(opened),
            );
            &&& step.0 == session
            &&& match opened {
                Ok(_) => step.2 is Sftp && operation_in(step) == Some((op, to)),
                Err(failure) => step.2 == DispatchActionView::<R>::Reply(to, Err(failure@)),
            }
            &&& sftp_next(
                None,
                DispatchTask::<R>::Sftp(op, to),
                DispatchEvent::SftpOpened(opened),
            ) == match opened {
                Ok(new) => Some(new),
                Err(_) => None,
            }
        }),
{
}

/// Work on an open file is done on that file, with the request's own values; on a number that no open
/// file has, it is answered that the number is invalid. Closing a file closes that one and no other,
/// and is answered in any case.
pub proof fn law_files_are_worked_on_as_asked<R: Resources>(
    session: SessionView<R>,
    sftp: bool,
    req: FileRequest<R>,
)
    ensures
        ({
            let (after, task, action) = dispatch_next(
                session,
                sftp,
                DispatchTask::Block(SessionRequest::Sftp(SftpRequest::File(req))),
                DispatchEvent::Done,
            );
            let works = |id: FileId, op: FileOp<R>, to: R::Reply|
                {
                    &&& after == session
                    &&& if session.files.contains_key(id) {
                        &&& action == DispatchActionView::<R>::File(id, op)
                        &&& task == if op is Read {
                            DispatchTask::<R>::Read(to)
                        } else {
                            DispatchTask::<R>::Operation(Some(to))
                        }
                    } else {
                        &&& action == DispatchActionView::<R>::Reply(
                            to,
                            Err(seq!["invalid file_id"@]),
                        )
                        &&& task == DispatchTask::<R>::Answer
                    }
                };
            match req {
                FileRequest::Write(msg, to) => works(msg.file_id, FileOp::Write(msg.data), to),
                FileRequest::Read(msg, to) => works(msg.file_id, FileOp::Read(msg.max_bytes), to),
                FileRequest::Flush(id, to) => works(id, FileOp::Flush, to),
                FileRequest::SetMetadata(msg, to) => works(
                    msg.file_id,
                    FileOp::SetMetadata(msg.metadata),
                    to,
                ),
                FileRequest::Metadata(id, to) => works(id, FileOp::Metadata, to),
                FileRequest::Fsync(id, to) => works(id, FileOp::Fsync, to),
                FileRequest::Close(id, to) => {
                    &&& action == DispatchActionView::<R>::Reply(to, Ok(ReplyValue::Unit))
                    &&& task == DispatchTask::<R>::Answer
                    &&& !after.files.contains_key(id)
                    &&& forall|other: FileId|
                        other != id ==> (#[trigger] after.files.contains_key(other)
                            <==> session.files.contains_key(other))
                    &&& forall|other: FileId|
                        other != id && #[trigger] after.files.contains_key(other)
                            ==> after.files[other] == session.files[other]
                    &&& after.dirs == session.dirs && after.channels == session.channels
                    &&& after.next_file_id == session.next_file_id
                    &&& after.session_was_dropped == session.session_was_dropped
                },
            }
        }),
{
}

/// Work on an open directory is done on that directory; on a number that no open directory has, it
/// is answered that the number is invalid. Closing a directory closes that one and no other.
pub proof fn law_dirs_are_worked_on_as_asked<R: Resources>(
    session: SessionView<R>,
    sftp: bool,
    id: DirId,
    to: R::Reply,
)
    ensures
        ({
            let (after, task, action) = dispatch_next(
                session,
                sftp,
                DispatchTask::Block(
                    SessionRequest::Sftp(SftpRequest::Dir(DirRequest::ReadDir(id, to))),
                ),
                DispatchEvent::Done,
            );
            &&& after == session
            &&& if session.dirs.contains_key(id) {
                &&& action == DispatchActionView::<R>::ReadDir(id)
                &&& task == DispatchTask::<R>::Operation(Some(to))
            } else {
                action == DispatchActionView::<R>::Reply(to, Err(seq!["invalid dir_id"@]))
            }
        }),
        ({
            let (after, task, action) = dispatch_next(
                session,
                sftp,
                DispatchTask::Block(
                    SessionRequest::Sftp(SftpRequest::Dir(DirRequest::Close(id, to))),
                ),
                DispatchEvent::Done,
            );
            &&& action == if session.dirs.contains_key(id) {
                DispatchActionView::<R>::Reply(to, Ok(ReplyValue::Unit))
            } else {
                DispatchActionView::<R>::Reply(to, Err(seq!["invalid dir_id"@]))
            }
            &&& !after.dirs.contains_key(id)
            &&& forall|other: DirId|
                other != id ==> (#[trigger] after.dirs.contains_key(other)
                    <==> session.dirs.contains_key(other))
            &&& forall|other: DirId|
                other != id && #[trigger] after.dirs.contains_key(other) ==> after.dirs[other]
                    == session.dirs[other]
            &&& after.files == session.files && after.channels == session.channels
            &&& after.next_file_id == session.next_file_id
            &&& after.session_was_dropped == session.session_was_dropped
        }),
{
}

/// Every other request is done with its own values: a terminal is opened or resized as asked, the
/// command that was asked for is run, a signal goes to the channel that it is for where that is
/// there, and that the owner is gone is remembered. The answer, where one is wanted, goes where the
/// request says.
pub proof fn law_requests_are_done_as_asked<R: Resources>(
    session: SessionView<R>,
    sftp: bool,
    req: SessionRequest<R>,
)
    ensures
        ({
            let (after, task, action) = dispatch_next(
                session,
                sftp,
                DispatchTask::Block(req),
                DispatchEvent::Done,
            );
            match req {
                SessionRequest::SessionDropped => {
                    &&& after == (SessionView { session_was_dropped: true, ..session })
                    &&& task == DispatchTask::<R>::Unblock
                    &&& action == DispatchActionView::<R>::SetBlocking(false)
                },
                SessionRequest::NewPty(pty, to) => {
                    &&& after == session
                    &&& task == DispatchTask::<R>::Operation(Some(to))
                    &&& action == DispatchActionView::<R>::NewPty(pty)
                },
                SessionRequest::ResizePty(size, to) => {
                    &&& after == session
                    &&& task == DispatchTask::<R>::Operation(to)
                    &&& action == DispatchActionView::<R>::ResizePty(size)
                },
                SessionRequest::Exec(exec, to) => {
                    &&& after == session
                    &&& task == DispatchTask::<R>::Operation(Some(to))
                    &&& action == DispatchActionView::<R>::Exec(exec)
                },
                SessionRequest::SignalChannel(info) => {
                    &&& after == session
                    &&& if session.channels.contains_key(info.channel) {
                        &&& task == DispatchTask::<R>::Operation(None)
                        &&& action == DispatchActionView::<R>::SendSignal(info)
                    } else {
                        &&& task == DispatchTask::<R>::Answer
                        &&& action == DispatchActionView::<R>::Report(
                            seq!["invalid channel id "@ + decimal(info.channel as nat)],
                        )
                    }
                },
                SessionRequest::Sftp(_) => true,
            }
        }),
{
}

/// An answer says what came of the request: the value of the operation, the number under which what
/// was opened is filed, the bytes that were read and no more, or the failure.
pub proof fn law_answers_say_what_came_of_it<R: Resources>(
    session: SessionView<R>,
    sftp: bool,
    to: R::Reply,
    completed: Result<R::Value, Failure>,
    read: Result<(Vec<u8>, usize), Failure>,
    file: Result<R::File, Failure>,
    dir: Result<R::Dir, Failure>,
)
    ensures
        dispatch_next(
            session,
            sftp,
            DispatchTask::Operation(Some(to)),
            DispatchEvent::Completed(completed),
        ) == (
            session,
            DispatchTask::<R>::Answer,
            DispatchActionView::<R>::Reply(
                to,
                match completed {
                    Ok(value) => Ok(ReplyValue::Value(value)),
                    Err(failure) => Err(failure@),
                },
            ),
        ),
        dispatch_next(
            session,
            sftp,
            DispatchTask::Operation(None),
            DispatchEvent::Completed(completed),
        ).2 == match completed {
            Ok(_) => DispatchActionView::<R>::SetBlocking(false),
            Err(failure) => DispatchActionView::<R>::Report(failure@),
        },
        match (
            read,
            dispatch_next(session, sftp, DispatchTask::Read(to), DispatchEvent::FileRead(read)),
        ) {
            (Ok((buf, n)), (after, _, DispatchAction::Reply(sent, Ok(ReplyValue::Data(data))))) => {
                &&& after == session
                &&& sent == to
                &&& data.is_prefix_of(buf@)
                &&& n <= buf@.len() ==> data.len() == n
                &&& n > buf@.len() ==> data.len() == buf@.len()
            },
            (Err(failure), (after, _, DispatchAction::Reply(sent, Err(chain)))) => {
                after == session && sent == to && chain == failure@
            },
            _ => false,
        },
        match (
            file,
            dispatch_next(session, sftp, DispatchTask::Open(to), DispatchEvent::FileOpened(file)),
        ) {
            (Ok(new), (after, _, DispatchAction::Reply(sent, Ok(ReplyValue::File(id))))) => {
                &&& sent == to
                &&& id == session.next_file_id
                &&& after.files == session.files.insert(id, new)
                &&& after.next_file_id == (id + 1) as usize
                &&& after.dirs == session.dirs && after.channels == session.channels
            },
            (Err(failure), (after, _, DispatchAction::Reply(sent, Err(chain)))) => {
                after == session && sent == to && chain == failure@
            },
            _ => false,
        },
        match (
            dir,
            dispatch_next(session, sftp, DispatchTask::OpenDir(to), DispatchEvent::DirOpened(dir)),
        ) {
            (Ok(new), (after, _, DispatchAction::Reply(sent, Ok(ReplyValue::Dir(id))))) => {
                &&& sent == to
                &&& id == session.next_file_id
                &&& after.dirs == session.dirs.insert(id, new)
                &&& after.next_file_id == (id + 1) as usize
                &&& after.files == session.files && after.channels == session.channels
            },
            (Err(failure), (after, _, DispatchAction::Reply(sent, Err(chain)))) => {
                after == session && sent == to && chain == failure@
            },
            _ => false,
        },
{
}

/// How a service begins and ends: without a request nothing is done, once none can come any more it
/// fails, and a request is served between making the connection blocking and making it non-blocking
/// again; then there may be more.
pub proof fn law_service_begins_and_ends<R: Resources>(
    session: SessionView<R>,
    sftp: bool,
    req: SessionRequest<R>,
)
    ensures
        dispatch_next(
            session,
            sftp,
            DispatchTask::Receive,
            DispatchEvent::Received(Err(RecvError::Empty)),
        ) == (
            session,
            DispatchTask::<R>::Finished,
            DispatchActionView::<R>::Finished(Ok(false)),
        ),
        dispatch_next(
            session,
            sftp,
            DispatchTask::Receive,
            DispatchEvent::Received(Err(RecvError::Closed)),
        ) == (
            session,
            DispatchTask::<R>::Finished,
            DispatchActionView::<R>::Finished(Err(seq!["all clients are closed"@])),
        ),
        dispatch_next(
            session,
            sftp,
            DispatchTask::Receive,
            DispatchEvent::Received(Ok(req)),
        ) == (
            session,
            DispatchTask::<R>::Block(req),
            DispatchActionView::<R>::SetBlocking(true),
        ),
        dispatch_next(session, sftp, DispatchTask::Answer, DispatchEvent::Done) == (
            session,
            DispatchTask::<R>::Unblock,
            DispatchActionView::<R>::SetBlocking(false),
        ),
        dispatch_next(session, sftp, DispatchTask::Unblock, DispatchEvent::Done) == (
            session,
            DispatchTask::<R>::Finished,
            DispatchActionView::<R>::Finished(Ok(true)),
        ),
{
}

/// An outcome can be taken in if it is of the awaited action, whether that went well or not.
pub proof fn law_service_takes_any_outcome<R: Resources>(
    session: SessionView<R>,
    received: Result<SessionRequest<R>, RecvError>,
    req: SessionRequest<R>,
    op: SftpOp<R>,
    to: R::Reply,
    unanswered: Option<R::Reply>,
    sftp: Result<R::Sftp, Failure>,
    file: Result<R::File, Failure>,
    dir: Result<R::Dir, Failure>,
    read: Result<(Vec<u8>, usize), Failure>,
    completed: Result<R::Value, Failure>,
)
    requires
        session.next_file_id < usize::MAX,
    ensures
        DispatchTask::<R>::Receive.accepts(session, DispatchEvent::Received(received)),
        DispatchTask::Block(req).accepts(session, DispatchEvent::Done),
        DispatchTask::Sftp(op, to).accepts(session, DispatchEvent::SftpOpened(sftp)),
        DispatchTask::<R>::Open(to).accepts(session, DispatchEvent::FileOpened(file)),
        DispatchTask::<R>::OpenDir(to).accepts(session, DispatchEvent::DirOpened(dir)),
        DispatchTask::<R>::Read(to).accepts(session, DispatchEvent::FileRead(read)),
        DispatchTask::<R>::Operation(unanswered).accepts(
            session,
            DispatchEvent::Completed(completed),
        ),
        DispatchTask::<R>::Answer.accepts(session, DispatchEvent::Done),
        DispatchTask::<R>::Unblock.accepts(session, DispatchEvent::Done),
{
}

/// In the log, every request goes by the name of the operation that serves it.
pub proof fn law_requests_go_by_their_operation<R: Resources>(req: SessionRequest<R>)
    ensures
        label_of(req) == match req {
            SessionRequest::SessionDropped => "session_dropped"@,
            SessionRequest::NewPty(_, _) => "NewPty"@,
            SessionRequest::ResizePty(_, _) => "resize_pty"@,
            SessionRequest::Exec(_, _) => "exec"@,
            SessionRequest::SignalChannel(_) => "signal_channel"@,
            SessionRequest::Sftp(SftpRequest::OpenWithMode(_, _)) => "OpenWithMode"@,
            SessionRequest::Sftp(SftpRequest::OpenDir(_, _)) => "OpenDir"@,
            SessionRequest::Sftp(SftpRequest::File(FileRequest::Write(_, _))) => "write_file"@,
            SessionRequest::Sftp(SftpRequest::File(FileRequest::Read(_, _))) => "read_file"@,
            SessionRequest::Sftp(SftpRequest::File(FileRequest::Close(_, _))) => "close_file"@,
            SessionRequest::Sftp(SftpRequest::File(FileRequest::Flush(_, _))) => "flush_file"@,
            SessionRequest::Sftp(SftpRequest::File(FileRequest::SetMetadata(_, _))) => "set_metadata_file"@,
            SessionRequest::Sftp(SftpRequest::File(FileRequest::Metadata(_, _))) => "metadata_file"@,
            SessionRequest::Sftp(SftpRequest::File(FileRequest::Fsync(_, _))) => "fsync"@,
            SessionRequest::Sftp(SftpRequest::Dir(DirRequest::Close(_, _))) => "close_dir"@,
            SessionRequest::Sftp(SftpRequest::Dir(DirRequest::ReadDir(_, _))) => "read_dir"@,
            SessionRequest::Sftp(SftpRequest::ReadDir(_, _)) => "read_dir"@,
            SessionRequest::Sftp(SftpRequest::CreateDir(_, _)) => "create_dir"@,
            SessionRequest::Sftp(SftpRequest::RemoveDir(_, _)) => "remove_dir"@,
            SessionRequest::Sftp(SftpRequest::Metadata(_, _)) => "metadata"@,
            SessionRequest::Sftp(SftpRequest::SymlinkMetadata(_, _)) => "symlink_metadata"@,
            SessionRequest::Sftp(SftpRequest::SetMetadata(_, _)) => "set_metadata"@,
            SessionRequest::Sftp(SftpRequest::Symlink(_, _)) => "symlink"@,
            SessionRequest::Sftp(SftpRequest::ReadLink(_, _)) => "read_link"@,
            SessionRequest::Sftp(SftpRequest::Canonicalize(_, _)) => "canonicalize"@,
            SessionRequest::Sftp(SftpRequest::Rename(_, _)) => "rename"@,
            SessionRequest::Sftp(SftpRequest::RemoveFile(_, _)) => "remove_file"@,
        },
{
}

} // verus!
