//! How a command is run on a channel of its own.

use crate::config::option;
use crate::failure::{outermost, Failure};
use crate::requests::Exec;
use crate::resources::Resources;
use crate::session::{agent_of, optional_text, ChannelId, ChannelView, SessionInner, SessionView};
use filedescriptor::FileDescriptor;
use portable_pty::ExitStatus;
use smol::channel::Sender;
use vstd::prelude::*;

verus! {

/// A command that runs: the caller's ends of its streams, and the number of its channel.
pub struct ExecResult {
    /// Where its standard input is written.
    pub stdin: FileDescriptor,
    /// Where its standard output is read.
    pub stdout: FileDescriptor,
    /// Where its standard error is read.
    pub stderr: FileDescriptor,
    /// Its channel.
    pub child: ChannelId,
}

/// What the driver is to do next.
pub enum ExecAction<R: Resources, F> {
    /// Open a channel.
    OpenSession,
    /// See where the environment says the identity agent is.
    LookupAgent,
    /// Ask for the identity agent to be forwarded.
    RequestAgentForwarding(R::Channel),
    /// Ask for a variable to be set.
    RequestEnv(R::Channel, String, String),
    /// Ask for the command to be run.
    RequestExec(R::Channel, String),
    /// Log this: something that was asked for was refused.
    Report(F),
    /// Make a pair of connected descriptors.
    Socketpair,
    /// Make the descriptor non-blocking.
    SetNonBlocking(FileDescriptor),
    /// Make a channel for the exit status that holds that many.
    MakeExitChannel(usize),
    /// The command runs, or could not be run.
    Finished(Result<ExecResult, F>),
}

/// An action, with sequences for what it carries.
pub type ExecActionView<R> = ExecAction<R, Seq<Seq<char>>>;

impl<R: Resources> View for ExecAction<R, Failure> {
    type V = ExecActionView<R>;

    open spec fn view(&self) -> ExecActionView<R> {
        match *self {
            ExecAction::OpenSession => ExecAction::OpenSession,
            ExecAction::LookupAgent => ExecAction::LookupAgent,
            ExecAction::RequestAgentForwarding(channel) => ExecAction::RequestAgentForwarding(
                channel,
            ),
            ExecAction::RequestEnv(channel, name, value) => ExecAction::RequestEnv(
                channel,
                name,
                value,
            ),
            ExecAction::RequestExec(channel, command) => ExecAction::RequestExec(channel, command),
            ExecAction::Report(failure) => ExecAction::Report(failure@),
            ExecAction::Socketpair => ExecAction::Socketpair,
            ExecAction::SetNonBlocking(fd) => ExecAction::SetNonBlocking(fd),
            ExecAction::MakeExitChannel(len) => ExecAction::MakeExitChannel(len),
            ExecAction::Finished(Ok(result)) => ExecAction::Finished(Ok(result)),
            ExecAction::Finished(Err(failure)) => ExecAction::Finished(Err(failure@)),
        }
    }
}

/// How the action that was given last came out.
pub enum ExecEvent<R: Resources> {
    /// What opening the channel returned.
    Opened(Result<R::Channel, Failure>),
    /// Where the environment says the identity agent is.
    AgentEnv(Option<String>),
    /// The channel that something was asked of, and how that came out.
    Requested(R::Channel, Result<(), Failure>),
    /// It is done.
    Done,
    /// What making a pair returned.
    Paired(Result<(FileDescriptor, FileDescriptor), Failure>),
    /// The descriptor that was made non-blocking, or why it was not.
    NonBlocking(Result<FileDescriptor, Failure>),
    /// The sending end of the channel for the exit status.
    ExitChannel(Sender<ExitStatus>),
}

/// How far the start of a command has come. `V` lists descriptors.
pub enum ExecTask<R: Resources, V> {
    /// The channel is opened.
    Open(Exec),
    /// The environment is asked for the identity agent.
    Agent(Exec, R::Channel),
    /// The identity agent is asked to be forwarded.
    Forward(Exec),
    /// The variable with this place in the list is asked to be set.
    Env(Exec, usize),
    /// A refusal is logged, before the variable with this place in the list is asked to be set.
    Log(Exec, R::Channel, usize),
    /// The command is asked to be run.
    Command,
    /// A pair is made for the next stream. The lists hold the caller's ends and the session's ends
    /// of those that are made.
    Pair(ChannelId, R::Channel, V, V),
    /// An end is made non-blocking. The lists hold the caller's ends, the session's ends still to
    /// be made non-blocking, and those that are.
    Unblock(ChannelId, R::Channel, V, V, V),
    /// The channel for the exit status is made.
    Exit(ChannelId, R::Channel, V, V),
    /// The command runs, or could not be run.
    Finished,
}

/// How far the start of a command has come, with sequences for its lists.
pub type ExecTaskView<R> = ExecTask<R, Seq<FileDescriptor>>;

impl<R: Resources> View for ExecTask<R, Vec<FileDescriptor>> {
    type V = ExecTaskView<R>;

    open spec fn view(&self) -> ExecTaskView<R> {
        match *self {
            ExecTask::Open(exec) => ExecTask::Open(exec),
            ExecTask::Agent(exec, channel) => ExecTask::Agent(exec, channel),
            ExecTask::Forward(exec) => ExecTask::Forward(exec),
            ExecTask::Env(exec, at) => ExecTask::Env(exec, at),
            ExecTask::Log(exec, channel, at) => ExecTask::Log(exec, channel, at),
            ExecTask::Command => ExecTask::Command,
            ExecTask::Pair(id, channel, theirs, ours) => ExecTask::Pair(
                id,
                channel,
                theirs@,
                ours@,
            ),
            ExecTask::Unblock(id, channel, theirs, waiting, ready) => ExecTask::Unblock(
                id,
                channel,
                theirs@,
                waiting@,
                ready@,
            ),
            ExecTask::Exit(id, channel, theirs, ready) => ExecTask::Exit(
                id,
                channel,
                theirs@,
                ready@,
            ),
            ExecTask::Finished => ExecTask::Finished,
        }
    }
}

/// The variables to set for a command.
pub open spec fn variables(exec: Exec) -> Seq<(String, String)> {
    match exec.env {
        Some(env) => env@,
        None => Seq::empty(),
    }
}

/// Whether the identity agent is to be forwarded.
pub open spec fn forwards_agent(config: Map<Seq<char>, Seq<char>>) -> bool {
    option(config, "forwardagent"@) == Some("yes"@)
}

impl<R: Resources> ExecTask<R, Seq<FileDescriptor>> {
    /// Whether `ev` can be the outcome of the awaited action.
    pub open spec fn accepts(self, session: SessionView<R>, ev: ExecEvent<R>) -> bool {
        match (self, ev) {
            (ExecTask::Open(_), ExecEvent::Opened(_)) => true,
            (ExecTask::Agent(_, _), ExecEvent::AgentEnv(_)) => true,
            (ExecTask::Forward(_), ExecEvent::Requested(_, _)) => true,
            (ExecTask::Env(exec, at), ExecEvent::Requested(_, _)) => at < variables(exec).len(),
            (ExecTask::Log(_, _, _), ExecEvent::Done) => true,
            (ExecTask::Command, ExecEvent::Requested(_, r)) => r is Ok ==> session.next_channel_id
                < usize::MAX,
            (ExecTask::Pair(id, _, theirs, ours), ExecEvent::Paired(_)) => {
                &&& theirs.len() == ours.len()
                &&& ours.len() < 3
                &&& id < session.next_channel_id
            },
            (ExecTask::Unblock(id, _, theirs, waiting, ready), ExecEvent::NonBlocking(_)) => {
                &&& theirs.len() == 3
                &&& waiting.len() + ready.len() == 2
                &&& id < session.next_channel_id
            },
            (ExecTask::Exit(id, _, theirs, ready), ExecEvent::ExitChannel(_)) => {
                &&& theirs.len() == 3
                &&& ready.len() == 3
                &&& id < session.next_channel_id
            },
            _ => false,
        }
    }
}

/// What a step comes to: the session, how far the start has come, and the action.
pub type ExecStep<R> = (SessionView<R>, ExecTaskView<R>, ExecActionView<R>);

/// To give up.
pub open spec fn exec_failed<R: Resources>(
    session: SessionView<R>,
    failure: Failure,
) -> ExecStep<R> {
    (session, ExecTask::Finished, ExecAction::Finished(Err(failure@)))
}

/// To ask for the variables from place `at` on, and then for the command.
pub open spec fn ask_from<R: Resources>(
    session: SessionView<R>,
    exec: Exec,
    channel: R::Channel,
    at: usize,
) -> ExecStep<R> {
    if at < variables(exec).len() {
        let (name, value) = variables(exec)[at as int];
        (session, ExecTask::Env(exec, at), ExecAction::RequestEnv(channel, name, value))
    } else {
        (session, ExecTask::Command, ExecAction::RequestExec(channel, exec.command_line))
    }
}

/// What is logged where the identity agent is not forwarded.
pub open spec fn forward_refused(failure: Seq<Seq<char>>) -> Seq<Seq<char>> {
    seq!["Failed to request agent forwarding"@] + failure
}

/// What is logged where a variable is not set.
pub open spec fn variable_refused(
    name: Seq<char>,
    value: Seq<char>,
    failure: Seq<Seq<char>>,
) -> Seq<Seq<char>> {
    seq![
        "ssh: setenv "@ + name + "="@ + value + " failed: "@ + outermost(failure)
            + ". Check the AcceptEnv setting on the ssh server side."@,
    ]
}

/// To go on with the variables from place `at` on, after a refusal is logged where there was one.
pub open spec fn ask_on<R: Resources>(
    session: SessionView<R>,
    exec: Exec,
    channel: R::Channel,
    at: usize,
    refused: Option<Seq<Seq<char>>>,
) -> ExecStep<R> {
    match refused {
        Some(failure) => (
            session,
            ExecTask::Log(exec, channel, at),
            ExecAction::Report(failure),
        ),
        None => ask_from(session, exec, channel, at),
    }
}

/// To ask for the identity agent to be forwarded where `agent` says that there is one, and then for
/// the rest.
pub open spec fn ask_for_agent<R: Resources>(
    session: SessionView<R>,
    exec: Exec,
    channel: R::Channel,
    agent: Option<Seq<char>>,
) -> ExecStep<R> {
    if agent is Some {
        (session, ExecTask::Forward(exec), ExecAction::RequestAgentForwarding(channel))
    } else {
        ask_from(session, exec, channel, 0)
    }
}

/// The next step, given the outcome of the awaited action.
pub open spec fn exec_next<R: Resources>(
    session: SessionView<R>,
    task: ExecTaskView<R>,
    ev: ExecEvent<R>,
) -> ExecStep<R> {
    match (task, ev) {
        (ExecTask::Open(_), ExecEvent::Opened(Err(failure))) => exec_failed(session, failure),
        (ExecTask::Open(exec), ExecEvent::Opened(Ok(channel))) => if !forwards_agent(
            session.config,
        ) {
            ask_from(session, exec, channel, 0)
        } else if option(session.config, "identityagent"@) is Some {
            ask_for_agent(session, exec, channel, agent_of(session.config, None))
        } else {
            (session, ExecTask::Agent(exec, channel), ExecAction::LookupAgent)
        },
        (ExecTask::Agent(exec, channel), ExecEvent::AgentEnv(env)) => ask_for_agent(
            session,
            exec,
            channel,
            agent_of(session.config, optional_text(env)),
        ),
        (ExecTask::Forward(exec), ExecEvent::Requested(channel, r)) => ask_on(
            session,
            exec,
            channel,
            0,
            match r {
                Ok(_) => None,
                Err(failure) => Some(forward_refused(failure@)),
            },
        ),
        (ExecTask::Env(exec, at), ExecEvent::Requested(channel, r)) => ask_on(
            session,
            exec,
            channel,
            (at + 1) as usize,
            match r {
                Ok(_) => None,
                Err(failure) => Some(
                    variable_refused(
                        variables(exec)[at as int].0@,
                        variables(exec)[at as int].1@,
                        failure@,
                    ),
                ),
            },
        ),
        (ExecTask::Log(exec, channel, at), _) => ask_from(session, exec, channel, at),
        (ExecTask::Command, ExecEvent::Requested(_, Err(failure))) => exec_failed(session, failure),
        (ExecTask::Command, ExecEvent::Requested(channel, Ok(_))) => (
            SessionView { next_channel_id: (session.next_channel_id + 1) as usize, ..session },
            ExecTask::Pair(session.next_channel_id, channel, Seq::empty(), Seq::empty()),
            ExecAction::Socketpair,
        ),
        (ExecTask::Pair(_, _, _, _), ExecEvent::Paired(Err(failure))) => exec_failed(
            session,
            failure,
        ),
        (ExecTask::Pair(id, channel, theirs, ours), ExecEvent::Paired(Ok((first, second)))) => {
            // The caller keeps the end that it writes to, or the end that it reads from.
            let theirs2 = theirs.push(
                if ours.len() == 0 {
                    first
                } else {
                    second
                },
            );
            let ours2 = ours.push(
                if ours.len() == 0 {
                    second
                } else {
                    first
                },
            );
            if ours2.len() < 3 {
                (session, ExecTask::Pair(id, channel, theirs2, ours2), ExecAction::Socketpair)
            } else {
                (
                    session,
                    ExecTask::Unblock(id, channel, theirs2, ours2.drop_first(), Seq::empty()),
                    ExecAction::SetNonBlocking(ours2[0]),
                )
            }
        },
        (ExecTask::Unblock(_, _, _, _, _), ExecEvent::NonBlocking(Err(failure))) => exec_failed(
            session,
            failure,
        ),
        (
            ExecTask::Unblock(id, channel, theirs, waiting, ready),
            ExecEvent::NonBlocking(Ok(fd)),
        ) => if waiting.len() > 0 {
            (
                session,
                ExecTask::Unblock(id, channel, theirs, waiting.drop_first(), ready.push(fd)),
                ExecAction::SetNonBlocking(waiting[0]),
            )
        } else {
            (
                session,
                ExecTask::Exit(id, channel, theirs, ready.push(fd)),
                ExecAction::MakeExitChannel(1),
            )
        },
        (ExecTask::Exit(id, channel, theirs, ready), ExecEvent::ExitChannel(exit)) => (
            session.with_channel(
                id,
                ChannelView::fresh(
                    id,
                    channel,
                    Some(exit),
                    seq![Some(ready[0]), Some(ready[1]), Some(ready[2])],
                ),
            ),
            ExecTask::Finished,
            ExecAction::Finished(
                Ok(
                    ExecResult {
                        stdin: theirs[0],
                        stdout: theirs[1],
                        stderr: theirs[2],
                        child: id,
                    },
                ),
            ),
        ),
        _ => (session, task, ExecAction::OpenSession),
    }
}

/// What an exec step returns.
pub type ExecReturn<R> = (ExecTask<R, Vec<FileDescriptor>>, ExecAction<R, Failure>);

impl<R: Resources> SessionInner<R> {
    /// Starts to run a command: gives the first action.
    pub fn exec(&self, exec: Exec) -> (r: ExecReturn<R>)
        ensures
            r.0@ == ExecTaskView::<R>::Open(exec),
            r.1@ == ExecActionView::<R>::OpenSession,
    {
        (ExecTask::Open(exec), ExecAction::OpenSession)
    }

    /// Takes in the outcome of the action that was given last, and gives the next one.
    pub fn exec_step(&mut self, task: ExecTask<R, Vec<FileDescriptor>>, ev: ExecEvent<R>) -> (r:
        ExecReturn<R>)
        requires
            old(self)@.wf(),
            task@.accepts(old(self)@, ev),
        ensures
            (final(self)@, r.0@, r.1@) == exec_next(old(self)@, task@, ev),
            final(self)@.wf(),
    {
        match (task, ev) {
            (ExecTask::Open(exec), ExecEvent::Opened(Ok(channel))) => {
                if !self.config.is("forwardagent", "yes") {
                    ask(exec, channel, 0)
                } else if self.config.get("identityagent").is_some() {
                    let agent = self.identity_agent(None);
                    ask_agent(exec, channel, agent.is_some())
                } else {
                    (ExecTask::Agent(exec, channel), ExecAction::LookupAgent)
                }
            },
            (ExecTask::Agent(exec, channel), ExecEvent::AgentEnv(env)) => {
                let agent = self.identity_agent(env);
                ask_agent(exec, channel, agent.is_some())
            },
            (ExecTask::Forward(exec), ExecEvent::Requested(channel, Ok(_))) => ask(
                exec,
                channel,
                0,
            ),
            (ExecTask::Forward(exec), ExecEvent::Requested(channel, Err(failure))) => (
                ExecTask::Log(exec, channel, 0),
                ExecAction::Report(
                    failure.context("Failed to request agent forwarding".to_owned()),
                ),
            ),
            (ExecTask::Env(exec, at), ExecEvent::Requested(channel, Ok(_))) => {
                assert(exec.env matches Some(env) && at < env.len());
                ask(exec, channel, at + 1)
            },
            (ExecTask::Env(exec, at), ExecEvent::Requested(channel, Err(failure))) => {
                assert(exec.env matches Some(env) && at < env.len());
                let refusal = refuse_variable(&exec, at, failure);
                (ExecTask::Log(exec, channel, at + 1), ExecAction::Report(refusal))
            },
            (ExecTask::Log(exec, channel, at), _) => ask(exec, channel, at),
            (ExecTask::Command, ExecEvent::Requested(channel, Ok(_))) => {
                let id: ChannelId = self.allocate_channel_id();
                (ExecTask::Pair(id, channel, Vec::new(), Vec::new()), ExecAction::Socketpair)
            },
            (
                ExecTask::Pair(id, channel, theirs, ours),
                ExecEvent::Paired(Ok((first, second))),
            ) => {
                let mut theirs = theirs;
                let mut ours = ours;
                if ours.len() == 0 {
                    theirs.push(first);
                    ours.push(second);
                } else {
                    theirs.push(second);
                    ours.push(first);
                }
                if ours.len() < 3 {
                    (ExecTask::Pair(id, channel, theirs, ours), ExecAction::Socketpair)
                } else {
                    let ghost all = ours@;
                    let fd = ours.remove(0);
                    assert(ours@ == all.drop_first());
                    (
                        ExecTask::Unblock(id, channel, theirs, ours, Vec::new()),
                        ExecAction::SetNonBlocking(fd),
                    )
                }
            },
            (
                ExecTask::Unblock(id, channel, theirs, waiting, ready),
                ExecEvent::NonBlocking(Ok(fd)),
            ) => {
                let mut waiting = waiting;
                let mut ready = ready;
                ready.push(fd);
                if waiting.len() > 0 {
                    let ghost all = waiting@;
                    let next = waiting.remove(0);
                    assert(waiting@ == all.drop_first());
                    (
                        ExecTask::Unblock(id, channel, theirs, waiting, ready),
                        ExecAction::SetNonBlocking(next),
                    )
                } else {
                    (ExecTask::Exit(id, channel, theirs, ready), ExecAction::MakeExitChannel(1))
                }
            },
            (ExecTask::Exit(id, channel, theirs, ready), ExecEvent::ExitChannel(exit)) => {
                let mut theirs = theirs;
                let mut ready = ready;
                let stderr = theirs.remove(2);
                let stdout = theirs.remove(1);
                let stdin = theirs.remove(0);
                let write_to_stderr = ready.remove(2);
                let write_to_stdout = ready.remove(1);
                let read_from_stdin = ready.remove(0);
                self.insert_channel(
                    id,
                    channel,
                    Some(exit),
                    Some(read_from_stdin),
                    Some(write_to_stdout),
                    Some(write_to_stderr),
                );
                (
                    ExecTask::Finished,
                    ExecAction::Finished(Ok(ExecResult { stdin, stdout, stderr, child: id })),
                )
            },
            (ExecTask::Open(_), ExecEvent::Opened(Err(failure))) => (
                ExecTask::Finished,
                ExecAction::Finished(Err(failure)),
            ),
            (ExecTask::Command, ExecEvent::Requested(_, Err(failure))) => (
                ExecTask::Finished,
                ExecAction::Finished(Err(failure)),
            ),
            (ExecTask::Pair(_, _, _, _), ExecEvent::Paired(Err(failure))) => (
                ExecTask::Finished,
                ExecAction::Finished(Err(failure)),
            ),
            (ExecTask::Unblock(_, _, _, _, _), ExecEvent::NonBlocking(Err(failure))) => (
                ExecTask::Finished,
                ExecAction::Finished(Err(failure)),
            ),
            (task, _) => (task, ExecAction::OpenSession),
        }
    }
}

/// What is logged where the variable with the place `at` is not set.
fn refuse_variable(exec: &Exec, at: usize, failure: Failure) -> (r: Failure)
    requires
        at < variables(*exec).len(),
    ensures
        r@ == variable_refused(
            variables(*exec)[at as int].0@,
            variables(*exec)[at as int].1@,
            failure@,
        ),
{
    match &exec.env {
        Some(env) => Failure::message(
            "ssh: setenv ".to_owned().concat(env[at].0.as_str()).concat("=").concat(
                env[at].1.as_str(),
            ).concat(" failed: ").concat(failure.headline().as_str()).concat(
                ". Check the AcceptEnv setting on the ssh server side.",
            ),
        ),
        None => failure,
    }
}

/// Asks for the variables from place `at` on, and then for the command.
fn ask<R: Resources>(exec: Exec, channel: R::Channel, at: usize) -> (r: ExecReturn<R>)
    ensures
        forall|session: SessionView<R>|
            (session, r.0@, r.1@) == #[trigger] ask_from(session, exec, channel, at),
{
    match &exec.env {
        Some(env) => {
            if at < env.len() {
                let name = env[at].0.clone();
                let value = env[at].1.clone();
                return (ExecTask::Env(exec, at), ExecAction::RequestEnv(channel, name, value));
            }
        },
        None => {},
    }
    (ExecTask::Command, ExecAction::RequestExec(channel, exec.command_line))
}

/// Asks for the identity agent to be forwarded if there is one, and then for the rest.
fn ask_agent<R: Resources>(exec: Exec, channel: R::Channel, there: bool) -> (r: ExecReturn<R>)
    ensures
        forall|session: SessionView<R>, agent: Option<Seq<char>>|
            (agent is Some) == there ==> (session, r.0@, r.1@) == #[trigger] ask_for_agent(
                session,
                exec,
                channel,
                agent,
            ),
{
    if there {
        (ExecTask::Forward(exec), ExecAction::RequestAgentForwarding(channel))
    } else {
        ask(exec, channel, 0)
    }
}

/// A request for a variable or for the identity agent that is refused does not keep the command from
/// being run: the refusal is logged, and then it goes on as if the request had been granted. A granted
/// request logs nothing.
pub proof fn law_refused_requests_do_not_matter<R: Resources>(
    session: SessionView<R>,
    task: ExecTaskView<R>,
    channel: R::Channel,
    failure: Failure,
)
    requires
        task is Env || task is Forward,
    ensures
        ({
            let granted = exec_next(session, task, ExecEvent::Requested(channel, Ok(())));
            let refused = exec_next(session, task, ExecEvent::Requested(channel, Err(failure)));
            &&& refused.2 is Report
            &&& refused.0 == session
            &&& exec_next(refused.0, refused.1, ExecEvent::Done) == granted
            &&& !(granted.2 is Report)
        }),
{
}

/// A command that could not be run leaves no channel behind, and no step before the last files one.
pub proof fn law_exec_files_a_channel_only_at_the_end<R: Resources>(
    session: SessionView<R>,
    task: ExecTaskView<R>,
    ev: ExecEvent<R>,
)
    requires
        task.accepts(session, ev),
    ensures
        ({
            let (after, next, action) = exec_next(session, task, ev);
            &&& !(action matches ExecAction::Finished(Ok(_))) ==> after.channels
                == session.channels
            &&& action matches ExecAction::Finished(Ok(result)) ==> {
                &&& after.channels.dom() == session.channels.dom().insert(result.child)
                &&& after.channels[result.child].exit is Some
                &&& !after.channels[result.child].exited
            }
            &&& after.next_channel_id >= session.next_channel_id
            &&& action is Finished <==> next is Finished
            &&& after.files == session.files && after.dirs == session.dirs
        }),
{
    if let ExecAction::Finished(Ok(result)) = exec_next(session, task, ev).2 {
        assert(exec_next(session, task, ev).0.channels.dom() == session.channels.dom().insert(
            result.child,
        ));
    }
}

/// How many steps are left at most until a command runs, or could not be run.
pub open spec fn exec_steps_left<R: Resources>(task: ExecTaskView<R>) -> int {
    match task {
        ExecTask::Open(exec) => 2 * variables(exec).len() as int + 12,
        ExecTask::Agent(exec, _) => 2 * variables(exec).len() as int + 11,
        ExecTask::Forward(exec) => 2 * variables(exec).len() as int + 10,
        ExecTask::Env(exec, at) => 2 * (variables(exec).len() - at) + 8,
        ExecTask::Log(exec, _, at) => 2 * (if at < variables(exec).len() {
            variables(exec).len() - at
        } else {
            0
        }) + 9,
        ExecTask::Command => 8,
        ExecTask::Pair(_, _, _, ours) => 7 - ours.len(),
        ExecTask::Unblock(_, _, _, waiting, _) => 2 + waiting.len() as int,
        ExecTask::Exit(_, _, _, _) => 1,
        ExecTask::Finished => 0,
    }
}

/// The start of a command comes to its end: with every step, fewer are left.
pub proof fn law_exec_ends<R: Resources>(
    session: SessionView<R>,
    task: ExecTaskView<R>,
    ev: ExecEvent<R>,
)
    requires
        task.accepts(session, ev),
    ensures
        0 <= exec_steps_left(exec_next(session, task, ev).1) < exec_steps_left(task),
{
    if let ExecTask::Env(exec, _) = task {
        if let Some(env) = exec.env {
            assert(env.len() <= usize::MAX);
        }
    }
}

/// The number of a new channel was never in use.
pub proof fn law_exec_number_is_fresh<R: Resources>(
    session: SessionView<R>,
    channel: R::Channel,
    r: Result<(), Failure>,
)
    requires
        session.wf(),
        session.next_channel_id < usize::MAX,
    ensures
        exec_next(session, ExecTask::Command, ExecEvent::Requested(channel, r)).1
            matches ExecTask::Pair(id, _, _, _) ==> !session.channels.contains_key(id),
{
}

/// The state after the pairs `a`, `b` and `c` are made and the session's ends made non-blocking,
/// each step having gone well.
pub open spec fn exec_connected<R: Resources>(
    session: SessionView<R>,
    id: ChannelId,
    channel: R::Channel,
    a: (FileDescriptor, FileDescriptor),
    b: (FileDescriptor, FileDescriptor),
    c: (FileDescriptor, FileDescriptor),
    exit: Sender<ExitStatus>,
) -> ExecStep<R> {
    let t0 = ExecTask::<R, Seq<FileDescriptor>>::Pair(id, channel, Seq::empty(), Seq::empty());
    let t1 = exec_next(session, t0, ExecEvent::Paired(Ok(a))).1;
    let t2 = exec_next(session, t1, ExecEvent::Paired(Ok(b))).1;
    let s3 = exec_next(session, t2, ExecEvent::Paired(Ok(c)));
    let s4 = exec_next(session, s3.1, ExecEvent::NonBlocking(Ok(s3.2->SetNonBlocking_0)));
    let s5 = exec_next(session, s4.1, ExecEvent::NonBlocking(Ok(s4.2->SetNonBlocking_0)));
    let s6 = exec_next(session, s5.1, ExecEvent::NonBlocking(Ok(s5.2->SetNonBlocking_0)));
    exec_next(session, s6.1, ExecEvent::ExitChannel(exit))
}

/// The caller of a command and its channel hold the two ends of each pair: the caller writes to the
/// first end of the first pair and reads from the second ends of the others.
pub proof fn law_exec_connects_the_streams<R: Resources>(
    session: SessionView<R>,
    id: ChannelId,
    channel: R::Channel,
    a: (FileDescriptor, FileDescriptor),
    b: (FileDescriptor, FileDescriptor),
    c: (FileDescriptor, FileDescriptor),
    exit: Sender<ExitStatus>,
)
    ensures
        exec_connected(session, id, channel, a, b, c, exit) == (
            session.with_channel(
                id,
                ChannelView::fresh(
                    id,
                    channel,
                    Some(exit),
                    seq![Some(a.1), Some(b.0), Some(c.0)],
                ),
            ),
            ExecTaskView::<R>::Finished,
            ExecActionView::<R>::Finished(
                Ok(ExecResult { stdin: a.0, stdout: b.1, stderr: c.1, child: id }),
            ),
        ),
{
}

/// The start of a command together with what was asked for since it began.
pub struct ExecTrace<R: Resources> {
    /// How far it has come.
    pub task: ExecTaskView<R>,
    /// The variables that were asked to be set, in order.
    pub variables: Seq<(String, String)>,
    /// The commands that were asked to be run, in order.
    pub commands: Seq<String>,
    /// The channel as it was handed in last.
    pub channel: Option<R::Channel>,
}

impl<R: Resources> ExecTrace<R> {
    /// At the beginning.
    pub open spec fn start(exec: Exec) -> ExecTrace<R> {
        ExecTrace {
            task: ExecTask::Open(exec),
            variables: Seq::empty(),
            commands: Seq::empty(),
            channel: None,
        }
    }

    /// After an outcome, taken in while the session is as given.
    pub open spec fn next(self, session: SessionView<R>, ev: ExecEvent<R>) -> ExecTrace<R> {
        let (_, task, action) = exec_next(session, self.task, ev);
        ExecTrace {
            task,
            variables: match action {
                ExecAction::RequestEnv(_, name, value) => self.variables.push((name, value)),
                _ => self.variables,
            },
            commands: match action {
                ExecAction::RequestExec(_, command) => self.commands.push(command),
                _ => self.commands,
            },
            channel: match ev {
                ExecEvent::Opened(Ok(channel)) => Some(channel),
                ExecEvent::Requested(channel, _) => Some(channel),
                _ => self.channel,
            },
        }
    }

    /// After these outcomes, each with the session as it was then.
    pub open spec fn after(exec: Exec, steps: Seq<(SessionView<R>, ExecEvent<R>)>) -> ExecTrace<R>
        decreases steps.len(),
    {
        if steps.len() == 0 {
            ExecTrace::start(exec)
        } else {
            ExecTrace::after(exec, steps.drop_last()).next(steps.last().0, steps.last().1)
        }
    }

    /// Whether each of these outcomes, in order, can be that of the action that was awaited then.
    pub open spec fn possible(exec: Exec, steps: Seq<(SessionView<R>, ExecEvent<R>)>) -> bool
        decreases steps.len(),
    {
        steps.len() > 0 ==> {
            &&& ExecTrace::possible(exec, steps.drop_last())
            &&& ExecTrace::after(exec, steps.drop_last()).task.accepts(
                steps.last().0,
                steps.last().1,
            )
        }
    }

    /// What holds at every moment: the variables were asked for in order, from the first one on, and
    /// the command once all of them were.
    pub open spec fn inv(self, exec: Exec) -> bool {
        let all = match exec.env {
            Some(env) => env@,
            None => Seq::empty(),
        };
        match self.task {
            ExecTask::Open(of) => {
                of == exec && self.variables.len() == 0 && self.commands.len() == 0
            },
            ExecTask::Agent(of, channel) => {
                &&& of == exec && self.variables.len() == 0 && self.commands.len() == 0
                &&& self.channel == Some(channel)
            },
            ExecTask::Forward(of) => {
                of == exec && self.variables.len() == 0 && self.commands.len() == 0
            },
            ExecTask::Env(of, at) => {
                &&& of == exec && at < all.len()
                &&& self.variables == all.take(at + 1) && self.commands.len() == 0
            },
            ExecTask::Log(of, channel, at) => {
                &&& of == exec && at <= all.len()
                &&& self.variables == all.take(at as int) && self.commands.len() == 0
                &&& self.channel == Some(channel)
            },
            ExecTask::Command => {
                self.variables == all && self.commands == seq![exec.command_line]
            },
            ExecTask::Pair(_, channel, _, _) | ExecTask::Unblock(_, channel, _, _, _)
            | ExecTask::Exit(_, channel, _, _) => {
                &&& self.variables == all && self.commands == seq![exec.command_line]
                &&& self.channel == Some(channel)
            },
            ExecTask::Finished => {
                ||| self.commands.len() == 0
                ||| self.variables == all && self.commands == seq![exec.command_line]
            },
        }
    }
}

proof fn lemma_exec_trace_step<R: Resources>(
    exec: Exec,
    t: ExecTrace<R>,
    session: SessionView<R>,
    ev: ExecEvent<R>,
)
    requires
        t.inv(exec),
        t.task.accepts(session, ev),
    ensures
        t.next(session, ev).inv(exec),
        ({
            let n = t.next(session, ev);
            match exec_next(session, t.task, ev).2 {
                ExecAction::RequestAgentForwarding(channel) => n.channel == Some(channel),
                ExecAction::RequestEnv(channel, _, _) => n.channel == Some(channel),
                ExecAction::RequestExec(channel, _) => n.channel == Some(channel),
                _ => true,
            }
        }),
{
    let all = match exec.env {
        Some(env) => env@,
        None => Seq::empty(),
    };
    if let Some(env) = exec.env {
        assert(env.len() <= usize::MAX);
    }
    assert(variables(exec) == all);
    let n = t.next(session, ev);
    assert(all.take(all.len() as int) =~= all);
    assert(all.take(0) =~= Seq::empty());
    assert(t.variables.len() == 0 ==> t.variables =~= Seq::empty());
    assert(t.commands.len() == 0 ==> t.commands.push(exec.command_line) =~= seq![
        exec.command_line,
    ]);
    assert forall|at: int| 0 <= at < all.len() implies #[trigger] all.take(at).push(all[at])
        =~= all.take(at + 1) by {}
    match t.task {
        ExecTask::Env(_, at) => {
            if at + 1 < all.len() {
                assert(all.take(at + 1).push(all[at + 1]) =~= all.take(at + 2));
            }
        },
        ExecTask::Log(_, _, at) => {
            if at < all.len() {
                assert(all.take(at as int).push(all[at as int]) =~= all.take(at + 1));
            }
        },
        _ => {
            if all.len() > 0 {
                assert(all.take(0).push(all[0]) =~= all.take(1));
            }
        },
    }
}

/// However the start of a command comes along, and whatever is configured: at every moment the
/// variables that were asked for are the first ones of the command's own, in order and once each; the
/// command is asked for once all of them were, and it is the command's own; and everything is asked
/// of the channel that was handed in last. A command that runs was asked for.
pub proof fn law_exec_asks_for_what_it_was_given<R: Resources>(
    exec: Exec,
    steps: Seq<(SessionView<R>, ExecEvent<R>)>,
    session: SessionView<R>,
    ev: ExecEvent<R>,
)
    requires
        ExecTrace::possible(exec, steps),
        ExecTrace::after(exec, steps).task.accepts(session, ev),
    ensures
        ({
            let t = ExecTrace::after(exec, steps);
            let n = t.next(session, ev);
            let (after, _, action) = exec_next(session, t.task, ev);
            let all = match exec.env {
                Some(env) => env@,
                None => Seq::empty(),
            };
            &&& t.variables.is_prefix_of(all)
            &&& t.commands.len() > 0 ==> t.variables == all && t.commands == seq![
                exec.command_line,
            ]
            &&& action matches ExecAction::RequestEnv(channel, name, value) ==> {
                &&& t.variables.len() < all.len()
                &&& (name, value) == all[t.variables.len() as int]
                &&& n.channel == Some(channel)
            }
            &&& action matches ExecAction::RequestExec(channel, command) ==> {
                &&& t.variables == all
                &&& command == exec.command_line
                &&& n.channel == Some(channel)
            }
            &&& action matches ExecAction::RequestAgentForwarding(channel) ==> t.variables.len()
                == 0 && n.channel == Some(channel)
            &&& action matches ExecAction::Finished(Ok(result)) ==> {
                &&& t.commands == seq![exec.command_line]
                &&& t.channel == Some(after.channels[result.child].channel)
            }
        }),
{
    lemma_exec_trace(exec, steps);
    let t = ExecTrace::after(exec, steps);
    lemma_exec_trace_step(exec, t, session, ev);
    let n = t.next(session, ev);
    let all = match exec.env {
        Some(env) => env@,
        None => Seq::empty(),
    };
    assert(t.variables.len() == 0 ==> t.variables =~= Seq::empty());
    if let ExecAction::RequestEnv(_, name, value) = exec_next(session, t.task, ev).2 {
        assert(n.variables.last() == (name, value));
        assert(n.variables.is_prefix_of(all));
        assert(n.variables[t.variables.len() as int] == all[t.variables.len() as int]);
    }
    if let ExecAction::RequestExec(_, command) = exec_next(session, t.task, ev).2 {
        assert(n.commands.last() == command);
    }
}

proof fn lemma_exec_trace<R: Resources>(exec: Exec, steps: Seq<(SessionView<R>, ExecEvent<R>)>)
    requires
        ExecTrace::possible(exec, steps),
    ensures
        ExecTrace::after(exec, steps).inv(exec),
    decreases steps.len(),
{
    if steps.len() > 0 {
        lemma_exec_trace(exec, steps.drop_last());
        lemma_exec_trace_step(
            exec,
            ExecTrace::after(exec, steps.drop_last()),
            steps.last().0,
            steps.last().1,
        );
    }
}

/// The identity agent is asked to be forwarded exactly where the configuration says `yes` and an
/// agent is there: one that the configuration names, or else one that the environment names. The
/// environment is asked only where it matters.
pub proof fn law_exec_forwards_the_agent_where_asked<R: Resources>(
    session: SessionView<R>,
    exec: Exec,
    channel: R::Channel,
    env: Option<String>,
)
    ensures
        ({
            let config = session.config;
            let wanted = config.contains_key("forwardagent"@) && config["forwardagent"@] == "yes"@;
            let named = config.contains_key("identityagent"@);
            let opened = exec_next(
                session,
                ExecTask::Open(exec),
                ExecEvent::Opened(Ok(channel)),
            );
            let looked = exec_next(
                session,
                ExecTask::Agent(exec, channel),
                ExecEvent::AgentEnv(env),
            );
            &&& opened.2 is RequestAgentForwarding <==> wanted && named
            &&& opened.2 is LookupAgent <==> wanted && !named
            &&& opened.2 is LookupAgent ==> opened.1 == ExecTaskView::<R>::Agent(exec, channel)
            &&& opened.2 is RequestAgentForwarding ==> opened.1 == ExecTaskView::<R>::Forward(exec)
            &&& looked.2 is RequestAgentForwarding <==> named || env is Some
            &&& looked.2 is RequestAgentForwarding ==> looked.1 == ExecTaskView::<R>::Forward(exec)
        }),
{
}

/// Nothing is done at the wrong time. A command fails to run exactly where the channel cannot be
/// opened, the command is refused, or a pair or a non-blocking descriptor cannot be had, and with that
/// failure. Its channel gets the next number as soon as the command is granted.
pub proof fn law_exec_fails_with_the_cause<R: Resources>(
    session: SessionView<R>,
    task: ExecTaskView<R>,
    ev: ExecEvent<R>,
)
    requires
        task.accepts(session, ev),
    ensures
        ({
            let (after, next, action) = exec_next(session, task, ev);
            let cause = match ev {
                ExecEvent::Opened(Err(failure)) => Some(failure@),
                ExecEvent::Requested(_, Err(failure)) => if task is Command {
                    Some(failure@)
                } else {
                    None
                },
                ExecEvent::Paired(Err(failure)) => Some(failure@),
                ExecEvent::NonBlocking(Err(failure)) => Some(failure@),
                _ => None,
            };
            &&& action matches ExecAction::Finished(Err(chain)) ==> cause == Some(chain)
            &&& cause matches Some(chain) ==> action == ExecActionView::<R>::Finished(Err(chain))
                && after == session
            &&& task is Command && cause is None ==> {
                &&& ev matches ExecEvent::Requested(channel, _) && next == ExecTaskView::<R>::Pair(
                    session.next_channel_id,
                    channel,
                    Seq::empty(),
                    Seq::empty(),
                )
                &&& action == ExecActionView::<R>::Socketpair
                &&& after == (SessionView {
                    next_channel_id: (session.next_channel_id + 1) as usize,
                    ..session
                })
            }
            &&& !(task is Command) && !(task is Exit) ==> after == session
            &&& action matches ExecAction::MakeExitChannel(len) ==> len == 1
        }),
{
}

/// What is logged of a refusal: that forwarding the agent was refused, with the whole failure; or
/// which variable was refused which value, with the outermost message, and where to look.
pub proof fn law_exec_logs_the_refusal<R: Resources>(
    session: SessionView<R>,
    exec: Exec,
    at: usize,
    channel: R::Channel,
    failure: Failure,
)
    requires
        exec.env matches Some(env) && at < env@.len(),
        failure@.len() > 0,
    ensures
        exec_next(
            session,
            ExecTask::Forward(exec),
            ExecEvent::Requested(channel, Err(failure)),
        ).2 == ExecActionView::<R>::Report(
            seq!["Failed to request agent forwarding"@] + failure@,
        ),
        exec_next(
            session,
            ExecTask::Env(exec, at),
            ExecEvent::Requested(channel, Err(failure)),
        ).2 == ExecActionView::<R>::Report(
            seq![
                "ssh: setenv "@ + exec.env->0@[at as int].0@ + "="@ + exec.env->0@[at as int].1@
                    + " failed: "@ + failure@[0]
                    + ". Check the AcceptEnv setting on the ssh server side."@,
            ],
        ),
{
}

/// An outcome can be taken in if it is of the awaited action, whether that went well or not.
pub proof fn law_exec_takes_any_outcome<R: Resources>(
    session: SessionView<R>,
    exec: Exec,
    at: usize,
    id: ChannelId,
    channel: R::Channel,
    opened: Result<R::Channel, Failure>,
    env: Option<String>,
    requested: Result<(), Failure>,
    paired: Result<(FileDescriptor, FileDescriptor), Failure>,
    unblocked: Result<FileDescriptor, Failure>,
    theirs: Seq<FileDescriptor>,
    ours: Seq<FileDescriptor>,
    ready: Seq<FileDescriptor>,
    exit: Sender<ExitStatus>,
)
    requires
        id < session.next_channel_id < usize::MAX,
    ensures
        ExecTaskView::<R>::Open(exec).accepts(session, ExecEvent::Opened(opened)),
        ExecTaskView::<R>::Agent(exec, channel).accepts(session, ExecEvent::AgentEnv(env)),
        ExecTaskView::<R>::Forward(exec).accepts(
            session,
            ExecEvent::Requested(channel, requested),
        ),
        (exec.env matches Some(list) && at < list@.len()) ==> ExecTaskView::<R>::Env(
            exec,
            at,
        ).accepts(session, ExecEvent::Requested(channel, requested)),
        ExecTaskView::<R>::Log(exec, channel, at).accepts(session, ExecEvent::Done),
        ExecTaskView::<R>::Command.accepts(session, ExecEvent::Requested(channel, requested)),
        theirs.len() == ours.len() && ours.len() < 3 ==> ExecTaskView::<R>::Pair(
            id,
            channel,
            theirs,
            ours,
        ).accepts(session, ExecEvent::Paired(paired)),
        theirs.len() == 3 && ours.len() + ready.len() == 2 ==> ExecTaskView::<R>::Unblock(
            id,
            channel,
            theirs,
            ours,
            ready,
        ).accepts(session, ExecEvent::NonBlocking(unblocked)),
        theirs.len() == 3 && ready.len() == 3 ==> ExecTaskView::<R>::Exit(
            id,
            channel,
            theirs,
            ready,
        ).accepts(session, ExecEvent::ExitChannel(exit)),
{
}

/// The start of a command goes in order: the channel is opened, the agent is looked for and asked to
/// be forwarded, the variables and the command are asked for, three pairs are made, three descriptors
/// are made non-blocking, and a channel for the exit status is made. A refusal that does not matter,
/// and nothing else, is logged in between.
pub proof fn law_exec_goes_in_order<R: Resources>(
    session: SessionView<R>,
    task: ExecTaskView<R>,
    ev: ExecEvent<R>,
)
    requires
        task.accepts(session, ev),
        !(exec_next(session, task, ev).2 matches ExecAction::Finished(Err(_))),
    ensures
        ({
            let (_, next, action) = exec_next(session, task, ev);
            &&& match task {
                ExecTask::Open(_) => action is LookupAgent || action is RequestAgentForwarding
                    || action is RequestEnv || action is RequestExec,
                ExecTask::Agent(_, _) => action is RequestAgentForwarding || action is RequestEnv
                    || action is RequestExec,
                ExecTask::Forward(_) | ExecTask::Env(_, _) => if ev matches ExecEvent::Requested(
                    _,
                    Err(_),
                ) {
                    action is Report
                } else {
                    action is RequestEnv || action is RequestExec
                },
                ExecTask::Log(_, _, _) => action is RequestEnv || action is RequestExec,
                ExecTask::Command => action is Socketpair,
                ExecTask::Pair(_, _, _, ours) => if ours.len() < 2 {
                    action is Socketpair
                } else {
                    action is SetNonBlocking
                },
                ExecTask::Unblock(_, _, _, waiting, _) => if waiting.len() > 0 {
                    action is SetNonBlocking
                } else {
                    action is MakeExitChannel
                },
                ExecTask::Exit(_, _, _, _) => action is Finished,
                ExecTask::Finished => false,
            }
            &&& next is Agent <==> action is LookupAgent
            &&& next is Forward <==> action is RequestAgentForwarding
            &&& next is Env <==> action is RequestEnv
            &&& next is Log <==> action is Report
            &&& next is Command <==> action is RequestExec
            &&& next is Pair <==> action is Socketpair
            &&& next is Unblock <==> action is SetNonBlocking
            &&& next is Exit <==> action is MakeExitChannel
            &&& next is Finished <==> action is Finished
        }),
{
}

} // verus!
