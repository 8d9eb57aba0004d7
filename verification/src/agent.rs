//! How channels that the other side opened to reach the identity agent are connected to it.
//!
//! Each such channel gets a connection to the agent of its own. One that cannot be connected is
//! dropped, which is logged, and the next one is looked at.

use crate::config::option;
use crate::failure::Failure;
use crate::resources::Resources;
use crate::session::{agent_of, optional_text, ChannelId, ChannelView, SessionInner, SessionView};
use filedescriptor::FileDescriptor;
use vstd::prelude::*;

verus! {

/// What the driver is to do next.
pub enum AgentAction<S, F> {
    /// See whether a channel to the agent was opened.
    Accept,
    /// See where the environment says the identity agent is.
    LookupAgent,
    /// Connect to the agent at this socket.
    Connect(S),
    /// Make the descriptor non-blocking.
    SetNonBlocking(FileDescriptor),
    /// Make a second descriptor for the same connection.
    Duplicate(FileDescriptor),
    /// Log why a channel could not be connected.
    Report(F),
    /// No more channels wait.
    Finished,
}

/// An action, with sequences for what it carries.
pub type AgentActionView = AgentAction<Seq<char>, Seq<Seq<char>>>;

impl View for AgentAction<String, Failure> {
    type V = AgentActionView;

    open spec fn view(&self) -> AgentActionView {
        match *self {
            AgentAction::Accept => AgentAction::Accept,
            AgentAction::LookupAgent => AgentAction::LookupAgent,
            AgentAction::Connect(path) => AgentAction::Connect(path@),
            AgentAction::SetNonBlocking(fd) => AgentAction::SetNonBlocking(fd),
            AgentAction::Duplicate(fd) => AgentAction::Duplicate(fd),
            AgentAction::Report(failure) => AgentAction::Report(failure@),
            AgentAction::Finished => AgentAction::Finished,
        }
    }
}

/// How the action that was given last came out.
pub enum AgentEvent<R: Resources> {
    /// The channel that was opened, if there is one.
    Accepted(Option<R::Channel>),
    /// Where the environment says the identity agent is.
    AgentEnv(Option<String>),
    /// The connection to the agent, or the descriptor that was made non-blocking.
    Descriptor(Result<FileDescriptor, Failure>),
    /// The descriptor and its duplicate.
    Duplicated(Result<(FileDescriptor, FileDescriptor), Failure>),
    /// It is done.
    Done,
}

/// How far the work has come.
pub enum AgentTask<R: Resources> {
    /// A channel is looked for.
    Accept,
    /// The environment is asked for the agent, for this channel.
    Lookup(R::Channel),
    /// The agent is connected to, for this channel.
    Connect(R::Channel),
    /// The connection is made non-blocking.
    Unblock(R::Channel),
    /// The connection is duplicated.
    Duplicate(R::Channel),
    /// A failure is logged.
    Report,
    /// No more channels wait.
    Finished,
}

impl<R: Resources> AgentTask<R> {
    /// Whether `ev` can be the outcome of the awaited action.
    pub open spec fn accepts(self, session: SessionView<R>, ev: AgentEvent<R>) -> bool {
        match (self, ev) {
            (AgentTask::Accept, AgentEvent::Accepted(_)) => true,
            (AgentTask::Lookup(_), AgentEvent::AgentEnv(_)) => true,
            (AgentTask::Connect(_), AgentEvent::Descriptor(_)) => true,
            (AgentTask::Unblock(_), AgentEvent::Descriptor(_)) => true,
            (AgentTask::Duplicate(_), AgentEvent::Duplicated(r)) => r is Ok
                ==> session.next_channel_id < usize::MAX,
            (AgentTask::Report, AgentEvent::Done) => true,
            _ => false,
        }
    }
}

/// What a step comes to: the session, how far the work has come, and the action.
pub type AgentStep<R> = (SessionView<R>, AgentTask<R>, AgentActionView);

/// To look for the next channel.
pub open spec fn accept_next<R: Resources>(session: SessionView<R>) -> AgentStep<R> {
    (session, AgentTask::Accept, AgentAction::Accept)
}

/// To drop a channel that could not be connected, and log why.
pub open spec fn dropped<R: Resources>(
    session: SessionView<R>,
    failure: Seq<Seq<char>>,
) -> AgentStep<R> {
    (session, AgentTask::Report, AgentAction::Report(failure))
}

/// Why a channel cannot be connected where there is no agent.
pub open spec fn no_agent() -> Seq<Seq<char>> {
    seq!["no identity agent in config"@]
}

/// To connect to the agent where `agent` says it is; without one the channel is dropped.
pub open spec fn connect_to<R: Resources>(
    session: SessionView<R>,
    channel: R::Channel,
    agent: Option<Seq<char>>,
) -> AgentStep<R> {
    match agent {
        Some(path) => (session, AgentTask::Connect(channel), AgentAction::Connect(path)),
        None => dropped(session, no_agent()),
    }
}

/// The next step, given the outcome of the awaited action.
pub open spec fn agent_next<R: Resources>(
    session: SessionView<R>,
    task: AgentTask<R>,
    ev: AgentEvent<R>,
) -> AgentStep<R> {
    match (task, ev) {
        (AgentTask::Accept, AgentEvent::Accepted(Some(channel))) => if option(
            session.config,
            "identityagent"@,
        ) is Some {
            connect_to(session, channel, agent_of(session.config, None))
        } else {
            (session, AgentTask::Lookup(channel), AgentAction::LookupAgent)
        },
        (AgentTask::Accept, _) => (session, AgentTask::Finished, AgentAction::Finished),
        (AgentTask::Lookup(channel), AgentEvent::AgentEnv(env)) => connect_to(
            session,
            channel,
            agent_of(session.config, optional_text(env)),
        ),
        (AgentTask::Connect(channel), AgentEvent::Descriptor(Ok(fd))) => (
            session,
            AgentTask::Unblock(channel),
            AgentAction::SetNonBlocking(fd),
        ),
        (AgentTask::Unblock(channel), AgentEvent::Descriptor(Ok(fd))) => (
            session,
            AgentTask::Duplicate(channel),
            AgentAction::Duplicate(fd),
        ),
        (AgentTask::Duplicate(channel), AgentEvent::Duplicated(Ok((read_from, write_to)))) => {
            let id = session.next_channel_id;
            accept_next(
                SessionView { next_channel_id: (id + 1) as usize, ..session }.with_channel(
                    id,
                    ChannelView::fresh(
                        id,
                        channel,
                        None,
                        seq![Some(read_from), Some(write_to), None],
                    ),
                ),
            )
        },
        (_, AgentEvent::Descriptor(Err(failure))) => dropped(session, failure@),
        (_, AgentEvent::Duplicated(Err(failure))) => dropped(session, failure@),
        _ => accept_next(session),
    }
}

/// The failure that a channel cannot be connected because there is no agent.
pub fn missing_agent() -> (failure: Failure)
    ensures
        failure@ == no_agent(),
{
    Failure::message("no identity agent in config".to_owned())
}

/// Connects to the agent if there is one; else drops the channel.
fn connect<R: Resources>(channel: R::Channel, agent: Option<String>) -> (r: (
    AgentTask<R>,
    AgentAction<String, Failure>,
))
    ensures
        forall|session: SessionView<R>|
            (session, r.0, r.1@) == #[trigger] connect_to(session, channel, optional_text(agent)),
{
    match agent {
        Some(path) => (AgentTask::Connect(channel), AgentAction::Connect(path)),
        None => (AgentTask::Report, AgentAction::Report(missing_agent())),
    }
}

impl<R: Resources> SessionInner<R> {
    /// Starts to connect the channels that wait for the agent: gives the first action.
    pub fn connect_pending_agent_forward_channels(&self) -> (r: (
        AgentTask<R>,
        AgentAction<String, Failure>,
    ))
        ensures
            r.0 == AgentTask::<R>::Accept,
            r.1@ == AgentActionView::Accept,
    {
        (AgentTask::Accept, AgentAction::Accept)
    }

    /// Takes in the outcome of the action that was given last, and gives the next one.
    pub fn agent_step(&mut self, task: AgentTask<R>, ev: AgentEvent<R>) -> (r: (
        AgentTask<R>,
        AgentAction<String, Failure>,
    ))
        requires
            old(self)@.wf(),
            task.accepts(old(self)@, ev),
        ensures
            (final(self)@, r.0, r.1@) == agent_next(old(self)@, task, ev),
            final(self)@.wf(),
    {
        match (task, ev) {
            (AgentTask::Accept, AgentEvent::Accepted(Some(channel))) => {
                if self.config.get("identityagent").is_some() {
                    let agent = self.identity_agent(None);
                    connect(channel, agent)
                } else {
                    (AgentTask::Lookup(channel), AgentAction::LookupAgent)
                }
            },
            (AgentTask::Accept, _) => (AgentTask::Finished, AgentAction::Finished),
            (AgentTask::Lookup(channel), AgentEvent::AgentEnv(env)) => {
                let agent = self.identity_agent(env);
                connect(channel, agent)
            },
            (AgentTask::Connect(channel), AgentEvent::Descriptor(Ok(fd))) => (
                AgentTask::Unblock(channel),
                AgentAction::SetNonBlocking(fd),
            ),
            (AgentTask::Unblock(channel), AgentEvent::Descriptor(Ok(fd))) => (
                AgentTask::Duplicate(channel),
                AgentAction::Duplicate(fd),
            ),
            (
                AgentTask::Duplicate(channel),
                AgentEvent::Duplicated(Ok((read_from, write_to))),
            ) => {
                let id: ChannelId = self.allocate_channel_id();
                self.insert_channel(id, channel, None, Some(read_from), Some(write_to), None);
                (AgentTask::Accept, AgentAction::Accept)
            },
            (_, AgentEvent::Descriptor(Err(failure))) => (
                AgentTask::Report,
                AgentAction::Report(failure),
            ),
            (_, AgentEvent::Duplicated(Err(failure))) => (
                AgentTask::Report,
                AgentAction::Report(failure),
            ),
            _ => (AgentTask::Accept, AgentAction::Accept),
        }
    }
}

/// Only a channel whose connection to the agent is complete is filed, under a number that was not
/// in use; every other step changes nothing.
pub proof fn law_agent_channels_are_whole<R: Resources>(
    session: SessionView<R>,
    task: AgentTask<R>,
    ev: AgentEvent<R>,
)
    requires
        session.wf(),
        task.accepts(session, ev),
    ensures
        ({
            let (after, next, _) = agent_next(session, task, ev);
            match (task, ev) {
                (AgentTask::Duplicate(channel), AgentEvent::Duplicated(Ok((read_from, write_to)))) => {
                    let id = session.next_channel_id;
                    &&& !session.channels.contains_key(id)
                    &&& after.channels.dom() == session.channels.dom().insert(id)
                    &&& after.channels[id].channel == channel
                    &&& after.channels[id].exit is None
                    &&& after.channels[id].descriptors[0].fd == Some(read_from)
                    &&& after.channels[id].descriptors[1].fd == Some(write_to)
                    &&& after.channels[id].descriptors[2].fd is None
                    &&& after.next_channel_id == id + 1
                    &&& after.wf()
                },
                _ => after == session,
            }
        }),
{
    if let (AgentTask::Duplicate(channel), AgentEvent::Duplicated(Ok((read_from, write_to)))) = (
        task,
        ev,
    ) {
        let after = agent_next(session, task, ev).0;
        assert(after.channels.dom() == session.channels.dom().insert(session.next_channel_id));
    }
}

/// A channel that cannot be connected is not dropped in silence: where there is no agent, or a step
/// fails, that is logged, and nothing else is; then the next channel is looked at.
pub proof fn law_dropped_channels_are_logged<R: Resources>(
    session: SessionView<R>,
    task: AgentTask<R>,
    ev: AgentEvent<R>,
)
    requires
        task.accepts(session, ev),
    ensures
        ({
            let (after, next, action) = agent_next(session, task, ev);
            &&& action matches AgentAction::Report(failure) ==> {
                ||| failure == no_agent() && task is Lookup && (ev matches AgentEvent::AgentEnv(env)
                    && agent_of(session.config, optional_text(env)) is None)
                ||| (ev matches AgentEvent::Descriptor(Err(f)) && f@ == failure)
                ||| (ev matches AgentEvent::Duplicated(Err(f)) && f@ == failure)
            }
            &&& (ev matches AgentEvent::Descriptor(Err(_))) || (ev matches AgentEvent::Duplicated(
                Err(_),
            )) ==> action is Report
            &&& (ev matches AgentEvent::AgentEnv(env) && agent_of(
                session.config,
                optional_text(env),
            ) is None) ==> action is Report
            &&& action is Report ==> after == session && agent_next(
                after,
                next,
                AgentEvent::Done,
            ) == accept_next(session)
        }),
{
}

/// A channel to the agent is connected to the agent that the configuration names, and where it names
/// none, to the one that the environment names. Each step works on the channel and the descriptor
/// that were handed in: the connection is made non-blocking, then duplicated, and then the channel is
/// filed with it. When no channel waits, the work ends.
pub proof fn law_agent_is_the_configured_one<R: Resources>(
    session: SessionView<R>,
    channel: R::Channel,
    env: Option<String>,
    fd: FileDescriptor,
)
    ensures
        ({
            let config = session.config;
            let named = config.contains_key("identityagent"@);
            let accepted = agent_next(
                session,
                AgentTask::Accept,
                AgentEvent::Accepted(Some(channel)),
            );
            let looked = agent_next(session, AgentTask::Lookup(channel), AgentEvent::AgentEnv(env));
            &&& named ==> accepted == (
                session,
                AgentTask::<R>::Connect(channel),
                AgentActionView::Connect(config["identityagent"@]),
            )
            &&& !named ==> accepted == (
                session,
                AgentTask::<R>::Lookup(channel),
                AgentActionView::LookupAgent,
            )
            &&& !named ==> match env {
                Some(path) => looked == (
                    session,
                    AgentTask::<R>::Connect(channel),
                    AgentActionView::Connect(path@),
                ),
                None => looked == (
                    session,
                    AgentTask::<R>::Report,
                    AgentActionView::Report(seq!["no identity agent in config"@]),
                ),
            }
        }),
        agent_next(session, AgentTask::Connect(channel), AgentEvent::Descriptor(Ok(fd))) == (
            session,
            AgentTask::<R>::Unblock(channel),
            AgentActionView::SetNonBlocking(fd),
        ),
        agent_next(session, AgentTask::Unblock(channel), AgentEvent::Descriptor(Ok(fd))) == (
            session,
            AgentTask::<R>::Duplicate(channel),
            AgentActionView::Duplicate(fd),
        ),
        agent_next(session, AgentTask::Accept, AgentEvent::Accepted(None)) == (
            session,
            AgentTask::<R>::Finished,
            AgentActionView::Finished,
        ),
        agent_next(session, AgentTask::Report, AgentEvent::Done) == (
            session,
            AgentTask::<R>::Accept,
            AgentActionView::Accept,
        ),
{
}

/// A channel that is connected to the agent is filed under the next number: what the agent says goes
/// to it, what it says goes to the agent, there is no standard error and no exit status to wait for,
/// and nothing is queued. Every other channel stays as it is, and the next channel is looked for.
pub proof fn law_agent_channel_is_filed<R: Resources>(
    session: SessionView<R>,
    channel: R::Channel,
    read_from: FileDescriptor,
    write_to: FileDescriptor,
)
    requires
        session.next_channel_id < usize::MAX,
    ensures
        ({
            let (after, next, action) = agent_next(
                session,
                AgentTask::Duplicate(channel),
                AgentEvent::Duplicated(Ok((read_from, write_to))),
            );
            let id = session.next_channel_id;
            let c = after.channels[id];
            &&& next == AgentTask::<R>::Accept && action == AgentActionView::Accept
            &&& after.channels.dom() == session.channels.dom().insert(id)
            &&& forall|other: ChannelId|
                other != id ==> #[trigger] after.channels[other] == session.channels[other]
            &&& c.channel_id == id && c.channel == channel && c.exit is None && !c.exited
            &&& c.descriptors.len() == 3
            &&& c.descriptors[0].fd == Some(read_from)
            &&& c.descriptors[1].fd == Some(write_to)
            &&& c.descriptors[2].fd is None
            &&& forall|n: int|
                0 <= n < 3 ==> (#[trigger] c.descriptors[n]).buf.len() == 0
                    && c.descriptors[n].capacity == 8192
            &&& after.next_channel_id == id + 1
            &&& after.files == session.files && after.dirs == session.dirs
            &&& after.session_was_dropped == session.session_was_dropped
        }),
{
    let after = agent_next(
        session,
        AgentTask::Duplicate(channel),
        AgentEvent::Duplicated(Ok((read_from, write_to))),
    ).0;
    assert(after.channels.dom() =~= session.channels.dom().insert(session.next_channel_id));
}

/// An outcome can be taken in if it is of the awaited action, whether that went well or not.
pub proof fn law_agent_takes_any_outcome<R: Resources>(
    session: SessionView<R>,
    channel: R::Channel,
    accepted: Option<R::Channel>,
    env: Option<String>,
    descriptor: Result<FileDescriptor, Failure>,
    duplicated: Result<(FileDescriptor, FileDescriptor), Failure>,
)
    requires
        session.next_channel_id < usize::MAX,
    ensures
        AgentTask::<R>::Accept.accepts(session, AgentEvent::Accepted(accepted)),
        AgentTask::<R>::Lookup(channel).accepts(session, AgentEvent::AgentEnv(env)),
        AgentTask::<R>::Connect(channel).accepts(session, AgentEvent::Descriptor(descriptor)),
        AgentTask::<R>::Unblock(channel).accepts(session, AgentEvent::Descriptor(descriptor)),
        AgentTask::<R>::Duplicate(channel).accepts(session, AgentEvent::Duplicated(duplicated)),
        AgentTask::<R>::Report.accepts(session, AgentEvent::Done),
{
}

} // verus!
