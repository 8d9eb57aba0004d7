//! How a session runs: it connects to one jump host after the other, each through the one before,
//! then to the target, and serves requests until it ends.

use crate::config::{config_hostname, config_port, hostname, port, ConfigMap};
use crate::event::SessionEvent;
use crate::failure::{law_context_stands_in_front, one_line, Failure};
use crate::hop::{law_login_is_told_last, plan_of, planned_at, HopStep, Login, Steps};
use crate::host::{host_port, host_port_text};
use crate::resources::{Backend, Resources, SessionWrap};
use crate::session::SessionInner;
use crate::text::decimal;
use filedescriptor::FileDescriptor;
use socket2::Socket;
use std::collections::VecDeque;
use vstd::prelude::*;

verus! {

/// How far a run has come.
pub enum RouteStage<R: Resources, S, F> {
    /// The host of this name is being connected to.
    Connecting(S),
    /// The connection to a jump host is made blocking; this host and port come next.
    Blocking(S, u16),
    /// A channel to this host and port is opened.
    Opening(S, u16),
    /// A pair of descriptors is made, for a bridge over this channel of this connection.
    Pairing(SessionWrap<R>, R::Channel),
    /// The bridge is started.
    Bridging,
    /// Requests are served.
    Serving,
    /// The connection to the target is closed; serving has ended like this.
    Closing(Result<(), F>),
    /// A bridge is waited for.
    Joining(Result<(), F>),
    /// A failure is reported.
    Reporting,
    /// The run is over.
    Finished,
}

/// A run.
pub struct RouteTask<R: Resources> {
    /// How far it has come.
    pub stage: RouteStage<R, String, Failure>,
    /// The place of the current host on the way; the target comes after all jump hosts.
    pub at: usize,
    /// The socket that leads to the next host, where there is one.
    pub socket: Option<Socket>,
    /// The bridges that run, in the order in which they were started.
    pub bridges: VecDeque<R::Bridge>,
}

/// A run, with sequences for what it holds.
#[verifier::ext_equal]
pub struct RouteView<R: Resources> {
    pub stage: RouteStage<R, Seq<char>, Seq<Seq<char>>>,
    pub at: int,
    pub socket: Option<Socket>,
    pub bridges: Seq<R::Bridge>,
}

/// How serving ended, with sequences for the failure.
pub open spec fn outcome(result: Result<(), Failure>) -> Result<(), Seq<Seq<char>>> {
    match result {
        Ok(_) => Ok(()),
        Err(failure) => Err(failure@),
    }
}

impl<R: Resources> View for RouteStage<R, String, Failure> {
    type V = RouteStage<R, Seq<char>, Seq<Seq<char>>>;

    open spec fn view(&self) -> RouteStage<R, Seq<char>, Seq<Seq<char>>> {
        match *self {
            RouteStage::Connecting(host) => RouteStage::Connecting(host@),
            RouteStage::Blocking(host, port) => RouteStage::Blocking(host@, port),
            RouteStage::Opening(host, port) => RouteStage::Opening(host@, port),
            RouteStage::Pairing(session, channel) => RouteStage::Pairing(session, channel),
            RouteStage::Bridging => RouteStage::Bridging,
            RouteStage::Serving => RouteStage::Serving,
            RouteStage::Closing(result) => RouteStage::Closing(outcome(result)),
            RouteStage::Joining(result) => RouteStage::Joining(outcome(result)),
            RouteStage::Reporting => RouteStage::Reporting,
            RouteStage::Finished => RouteStage::Finished,
        }
    }
}

impl<R: Resources> View for RouteTask<R> {
    type V = RouteView<R>;

    open spec fn view(&self) -> RouteView<R> {
        RouteView {
            stage: self.stage@,
            at: self.at as int,
            socket: self.socket,
            bridges: self.bridges@,
        }
    }
}

/// What the driver is to do next.
pub enum RouteAction<R: Resources, S> {
    /// Connect to the host at this place on the way, over this socket where there is one. The flag
    /// tells whether the owner of the session is to be told of the login.
    ConnectHop(usize, Option<Socket>, bool),
    /// Make this connection blocking.
    SetBlocking(SessionWrap<R>),
    /// Open a channel of this connection to a host and port, on behalf of a host and port.
    OpenDirectTcpip(SessionWrap<R>, S, u16, S, u16),
    /// Make a pair of connected descriptors.
    Socketpair,
    /// Start a bridge between this channel of this connection and this descriptor.
    SpawnBridge(SessionWrap<R>, R::Channel, FileDescriptor),
    /// Serve requests over this connection.
    RequestLoop(SessionWrap<R>),
    /// Close this connection.
    DropSession(SessionWrap<R>),
    /// Wait for this bridge to end.
    JoinBridge(R::Bridge),
    /// Tell the owner of the session; it does not matter whether that works.
    Emit(SessionEvent<S>),
    /// There is no more to do.
    Finished,
}

impl<R: Resources> View for RouteAction<R, String> {
    type V = RouteAction<R, Seq<char>>;

    open spec fn view(&self) -> RouteAction<R, Seq<char>> {
        match *self {
            RouteAction::ConnectHop(at, socket, emit) => RouteAction::ConnectHop(at, socket, emit),
            RouteAction::SetBlocking(session) => RouteAction::SetBlocking(session),
            RouteAction::OpenDirectTcpip(session, host, port, from, from_port) => {
                RouteAction::OpenDirectTcpip(session, host@, port, from@, from_port)
            },
            RouteAction::Socketpair => RouteAction::Socketpair,
            RouteAction::SpawnBridge(session, channel, fd) => RouteAction::SpawnBridge(
                session,
                channel,
                fd,
            ),
            RouteAction::RequestLoop(session) => RouteAction::RequestLoop(session),
            RouteAction::DropSession(session) => RouteAction::DropSession(session),
            RouteAction::JoinBridge(bridge) => RouteAction::JoinBridge(bridge),
            RouteAction::Emit(event) => RouteAction::Emit(event@),
            RouteAction::Finished => RouteAction::Finished,
        }
    }
}

/// How the action that was given last came out.
pub enum RouteEvent<R: Resources> {
    /// The connection is there, or blocking.
    Connected(SessionWrap<R>),
    /// It failed.
    Failed(Failure),
    /// The channel is open.
    Opened(SessionWrap<R>, R::Channel),
    /// The pair is there; the first is a socket.
    Pair(Socket, FileDescriptor),
    /// The bridge runs.
    Bridge(R::Bridge),
    /// No more requests are served over this connection.
    Served(SessionWrap<R>, Result<(), Failure>),
    /// It is done.
    Done,
}

/// A configuration, as a map.
pub type Options = Map<Seq<char>, Seq<char>>;

/// The configuration of the host at the place `at` on the way.
pub open spec fn hop_options(target: Options, jumps: Seq<Options>, at: int) -> Options {
    if at < jumps.len() {
        jumps[at]
    } else {
        target
    }
}

/// What a step comes to: the run, and the action.
pub type RouteStep<R> = (RouteView<R>, RouteAction<R, Seq<char>>);

/// The end of a run: a failure is reported on one line.
pub open spec fn ending<R: Resources>(task: RouteView<R>, result: Result<(), Seq<Seq<char>>>) -> RouteStep<R> {
    let rest = RouteView { socket: None, bridges: Seq::empty(), ..task };
    match result {
        Ok(_) => (RouteView { stage: RouteStage::Finished, ..rest }, RouteAction::Finished),
        Err(failure) => (
            RouteView { stage: RouteStage::Reporting, ..rest },
            RouteAction::Emit(SessionEvent::Error(one_line(failure))),
        ),
    }
}

/// To connect to the host at the place of `task`, over the socket that `task` holds.
pub open spec fn connecting<R: Resources>(
    target: Options,
    jumps: Seq<Options>,
    task: RouteView<R>,
) -> RouteStep<R> {
    match hostname(hop_options(target, jumps, task.at)) {
        Err(failure) => ending(task, Err(failure)),
        Ok(host) => (
            RouteView { stage: RouteStage::Connecting(host), socket: None, ..task },
            RouteAction::ConnectHop(task.at as usize, task.socket, task.at == jumps.len()),
        ),
    }
}

/// To wait for the next bridge, if there is one.
pub open spec fn joining<R: Resources>(task: RouteView<R>, result: Result<(), Seq<Seq<char>>>) -> RouteStep<R> {
    if task.bridges.len() == 0 {
        ending(task, result)
    } else {
        (
            RouteView {
                stage: RouteStage::Joining(result),
                bridges: task.bridges.drop_first(),
                ..task
            },
            RouteAction::JoinBridge(task.bridges[0]),
        )
    }
}

/// What was tried when a host could not be connected to.
pub open spec fn connecting_context(is_target: bool, host: Seq<char>) -> Seq<char> {
    if is_target {
        "connecting final SSH target "@ + host
    } else {
        "connecting ProxyJump host "@ + host
    }
}

/// What was tried when a channel to the next host could not be opened.
pub open spec fn opening_context(host: Seq<char>, port: u16) -> Seq<char> {
    "opening ProxyJump direct-tcpip to "@ + host_port(host, port)
}

/// How a run starts.
pub open spec fn route_start<R: Resources>(target: Options, jumps: Seq<Options>) -> RouteStep<R> {
    connecting(
        target,
        jumps,
        RouteView {
            stage: RouteStage::Finished,
            at: 0,
            socket: None,
            bridges: Seq::empty(),
        },
    )
}

impl<R: Resources> RouteView<R> {
    /// Whether `ev` can be the outcome of the awaited action.
    pub open spec fn accepts(self, ev: RouteEvent<R>) -> bool {
        match self.stage {
            RouteStage::Connecting(_) => ev is Connected || ev is Failed,
            RouteStage::Blocking(_, _) => ev is Connected,
            RouteStage::Opening(_, _) => ev is Opened || ev is Failed,
            RouteStage::Pairing(_, _) => ev is Pair || ev is Failed,
            RouteStage::Bridging => ev is Bridge,
            RouteStage::Serving => ev is Served,
            RouteStage::Closing(_) => ev is Done,
            RouteStage::Joining(_) => ev is Done,
            RouteStage::Reporting => ev is Done,
            RouteStage::Finished => false,
        }
    }

    /// What holds at every point of a run: a bridge runs from each jump host that has been passed,
    /// a host after the first one is connected to over a socket, and what is opened leads to the
    /// next host.
    pub open spec fn inv(self, target: Options, jumps: Seq<Options>) -> bool {
        &&& 0 <= self.at <= jumps.len()
        &&& match self.stage {
            RouteStage::Connecting(host) => {
                &&& hostname(hop_options(target, jumps, self.at)) == Ok::<
                    Seq<char>,
                    Seq<Seq<char>>,
                >(host)
                &&& self.bridges.len() == self.at
                &&& self.socket is None
            },
            RouteStage::Blocking(host, number) | RouteStage::Opening(host, number) => {
                &&& self.at < jumps.len()
                &&& hostname(hop_options(target, jumps, self.at + 1)) == Ok::<
                    Seq<char>,
                    Seq<Seq<char>>,
                >(host)
                &&& port(hop_options(target, jumps, self.at + 1)) == Ok::<u16, Seq<Seq<char>>>(
                    number,
                )
                &&& self.bridges.len() == self.at
                &&& self.socket is None
            },
            RouteStage::Pairing(_, _) => {
                self.at < jumps.len() && self.bridges.len() == self.at && self.socket is None
            },
            RouteStage::Bridging => {
                self.at < jumps.len() && self.bridges.len() == self.at && self.socket is Some
            },
            RouteStage::Serving | RouteStage::Closing(_) => {
                self.at == jumps.len() && self.bridges.len() == self.at && self.socket is None
            },
            RouteStage::Joining(_) => {
                self.at == jumps.len() && self.bridges.len() < self.at && self.socket is None
            },
            RouteStage::Reporting | RouteStage::Finished => {
                self.bridges.len() == 0 && self.socket is None
            },
        }
    }
}

/// The next step, given the outcome of the awaited action.
pub open spec fn route_next<R: Resources>(
    target: Options,
    jumps: Seq<Options>,
    task: RouteView<R>,
    ev: RouteEvent<R>,
) -> RouteStep<R> {
    match (task.stage, ev) {
        (RouteStage::Connecting(_), RouteEvent::Connected(session)) => if task.at == jumps.len() {
            (
                RouteView { stage: RouteStage::Serving, ..task },
                RouteAction::RequestLoop(session),
            )
        } else {
            let next = hop_options(target, jumps, task.at + 1);
            match (hostname(next), port(next)) {
                (Err(failure), _) => ending(task, Err(failure)),
                (_, Err(failure)) => ending(task, Err(failure)),
                (Ok(host), Ok(port)) => (
                    RouteView { stage: RouteStage::Blocking(host, port), ..task },
                    RouteAction::SetBlocking(session),
                ),
            }
        },
        (RouteStage::Connecting(host), RouteEvent::Failed(failure)) => ending(
            task,
            Err(seq![connecting_context(task.at == jumps.len(), host)] + failure@),
        ),
        (RouteStage::Blocking(host, port), RouteEvent::Connected(session)) => (
            RouteView { stage: RouteStage::Opening(host, port), ..task },
            RouteAction::OpenDirectTcpip(session, host, port, "127.0.0.1"@, 0),
        ),
        (RouteStage::Opening(_, _), RouteEvent::Opened(session, channel)) => (
            RouteView { stage: RouteStage::Pairing(session, channel), ..task },
            RouteAction::Socketpair,
        ),
        (RouteStage::Opening(host, port), RouteEvent::Failed(failure)) => ending(
            task,
            Err(seq![opening_context(host, port)] + failure@),
        ),
        (RouteStage::Pairing(session, channel), RouteEvent::Pair(socket, fd)) => (
            RouteView { stage: RouteStage::Bridging, socket: Some(socket), ..task },
            RouteAction::SpawnBridge(session, channel, fd),
        ),
        (RouteStage::Pairing(_, _), RouteEvent::Failed(failure)) => ending(task, Err(failure@)),
        (RouteStage::Bridging, RouteEvent::Bridge(bridge)) => connecting(
            target,
            jumps,
            RouteView { at: task.at + 1, bridges: task.bridges.push(bridge), ..task },
        ),
        (RouteStage::Serving, RouteEvent::Served(session, result)) => (
            RouteView { stage: RouteStage::Closing(outcome(result)), ..task },
            RouteAction::DropSession(session),
        ),
        (RouteStage::Closing(result), _) => joining(task, result),
        (RouteStage::Joining(result), _) => joining(task, result),
        _ => (RouteView { stage: RouteStage::Finished, ..task }, RouteAction::Finished),
    }
}

impl<R: Resources> RouteTask<R> {
    fn end(self, result: Result<(), Failure>) -> (r: (RouteTask<R>, RouteAction<R, String>))
        ensures
            (r.0@, r.1@) == ending(self@, outcome(result)),
    {
        let at: usize = self.at;
        match result {
            Ok(_) => (
                RouteTask {
                    stage: RouteStage::Finished,
                    at,
                    socket: None,
                    bridges: VecDeque::new(),
                },
                RouteAction::Finished,
            ),
            Err(failure) => (
                RouteTask {
                    stage: RouteStage::Reporting,
                    at,
                    socket: None,
                    bridges: VecDeque::new(),
                },
                RouteAction::Emit(SessionEvent::Error(failure.to_line())),
            ),
        }
    }

    fn join_next(self, result: Result<(), Failure>) -> (r: (RouteTask<R>, RouteAction<R, String>))
        ensures
            (r.0@, r.1@) == joining(self@, outcome(result)),
    {
        let mut task = self;
        match task.bridges.pop_front() {
            Some(bridge) => {
                assert(task.bridges@ == self.bridges@.drop_first());
                task.stage = RouteStage::Joining(result);
                (task, RouteAction::JoinBridge(bridge))
            },
            None => {
                assert(task@ == self@);
                task.end(result)
            },
        }
    }
}

impl<R: Resources> SessionInner<R> {
    /// The configuration of the host at this place on the way: a jump host, or the target.
    pub fn hop_config(&self, at: usize) -> (config: &ConfigMap)
        ensures
            config@ == hop_options(self@.config, self@.jumps, at as int),
    {
        let jumps = self.route.jumps();
        if at < jumps.len() {
            &jumps[at]
        } else {
            &self.config
        }
    }

    fn connect_next(&self, task: RouteTask<R>) -> (r: (RouteTask<R>, RouteAction<R, String>))
        ensures
            (r.0@, r.1@) == connecting(self@.config, self@.jumps, task@),
    {
        match config_hostname(self.hop_config(task.at)) {
            Err(failure) => task.end(Err(failure)),
            Ok(host) => {
                let mut task = task;
                let socket = task.socket.take();
                task.stage = RouteStage::Connecting(host);
                let at: usize = task.at;
                (task, RouteAction::ConnectHop(at, socket, at == self.route.jumps().len()))
            },
        }
    }

    /// Starts a run: gives the first action.
    pub fn run(&self) -> (r: (RouteTask<R>, RouteAction<R, String>))
        ensures
            (r.0@, r.1@) == route_start::<R>(self@.config, self@.jumps),
            r.0@.inv(self@.config, self@.jumps),
    {
        let task = RouteTask {
            stage: RouteStage::Finished,
            at: 0,
            socket: None,
            bridges: VecDeque::new(),
        };
        self.connect_next(task)
    }

    /// Takes in the outcome of the action that was given last, and gives the next one.
    pub fn run_step(&self, task: RouteTask<R>, ev: RouteEvent<R>) -> (r: (
        RouteTask<R>,
        RouteAction<R, String>,
    ))
        requires
            task@.inv(self@.config, self@.jumps),
            task@.accepts(ev),
        ensures
            (r.0@, r.1@) == route_next(self@.config, self@.jumps, task@, ev),
            r.0@.inv(self@.config, self@.jumps),
    {
        let RouteTask { stage, at, socket, bridges } = task;
        let hops: usize = self.route.jumps().len();
        match (stage, ev) {
            (RouteStage::Connecting(host), RouteEvent::Connected(session)) => {
                if at == hops {
                    return (
                        RouteTask { stage: RouteStage::Serving, at, socket, bridges },
                        RouteAction::RequestLoop(session),
                    );
                }
                let next = self.hop_config(at + 1);
                let task = RouteTask { stage: RouteStage::Connecting(host), at, socket, bridges };
                let host = match config_hostname(next) {
                    Ok(host) => host,
                    Err(failure) => return task.end(Err(failure)),
                };
                match config_port(next) {
                    Ok(port) => {
                        let mut task = task;
                        task.stage = RouteStage::Blocking(host, port);
                        (task, RouteAction::SetBlocking(session))
                    },
                    Err(failure) => task.end(Err(failure)),
                }
            },
            (RouteStage::Connecting(host), RouteEvent::Failed(failure)) => {
                let context = if at == hops {
                    "connecting final SSH target ".to_owned().concat(host.as_str())
                } else {
                    "connecting ProxyJump host ".to_owned().concat(host.as_str())
                };
                let task = RouteTask { stage: RouteStage::Connecting(host), at, socket, bridges };
                task.end(Err(failure.context(context)))
            },
            (RouteStage::Blocking(host, port), RouteEvent::Connected(session)) => (
                RouteTask {
                    stage: RouteStage::Opening(host.clone(), port),
                    at,
                    socket,
                    bridges,
                },
                RouteAction::OpenDirectTcpip(session, host, port, "127.0.0.1".to_owned(), 0),
            ),
            (RouteStage::Opening(_, _), RouteEvent::Opened(session, channel)) => (
                RouteTask { stage: RouteStage::Pairing(session, channel), at, socket, bridges },
                RouteAction::Socketpair,
            ),
            (RouteStage::Opening(host, port), RouteEvent::Failed(failure)) => {
                let context = "opening ProxyJump direct-tcpip to ".to_owned().concat(
                    host_port_text(host.as_str(), port).as_str(),
                );
                let task = RouteTask { stage: RouteStage::Bridging, at, socket, bridges };
                task.end(Err(failure.context(context)))
            },
            (RouteStage::Pairing(session, channel), RouteEvent::Pair(socket, fd)) => (
                RouteTask { stage: RouteStage::Bridging, at, socket: Some(socket), bridges },
                RouteAction::SpawnBridge(session, channel, fd),
            ),
            (RouteStage::Pairing(_, _), RouteEvent::Failed(failure)) => {
                let task = RouteTask { stage: RouteStage::Bridging, at, socket, bridges };
                task.end(Err(failure))
            },
            (RouteStage::Bridging, RouteEvent::Bridge(bridge)) => {
                let mut bridges = bridges;
                bridges.push_back(bridge);
                self.connect_next(
                    RouteTask { stage: RouteStage::Bridging, at: at + 1, socket, bridges },
                )
            },
            (RouteStage::Serving, RouteEvent::Served(session, result)) => (
                RouteTask { stage: RouteStage::Closing(result), at, socket, bridges },
                RouteAction::DropSession(session),
            ),
            (RouteStage::Closing(result), _) => {
                let task = RouteTask { stage: RouteStage::Serving, at, socket, bridges };
                task.join_next(result)
            },
            (RouteStage::Joining(result), _) => {
                let task = RouteTask { stage: RouteStage::Serving, at, socket, bridges };
                task.join_next(result)
            },
            (_, _) => (
                RouteTask { stage: RouteStage::Finished, at, socket, bridges },
                RouteAction::Finished,
            ),
        }
    }
}

/// A run keeps its invariant, from its start on.
pub proof fn law_run_invariant<R: Resources>(
    target: Options,
    jumps: Seq<Options>,
    task: RouteView<R>,
    ev: RouteEvent<R>,
)
    requires
        task.inv(target, jumps),
        task.accepts(ev),
    ensures
        route_start::<R>(target, jumps).0.inv(target, jumps),
        route_next(target, jumps, task, ev).0.inv(target, jumps),
{
}

/// The owner of the session is told of a login only for the target, never for a jump host.
pub proof fn law_only_the_target_login_is_told<R: Resources>(
    target: Options,
    jumps: Seq<Options>,
    task: RouteView<R>,
    ev: RouteEvent<R>,
)
    requires
        task.inv(target, jumps),
        task.accepts(ev),
        jumps.len() <= usize::MAX,
    ensures
        route_start::<R>(target, jumps).1 matches RouteAction::ConnectHop(at, _, emit) ==> at == 0
            && emit == (jumps.len() == 0),
        route_next(target, jumps, task, ev).1 matches RouteAction::ConnectHop(at, _, emit) ==> at
            <= jumps.len() && emit == (at == jumps.len()),
{
}

/// However many jump hosts there are, the owner of the session is told once that the target has
/// accepted the user: the plan for the target has a step for it, at one place, and the plan for a
/// jump host has none.
pub proof fn law_authenticated_is_told_once<R: Resources>(
    target: Options,
    jumps: Seq<Options>,
    task: RouteView<R>,
    ev: RouteEvent<R>,
    backend: Backend,
    login: Login<Seq<char>>,
)
    requires
        task.inv(target, jumps),
        task.accepts(ev),
        jumps.len() <= usize::MAX,
    ensures
        route_start::<R>(target, jumps).1 matches RouteAction::ConnectHop(at, socket, emit)
            ==> told_once_at_the_target(
            jumps,
            at,
            plan_of(backend, hop_options(target, jumps, at as int), login, socket is Some, emit),
        ),
        route_next(target, jumps, task, ev).1 matches RouteAction::ConnectHop(at, socket, emit)
            ==> told_once_at_the_target(
            jumps,
            at,
            plan_of(backend, hop_options(target, jumps, at as int), login, socket is Some, emit),
        ),
{
    if let RouteAction::ConnectHop(at, socket, emit) = route_start::<R>(target, jumps).1 {
        let options = hop_options(target, jumps, at as int);
        law_login_is_told_last(backend, options, login, socket is Some, emit);
    }
    if let RouteAction::ConnectHop(at, socket, emit) = route_next(target, jumps, task, ev).1 {
        let options = hop_options(target, jumps, at as int);
        law_login_is_told_last(backend, options, login, socket is Some, emit);
    }
}

/// Whether a plan for the host at the place `at` tells of the login at one place if that host is
/// the target, and else at none.
pub open spec fn told_once_at_the_target(jumps: Seq<Options>, at: usize, plan: Steps) -> bool {
    let told = HopStep::<Seq<char>>::Emit(SessionEvent::Authenticated);
    &&& at == jumps.len() <==> exists|i: int| #[trigger] planned_at(plan, i, told)
    &&& forall|i: int, j: int| #[trigger]
        planned_at(plan, i, told) && #[trigger] planned_at(plan, j, told) ==> i == j
}

/// The hosts are connected to one after the other, none is left out and none is connected to twice:
/// the first one without a socket, and each other one once the bridge from the one before runs,
/// over the socket of the pair whose other end that bridge was given.
pub proof fn law_hosts_come_in_order<R: Resources>(
    target: Options,
    jumps: Seq<Options>,
    task: RouteView<R>,
    ev: RouteEvent<R>,
)
    requires
        task.inv(target, jumps),
        task.accepts(ev),
        jumps.len() <= usize::MAX,
    ensures
        route_start::<R>(target, jumps).1 matches RouteAction::ConnectHop(at, socket, _) ==> at == 0
            && socket is None,
        ({
            let (next, action) = route_next(target, jumps, task, ev);
            &&& next.at == task.at || (task.stage is Bridging && next.at == task.at + 1)
            &&& action matches RouteAction::ConnectHop(at, socket, _) ==> {
                &&& task.stage is Bridging
                &&& at == task.at + 1
                &&& socket == task.socket
                &&& socket is Some
            }
            &&& action matches RouteAction::SpawnBridge(session, channel, fd) ==> {
                &&& task.stage == RouteStage::<R, Seq<char>, Seq<Seq<char>>>::Pairing(
                    session,
                    channel,
                )
                &&& ev matches RouteEvent::Pair(socket, other) && other == fd && next.socket
                    == Some(socket)
            }
            &&& task.stage is Serving ==> task.at == jumps.len()
            &&& action is RequestLoop ==> task.at == jumps.len()
        }),
{
}

/// The channel that a jump host opens leads to the host that comes next on the way, and it is the
/// one over which the bridge runs.
pub proof fn law_channel_leads_to_the_next_host<R: Resources>(
    target: Options,
    jumps: Seq<Options>,
    task: RouteView<R>,
    ev: RouteEvent<R>,
)
    requires
        task.inv(target, jumps),
        task.accepts(ev),
    ensures
        ({
            let (next, action) = route_next(target, jumps, task, ev);
            let options = hop_options(target, jumps, task.at + 1);
            &&& action matches RouteAction::OpenDirectTcpip(session, host, number, from, from_port)
                ==> {
                &&& task.at < jumps.len()
                &&& ev == RouteEvent::Connected(session)
                &&& hostname(options) == Ok::<Seq<char>, Seq<Seq<char>>>(host)
                &&& port(options) == Ok::<u16, Seq<Seq<char>>>(number)
                &&& from == "127.0.0.1"@
                &&& from_port == 0
            }
            &&& ev matches RouteEvent::Opened(session, channel) ==> next.stage
                == RouteStage::<R, Seq<char>, Seq<Seq<char>>>::Pairing(session, channel)
        }),
{
}

/// The bridges are waited for only once the connection to the target is closed, in the order in
/// which they were started; and where serving came to an end, the run ends only once all of them
/// have ended.
pub proof fn law_bridges_end_last<R: Resources>(
    target: Options,
    jumps: Seq<Options>,
    task: RouteView<R>,
    ev: RouteEvent<R>,
)
    requires
        task.inv(target, jumps),
        task.accepts(ev),
    ensures
        ({
            let (next, action) = route_next(target, jumps, task, ev);
            &&& action matches RouteAction::JoinBridge(bridge) ==> {
                &&& task.stage is Closing || task.stage is Joining
                &&& task.bridges == seq![bridge] + next.bridges
            }
            &&& task.stage is Closing || task.stage is Joining ==> (task.bridges.len() > 0 <==>
                action is JoinBridge)
            &&& task.stage is Serving ==> next.stage is Closing && next.bridges == task.bridges
                && action is DropSession
            &&& task.stage is Closing ==> task.bridges.len() == jumps.len()
        }),
{
    let (next, action) = route_next(target, jumps, task, ev);
    if let RouteAction::JoinBridge(bridge) = action {
        assert(task.bridges =~= seq![bridge] + next.bridges);
    }
}

/// What serving came to is what the run comes to, however many bridges are waited for.
pub proof fn law_outcome_is_kept<R: Resources>(
    target: Options,
    jumps: Seq<Options>,
    task: RouteView<R>,
    ev: RouteEvent<R>,
)
    requires
        task.inv(target, jumps),
        task.accepts(ev),
    ensures
        ({
            let (next, action) = route_next(target, jumps, task, ev);
            &&& ev matches RouteEvent::Served(_, result) ==> next.stage == RouteStage::<
                R,
                Seq<char>,
                Seq<Seq<char>>,
            >::Closing(outcome(result))
            &&& match task.stage {
                RouteStage::Closing(result) | RouteStage::Joining(result) => {
                    if task.bridges.len() > 0 {
                        next.stage == RouteStage::<R, Seq<char>, Seq<Seq<char>>>::Joining(result)
                    } else {
                        match result {
                            Ok(_) => action is Finished,
                            Err(failure) => action == RouteAction::<R, Seq<char>>::Emit(
                                SessionEvent::Error(one_line(failure)),
                            ),
                        }
                    }
                },
                _ => true,
            }
        }),
{
}

/// A failure on the way ends the run, and its owner is told of it once, on one line that ends with
/// what the failure says.
pub proof fn law_failure_is_reported<R: Resources>(
    target: Options,
    jumps: Seq<Options>,
    task: RouteView<R>,
    failure: Failure,
)
    requires
        task.inv(target, jumps),
        task.accepts(RouteEvent::Failed(failure)),
        failure@.len() > 0,
    ensures
        ({
            let (next, action) = route_next(target, jumps, task, RouteEvent::Failed(failure));
            &&& next.stage is Reporting
            &&& action matches RouteAction::Emit(SessionEvent::Error(line)) && one_line(
                failure@,
            ).is_suffix_of(line)
            &&& route_next(target, jumps, next, RouteEvent::Done).1 is Finished
        }),
{
    if let RouteAction::Emit(SessionEvent::Error(line)) = route_next(
        target,
        jumps,
        task,
        RouteEvent::Failed(failure),
    ).1 {
        let below = one_line(failure@);
        match task.stage {
            RouteStage::Connecting(host) => {
                let context = connecting_context(task.at == jumps.len(), host);
                assert((seq![context] + failure@).drop_first() =~= failure@);
                assert(line == context + ": "@ + below);
            },
            RouteStage::Opening(host, number) => {
                let context = opening_context(host, number);
                assert((seq![context] + failure@).drop_first() =~= failure@);
                assert(line == context + ": "@ + below);
            },
            _ => {},
        }
        assert(line.subrange(line.len() - below.len(), line.len() as int) =~= below);
    }
}

impl<R: Resources> RouteView<R> {
    /// How many steps are left at most.
    pub open spec fn steps_left(self, jumps: Seq<Options>) -> int {
        let hosts = jumps.len() - self.at;
        match self.stage {
            RouteStage::Connecting(_) => 6 * hosts + 4 + jumps.len(),
            RouteStage::Blocking(_, _) => 6 * hosts + 3 + jumps.len(),
            RouteStage::Opening(_, _) => 6 * hosts + 2 + jumps.len(),
            RouteStage::Pairing(_, _) => 6 * hosts + 1 + jumps.len(),
            RouteStage::Bridging => 6 * hosts + jumps.len(),
            RouteStage::Serving => 3 + jumps.len() as int,
            RouteStage::Closing(_) => 2 + self.bridges.len() as int,
            RouteStage::Joining(_) => 2 + self.bridges.len() as int,
            RouteStage::Reporting => 1,
            RouteStage::Finished => 0,
        }
    }
}

/// A run ends: with every step, fewer are left.
pub proof fn law_run_ends<R: Resources>(
    target: Options,
    jumps: Seq<Options>,
    task: RouteView<R>,
    ev: RouteEvent<R>,
)
    requires
        task.inv(target, jumps),
        task.accepts(ev),
    ensures
        0 <= route_next(target, jumps, task, ev).0.steps_left(jumps) < task.steps_left(jumps),
        route_next(target, jumps, task, ev).0.stage is Finished <==> route_next(
            target,
            jumps,
            task,
            ev,
        ).1 is Finished,
{
}

/// A connection that a run asked for: the place of the host, whether a socket was given, and whether
/// the owner of the session is to be told of the login.
pub struct HopAsked {
    pub at: usize,
    pub given: bool,
    pub emit: bool,
}

/// A run together with what it has asked for since it started.
pub struct RouteTrace<R: Resources> {
    /// The run.
    pub task: RouteView<R>,
    /// The connections that were asked for, in order.
    pub hops: Seq<HopAsked>,
    /// The bridges that were started, in order.
    pub bridges: Seq<R::Bridge>,
    /// The bridges that were waited for, in order.
    pub joined: Seq<R::Bridge>,
    /// How often requests were served.
    pub serves: nat,
    /// How often the connection to the target was closed.
    pub drops: nat,
    /// The failures that the owner of the session was told of, in order.
    pub errors: Seq<Seq<char>>,
}

impl<R: Resources> RouteTrace<R> {
    /// What is asked for is written down.
    pub open spec fn asked(self, action: RouteAction<R, Seq<char>>) -> RouteTrace<R> {
        match action {
            RouteAction::ConnectHop(at, socket, emit) => RouteTrace {
                hops: self.hops.push(HopAsked { at, given: socket is Some, emit }),
                ..self
            },
            RouteAction::RequestLoop(_) => RouteTrace { serves: self.serves + 1, ..self },
            RouteAction::DropSession(_) => RouteTrace { drops: self.drops + 1, ..self },
            RouteAction::JoinBridge(bridge) => RouteTrace {
                joined: self.joined.push(bridge),
                ..self
            },
            RouteAction::Emit(SessionEvent::Error(line)) => RouteTrace {
                errors: self.errors.push(line),
                ..self
            },
            _ => self,
        }
    }

    /// At the start of a run.
    pub open spec fn start(target: Options, jumps: Seq<Options>) -> RouteTrace<R> {
        let (task, action) = route_start(target, jumps);
        RouteTrace {
            task,
            hops: Seq::empty(),
            bridges: Seq::empty(),
            joined: Seq::empty(),
            serves: 0,
            drops: 0,
            errors: Seq::empty(),
        }.asked(action)
    }

    /// After the outcome `ev` of the awaited action.
    pub open spec fn next(
        self,
        target: Options,
        jumps: Seq<Options>,
        ev: RouteEvent<R>,
    ) -> RouteTrace<R> {
        let (task, action) = route_next(target, jumps, self.task, ev);
        RouteTrace {
            task,
            bridges: match ev {
                RouteEvent::Bridge(bridge) => self.bridges.push(bridge),
                _ => self.bridges,
            },
            ..self
        }.asked(action)
    }

    /// After the outcomes `events`, in order.
    pub open spec fn after(
        target: Options,
        jumps: Seq<Options>,
        events: Seq<RouteEvent<R>>,
    ) -> RouteTrace<R>
        decreases events.len(),
    {
        if events.len() == 0 {
            RouteTrace::start(target, jumps)
        } else {
            RouteTrace::after(target, jumps, events.drop_last()).next(target, jumps, events.last())
        }
    }

    /// Whether each of `events`, in order, can be the outcome of the action that was awaited then.
    pub open spec fn possible(
        target: Options,
        jumps: Seq<Options>,
        events: Seq<RouteEvent<R>>,
    ) -> bool
        decreases events.len(),
    {
        events.len() > 0 ==> {
            &&& RouteTrace::possible(target, jumps, events.drop_last())
            &&& RouteTrace::after(target, jumps, events.drop_last()).task.accepts(events.last())
        }
    }

    /// Whether the connections were asked for one after the other from the first host on, the first
    /// without a socket and the others over one, and only that to the target is told of.
    pub open spec fn in_order(self, jumps: Seq<Options>) -> bool {
        &&& self.hops.len() <= jumps.len() + 1
        &&& forall|i: int|
            0 <= i < self.hops.len() ==> {
                &&& (#[trigger] self.hops[i]).at == i
                &&& self.hops[i].given == (i > 0)
                &&& self.hops[i].emit == (i == jumps.len())
            }
    }

    /// What holds of a run at every moment.
    pub open spec fn inv(self, target: Options, jumps: Seq<Options>) -> bool {
        let over = self.task.stage is Reporting || self.task.stage is Finished;
        &&& self.task.inv(target, jumps)
        &&& self.in_order(jumps)
        &&& !over ==> self.hops.len() == self.task.at + 1
        &&& !over ==> self.joined + self.task.bridges == self.bridges
        &&& over && self.serves == 1 ==> self.joined == self.bridges
        &&& self.serves <= 1
        &&& self.serves == 1 ==> self.hops.len() == jumps.len() + 1
        &&& !over ==> (self.serves == 1 <==> self.task.stage is Serving
            || self.task.stage is Closing || self.task.stage is Joining)
        &&& self.drops == (if self.serves == 1 && !(self.task.stage is Serving) {
            1nat
        } else {
            0nat
        })
        &&& self.serves == 0 ==> self.joined.len() == 0
        &&& self.errors.len() <= 1
        &&& !over ==> self.errors.len() == 0
        &&& self.task.stage is Reporting ==> self.errors.len() == 1
        &&& self.task.stage is Finished && self.errors.len() == 0 ==> self.serves == 1
    }
}

proof fn lemma_run_step<R: Resources>(
    target: Options,
    jumps: Seq<Options>,
    t: RouteTrace<R>,
    ev: RouteEvent<R>,
)
    requires
        t.inv(target, jumps),
        t.task.accepts(ev),
        jumps.len() <= usize::MAX,
    ensures
        t.next(target, jumps, ev).inv(target, jumps),
{
    let n = t.next(target, jumps, ev);
    match (t.task.stage, ev) {
        (RouteStage::Bridging, RouteEvent::Bridge(bridge)) => {
            assert(t.joined + t.task.bridges.push(bridge) =~= t.bridges.push(bridge));
        },
        (RouteStage::Closing(_), _) | (RouteStage::Joining(_), _) => {
            if t.task.bridges.len() > 0 {
                assert(n.joined + n.task.bridges =~= t.joined + t.task.bridges);
            } else {
                assert(t.joined + t.task.bridges =~= t.joined);
            }
        },
        _ => {},
    }
}

/// The invariant of a run holds after any outcomes that its actions can have.
pub proof fn law_run_is_orderly<R: Resources>(
    target: Options,
    jumps: Seq<Options>,
    events: Seq<RouteEvent<R>>,
)
    requires
        RouteTrace::possible(target, jumps, events),
        jumps.len() <= usize::MAX,
    ensures
        RouteTrace::after(target, jumps, events).inv(target, jumps),
    decreases events.len(),
{
    if events.len() > 0 {
        law_run_is_orderly(target, jumps, events.drop_last());
        lemma_run_step(
            target,
            jumps,
            RouteTrace::after(target, jumps, events.drop_last()),
            events.last(),
        );
    } else {
        let t = RouteTrace::<R>::start(target, jumps);
        assert(t.joined + t.task.bridges =~= t.bridges);
    }
}

/// The plan for a connection that a run asked for, where the library and the login are these.
pub open spec fn asked_plan(
    target: Options,
    jumps: Seq<Options>,
    hop: HopAsked,
    backend: Backend,
    login: Login<Seq<char>>,
) -> Steps {
    plan_of(backend, hop_options(target, jumps, hop.at as int), login, hop.given, hop.emit)
}

/// Over a whole run, however it comes out, each host is connected to at most once, and in order; the
/// plans of all its connections together tell of a login at most once, and only for the target; and
/// once requests are served, all hosts have been connected to and the plan for the target does tell
/// of it.
pub proof fn law_each_host_once_and_one_login<R: Resources>(
    target: Options,
    jumps: Seq<Options>,
    events: Seq<RouteEvent<R>>,
    backends: Seq<Backend>,
    logins: Seq<Login<Seq<char>>>,
)
    requires
        RouteTrace::possible(target, jumps, events),
        jumps.len() <= usize::MAX,
    ensures
        ({
            let t = RouteTrace::after(target, jumps, events);
            let told = HopStep::<Seq<char>>::Emit(SessionEvent::Authenticated);
            let plan = |i: int| asked_plan(target, jumps, t.hops[i], backends[i], logins[i]);
            &&& forall|i: int, j: int|
                0 <= i < t.hops.len() && 0 <= j < t.hops.len() && (#[trigger] t.hops[i]).at == (
                #[trigger] t.hops[j]).at ==> i == j
            &&& forall|i: int, j: int, p: int, q: int|
                0 <= i < t.hops.len() && 0 <= j < t.hops.len() && #[trigger] planned_at(
                    plan(i),
                    p,
                    told,
                ) && #[trigger] planned_at(plan(j), q, told) ==> i == j && p == q && t.hops[i].at
                    == jumps.len()
            &&& t.serves > 0 ==> {
                &&& t.hops.len() == jumps.len() + 1
                &&& exists|p: int| #[trigger] planned_at(plan(jumps.len() as int), p, told)
            }
        }),
{
    law_run_is_orderly(target, jumps, events);
    let t = RouteTrace::after(target, jumps, events);
    let told = HopStep::<Seq<char>>::Emit(SessionEvent::Authenticated);
    let plan = |i: int| asked_plan(target, jumps, t.hops[i], backends[i], logins[i]);
    assert forall|i: int| 0 <= i < t.hops.len() implies told_once_at_the_target(
        jumps,
        t.hops[i].at,
        #[trigger] plan(i),
    ) by {
        let hop = t.hops[i];
        law_login_is_told_last(
            backends[i],
            hop_options(target, jumps, hop.at as int),
            logins[i],
            hop.given,
            hop.emit,
        );
    }
    assert forall|i: int, j: int, p: int, q: int|
        0 <= i < t.hops.len() && 0 <= j < t.hops.len() && #[trigger] planned_at(plan(i), p, told)
            && #[trigger] planned_at(plan(j), q, told) implies i == j && p == q && t.hops[i].at
        == jumps.len() by {
        assert(told_once_at_the_target(jumps, t.hops[i].at, plan(i)));
        assert(told_once_at_the_target(jumps, t.hops[j].at, plan(j)));
    }
    if t.serves > 0 {
        let last = jumps.len() as int;
        assert(t.hops[last].at == last);
        assert(told_once_at_the_target(jumps, t.hops[last].at, plan(last)));
    }
}

/// Over a whole run, the owner of the session is told of at most one failure. A run that is over
/// either told of one or served requests to a good end. Where requests were served, they were so
/// once, the connection to the target was closed once, and every bridge that was started was waited
/// for, in order.
pub proof fn law_run_comes_to_one_end<R: Resources>(
    target: Options,
    jumps: Seq<Options>,
    events: Seq<RouteEvent<R>>,
)
    requires
        RouteTrace::possible(target, jumps, events),
        jumps.len() <= usize::MAX,
        RouteTrace::after(target, jumps, events).task.stage is Finished,
    ensures
        ({
            let t = RouteTrace::after(target, jumps, events);
            &&& t.errors.len() <= 1
            &&& t.serves <= 1
            &&& t.errors.len() == 0 ==> t.serves == 1
            &&& t.serves == 1 ==> t.drops == 1 && t.joined == t.bridges
            &&& t.serves == 0 ==> t.drops == 0 && t.joined.len() == 0
        }),
{
    law_run_is_orderly(target, jumps, events);
}

/// The hosts on the way are the jump hosts in their order, and then the target.
pub proof fn law_target_comes_after_the_jumps(target: Options, jumps: Seq<Options>, at: int)
    requires
        0 <= at <= jumps.len(),
    ensures
        at < jumps.len() ==> hop_options(target, jumps, at) == jumps[at],
        at == jumps.len() ==> hop_options(target, jumps, at) == target,
{
}

/// A run goes from step to step with what was handed in. A connection to a jump host is made blocking,
/// a channel to the next host is opened over it, a pair is made, and a bridge is started over that
/// very connection and channel with one end of the pair, while the other end leads to the next host.
/// The connection to the target is the one over which requests are served, and it is the one that is
/// closed when that ends.
pub proof fn law_run_works_with_what_it_has<R: Resources>(
    target: Options,
    jumps: Seq<Options>,
    task: RouteView<R>,
    ev: RouteEvent<R>,
)
    requires
        task.inv(target, jumps),
        task.accepts(ev),
        jumps.len() <= usize::MAX,
    ensures
        ({
            let (next, action) = route_next(target, jumps, task, ev);
            match (task.stage, ev) {
                (RouteStage::Connecting(_), RouteEvent::Connected(session)) => {
                    let after = if task.at + 1 < jumps.len() {
                        jumps[task.at + 1]
                    } else {
                        target
                    };
                    if task.at == jumps.len() {
                        &&& action == RouteAction::<R, Seq<char>>::RequestLoop(session)
                        &&& next.stage is Serving
                        &&& next.bridges == task.bridges
                    } else {
                        match (hostname(after), port(after)) {
                            (Err(failure), _) => action == RouteAction::<R, Seq<char>>::Emit(
                                SessionEvent::Error(one_line(failure)),
                            ),
                            (Ok(_), Err(failure)) => action == RouteAction::<R, Seq<char>>::Emit(
                                SessionEvent::Error(one_line(failure)),
                            ),
                            (Ok(host), Ok(number)) => {
                                &&& action == RouteAction::<R, Seq<char>>::SetBlocking(session)
                                &&& next == (RouteView {
                                    stage: RouteStage::Blocking(host, number),
                                    ..task
                                })
                            },
                        }
                    }
                },
                (RouteStage::Blocking(host, number), RouteEvent::Connected(session)) => {
                    &&& action == RouteAction::<R, Seq<char>>::OpenDirectTcpip(
                        session,
                        host,
                        number,
                        "127.0.0.1"@,
                        0,
                    )
                    &&& next == (RouteView { stage: RouteStage::Opening(host, number), ..task })
                },
                (RouteStage::Opening(_, _), RouteEvent::Opened(session, channel)) => {
                    &&& action == RouteAction::<R, Seq<char>>::Socketpair
                    &&& next == (RouteView { stage: RouteStage::Pairing(session, channel), ..task })
                },
                (RouteStage::Pairing(session, channel), RouteEvent::Pair(socket, fd)) => {
                    &&& action == RouteAction::<R, Seq<char>>::SpawnBridge(session, channel, fd)
                    &&& next == (RouteView {
                        stage: RouteStage::Bridging,
                        socket: Some(socket),
                        ..task
                    })
                },
                (RouteStage::Bridging, RouteEvent::Bridge(bridge)) => {
                    let after = if task.at + 1 < jumps.len() {
                        jumps[task.at + 1]
                    } else {
                        target
                    };
                    match hostname(after) {
                        Err(failure) => action == RouteAction::<R, Seq<char>>::Emit(
                            SessionEvent::Error(one_line(failure)),
                        ),
                        Ok(host) => {
                            &&& action == RouteAction::<R, Seq<char>>::ConnectHop(
                                (task.at + 1) as usize,
                                task.socket,
                                task.at + 1 == jumps.len(),
                            )
                            &&& next == (RouteView::<R> {
                                stage: RouteStage::Connecting(host),
                                at: task.at + 1,
                                socket: None,
                                bridges: task.bridges.push(bridge),
                            })
                        },
                    }
                },
                (RouteStage::Serving, RouteEvent::Served(session, result)) => {
                    &&& action == RouteAction::<R, Seq<char>>::DropSession(session)
                    &&& next == (RouteView {
                        stage: RouteStage::Closing(
                            match result {
                                Ok(_) => Ok(()),
                                Err(failure) => Err(failure@),
                            },
                        ),
                        ..task
                    })
                },
                _ => true,
            }
        }),
        ({
            let first = if jumps.len() > 0 {
                jumps[0]
            } else {
                target
            };
            match hostname(first) {
                Err(failure) => route_start::<R>(target, jumps).1 == RouteAction::<
                    R,
                    Seq<char>,
                >::Emit(SessionEvent::Error(one_line(failure))),
                Ok(_) => route_start::<R>(target, jumps).1 == RouteAction::<
                    R,
                    Seq<char>,
                >::ConnectHop(0, None, jumps.len() == 0),
            }
        }),
{
}

/// What the owner of the session is told where a step on the way fails: which jump host, or the
/// target, could not be connected to, or where no channel could be opened to, before the failure
/// itself; and any other failure as it is.
pub proof fn law_failures_on_the_way_are_told<R: Resources>(
    target: Options,
    jumps: Seq<Options>,
    task: RouteView<R>,
    failure: Failure,
)
    requires
        task.inv(target, jumps),
        task.accepts(RouteEvent::Failed(failure)),
        failure@.len() > 0,
    ensures
        ({
            let (next, action) = route_next(target, jumps, task, RouteEvent::Failed(failure));
            let below = one_line(failure@);
            &&& next.stage is Reporting && next.bridges.len() == 0 && next.socket is None
            &&& action == RouteAction::<R, Seq<char>>::Emit(
                SessionEvent::Error(
                    match task.stage {
                        RouteStage::Connecting(host) => (if task.at < jumps.len() {
                            "connecting ProxyJump host "@
                        } else {
                            "connecting final SSH target "@
                        }) + host + ": "@ + below,
                        RouteStage::Opening(host, number) => "opening ProxyJump direct-tcpip to "@
                            + host + ":"@ + decimal(number as nat) + ": "@ + below,
                        _ => below,
                    },
                ),
            )
        }),
{
    match task.stage {
        RouteStage::Connecting(host) => {
            let context = connecting_context(task.at == jumps.len(), host);
            law_context_stands_in_front(context, failure@);
        },
        RouteStage::Opening(host, number) => {
            let context = opening_context(host, number);
            law_context_stands_in_front(context, failure@);
            assert(context =~= "opening ProxyJump direct-tcpip to "@ + host + ":"@ + decimal(
                number as nat,
            ));
        },
        _ => {},
    }
}

/// An outcome can be taken in if it is of the awaited action, whether that went well or not.
pub proof fn law_run_takes_any_outcome<R: Resources>(
    task: RouteView<R>,
    session: SessionWrap<R>,
    channel: R::Channel,
    failure: Failure,
    socket: Socket,
    fd: FileDescriptor,
    bridge: R::Bridge,
    served: Result<(), Failure>,
)
    ensures
        match task.stage {
            RouteStage::Connecting(_) => {
                &&& task.accepts(RouteEvent::Connected(session))
                &&& task.accepts(RouteEvent::Failed(failure))
            },
            RouteStage::Blocking(_, _) => task.accepts(RouteEvent::Connected(session)),
            RouteStage::Opening(_, _) => {
                &&& task.accepts(RouteEvent::Opened(session, channel))
                &&& task.accepts(RouteEvent::Failed(failure))
            },
            RouteStage::Pairing(_, _) => {
                &&& task.accepts(RouteEvent::Pair(socket, fd))
                &&& task.accepts(RouteEvent::Failed(failure))
            },
            RouteStage::Bridging => task.accepts(RouteEvent::Bridge(bridge)),
            RouteStage::Serving => task.accepts(RouteEvent::Served(session, served)),
            RouteStage::Closing(_) | RouteStage::Joining(_) | RouteStage::Reporting => {
                task.accepts(RouteEvent::Done)
            },
            RouteStage::Finished => true,
        },
{
}

} // verus!
