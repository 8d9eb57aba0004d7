//! How the transport to a host is made: through a proxy command where one is set, else directly to
//! the first address of the wanted family.

use crate::config::{option, ConfigMap};
use crate::failure::Failure;
use crate::text::{decimal, decimal_text, quote, quoted};
use vstd::prelude::*;

verus! {

/// An address that a name was resolved to.
#[derive(Debug)]
pub struct SockAddr {
    /// Whether it is of the sixth version of the protocol, else of the fourth.
    pub is_ipv6: bool,
    /// How it is written.
    pub text: String,
}

/// Whether the address is of the family that the configuration asks for.
pub open spec fn family_matches(config: Map<Seq<char>, Seq<char>>, addr: SockAddr) -> bool {
    let family = option(config, "addressfamily"@);
    if family == Some("inet"@) {
        !addr.is_ipv6
    } else if family == Some("inet6"@) {
        addr.is_ipv6
    } else {
        true
    }
}

/// Restricts the addresses of a host to the family that the configuration asks for.
pub fn filter_sock_addr(config: &ConfigMap, addr: &SockAddr) -> (yes: bool)
    ensures
        yes == family_matches(config@, *addr),
{
    if config.is("addressfamily", "inet") {
        !addr.is_ipv6
    } else if config.is("addressfamily", "inet6") {
        addr.is_ipv6
    } else {
        true
    }
}

/// The place of the first address of the family that the configuration asks for.
pub open spec fn first_match(
    config: Map<Seq<char>, Seq<char>>,
    addrs: Seq<SockAddr>,
) -> Option<usize>
    decreases addrs.len(),
{
    if addrs.len() == 0 {
        None
    } else if family_matches(config, addrs[0]) {
        Some(0)
    } else {
        match first_match(config, addrs.drop_first()) {
            Some(i) => Some((i + 1) as usize),
            None => None,
        }
    }
}

/// Whether `found` is the place of the first address of the family that the configuration asks
/// for, or is `None` where there is no such address.
pub open spec fn is_first_match(
    config: Map<Seq<char>, Seq<char>>,
    addrs: Seq<SockAddr>,
    found: Option<usize>,
) -> bool {
    match found {
        Some(i) => {
            &&& i < addrs.len()
            &&& family_matches(config, addrs[i as int])
            &&& forall|k: int| 0 <= k < i ==> !family_matches(config, #[trigger] addrs[k])
        },
        None => forall|k: int|
            0 <= k < addrs.len() ==> !family_matches(config, #[trigger] addrs[k]),
    }
}

/// The address that is used is the first of the wanted family, and one is found if there is any.
pub proof fn law_first_of_the_family(config: Map<Seq<char>, Seq<char>>, addrs: Seq<SockAddr>)
    requires
        addrs.len() <= usize::MAX,
    ensures
        is_first_match(config, addrs, first_match(config, addrs)),
    decreases addrs.len(),
{
    if addrs.len() > 0 && !family_matches(config, addrs[0]) {
        let rest = addrs.drop_first();
        law_first_of_the_family(config, rest);
        let end: int = match first_match(config, rest) {
            Some(i) => i as int,
            None => rest.len() as int,
        };
        assert forall|k: int| 0 <= k < end + 1 implies !family_matches(
            config,
            #[trigger] addrs[k],
        ) by {
            if k > 0 {
                assert(rest[k - 1] == addrs[k]);
            }
        }
    }
}

/// Finds the first address of the family that the configuration asks for.
pub fn find_address(config: &ConfigMap, addrs: &Vec<SockAddr>) -> (found: Option<usize>)
    ensures
        found == first_match(config@, addrs@),
        is_first_match(config@, addrs@, found),
{
    let mut i: usize = 0;
    let len: usize = addrs.len();
    proof {
        law_first_of_the_family(config@, addrs@);
    }
    while i < len
        invariant
            len == addrs@.len(),
            i <= len,
            is_first_match(config@, addrs@, first_match(config@, addrs@)),
            forall|k: int| 0 <= k < i ==> !family_matches(config@, #[trigger] addrs@[k]),
        decreases len - i,
    {
        if filter_sock_addr(config, &addrs[i]) {
            return Some(i);
        }
        i += 1;
    }
    None
}

/// What carries the connection.
#[derive(Clone, Copy, Debug, PartialEq, Eq, Structural)]
pub enum Transport {
    /// The other end of the pair that the proxy command reads and writes.
    ProxyPair,
    /// The descriptor that the proxy command passed.
    ProxyPassed,
    /// The socket that was connected.
    Direct,
}

/// What the driver is to do next.
#[derive(Debug)]
pub enum HostAction<S, F> {
    /// See what the environment says is the command interpreter.
    ReadComspec,
    /// Make a pair of connected descriptors.
    Socketpair,
    /// Make standard input and output for the proxy command of the second descriptor of the pair.
    AttachStdio,
    /// Start this program with these two arguments; its standard error is ours.
    Spawn(S, S, S),
    /// Receive a descriptor over the first one of the pair.
    ReceiveFd,
    /// Resolve this name with this port.
    Resolve(S, u16),
    /// Create a socket for the address with this place in the list.
    CreateSocket(usize),
    /// Bind the socket to the address with this place in the list that was given last.
    Bind(usize),
    /// Connect the socket to the address with this place in the list that was given first.
    Connect(usize),
    /// The transport is there, or could not be made.
    Finished(Result<Transport, F>),
}

/// An action, with sequences for what it carries.
pub type HostActionView = HostAction<Seq<char>, Seq<Seq<char>>>;

impl View for HostAction<String, Failure> {
    type V = HostActionView;

    open spec fn view(&self) -> HostActionView {
        match *self {
            HostAction::ReadComspec => HostAction::ReadComspec,
            HostAction::Socketpair => HostAction::Socketpair,
            HostAction::AttachStdio => HostAction::AttachStdio,
            HostAction::Spawn(program, flag, command) => HostAction::Spawn(
                program@,
                flag@,
                command@,
            ),
            HostAction::ReceiveFd => HostAction::ReceiveFd,
            HostAction::Resolve(name, port) => HostAction::Resolve(name@, port),
            HostAction::CreateSocket(i) => HostAction::CreateSocket(i),
            HostAction::Bind(i) => HostAction::Bind(i),
            HostAction::Connect(i) => HostAction::Connect(i),
            HostAction::Finished(Ok(transport)) => HostAction::Finished(Ok(transport)),
            HostAction::Finished(Err(failure)) => HostAction::Finished(Err(failure@)),
        }
    }
}

/// How the action that was given last came out.
#[derive(Debug)]
pub enum HostEvent {
    /// What the environment says is the command interpreter.
    Comspec(Option<String>),
    /// It is done.
    Done,
    /// It failed.
    Failed(Failure),
    /// The addresses that the name was resolved to.
    Resolved(Vec<SockAddr>),
}

/// The address to connect to: the host and port it stands for, its place in the list, and how it is
/// written.
#[derive(Debug)]
pub struct Target<S> {
    pub host: S,
    pub port: u16,
    pub at: usize,
    pub text: S,
}

/// How far the transport has come.
#[derive(Debug)]
pub enum HostTask<S> {
    /// The environment is asked for the command interpreter, for this proxy command.
    Comspec(S),
    /// The pair is made, for this interpreter and proxy command.
    Pair(S, S),
    /// Standard input and output are made.
    Attach(S, S),
    /// The proxy command is started.
    Spawn(S),
    /// The descriptor is received.
    Receive,
    /// The host is resolved.
    Resolve(S, u16),
    /// The socket is created.
    Create(Target<S>),
    /// The address to bind to is resolved.
    ResolveBind(Target<S>, S),
    /// The socket is bound to the address that is written so.
    Bind(Target<S>, S),
    /// The socket is connected.
    Connect(Target<S>),
    /// The transport is there, or could not be made.
    Finished,
}

impl View for Target<String> {
    type V = Target<Seq<char>>;

    open spec fn view(&self) -> Target<Seq<char>> {
        Target { host: self.host@, port: self.port, at: self.at, text: self.text@ }
    }
}

impl View for HostTask<String> {
    type V = HostTask<Seq<char>>;

    open spec fn view(&self) -> HostTask<Seq<char>> {
        match *self {
            HostTask::Comspec(command) => HostTask::Comspec(command@),
            HostTask::Pair(program, command) => HostTask::Pair(program@, command@),
            HostTask::Attach(program, command) => HostTask::Attach(program@, command@),
            HostTask::Spawn(command) => HostTask::Spawn(command@),
            HostTask::Receive => HostTask::Receive,
            HostTask::Resolve(host, port) => HostTask::Resolve(host@, port),
            HostTask::Create(target) => HostTask::Create(target@),
            HostTask::ResolveBind(target, name) => HostTask::ResolveBind(target@, name@),
            HostTask::Bind(target, text) => HostTask::Bind(target@, text@),
            HostTask::Connect(target) => HostTask::Connect(target@),
            HostTask::Finished => HostTask::Finished,
        }
    }
}

/// The proxy command, where one is set and is not `none`.
pub open spec fn proxy_command(config: Map<Seq<char>, Seq<char>>) -> Option<Seq<char>> {
    match option(config, "proxycommand"@) {
        Some(command) => if command == "none"@ {
            None
        } else {
            Some(command)
        },
        None => None,
    }
}

/// The program and its arguments that run the proxy command.
pub open spec fn proxy_argv(windows: bool, program: Seq<char>, command: Seq<char>) -> HostActionView {
    if windows {
        HostAction::Spawn(program, "/c"@, command)
    } else {
        HostAction::Spawn(program, "-c"@, "exec "@ + command)
    }
}

/// How a host and port are written.
pub open spec fn host_port(host: Seq<char>, port: u16) -> Seq<char> {
    host + ":"@ + decimal(port as nat)
}

/// What failed when a socket could not be connected.
pub open spec fn connecting_text(target: Target<Seq<char>>) -> Seq<char> {
    "Connecting to "@ + host_port(target.host, target.port) + " ("@ + target.text + ")"@
}

/// What a step comes to: how far the transport has come, and the action.
pub type HostStep = (HostTask<Seq<char>>, HostActionView);

/// To give up.
pub open spec fn host_failed(chain: Seq<Seq<char>>) -> HostStep {
    (HostTask::Finished, HostAction::Finished(Err(chain)))
}

/// The first step.
pub open spec fn host_start(
    config: Map<Seq<char>, Seq<char>>,
    hostname: Seq<char>,
    port: u16,
    windows: bool,
) -> HostStep {
    match proxy_command(config) {
        Some(command) => if windows {
            (HostTask::Comspec(command), HostAction::ReadComspec)
        } else {
            (HostTask::Pair("sh"@, command), HostAction::Socketpair)
        },
        None => (HostTask::Resolve(hostname, port), HostAction::Resolve(hostname, port)),
    }
}

impl HostTask<Seq<char>> {
    /// Whether `ev` can be the outcome of the awaited action.
    pub open spec fn accepts(self, ev: HostEvent) -> bool {
        match self {
            HostTask::Comspec(_) => ev is Comspec,
            HostTask::Resolve(_, _) => ev is Resolved || ev is Failed,
            HostTask::ResolveBind(_, _) => ev is Resolved || ev is Failed,
            HostTask::Finished => false,
            _ => ev is Done || ev is Failed,
        }
    }
}

/// The next step, given the outcome of the awaited action.
pub open spec fn host_next(
    config: Map<Seq<char>, Seq<char>>,
    windows: bool,
    task: HostTask<Seq<char>>,
    ev: HostEvent,
) -> HostStep {
    match (task, ev) {
        (HostTask::Comspec(command), HostEvent::Comspec(Some(program))) => (
            HostTask::Pair(program@, command),
            HostAction::Socketpair,
        ),
        (HostTask::Comspec(command), _) => (
            HostTask::Pair("cmd"@, command),
            HostAction::Socketpair,
        ),
        (HostTask::Spawn(command), HostEvent::Failed(failure)) => host_failed(
            seq!["spawning ProxyCommand "@ + command] + failure@,
        ),
        (HostTask::Bind(_, text), HostEvent::Failed(failure)) => host_failed(
            seq!["binding to "@ + text] + failure@,
        ),
        (HostTask::Connect(target), HostEvent::Failed(failure)) => host_failed(
            seq![connecting_text(target)] + failure@,
        ),
        (_, HostEvent::Failed(failure)) => host_failed(failure@),
        (HostTask::Pair(program, command), _) => (
            HostTask::Attach(program, command),
            HostAction::AttachStdio,
        ),
        (HostTask::Attach(program, command), _) => (
            HostTask::Spawn(command),
            proxy_argv(windows, program, command),
        ),
        (HostTask::Spawn(_), _) => if !windows && option(config, "proxyusefdpass"@) == Some(
            "yes"@,
        ) {
            (HostTask::Receive, HostAction::ReceiveFd)
        } else {
            (HostTask::Finished, HostAction::Finished(Ok(Transport::ProxyPair)))
        },
        (HostTask::Receive, _) => (
            HostTask::Finished,
            HostAction::Finished(Ok(Transport::ProxyPassed)),
        ),
        (HostTask::Resolve(host, port), HostEvent::Resolved(addrs)) => match first_match(
            config,
            addrs@,
        ) {
            Some(at) => (
                HostTask::Create(Target { host, port, at, text: addrs@[at as int].text@ }),
                HostAction::CreateSocket(at),
            ),
            None => host_failed(seq!["resolving address for "@ + host]),
        },
        (HostTask::Create(target), _) => match option(config, "bindaddress"@) {
            Some(name) => (HostTask::ResolveBind(target, name), HostAction::Resolve(name, 0)),
            None => (HostTask::Connect(target), HostAction::Connect(target.at)),
        },
        (HostTask::ResolveBind(target, name), HostEvent::Resolved(addrs)) => match first_match(
            config,
            addrs@,
        ) {
            Some(at) => (
                HostTask::Bind(target, addrs@[at as int].text@),
                HostAction::Bind(at),
            ),
            None => host_failed(seq!["resolving bind address "@ + quoted(name)]),
        },
        (HostTask::Bind(target, _), _) => (HostTask::Connect(target), HostAction::Connect(target.at)),
        (HostTask::Connect(_), _) => (
            HostTask::Finished,
            HostAction::Finished(Ok(Transport::Direct)),
        ),
        _ => (task, HostAction::Finished(Ok(Transport::Direct))),
    }
}

/// Writes a host and port.
pub fn host_port_text(host: &str, port: u16) -> (text: String)
    ensures
        text@ == host_port(host@, port),
{
    host.to_owned().concat(":").concat(decimal_text(port as u64).as_str())
}

/// What failed when no address to bind to was found; `name` is the quoted name.
pub fn bind_failure(name: &str) -> (failure: Failure)
    ensures
        failure@ == seq!["resolving bind address "@ + name@],
{
    Failure::message("resolving bind address ".to_owned().concat(name))
}

/// What an exec step returns.
pub type HostReturn = (HostTask<String>, HostAction<String, Failure>);

fn give_up(failure: Failure) -> (r: HostReturn)
    ensures
        (r.0@, r.1@) == host_failed(failure@),
{
    (HostTask::Finished, HostAction::Finished(Err(failure)))
}

/// Starts to make the transport to a host: gives the first action. Neither SSH library regards the
/// address family, and not every one runs proxy commands, so both are dealt with here.
pub fn connect_to_host(config: &ConfigMap, hostname: &str, port: u16, windows: bool) -> (r:
    HostReturn)
    ensures
        (r.0@, r.1@) == host_start(config@, hostname@, port, windows),
{
    match config.get("proxycommand") {
        Some(command) => if !config.is("proxycommand", "none") {
            return if windows {
                (HostTask::Comspec(command.clone()), HostAction::ReadComspec)
            } else {
                (HostTask::Pair("sh".to_owned(), command.clone()), HostAction::Socketpair)
            };
        },
        None => {},
    }
    (HostTask::Resolve(hostname.to_owned(), port), HostAction::Resolve(hostname.to_owned(), port))
}

/// Takes in the outcome of the action that was given last, and gives the next one.
pub fn host_step(config: &ConfigMap, windows: bool, task: HostTask<String>, ev: HostEvent) -> (r:
    HostReturn)
    requires
        task@.accepts(ev),
    ensures
        (r.0@, r.1@) == host_next(config@, windows, task@, ev),
{
    match (task, ev) {
        (HostTask::Comspec(command), HostEvent::Comspec(Some(program))) => (
            HostTask::Pair(program, command),
            HostAction::Socketpair,
        ),
        (HostTask::Comspec(command), _) => (
            HostTask::Pair("cmd".to_owned(), command),
            HostAction::Socketpair,
        ),
        (HostTask::Spawn(command), HostEvent::Failed(failure)) => give_up(
            failure.context("spawning ProxyCommand ".to_owned().concat(command.as_str())),
        ),
        (HostTask::Bind(_, text), HostEvent::Failed(failure)) => give_up(
            failure.context("binding to ".to_owned().concat(text.as_str())),
        ),
        (HostTask::Connect(target), HostEvent::Failed(failure)) => {
            let place = host_port_text(target.host.as_str(), target.port);
            let text = "Connecting to ".to_owned().concat(place.as_str()).concat(" (").concat(
                target.text.as_str(),
            ).concat(")");
            give_up(failure.context(text))
        },
        (_, HostEvent::Failed(failure)) => give_up(failure),
        (HostTask::Pair(program, command), _) => (
            HostTask::Attach(program, command),
            HostAction::AttachStdio,
        ),
        (HostTask::Attach(program, command), _) => {
            let action = if windows {
                HostAction::Spawn(program, "/c".to_owned(), command.clone())
            } else {
                HostAction::Spawn(
                    program,
                    "-c".to_owned(),
                    "exec ".to_owned().concat(command.as_str()),
                )
            };
            (HostTask::Spawn(command), action)
        },
        (HostTask::Spawn(_), _) => {
            if !windows && config.is("proxyusefdpass", "yes") {
                (HostTask::Receive, HostAction::ReceiveFd)
            } else {
                (HostTask::Finished, HostAction::Finished(Ok(Transport::ProxyPair)))
            }
        },
        (HostTask::Receive, _) => (
            HostTask::Finished,
            HostAction::Finished(Ok(Transport::ProxyPassed)),
        ),
        (HostTask::Resolve(host, port), HostEvent::Resolved(addrs)) => match find_address(
            config,
            &addrs,
        ) {
            Some(at) => (
                HostTask::Create(Target { host, port, at, text: addrs[at].text.clone() }),
                HostAction::CreateSocket(at),
            ),
            None => give_up(
                Failure::message("resolving address for ".to_owned().concat(host.as_str())),
            ),
        },
        (HostTask::Create(target), _) => match config.get("bindaddress") {
            Some(name) => (
                HostTask::ResolveBind(target, name.clone()),
                HostAction::Resolve(name.clone(), 0),
            ),
            None => {
                let at: usize = target.at;
                (HostTask::Connect(target), HostAction::Connect(at))
            },
        },
        (HostTask::ResolveBind(target, name), HostEvent::Resolved(addrs)) => match find_address(
            config,
            &addrs,
        ) {
            Some(at) => (
                HostTask::Bind(target, addrs[at].text.clone()),
                HostAction::Bind(at),
            ),
            None => give_up(bind_failure(quote(name.as_str()).as_str())),
        },
        (HostTask::Bind(target, _), _) => {
            let at: usize = target.at;
            (HostTask::Connect(target), HostAction::Connect(at))
        },
        (HostTask::Connect(_), _) => (
            HostTask::Finished,
            HostAction::Finished(Ok(Transport::Direct)),
        ),
        (task, _) => (task, HostAction::Finished(Ok(Transport::Direct))),
    }
}

/// Where no family is asked for, or one that is not known, the first address is used.
pub proof fn law_any_family_takes_the_first(
    config: Map<Seq<char>, Seq<char>>,
    addrs: Seq<SockAddr>,
)
    requires
        option(config, "addressfamily"@) != Some("inet"@),
        option(config, "addressfamily"@) != Some("inet6"@),
        addrs.len() > 0,
    ensures
        first_match(config, addrs) == Some(0usize),
{
}

/// The proxy command `none` is as good as no proxy command.
pub proof fn law_proxy_none_is_unset(
    config: Map<Seq<char>, Seq<char>>,
    hostname: Seq<char>,
    port: u16,
    windows: bool,
)
    ensures
        host_start(config.insert("proxycommand"@, "none"@), hostname, port, windows) == host_start(
            config.remove("proxycommand"@),
            hostname,
            port,
            windows,
        ),
{
}

impl HostTask<Seq<char>> {
    /// Whether the transport goes through a proxy command.
    pub open spec fn is_proxied(self) -> bool {
        self is Comspec || self is Pair || self is Attach || self is Spawn || self is Receive
    }

    /// Whether the transport goes to the host directly.
    pub open spec fn is_direct(self) -> bool {
        self is Resolve || self is Create || self is ResolveBind || self is Bind || self is Connect
    }

    /// How many steps are left at most.
    pub open spec fn steps_left(self) -> nat {
        match self {
            HostTask::Comspec(_) => 5,
            HostTask::Pair(_, _) => 4,
            HostTask::Attach(_, _) => 3,
            HostTask::Spawn(_) => 2,
            HostTask::Receive => 1,
            HostTask::Resolve(_, _) => 5,
            HostTask::Create(_) => 4,
            HostTask::ResolveBind(_, _) => 3,
            HostTask::Bind(_, _) => 2,
            HostTask::Connect(_) => 1,
            HostTask::Finished => 0,
        }
    }
}

/// A proxy command is used if and only if one is set, and it is never bypassed: where it is used,
/// no name is resolved and no socket is connected; where it is not, nothing is started.
pub proof fn law_proxy_is_not_bypassed(
    config: Map<Seq<char>, Seq<char>>,
    hostname: Seq<char>,
    port: u16,
    windows: bool,
    task: HostTask<Seq<char>>,
    ev: HostEvent,
)
    requires
        task.accepts(ev),
    ensures
        ({
            let start = host_start(config, hostname, port, windows).0;
            if proxy_command(config) is Some {
                start.is_proxied()
            } else {
                start.is_direct()
            }
        }),
        ({
            let (next, action) = host_next(config, windows, task, ev);
            &&& task.is_proxied() ==> {
                &&& next.is_proxied() || next is Finished
                &&& !(action is Resolve || action is CreateSocket || action is Bind
                    || action is Connect)
                &&& action != HostAction::<Seq<char>, Seq<Seq<char>>>::Finished(
                    Ok(Transport::Direct),
                )
            }
            &&& task.is_direct() ==> {
                &&& next.is_direct() || next is Finished
                &&& !(action is Spawn || action is ReceiveFd || action is Socketpair)
                &&& action matches HostAction::Finished(Ok(transport)) ==> transport
                    == Transport::Direct
            }
        }),
{
}

/// The transport is made in at most five steps, and the last one says how it came out.
pub proof fn law_transport_ends(
    config: Map<Seq<char>, Seq<char>>,
    windows: bool,
    task: HostTask<Seq<char>>,
    ev: HostEvent,
)
    requires
        task.accepts(ev),
    ensures
        task.steps_left() <= 5,
        host_next(config, windows, task, ev).0.steps_left() < task.steps_left(),
        host_next(config, windows, task, ev).0 is Finished <==> host_next(
            config,
            windows,
            task,
            ev,
        ).1 is Finished,
{
}

/// A failure ends the attempt, and what is reported ends with its own messages.
pub proof fn law_transport_failure_is_passed_on(
    config: Map<Seq<char>, Seq<char>>,
    windows: bool,
    task: HostTask<Seq<char>>,
    failure: Failure,
)
    requires
        task.accepts(HostEvent::Failed(failure)),
    ensures
        host_next(config, windows, task, HostEvent::Failed(failure)).1 matches HostAction::Finished(
            Err(chain),
        ) && failure@.is_suffix_of(chain),
{
    if let HostAction::Finished(Err(chain)) = host_next(
        config,
        windows,
        task,
        HostEvent::Failed(failure),
    ).1 {
        assert(chain.subrange(chain.len() - failure@.len(), chain.len() as int) =~= failure@);
    }
}

/// Where an address to bind to is set, a socket is connected only after it has been bound; where
/// none is, it is never bound. Either way it is connected to the address that it was created for.
pub proof fn law_bound_before_connected(
    config: Map<Seq<char>, Seq<char>>,
    windows: bool,
    task: HostTask<Seq<char>>,
    ev: HostEvent,
)
    requires
        task.accepts(ev),
        task is Resolve || task is Create || task is ResolveBind || task is Bind || task is Connect,
    ensures
        ({
            let (next, action) = host_next(config, windows, task, ev);
            &&& action is Connect ==> task is Bind || (task is Create && option(
                config,
                "bindaddress"@,
            ) is None)
            &&& next is ResolveBind ==> task is Create && option(config, "bindaddress"@) is Some
            &&& next is Bind ==> task is ResolveBind
            &&& action matches HostAction::Connect(at) ==> match task {
                HostTask::Create(target) => at == target.at,
                HostTask::Bind(target, _) => at == target.at,
                _ => false,
            }
            &&& action matches HostAction::CreateSocket(at) ==> next matches HostTask::Create(target)
                && target.at == at
        }),
{
}

/// Whether an address is left out: it is not of the family that the configuration asks for. Only the
/// families `inet` and `inet6` leave any out.
pub open spec fn is_left_out(config: Map<Seq<char>, Seq<char>>, addr: SockAddr) -> bool {
    &&& config.contains_key("addressfamily"@)
    &&& (config["addressfamily"@] == "inet"@ && addr.is_ipv6) || (config["addressfamily"@]
        == "inet6"@ && !addr.is_ipv6)
}

/// Whether `at` is the place of the first address that is not left out.
pub open spec fn is_first_left(
    config: Map<Seq<char>, Seq<char>>,
    addrs: Seq<SockAddr>,
    at: int,
) -> bool {
    &&& 0 <= at < addrs.len()
    &&& !is_left_out(config, addrs[at])
    &&& forall|k: int| 0 <= k < at ==> is_left_out(config, #[trigger] addrs[k])
}

/// Whether all addresses are left out.
pub open spec fn none_left(config: Map<Seq<char>, Seq<char>>, addrs: Seq<SockAddr>) -> bool {
    forall|k: int| 0 <= k < addrs.len() ==> is_left_out(config, #[trigger] addrs[k])
}

/// The address that is used is the first one that the configuration does not leave out, and there is
/// none only where all are left out.
pub proof fn law_first_address_is_used(config: Map<Seq<char>, Seq<char>>, addrs: Seq<SockAddr>)
    requires
        addrs.len() <= usize::MAX,
    ensures
        match first_match(config, addrs) {
            Some(at) => is_first_left(config, addrs, at as int),
            None => none_left(config, addrs),
        },
{
    law_first_of_the_family(config, addrs);
    reveal_strlit("inet");
    reveal_strlit("inet6");
    assert("inet"@.len() != "inet6"@.len());
}

/// An attempt to make a transport together with what it has found out.
pub struct HostTrace {
    /// How far it has come.
    pub task: HostTask<Seq<char>>,
    /// The lists of addresses that names were resolved to, in order.
    pub found: Seq<Seq<SockAddr>>,
    /// The command interpreter that the environment names, once it was asked.
    pub comspec: Option<Option<Seq<char>>>,
}

impl HostTrace {
    /// At the beginning.
    pub open spec fn start(
        config: Map<Seq<char>, Seq<char>>,
        hostname: Seq<char>,
        port: u16,
        windows: bool,
    ) -> HostTrace {
        HostTrace {
            task: host_start(config, hostname, port, windows).0,
            found: Seq::empty(),
            comspec: None,
        }
    }

    /// After the outcome `ev` of the awaited action.
    pub open spec fn next(
        self,
        config: Map<Seq<char>, Seq<char>>,
        windows: bool,
        ev: HostEvent,
    ) -> HostTrace {
        HostTrace {
            task: host_next(config, windows, self.task, ev).0,
            found: match ev {
                HostEvent::Resolved(addrs) => self.found.push(addrs@),
                _ => self.found,
            },
            comspec: match ev {
                HostEvent::Comspec(Some(program)) => Some(Some(program@)),
                HostEvent::Comspec(None) => Some(None),
                _ => self.comspec,
            },
        }
    }

    /// After the outcomes `events`, in order.
    pub open spec fn after(
        config: Map<Seq<char>, Seq<char>>,
        hostname: Seq<char>,
        port: u16,
        windows: bool,
        events: Seq<HostEvent>,
    ) -> HostTrace
        decreases events.len(),
    {
        if events.len() == 0 {
            HostTrace::start(config, hostname, port, windows)
        } else {
            HostTrace::after(config, hostname, port, windows, events.drop_last()).next(
                config,
                windows,
                events.last(),
            )
        }
    }

    /// Whether each of `events`, in order, can be the outcome of the action that was awaited then.
    pub open spec fn possible(
        config: Map<Seq<char>, Seq<char>>,
        hostname: Seq<char>,
        port: u16,
        windows: bool,
        events: Seq<HostEvent>,
    ) -> bool
        decreases events.len(),
    {
        events.len() > 0 ==> {
            &&& HostTrace::possible(config, hostname, port, windows, events.drop_last())
            &&& HostTrace::after(
                config,
                hostname,
                port,
                windows,
                events.drop_last(),
            ).task.accepts(events.last())
        }
    }

    /// Whether `target` is the address that the host was resolved to and that is used.
    pub open spec fn is_target(
        self,
        config: Map<Seq<char>, Seq<char>>,
        hostname: Seq<char>,
        port: u16,
        target: Target<Seq<char>>,
    ) -> bool {
        &&& self.found.len() > 0
        &&& target.host == hostname
        &&& target.port == port
        &&& is_first_left(config, self.found[0], target.at as int)
        &&& target.text == self.found[0][target.at as int].text@
    }

    /// Whether a proxy command is set, and which.
    pub open spec fn proxied(config: Map<Seq<char>, Seq<char>>, command: Seq<char>) -> bool {
        &&& config.contains_key("proxycommand"@)
        &&& config["proxycommand"@] == command
        &&& command != "none"@
    }

    /// What holds at every moment.
    pub open spec fn inv(
        self,
        config: Map<Seq<char>, Seq<char>>,
        hostname: Seq<char>,
        port: u16,
        windows: bool,
    ) -> bool {
        let bind = config.contains_key("bindaddress"@);
        let direct = !config.contains_key("proxycommand"@) || config["proxycommand"@] == "none"@;
        match self.task {
            HostTask::Comspec(command) => {
                windows && self.comspec is None && HostTrace::proxied(config, command)
            },
            HostTask::Pair(program, command) | HostTask::Attach(program, command) => {
                &&& HostTrace::proxied(config, command)
                &&& if !windows {
                    program == "sh"@
                } else {
                    match self.comspec {
                        Some(Some(named)) => program == named,
                        Some(None) => program == "cmd"@,
                        None => false,
                    }
                }
            },
            HostTask::Spawn(command) => HostTrace::proxied(config, command),
            HostTask::Receive => {
                &&& exists|command: Seq<char>| #[trigger] HostTrace::proxied(config, command)
                &&& !windows
                &&& config.contains_key("proxyusefdpass"@) && config["proxyusefdpass"@] == "yes"@
            },
            HostTask::Resolve(host, number) => {
                direct && host == hostname && number == port && self.found.len() == 0
            },
            HostTask::Create(target) => {
                &&& direct && self.found.len() == 1
                &&& self.is_target(config, hostname, port, target)
            },
            HostTask::ResolveBind(target, name) => {
                &&& direct && self.found.len() == 1
                &&& self.is_target(config, hostname, port, target)
                &&& bind && name == config["bindaddress"@]
            },
            HostTask::Bind(target, text) => {
                &&& direct && self.found.len() == 2 && bind
                &&& self.is_target(config, hostname, port, target)
                &&& exists|at: int| #[trigger]
                    is_first_left(config, self.found[1], at) && text == self.found[1][at].text@
            },
            HostTask::Connect(target) => {
                &&& direct && self.found.len() == (if bind {
                    2int
                } else {
                    1
                })
                &&& self.is_target(config, hostname, port, target)
            },
            HostTask::Finished => true,
        }
    }
}

proof fn lemma_host_trace_step(
    config: Map<Seq<char>, Seq<char>>,
    hostname: Seq<char>,
    port: u16,
    windows: bool,
    t: HostTrace,
    ev: HostEvent,
)
    requires
        t.inv(config, hostname, port, windows),
        t.task.accepts(ev),
    ensures
        t.next(config, windows, ev).inv(config, hostname, port, windows),
{
    if let HostEvent::Resolved(addrs) = ev {
        assert(addrs.len() <= usize::MAX);
        law_first_address_is_used(config, addrs@);
        let n = t.next(config, windows, ev);
        assert(n.found[t.found.len() as int] == addrs@);
        assert(t.found.len() > 0 ==> n.found[0] == t.found[0]);
    }
    if let HostTask::Spawn(command) = t.task {
        assert(HostTrace::proxied(config, command));
    }
}

proof fn lemma_host_trace(
    config: Map<Seq<char>, Seq<char>>,
    hostname: Seq<char>,
    port: u16,
    windows: bool,
    events: Seq<HostEvent>,
)
    requires
        HostTrace::possible(config, hostname, port, windows, events),
    ensures
        HostTrace::after(config, hostname, port, windows, events).inv(
            config,
            hostname,
            port,
            windows,
        ),
    decreases events.len(),
{
    if events.len() > 0 {
        lemma_host_trace(config, hostname, port, windows, events.drop_last());
        lemma_host_trace_step(
            config,
            hostname,
            port,
            windows,
            HostTrace::after(config, hostname, port, windows, events.drop_last()),
            events.last(),
        );
    }
}

/// However an attempt comes along, what it does is what the configuration asks for. A proxy command
/// that is set, and not `none`, is run as it is configured, by the shell or by the command
/// interpreter, and passes a descriptor only where that is asked for; then it is the transport.
/// Else the host and port that were given are resolved, a socket is created for the first address
/// that is not left out and connected to that address; and where an address to bind to is set, its
/// name is resolved with no port, and the socket is bound to the first address of it that is not left
/// out.
pub proof fn law_transport_is_as_configured(
    config: Map<Seq<char>, Seq<char>>,
    hostname: Seq<char>,
    port: u16,
    windows: bool,
    events: Seq<HostEvent>,
    ev: HostEvent,
)
    requires
        HostTrace::possible(config, hostname, port, windows, events),
        HostTrace::after(config, hostname, port, windows, events).task.accepts(ev),
    ensures
        ({
            let t = HostTrace::after(config, hostname, port, windows, events);
            let n = t.next(config, windows, ev);
            let direct = !config.contains_key("proxycommand"@) || config["proxycommand"@]
                == "none"@;
            let bind = config.contains_key("bindaddress"@);
            let passes = !windows && config.contains_key("proxyusefdpass"@)
                && config["proxyusefdpass"@] == "yes"@;
            match host_next(config, windows, t.task, ev).1 {
                HostAction::ReadComspec => false,
                HostAction::Socketpair => !direct && windows,
                HostAction::AttachStdio => !direct,
                HostAction::Spawn(program, flag, command) => {
                    &&& !direct
                    &&& if windows {
                        &&& flag == "/c"@ && command == config["proxycommand"@]
                        &&& match t.comspec {
                            Some(Some(named)) => program == named,
                            _ => program == "cmd"@,
                        }
                    } else {
                        &&& program == "sh"@ && flag == "-c"@
                        &&& command == "exec "@ + config["proxycommand"@]
                    }
                },
                HostAction::ReceiveFd => !direct && passes,
                HostAction::Resolve(name, number) => {
                    &&& direct && bind && n.found.len() == 1
                    &&& name == config["bindaddress"@] && number == 0
                },
                HostAction::CreateSocket(at) => {
                    direct && n.found.len() == 1 && is_first_left(config, n.found[0], at as int)
                },
                HostAction::Bind(at) => {
                    &&& direct && bind && n.found.len() == 2
                    &&& is_first_left(config, n.found[1], at as int)
                },
                HostAction::Connect(at) => {
                    &&& direct && is_first_left(config, n.found[0], at as int)
                    &&& n.found.len() == (if bind {
                        2int
                    } else {
                        1
                    })
                },
                HostAction::Finished(Ok(transport)) => if direct {
                    transport == Transport::Direct && t.task is Connect
                } else if passes {
                    transport == Transport::ProxyPassed && t.task is Receive
                } else {
                    transport == Transport::ProxyPair && t.task is Spawn
                },
                HostAction::Finished(Err(_)) => true,
            }
        }),
        ({
            let t = HostTrace::after(config, hostname, port, windows, events);
            let (next, action) = host_next(config, windows, t.task, ev);
            &&& next is Pair <==> action is Socketpair
            &&& next is Attach <==> action is AttachStdio
            &&& next is Spawn <==> action is Spawn
            &&& next is Receive <==> action is ReceiveFd
            &&& next is Create <==> action is CreateSocket
            &&& next is ResolveBind <==> action is Resolve
            &&& next is Bind <==> action is Bind
            &&& next is Connect <==> action is Connect
            &&& next is Finished <==> action is Finished
        }),
        host_start(config, hostname, port, windows).1 == if !config.contains_key("proxycommand"@)
            || config["proxycommand"@] == "none"@ {
            HostActionView::Resolve(hostname, port)
        } else if windows {
            HostActionView::ReadComspec
        } else {
            HostActionView::Socketpair
        },
{
    lemma_host_trace(config, hostname, port, windows, events);
    let t = HostTrace::after(config, hostname, port, windows, events);
    lemma_host_trace_step(config, hostname, port, windows, t, ev);
    if let HostEvent::Resolved(addrs) = ev {
        assert(addrs.len() <= usize::MAX);
        law_first_address_is_used(config, addrs@);
        let n = t.next(config, windows, ev);
        assert(n.found[t.found.len() as int] == addrs@);
    }
}

/// What is reported where an attempt fails: the command that could not be started, the name that has
/// no address that is not left out, the address that could not be bound to, or the host, port and
/// address that could not be connected to, before the failure itself; and any other failure as it is.
/// An attempt fails only where something failed or no address is left.
pub proof fn law_transport_failures(
    config: Map<Seq<char>, Seq<char>>,
    hostname: Seq<char>,
    port: u16,
    windows: bool,
    events: Seq<HostEvent>,
    ev: HostEvent,
)
    requires
        HostTrace::possible(config, hostname, port, windows, events),
        HostTrace::after(config, hostname, port, windows, events).task.accepts(ev),
    ensures
        ({
            let t = HostTrace::after(config, hostname, port, windows, events);
            let reported = match host_next(config, windows, t.task, ev).1 {
                HostAction::Finished(Err(chain)) => Some(chain),
                _ => None,
            };
            match ev {
                HostEvent::Failed(failure) => reported == Some(
                    match t.task {
                        HostTask::Spawn(_) => seq![
                            "spawning ProxyCommand "@ + config["proxycommand"@],
                        ] + failure@,
                        HostTask::Bind(_, text) => seq!["binding to "@ + text] + failure@,
                        HostTask::Connect(target) => seq![
                            "Connecting to "@ + hostname + ":"@ + decimal(port as nat) + " ("@
                                + target.text + ")"@,
                        ] + failure@,
                        _ => failure@,
                    },
                ),
                HostEvent::Resolved(addrs) => if none_left(config, addrs@) {
                    reported == Some(
                        if t.task is Resolve {
                            seq!["resolving address for "@ + hostname]
                        } else {
                            seq!["resolving bind address "@ + quoted(config["bindaddress"@])]
                        },
                    )
                } else {
                    reported is None
                },
                _ => reported is None,
            }
        }),
{
    lemma_host_trace(config, hostname, port, windows, events);
    if let HostTask::Connect(target) = HostTrace::after(
        config,
        hostname,
        port,
        windows,
        events,
    ).task {
        assert(connecting_text(target) =~= "Connecting to "@ + hostname + ":"@ + decimal(
            port as nat,
        ) + " ("@ + target.text + ")"@);
    }
    if let HostEvent::Resolved(addrs) = ev {
        assert(addrs.len() <= usize::MAX);
        law_first_address_is_used(config, addrs@);
    }
}

/// An outcome can be taken in if it is of the awaited action, whether that went well or not.
pub proof fn law_transport_takes_any_outcome(
    text: Seq<char>,
    more: Seq<char>,
    port: u16,
    target: Target<Seq<char>>,
    found: Option<String>,
    failure: Failure,
    addrs: Vec<SockAddr>,
)
    ensures
        HostTask::Comspec(text).accepts(HostEvent::Comspec(found)),
        HostTask::Pair(text, more).accepts(HostEvent::Done),
        HostTask::Pair(text, more).accepts(HostEvent::Failed(failure)),
        HostTask::Attach(text, more).accepts(HostEvent::Done),
        HostTask::Attach(text, more).accepts(HostEvent::Failed(failure)),
        HostTask::Spawn(text).accepts(HostEvent::Done),
        HostTask::Spawn(text).accepts(HostEvent::Failed(failure)),
        HostTask::<Seq<char>>::Receive.accepts(HostEvent::Done),
        HostTask::<Seq<char>>::Receive.accepts(HostEvent::Failed(failure)),
        HostTask::Resolve(text, port).accepts(HostEvent::Resolved(addrs)),
        HostTask::Resolve(text, port).accepts(HostEvent::Failed(failure)),
        HostTask::Create(target).accepts(HostEvent::Done),
        HostTask::Create(target).accepts(HostEvent::Failed(failure)),
        HostTask::ResolveBind(target, text).accepts(HostEvent::Resolved(addrs)),
        HostTask::ResolveBind(target, text).accepts(HostEvent::Failed(failure)),
        HostTask::Bind(target, text).accepts(HostEvent::Done),
        HostTask::Bind(target, text).accepts(HostEvent::Failed(failure)),
        HostTask::Connect(target).accepts(HostEvent::Done),
        HostTask::Connect(target).accepts(HostEvent::Failed(failure)),
{
}

/// An attempt goes in order. For a proxy command: the interpreter is looked up where there is none
/// yet, a pair is made, it becomes the standard input and output, and the command is started. Else:
/// the host is resolved, a socket is created, it is bound where an address is set for that, once that
/// is resolved, and it is connected.
pub proof fn law_transport_goes_in_order(
    config: Map<Seq<char>, Seq<char>>,
    windows: bool,
    task: HostTask<Seq<char>>,
    ev: HostEvent,
)
    requires
        task.accepts(ev),
        !(host_next(config, windows, task, ev).1 matches HostAction::Finished(Err(_))),
    ensures
        ({
            let action = host_next(config, windows, task, ev).1;
            match task {
                HostTask::Comspec(_) => action is Socketpair,
                HostTask::Pair(_, _) => action is AttachStdio,
                HostTask::Attach(_, _) => action is Spawn,
                HostTask::Spawn(_) => action is ReceiveFd <==> !windows && config.contains_key(
                    "proxyusefdpass"@,
                ) && config["proxyusefdpass"@] == "yes"@,
                HostTask::Receive => action is Finished,
                HostTask::Resolve(_, _) => action is CreateSocket,
                HostTask::Create(_) => if config.contains_key("bindaddress"@) {
                    action is Resolve
                } else {
                    action is Connect
                },
                HostTask::ResolveBind(_, _) => action is Bind,
                HostTask::Bind(_, _) => action is Connect,
                HostTask::Connect(_) => action is Finished,
                HostTask::Finished => false,
            }
        }),
{
}

} // verus!
