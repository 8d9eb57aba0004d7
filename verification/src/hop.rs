//! How a connection to one host is made: which SSH library is used, and what it is made to do.
//!
//! All that is known beforehand is laid down in a plan. The plan is carried out step by step; what
//! a server says of itself is passed on on the way, and the first failure ends it.

use crate::config::{
    config_hostname, config_port, config_user, hostname, option, port, user, ConfigMap,
};
use crate::event::SessionEvent;
use crate::exec::forwards_agent;
use crate::failure::Failure;
use crate::host::{host_port, host_port_text, proxy_command};
use crate::resources::Backend;
use crate::session::{agent_of, optional_text};
use crate::text::{characters, decimal, same_text, split_words, texts, words};
use vstd::prelude::*;

verus! {

/// The SSH libraries that are there.
#[derive(Clone, Copy, Debug, PartialEq, Eq, Structural)]
pub struct Backends {
    /// Whether libssh is.
    pub libssh: bool,
    /// Whether libssh2 is.
    pub ssh2: bool,
}

/// How a choice of library that cannot be met is reported.
pub open spec fn invalid_backend(name: Seq<char>, why: Seq<char>) -> Seq<Seq<char>> {
    seq!["invalid wezterm_ssh_backend value: "@ + name + ", "@ + why]
}

/// The name of the library that the configuration asks for.
pub open spec fn backend_name(config: Map<Seq<char>, Seq<char>>, there: Backends) -> Seq<char> {
    match option(config, "wezterm_ssh_backend"@) {
        Some(name) => name,
        None => if there.libssh {
            "libssh"@
        } else {
            "ssh2"@
        },
    }
}

/// The library that the configuration asks for, if it is there.
pub open spec fn backend_of(config: Map<Seq<char>, Seq<char>>, there: Backends) -> Result<
    Backend,
    Seq<Seq<char>>,
> {
    let name = backend_name(config, there);
    if name == "ssh2"@ {
        if there.ssh2 {
            Ok(Backend::Ssh2)
        } else {
            Err(invalid_backend(name, "not compiled with `ssh2`"@))
        }
    } else if name == "libssh"@ {
        if there.libssh {
            Ok(Backend::LibSsh)
        } else {
            Err(invalid_backend(name, "not compiled with `libssh`"@))
        }
    } else {
        Err(invalid_backend(name, "expected either `ssh2` or `libssh`"@))
    }
}

/// Chooses the library that the configuration asks for.
pub fn choose_backend(config: &ConfigMap, there: Backends) -> (r: Result<Backend, Failure>)
    ensures
        match r {
            Ok(backend) => backend_of(config@, there) == Ok::<Backend, Seq<Seq<char>>>(backend),
            Err(failure) => backend_of(config@, there) == Err::<Backend, Seq<Seq<char>>>(failure@),
        },
{
    let name = match config.get("wezterm_ssh_backend") {
        Some(name) => name.clone(),
        None => if there.libssh {
            "libssh".to_owned()
        } else {
            "ssh2".to_owned()
        },
    };
    if same_text(name.as_str(), "ssh2") {
        if there.ssh2 {
            Ok(Backend::Ssh2)
        } else {
            Err(unusable(name.as_str(), "not compiled with `ssh2`"))
        }
    } else if same_text(name.as_str(), "libssh") {
        if there.libssh {
            Ok(Backend::LibSsh)
        } else {
            Err(unusable(name.as_str(), "not compiled with `libssh`"))
        }
    } else {
        Err(unusable(name.as_str(), "expected either `ssh2` or `libssh`"))
    }
}

fn unusable(name: &str, why: &str) -> (failure: Failure)
    ensures
        failure@ == invalid_backend(name@, why@),
{
    Failure::message(
        "invalid wezterm_ssh_backend value: ".to_owned().concat(name).concat(", ").concat(why),
    )
}

/// An option of a libssh session.
#[derive(Debug)]
pub enum SshOption<S> {
    /// Log every packet.
    LogPackets,
    Hostname(S),
    User(S),
    Port(u16),
    IdentityAgent(S),
    AddIdentity(S),
    KnownHosts(S),
    PublicKeyAcceptedTypes(S),
    BindAddress(S),
    HostKeys(S),
    /// The transport.
    Socket,
}

/// A step on the way to a connection.
#[derive(Debug)]
pub enum HopStep<S> {
    /// Tell the owner of the session.
    Emit(SessionEvent<S>),
    /// Create the session of the library.
    NewSession,
    /// Set an option of the session.
    SetOption(SshOption<S>),
    /// Have the library log through the program's own log.
    RedirectLog,
    /// Have the library read its own configuration.
    ParseConfig,
    /// Log all that the library can log.
    TraceAll,
    /// Make the socket that was given blocking: it is the transport.
    UseSocket,
    /// Make the transport to this host and port; the flag asks for it to be logged.
    ConnectToHost(S, u16, bool),
    /// Give the session its transport.
    AttachSocket,
    /// Make the session blocking, or not.
    SetBlocking(bool),
    /// Do the handshake with this host and port.
    Handshake(S, u16),
    /// Get what the server says of itself.
    ServerBanner,
    /// Check that this host and port is who it says it is.
    VerifyHost(S, u16),
    /// Log this user in at this host.
    Authenticate(S, S),
    /// Get what the server says to those who are logged in.
    IssueBanner,
    /// See where the environment says the identity agent is.
    LookupAgent,
    /// Let the server open channels to the identity agent.
    AcceptAgentForward,
    /// Log this as an error.
    LogError(S),
    /// Make a connection of the session.
    WrapSession,
    /// Keep the process that is the transport with the connection: it lives as long as that does.
    RetainTransport,
}

impl View for SshOption<String> {
    type V = SshOption<Seq<char>>;

    open spec fn view(&self) -> SshOption<Seq<char>> {
        match *self {
            SshOption::LogPackets => SshOption::LogPackets,
            SshOption::Hostname(s) => SshOption::Hostname(s@),
            SshOption::User(s) => SshOption::User(s@),
            SshOption::Port(n) => SshOption::Port(n),
            SshOption::IdentityAgent(s) => SshOption::IdentityAgent(s@),
            SshOption::AddIdentity(s) => SshOption::AddIdentity(s@),
            SshOption::KnownHosts(s) => SshOption::KnownHosts(s@),
            SshOption::PublicKeyAcceptedTypes(s) => SshOption::PublicKeyAcceptedTypes(s@),
            SshOption::BindAddress(s) => SshOption::BindAddress(s@),
            SshOption::HostKeys(s) => SshOption::HostKeys(s@),
            SshOption::Socket => SshOption::Socket,
        }
    }
}

impl View for HopStep<String> {
    type V = HopStep<Seq<char>>;

    open spec fn view(&self) -> HopStep<Seq<char>> {
        match *self {
            HopStep::Emit(event) => HopStep::Emit(event@),
            HopStep::NewSession => HopStep::NewSession,
            HopStep::SetOption(o) => HopStep::SetOption(o@),
            HopStep::RedirectLog => HopStep::RedirectLog,
            HopStep::ParseConfig => HopStep::ParseConfig,
            HopStep::TraceAll => HopStep::TraceAll,
            HopStep::UseSocket => HopStep::UseSocket,
            HopStep::ConnectToHost(host, port, verbose) => HopStep::ConnectToHost(
                host@,
                port,
                verbose,
            ),
            HopStep::AttachSocket => HopStep::AttachSocket,
            HopStep::SetBlocking(on) => HopStep::SetBlocking(on),
            HopStep::Handshake(host, port) => HopStep::Handshake(host@, port),
            HopStep::ServerBanner => HopStep::ServerBanner,
            HopStep::VerifyHost(host, port) => HopStep::VerifyHost(host@, port),
            HopStep::Authenticate(user, host) => HopStep::Authenticate(user@, host@),
            HopStep::IssueBanner => HopStep::IssueBanner,
            HopStep::LookupAgent => HopStep::LookupAgent,
            HopStep::AcceptAgentForward => HopStep::AcceptAgentForward,
            HopStep::LogError(text) => HopStep::LogError(text@),
            HopStep::WrapSession => HopStep::WrapSession,
            HopStep::RetainTransport => HopStep::RetainTransport,
        }
    }
}

/// The steps that a vector holds.
pub open spec fn steps(v: Seq<HopStep<String>>) -> Seq<HopStep<Seq<char>>> {
    v.map_values(|s: HopStep<String>| s@)
}

/// A sequence of steps.
pub type Steps = Seq<HopStep<Seq<char>>>;

/// Whether the library is to log what it does.
pub open spec fn is_verbose(config: Map<Seq<char>, Seq<char>>) -> bool {
    option(config, "wezterm_ssh_verbose"@) == Some("true"@)
}

/// Whom a connection is made to.
pub struct Login<S> {
    pub host: S,
    pub user: S,
    pub port: u16,
}

impl View for Login<String> {
    type V = Login<Seq<char>>;

    open spec fn view(&self) -> Login<Seq<char>> {
        Login { host: self.host@, user: self.user@, port: self.port }
    }
}

/// Whom the configuration says to connect to. The host, the user and the port are looked up in this
/// order, and the first that is missing is reported.
pub open spec fn login_of(config: Map<Seq<char>, Seq<char>>) -> Result<
    Login<Seq<char>>,
    Seq<Seq<char>>,
> {
    match (hostname(config), user(config), port(config)) {
        (Err(failure), _, _) => Err(failure),
        (_, Err(failure), _) => Err(failure),
        (_, _, Err(failure)) => Err(failure),
        (Ok(host), Ok(user), Ok(port)) => Ok(Login { host, user, port }),
    }
}

fn find_login(config: &ConfigMap) -> (r: Result<Login<String>, Failure>)
    ensures
        match r {
            Ok(login) => login_of(config@) == Ok::<Login<Seq<char>>, Seq<Seq<char>>>(login@),
            Err(failure) => login_of(config@) == Err::<Login<Seq<char>>, Seq<Seq<char>>>(failure@),
        },
{
    let host = match config_hostname(config) {
        Ok(host) => host,
        Err(failure) => return Err(failure),
    };
    let user = match config_user(config) {
        Ok(user) => user,
        Err(failure) => return Err(failure),
    };
    match config_port(config) {
        Ok(port) => Ok(Login { host, user, port }),
        Err(failure) => Err(failure),
    }
}

/// What the owner is told at first.
pub open spec fn announcement(library: Seq<char>, login: Login<Seq<char>>) -> SessionEvent<
    Seq<char>,
> {
    SessionEvent::Banner(
        Some(
            "Using "@ + library + " to connect to "@ + login.user + "@"@ + host_port(
                login.host,
                login.port,
            ),
        ),
    )
}

fn announce(library: &str, login: &Login<String>) -> (event: SessionEvent<String>)
    ensures
        event@ == announcement(library@, login@),
{
    let place = host_port_text(login.host.as_str(), login.port);
    SessionEvent::Banner(
        Some(
            "Using ".to_owned().concat(library).concat(" to connect to ").concat(
                login.user.as_str(),
            ).concat("@").concat(place.as_str()),
        ),
    )
}

/// To set the option that the configuration has under `name`.
pub open spec fn option_step(
    config: Map<Seq<char>, Seq<char>>,
    name: Seq<char>,
    make: spec_fn(Seq<char>) -> SshOption<Seq<char>>,
) -> Steps {
    match option(config, name) {
        Some(value) => seq![HopStep::SetOption(make(value))],
        None => Seq::empty(),
    }
}

/// To add each of these identities, in order.
pub open spec fn identity_steps(files: Seq<Seq<char>>) -> Steps {
    files.map_values(|file: Seq<char>| HopStep::SetOption(SshOption::AddIdentity(file)))
}

/// To add the identities that the configuration names.
pub open spec fn identity_options(config: Map<Seq<char>, Seq<char>>) -> Steps {
    match option(config, "identityfile"@) {
        Some(files) => identity_steps(words(files)),
        None => Seq::empty(),
    }
}

/// To set the file of known hosts: the first that the configuration names.
pub open spec fn known_hosts_option(config: Map<Seq<char>, Seq<char>>) -> Steps {
    match option(config, "userknownhostsfile"@) {
        Some(files) => if words(files).len() > 0 {
            seq![HopStep::SetOption(SshOption::KnownHosts(words(files)[0]))]
        } else {
            Seq::empty()
        },
        None => Seq::empty(),
    }
}

/// The options that the configuration adds to those that libssh has read for itself.
pub open spec fn own_options(config: Map<Seq<char>, Seq<char>>) -> Steps {
    option_step(config, "identityagent"@, |v: Seq<char>| SshOption::IdentityAgent(v))
        + identity_options(config) + known_hosts_option(config) + option_step(
        config,
        "pubkeyacceptedtypes"@,
        |v: Seq<char>| SshOption::PublicKeyAcceptedTypes(v),
    ) + option_step(config, "bindaddress"@, |v: Seq<char>| SshOption::BindAddress(v))
        + option_step(config, "hostkeyalgorithms"@, |v: Seq<char>| SshOption::HostKeys(v))
}

/// To get the transport: the socket that was given, or one to the host.
pub open spec fn transport_step(
    config: Map<Seq<char>, Seq<char>>,
    login: Login<Seq<char>>,
    given: bool,
) -> HopStep<Seq<char>> {
    if given {
        HopStep::UseSocket
    } else {
        HopStep::ConnectToHost(login.host, login.port, is_verbose(config))
    }
}

/// To tell the owner that the user is logged in, where that is wanted.
pub open spec fn authenticated_steps(emit: bool) -> Steps {
    if emit {
        seq![HopStep::Emit(SessionEvent::Authenticated)]
    } else {
        Seq::empty()
    }
}

/// To let the server reach the identity agent, where the configuration asks for it.
pub open spec fn agent_steps(config: Map<Seq<char>, Seq<char>>) -> Steps {
    if !forwards_agent(config) {
        Seq::empty()
    } else if option(config, "identityagent"@) is Some {
        seq![HopStep::AcceptAgentForward]
    } else {
        seq![HopStep::LookupAgent]
    }
}

/// Whether the transport is a process of its own: a proxy command, and no socket was given.
pub open spec fn has_process(config: Map<Seq<char>, Seq<char>>, given: bool) -> bool {
    !given && proxy_command(config) is Some
}

/// To make a connection of the session that is logged in.
pub open spec fn end_steps(config: Map<Seq<char>, Seq<char>>, given: bool) -> Steps {
    if has_process(config, given) {
        seq![HopStep::SetBlocking(false), HopStep::WrapSession, HopStep::RetainTransport]
    } else {
        seq![HopStep::SetBlocking(false), HopStep::WrapSession]
    }
}

/// What a libssh session is made to do before it has a transport.
pub open spec fn libssh_setup(config: Map<Seq<char>, Seq<char>>, login: Login<Seq<char>>) -> Steps {
    seq![HopStep::Emit(announcement("libssh-rs"@, login)), HopStep::NewSession] + (if is_verbose(
        config,
    ) {
        seq![HopStep::SetOption(SshOption::LogPackets), HopStep::RedirectLog]
    } else {
        Seq::empty()
    }) + seq![
        HopStep::SetOption(SshOption::Hostname(login.host)),
        HopStep::SetOption(SshOption::User(login.user)),
        HopStep::SetOption(SshOption::Port(login.port)),
        HopStep::ParseConfig,
    ] + own_options(config)
}

/// What a libssh session is made to do from then on.
pub open spec fn libssh_login(
    config: Map<Seq<char>, Seq<char>>,
    login: Login<Seq<char>>,
    given: bool,
    emit: bool,
) -> Steps {
    seq![
        transport_step(config, login, given),
        HopStep::SetOption(SshOption::Socket),
        HopStep::Handshake(login.host, login.port),
        HopStep::ServerBanner,
        HopStep::VerifyHost(login.host, login.port),
        HopStep::Authenticate(login.user, login.host),
        HopStep::IssueBanner,
    ] + authenticated_steps(emit) + agent_steps(config) + end_steps(config, given)
}

/// The plan for a connection with libssh. `given` tells whether a socket was given, and `emit`
/// whether the owner is to be told of the login.
pub open spec fn libssh_plan(
    config: Map<Seq<char>, Seq<char>>,
    login: Login<Seq<char>>,
    given: bool,
    emit: bool,
) -> Steps {
    libssh_setup(config, login) + libssh_login(config, login, given, emit)
}

/// The plan for a connection with libssh2.
pub open spec fn ssh2_plan(
    config: Map<Seq<char>, Seq<char>>,
    login: Login<Seq<char>>,
    given: bool,
    emit: bool,
) -> Steps {
    seq![
        HopStep::Emit(announcement("ssh2"@, login)),
        transport_step(config, login, given),
        HopStep::NewSession,
    ] + (if is_verbose(config) {
        seq![HopStep::TraceAll]
    } else {
        Seq::empty()
    }) + seq![
        HopStep::SetBlocking(true),
        HopStep::AttachSocket,
        HopStep::Handshake(login.host, login.port),
        HopStep::ServerBanner,
        HopStep::VerifyHost(login.host, login.port),
        HopStep::Authenticate(login.user, login.host),
    ] + authenticated_steps(emit) + end_steps(config, given)
}

/// The plan for a connection.
pub open spec fn plan_of(
    backend: Backend,
    config: Map<Seq<char>, Seq<char>>,
    login: Login<Seq<char>>,
    given: bool,
    emit: bool,
) -> Steps {
    match backend {
        Backend::LibSsh => libssh_plan(config, login, given, emit),
        Backend::Ssh2 => ssh2_plan(config, login, given, emit),
    }
}

fn plan_step(plan: &mut Vec<HopStep<String>>, step: HopStep<String>)
    ensures
        steps(final(plan)@) == steps(old(plan)@) + seq![step@],
{
    plan.push(step);
    assert(steps(plan@) == steps(old(plan)@) + seq![step@]);
}

proof fn lemma_steps_assoc(a: Steps, b: Steps, c: Steps)
    ensures
        (a + b) + c == a + (b + c),
{
    assert((a + b) + c =~= a + (b + c));
}

fn plan_identities(plan: &mut Vec<HopStep<String>>, config: &ConfigMap)
    ensures
        steps(final(plan)@) == steps(old(plan)@) + identity_options(config@),
{
    if let Some(files) = config.get("identityfile") {
        let list = split_words(files.as_str());
        let ghost before = steps(plan@);
        assert(identity_steps(words(files@).take(0)) =~= Seq::empty());
        assert(before =~= before + Seq::empty());
        let mut i: usize = 0;
        while i < list.len()
            invariant
                i <= list@.len(),
                texts(list@) == words(files@),
                steps(plan@) == before + identity_steps(words(files@).take(i as int)),
            decreases list@.len() - i,
        {
            let ghost sofar = identity_steps(words(files@).take(i as int));
            let step = HopStep::SetOption(SshOption::AddIdentity(list[i].clone()));
            assert(texts(list@)[i as int] == list@[i as int]@);
            assert(identity_steps(words(files@).take(i as int + 1)) =~= sofar + seq![step@]);
            proof {
                lemma_steps_assoc(before, sofar, seq![step@]);
            }
            plan_step(plan, step);
            i += 1;
        }
        assert(words(files@).take(i as int) =~= words(files@));
    } else {
        assert(steps(plan@) =~= steps(plan@) + Seq::empty());
    }
}

fn plan_known_hosts(plan: &mut Vec<HopStep<String>>, config: &ConfigMap)
    ensures
        steps(final(plan)@) == steps(old(plan)@) + known_hosts_option(config@),
{
    assert(steps(plan@) =~= steps(plan@) + Seq::empty());
    if let Some(files) = config.get("userknownhostsfile") {
        let list = split_words(files.as_str());
        if list.len() > 0 {
            assert(texts(list@)[0] == list@[0]@);
            plan_step(plan, HopStep::SetOption(SshOption::KnownHosts(list[0].clone())));
        }
    }
}

fn plan_own_options(plan: &mut Vec<HopStep<String>>, config: &ConfigMap)
    ensures
        steps(final(plan)@) == steps(old(plan)@) + own_options(config@),
{
    let ghost before = steps(plan@);
    let ghost agent = option_step(
        config@,
        "identityagent"@,
        |v: Seq<char>| SshOption::IdentityAgent(v),
    );
    let ghost types = option_step(
        config@,
        "pubkeyacceptedtypes"@,
        |v: Seq<char>| SshOption::PublicKeyAcceptedTypes(v),
    );
    let ghost address = option_step(
        config@,
        "bindaddress"@,
        |v: Seq<char>| SshOption::BindAddress(v),
    );
    let ghost keys = option_step(
        config@,
        "hostkeyalgorithms"@,
        |v: Seq<char>| SshOption::HostKeys(v),
    );
    assert(forall|s: Steps| s =~= #[trigger] (s + Seq::empty()));
    if let Some(agent) = config.get("identityagent") {
        plan_step(plan, HopStep::SetOption(SshOption::IdentityAgent(agent.clone())));
    }
    assert(steps(plan@) == before + agent);
    plan_identities(plan, config);
    let ghost two = agent + identity_options(config@);
    plan_known_hosts(plan, config);
    let ghost three = two + known_hosts_option(config@);
    proof {
        lemma_steps_assoc(before, agent, identity_options(config@));
        lemma_steps_assoc(before, two, known_hosts_option(config@));
    }
    if let Some(types) = config.get("pubkeyacceptedtypes") {
        plan_step(plan, HopStep::SetOption(SshOption::PublicKeyAcceptedTypes(types.clone())));
    }
    assert(steps(plan@) == (before + three) + types);
    if let Some(addr) = config.get("bindaddress") {
        plan_step(plan, HopStep::SetOption(SshOption::BindAddress(addr.clone())));
    }
    assert(steps(plan@) == ((before + three) + types) + address);
    if let Some(algorithms) = config.get("hostkeyalgorithms") {
        plan_step(plan, HopStep::SetOption(SshOption::HostKeys(algorithms.clone())));
    }
    assert(steps(plan@) == (((before + three) + types) + address) + keys);
    proof {
        lemma_steps_assoc(before, three, types);
        lemma_steps_assoc(before, three + types, address);
        lemma_steps_assoc(before, three + types + address, keys);
    }
}

fn plan_transport(
    plan: &mut Vec<HopStep<String>>,
    config: &ConfigMap,
    login: &Login<String>,
    given: bool,
)
    ensures
        steps(final(plan)@) == steps(old(plan)@) + seq![transport_step(config@, login@, given)],
{
    if given {
        plan_step(plan, HopStep::UseSocket);
    } else {
        plan_step(
            plan,
            HopStep::ConnectToHost(
                login.host.clone(),
                login.port,
                config.is("wezterm_ssh_verbose", "true"),
            ),
        );
    }
}

fn plan_end(plan: &mut Vec<HopStep<String>>, config: &ConfigMap, given: bool)
    ensures
        steps(final(plan)@) == steps(old(plan)@) + end_steps(config@, given),
{
    plan_step(plan, HopStep::SetBlocking(false));
    plan_step(plan, HopStep::WrapSession);
    let proxied = config.get("proxycommand").is_some() && !config.is("proxycommand", "none");
    if !given && proxied {
        plan_step(plan, HopStep::RetainTransport);
    }
    assert(steps(plan@) =~= steps(old(plan)@) + end_steps(config@, given));
}

fn plan_libssh_setup(config: &ConfigMap, login: &Login<String>) -> (plan: Vec<HopStep<String>>)
    ensures
        steps(plan@) == libssh_setup(config@, login@),
{
    let mut plan: Vec<HopStep<String>> = Vec::new();
    plan_step(&mut plan, HopStep::Emit(announce("libssh-rs", login)));
    plan_step(&mut plan, HopStep::NewSession);
    let ghost first = steps(plan@);
    assert(first =~= seq![HopStep::Emit(announcement("libssh-rs"@, login@)), HopStep::NewSession]);
    if config.is("wezterm_ssh_verbose", "true") {
        plan_step(&mut plan, HopStep::SetOption(SshOption::LogPackets));
        plan_step(&mut plan, HopStep::RedirectLog);
    }
    let ghost second = steps(plan@);
    assert(second =~= first + (if is_verbose(config@) {
        seq![HopStep::SetOption(SshOption::LogPackets), HopStep::RedirectLog]
    } else {
        Seq::empty()
    }));
    plan_step(&mut plan, HopStep::SetOption(SshOption::Hostname(login.host.clone())));
    plan_step(&mut plan, HopStep::SetOption(SshOption::User(login.user.clone())));
    plan_step(&mut plan, HopStep::SetOption(SshOption::Port(login.port)));
    plan_step(&mut plan, HopStep::ParseConfig);
    assert(steps(plan@) =~= second + seq![
        HopStep::SetOption(SshOption::Hostname(login@.host)),
        HopStep::SetOption(SshOption::User(login@.user)),
        HopStep::SetOption(SshOption::Port(login@.port)),
        HopStep::ParseConfig,
    ]);
    plan_own_options(&mut plan, config);
    plan
}

fn plan_libssh(config: &ConfigMap, login: &Login<String>, given: bool, emit: bool) -> (plan: Vec<
    HopStep<String>,
>)
    ensures
        steps(plan@) == libssh_plan(config@, login@, given, emit),
{
    let mut plan = plan_libssh_setup(config, login);
    let ghost setup = steps(plan@);
    plan_transport(&mut plan, config, login, given);
    plan_step(&mut plan, HopStep::SetOption(SshOption::Socket));
    plan_step(&mut plan, HopStep::Handshake(login.host.clone(), login.port));
    plan_step(&mut plan, HopStep::ServerBanner);
    plan_step(&mut plan, HopStep::VerifyHost(login.host.clone(), login.port));
    plan_step(&mut plan, HopStep::Authenticate(login.user.clone(), login.host.clone()));
    plan_step(&mut plan, HopStep::IssueBanner);
    let ghost fixed = seq![
        transport_step(config@, login@, given),
        HopStep::SetOption(SshOption::Socket),
        HopStep::Handshake(login@.host, login@.port),
        HopStep::ServerBanner,
        HopStep::VerifyHost(login@.host, login@.port),
        HopStep::Authenticate(login@.user, login@.host),
        HopStep::IssueBanner,
    ];
    assert(steps(plan@) =~= setup + fixed);
    assert(forall|s: Steps| s =~= #[trigger] (s + Seq::empty()));
    if emit {
        plan_step(&mut plan, HopStep::Emit(SessionEvent::Authenticated));
    }
    assert(steps(plan@) == (setup + fixed) + authenticated_steps(emit));
    if config.is("forwardagent", "yes") {
        if config.get("identityagent").is_some() {
            plan_step(&mut plan, HopStep::AcceptAgentForward);
        } else {
            plan_step(&mut plan, HopStep::LookupAgent);
        }
    }
    assert(steps(plan@) == ((setup + fixed) + authenticated_steps(emit)) + agent_steps(config@));
    plan_end(&mut plan, config, given);
    proof {
        let told = fixed + authenticated_steps(emit);
        lemma_steps_assoc(setup, fixed, authenticated_steps(emit));
        lemma_steps_assoc(setup, told, agent_steps(config@));
        lemma_steps_assoc(setup, told + agent_steps(config@), end_steps(config@, given));
    }
    plan
}

fn plan_ssh2(config: &ConfigMap, login: &Login<String>, given: bool, emit: bool) -> (plan: Vec<
    HopStep<String>,
>)
    ensures
        steps(plan@) == ssh2_plan(config@, login@, given, emit),
{
    let mut plan: Vec<HopStep<String>> = Vec::new();
    plan_step(&mut plan, HopStep::Emit(announce("ssh2", login)));
    plan_transport(&mut plan, config, login, given);
    plan_step(&mut plan, HopStep::NewSession);
    if config.is("wezterm_ssh_verbose", "true") {
        plan_step(&mut plan, HopStep::TraceAll);
    }
    plan_step(&mut plan, HopStep::SetBlocking(true));
    plan_step(&mut plan, HopStep::AttachSocket);
    plan_step(&mut plan, HopStep::Handshake(login.host.clone(), login.port));
    plan_step(&mut plan, HopStep::ServerBanner);
    plan_step(&mut plan, HopStep::VerifyHost(login.host.clone(), login.port));
    plan_step(&mut plan, HopStep::Authenticate(login.user.clone(), login.host.clone()));
    if emit {
        plan_step(&mut plan, HopStep::Emit(SessionEvent::Authenticated));
    }
    plan_end(&mut plan, config, given);
    assert(steps(plan@) == ssh2_plan(config@, login@, given, emit));
    plan
}

/// What the driver is to do next.
#[derive(Debug)]
pub enum HopAction<F> {
    /// Perform the current step of the task.
    Perform,
    /// The connection is there, or could not be made.
    Finished(Result<(), F>),
}

impl View for HopAction<Failure> {
    type V = HopAction<Seq<Seq<char>>>;

    open spec fn view(&self) -> HopAction<Seq<Seq<char>>> {
        match *self {
            HopAction::Perform => HopAction::Perform,
            HopAction::Finished(Ok(_)) => HopAction::Finished(Ok(())),
            HopAction::Finished(Err(failure)) => HopAction::Finished(Err(failure@)),
        }
    }
}

/// How the current step came out.
#[derive(Debug)]
pub enum HopEvent {
    /// It is done.
    Done,
    /// It failed.
    Failed(Failure),
    /// What the server says.
    Banner(Option<String>),
    /// Where the environment says the identity agent is.
    Agent(Option<String>),
}

/// A connection that is being made.
#[derive(Debug)]
pub struct HopTask {
    /// The library that makes it.
    backend: Backend,
    /// What is to be done.
    plan: Vec<HopStep<String>>,
    /// The place in the plan.
    at: usize,
    /// A step that the one at this place in the plan has led to.
    follow_up: Option<HopStep<String>>,
}

/// A connection that is being made, with a sequence for the plan.
pub struct HopView {
    pub backend: Backend,
    pub plan: Steps,
    pub at: int,
    pub follow_up: Option<HopStep<Seq<char>>>,
}

impl View for HopTask {
    type V = HopView;

    closed spec fn view(&self) -> HopView {
        HopView {
            backend: self.backend,
            plan: steps(self.plan@),
            at: self.at as int,
            follow_up: match self.follow_up {
                Some(step) => Some(step@),
                None => None,
            },
        }
    }
}

/// The context in which the failure of a step is reported, where it has one.
pub open spec fn step_context(backend: Backend, step: HopStep<Seq<char>>) -> Option<Seq<char>> {
    match (step, backend) {
        (HopStep::Emit(SessionEvent::Banner(_)), _) => Some("notifying user of banner"@),
        (HopStep::Emit(SessionEvent::Authenticated), _) => Some(
            "notifying user that session is authenticated"@,
        ),
        (HopStep::Handshake(host, port), Backend::LibSsh) => Some(
            "Connecting to "@ + host_port(host, port),
        ),
        (HopStep::Handshake(host, port), Backend::Ssh2) => Some(
            "ssh handshake with "@ + host_port(host, port),
        ),
        (HopStep::VerifyHost(_, _), Backend::Ssh2) => Some("host verification"@),
        (HopStep::Authenticate(_, _), Backend::Ssh2) => Some("authentication"@),
        _ => None,
    }
}

/// The failure of a step, seen from the context of that step.
pub open spec fn step_failure(
    backend: Backend,
    step: HopStep<Seq<char>>,
    failure: Seq<Seq<char>>,
) -> Seq<Seq<char>> {
    match step_context(backend, step) {
        Some(context) => seq![context] + failure,
        None => failure,
    }
}

impl HopView {
    /// Whether there is a step to perform.
    pub open spec fn wf(self) -> bool {
        0 <= self.at < self.plan.len()
    }

    /// The current step.
    pub open spec fn current(self) -> HopStep<Seq<char>> {
        match self.follow_up {
            Some(step) => step,
            None => self.plan[self.at],
        }
    }

    /// Whether `ev` can be the outcome of the current step.
    pub open spec fn accepts(self, ev: HopEvent) -> bool {
        match self.current() {
            HopStep::ServerBanner | HopStep::IssueBanner => ev is Banner || ev is Failed,
            HopStep::LookupAgent => ev is Agent,
            HopStep::LogError(_) => ev is Done,
            _ => ev is Done || ev is Failed,
        }
    }

    /// The same task, at the next place in the plan.
    pub open spec fn advanced(self) -> HopView {
        HopView { at: self.at + 1, follow_up: None, ..self }
    }

    /// The same task, with a step that comes before the next place in the plan.
    pub open spec fn followed(self, step: HopStep<Seq<char>>) -> HopView {
        HopView { follow_up: Some(step), ..self }
    }
}

/// What a step comes to: the task, and the action.
pub type HopNext = (HopView, HopAction<Seq<Seq<char>>>);

/// To go on in the plan.
pub open spec fn go_on(task: HopView) -> HopNext {
    (
        task.advanced(),
        if task.at + 1 == task.plan.len() {
            HopAction::Finished(Ok(()))
        } else {
            HopAction::Perform
        },
    )
}

/// What is logged where an agent is to be reached and there is none.
pub open spec fn missing_agent_text() -> Seq<char> {
    "ForwardAgent is set to yes, but IdentityAgent is not set"@
}

/// The next step, given the outcome of the current one. What a server says to those who are logged
/// in is not needed: where it cannot be had, the plan goes on.
pub open spec fn hop_next(task: HopView, ev: HopEvent) -> HopNext {
    match ev {
        HopEvent::Failed(failure) => if task.current() is IssueBanner {
            go_on(task)
        } else {
            (
                task,
                HopAction::Finished(
                    Err(step_failure(task.backend, task.current(), failure@)),
                ),
            )
        },
        HopEvent::Banner(banner) => (
            task.followed(HopStep::Emit(SessionEvent::Banner(optional_text(banner)))),
            HopAction::Perform,
        ),
        HopEvent::Agent(Some(_)) => (
            task.followed(HopStep::AcceptAgentForward),
            HopAction::Perform,
        ),
        HopEvent::Agent(None) => (
            task.followed(HopStep::LogError(missing_agent_text())),
            HopAction::Perform,
        ),
        HopEvent::Done => go_on(task),
    }
}

/// How a connection starts.
pub open spec fn hop_start(
    config: Map<Seq<char>, Seq<char>>,
    there: Backends,
    given: bool,
    emit: bool,
) -> Result<HopView, Seq<Seq<char>>> {
    match backend_of(config, there) {
        Err(failure) => Err(failure),
        Ok(backend) => match login_of(config) {
            Err(failure) => Err(failure),
            Ok(login) => Ok(
                HopView {
                    backend,
                    plan: plan_of(backend, config, login, given, emit),
                    at: 0,
                    follow_up: None,
                },
            ),
        },
    }
}

/// Starts to connect to the host of a configuration. `given` tells whether a socket that leads
/// there was given, and `emit_authenticated` whether the owner of the session is to be told of the
/// login. The first step is to be performed.
pub fn connect_hop(
    config: &ConfigMap,
    there: Backends,
    given: bool,
    emit_authenticated: bool,
) -> (r: Result<HopTask, Failure>)
    ensures
        match r {
            Ok(task) => hop_start(config@, there, given, emit_authenticated) == Ok::<
                HopView,
                Seq<Seq<char>>,
            >(task@),
            Err(failure) => hop_start(config@, there, given, emit_authenticated) == Err::<
                HopView,
                Seq<Seq<char>>,
            >(failure@),
        },
        r matches Ok(task) ==> task@.wf(),
{
    let backend = match choose_backend(config, there) {
        Ok(backend) => backend,
        Err(failure) => return Err(failure),
    };
    match backend {
        Backend::LibSsh => connect_libssh(config, given, emit_authenticated),
        Backend::Ssh2 => connect_ssh2(config, given, emit_authenticated),
    }
}

fn connect_libssh(config: &ConfigMap, given: bool, emit_authenticated: bool) -> (r: Result<
    HopTask,
    Failure,
>)
    ensures
        match r {
            Ok(task) => {
                &&& login_of(config@) matches Ok(login) && task@ == (HopView {
                    backend: Backend::LibSsh,
                    plan: libssh_plan(config@, login, given, emit_authenticated),
                    at: 0,
                    follow_up: None,
                })
                &&& task@.wf()
            },
            Err(failure) => login_of(config@) == Err::<Login<Seq<char>>, Seq<Seq<char>>>(failure@),
        },
{
    match find_login(config) {
        Ok(login) => {
            let plan = plan_libssh(config, &login, given, emit_authenticated);
            proof {
                lemma_plan_is_not_empty(
                    Backend::LibSsh,
                    config@,
                    login@,
                    given,
                    emit_authenticated,
                );
            }
            Ok(HopTask { backend: Backend::LibSsh, plan, at: 0, follow_up: None })
        },
        Err(failure) => Err(failure),
    }
}

fn connect_ssh2(config: &ConfigMap, given: bool, emit_authenticated: bool) -> (r: Result<
    HopTask,
    Failure,
>)
    ensures
        match r {
            Ok(task) => {
                &&& login_of(config@) matches Ok(login) && task@ == (HopView {
                    backend: Backend::Ssh2,
                    plan: ssh2_plan(config@, login, given, emit_authenticated),
                    at: 0,
                    follow_up: None,
                })
                &&& task@.wf()
            },
            Err(failure) => login_of(config@) == Err::<Login<Seq<char>>, Seq<Seq<char>>>(failure@),
        },
{
    match find_login(config) {
        Ok(login) => {
            let plan = plan_ssh2(config, &login, given, emit_authenticated);
            proof {
                lemma_plan_is_not_empty(Backend::Ssh2, config@, login@, given, emit_authenticated);
            }
            Ok(HopTask { backend: Backend::Ssh2, plan, at: 0, follow_up: None })
        },
        Err(failure) => Err(failure),
    }
}

proof fn lemma_plan_is_not_empty(
    backend: Backend,
    config: Map<Seq<char>, Seq<char>>,
    login: Login<Seq<char>>,
    given: bool,
    emit: bool,
)
    ensures
        plan_of(backend, config, login, given, emit).len() > 0,
{
}

fn with_step_context(backend: Backend, step: &HopStep<String>, failure: Failure) -> (r: Failure)
    ensures
        r@ == step_failure(backend, step@, failure@),
{
    match (step, backend) {
        (HopStep::Emit(SessionEvent::Banner(_)), _) => failure.context(
            "notifying user of banner".to_owned(),
        ),
        (HopStep::Emit(SessionEvent::Authenticated), _) => failure.context(
            "notifying user that session is authenticated".to_owned(),
        ),
        (HopStep::Handshake(host, port), Backend::LibSsh) => failure.context(
            "Connecting to ".to_owned().concat(host_port_text(host.as_str(), *port).as_str()),
        ),
        (HopStep::Handshake(host, port), Backend::Ssh2) => failure.context(
            "ssh handshake with ".to_owned().concat(host_port_text(host.as_str(), *port).as_str()),
        ),
        (HopStep::VerifyHost(_, _), Backend::Ssh2) => failure.context(
            "host verification".to_owned(),
        ),
        (HopStep::Authenticate(_, _), Backend::Ssh2) => failure.context(
            "authentication".to_owned(),
        ),
        _ => failure,
    }
}

impl HopTask {
    /// The library that makes the connection.
    pub fn backend(&self) -> (backend: Backend)
        ensures
            backend == self@.backend,
    {
        self.backend
    }

    /// The current step.
    pub fn current(&self) -> (step: &HopStep<String>)
        requires
            self@.wf(),
        ensures
            step@ == self@.current(),
    {
        match &self.follow_up {
            Some(step) => step,
            None => &self.plan[self.at],
        }
    }

    fn go_on(self) -> (r: (HopTask, HopAction<Failure>))
        requires
            self@.wf(),
        ensures
            (r.0@, r.1@) == go_on(self@),
            r.1 is Perform ==> r.0@.wf(),
    {
        let mut task = self;
        assert(task.at < task.plan.len());
        task.at = task.at + 1;
        task.follow_up = None;
        if task.at == task.plan.len() {
            (task, HopAction::Finished(Ok(())))
        } else {
            (task, HopAction::Perform)
        }
    }

    /// Takes in how the current step came out, and goes on.
    pub fn step(self, ev: HopEvent) -> (r: (HopTask, HopAction<Failure>))
        requires
            self@.wf(),
            self@.accepts(ev),
        ensures
            (r.0@, r.1@) == hop_next(self@, ev),
            r.1 is Perform ==> r.0@.wf(),
    {
        match ev {
            HopEvent::Failed(failure) => {
                let needed = match self.current() {
                    HopStep::IssueBanner => false,
                    _ => true,
                };
                if needed {
                    let failure = with_step_context(self.backend, self.current(), failure);
                    (self, HopAction::Finished(Err(failure)))
                } else {
                    self.go_on()
                }
            },
            HopEvent::Banner(banner) => {
                let mut task = self;
                task.follow_up = Some(HopStep::Emit(SessionEvent::Banner(banner)));
                (task, HopAction::Perform)
            },
            HopEvent::Agent(Some(_)) => {
                let mut task = self;
                task.follow_up = Some(HopStep::AcceptAgentForward);
                (task, HopAction::Perform)
            },
            HopEvent::Agent(None) => {
                let mut task = self;
                task.follow_up = Some(
                    HopStep::LogError(
                        "ForwardAgent is set to yes, but IdentityAgent is not set".to_owned(),
                    ),
                );
                (task, HopAction::Perform)
            },
            HopEvent::Done => self.go_on(),
        }
    }
}

proof fn lemma_own_options_only_set(config: Map<Seq<char>, Seq<char>>)
    ensures
        forall|i: int|
            0 <= i < own_options(config).len() ==> (#[trigger] own_options(config)[i]) is SetOption,
{
    let agent = option_step(config, "identityagent"@, |v: Seq<char>| SshOption::IdentityAgent(v));
    let types = option_step(
        config,
        "pubkeyacceptedtypes"@,
        |v: Seq<char>| SshOption::PublicKeyAcceptedTypes(v),
    );
    let address = option_step(
        config,
        "bindaddress"@,
        |v: Seq<char>| SshOption::BindAddress(v),
    );
    let keys = option_step(config, "hostkeyalgorithms"@, |v: Seq<char>| SshOption::HostKeys(v));
    assert(only_options(agent));
    assert(only_options(identity_options(config)));
    assert(only_options(known_hosts_option(config)));
    assert(only_options(types));
    assert(only_options(address));
    assert(only_options(keys));
    lemma_only_options_add(agent, identity_options(config));
    lemma_only_options_add(agent + identity_options(config), known_hosts_option(config));
    let three = agent + identity_options(config) + known_hosts_option(config);
    lemma_only_options_add(three, types);
    lemma_only_options_add(three + types, address);
    lemma_only_options_add(three + types + address, keys);
}

spec fn only_options(s: Steps) -> bool {
    forall|i: int| 0 <= i < s.len() ==> (#[trigger] s[i]) is SetOption
}

proof fn lemma_only_options_add(a: Steps, b: Steps)
    requires
        only_options(a),
        only_options(b),
    ensures
        only_options(a + b),
{
}

/// Whether `step` is in the plan, at the place `i`.
pub open spec fn planned_at(plan: Steps, i: int, step: HopStep<Seq<char>>) -> bool {
    0 <= i < plan.len() && plan[i] == step
}

/// The owner of the session is told of the login if and only if that is wanted, and once. It comes
/// after the user has been logged in, that after the host has been verified, that after the
/// handshake, and that after the transport is there.
pub proof fn law_login_is_told_last(
    backend: Backend,
    config: Map<Seq<char>, Seq<char>>,
    login: Login<Seq<char>>,
    given: bool,
    emit: bool,
)
    ensures
        ({
            let plan = plan_of(backend, config, login, given, emit);
            exists|transport: int, handshake: int, verify: int, authenticate: int|
                {
                    &&& transport < handshake < verify < authenticate
                    &&& #[trigger] planned_at(
                        plan,
                        transport,
                        transport_step(config, login, given),
                    )
                    &&& #[trigger] planned_at(
                        plan,
                        handshake,
                        HopStep::Handshake(login.host, login.port),
                    )
                    &&& #[trigger] planned_at(
                        plan,
                        verify,
                        HopStep::VerifyHost(login.host, login.port),
                    )
                    &&& #[trigger] planned_at(
                        plan,
                        authenticate,
                        HopStep::Authenticate(login.user, login.host),
                    )
                    &&& forall|i: int|
                        #[trigger] planned_at(
                            plan,
                            i,
                            HopStep::Emit(SessionEvent::Authenticated),
                        ) ==> emit && authenticate < i
                }
        }),
        emit ==> exists|i: int|
            #[trigger] planned_at(
                plan_of(backend, config, login, given, emit),
                i,
                HopStep::Emit(SessionEvent::Authenticated),
            ),
        forall|i: int, j: int|
            #[trigger] planned_at(
                plan_of(backend, config, login, given, emit),
                i,
                HopStep::Emit(SessionEvent::Authenticated),
            ) && #[trigger] planned_at(
                plan_of(backend, config, login, given, emit),
                j,
                HopStep::Emit(SessionEvent::Authenticated),
            ) ==> i == j,
{
    let plan = plan_of(backend, config, login, given, emit);
    let told = HopStep::Emit(SessionEvent::Authenticated);
    match backend {
        Backend::LibSsh => {
            lemma_own_options_only_set(config);
            let setup = libssh_setup(config, login);
            let n = setup.len() as int;
            assert(forall|i: int| 0 <= i < n ==> setup[i] != told);
            assert(planned_at(plan, n, transport_step(config, login, given)));
            assert(planned_at(plan, n + 2, HopStep::Handshake(login.host, login.port)));
            assert(planned_at(plan, n + 4, HopStep::VerifyHost(login.host, login.port)));
            assert(planned_at(plan, n + 5, HopStep::Authenticate(login.user, login.host)));
            if emit {
                assert(planned_at(plan, n + 7, told));
            }
        },
        Backend::Ssh2 => {
            let n: int = if is_verbose(config) {
                1
            } else {
                0
            };
            assert(planned_at(plan, 1, transport_step(config, login, given)));
            assert(planned_at(plan, n + 5, HopStep::Handshake(login.host, login.port)));
            assert(planned_at(plan, n + 7, HopStep::VerifyHost(login.host, login.port)));
            assert(planned_at(plan, n + 8, HopStep::Authenticate(login.user, login.host)));
            if emit {
                assert(planned_at(plan, n + 9, told));
            }
        },
    }
}

/// libssh is told the host, the user and the port before it reads its own configuration, and every
/// option of ours after that, before it has a transport: ours override what it has read.
pub proof fn law_own_options_override(
    config: Map<Seq<char>, Seq<char>>,
    login: Login<Seq<char>>,
    given: bool,
    emit: bool,
)
    ensures
        ({
            let plan = libssh_plan(config, login, given, emit);
            let own = own_options(config);
            exists|parse: int|
                {
                    &&& #[trigger] planned_at(plan, parse, HopStep::ParseConfig)
                    &&& planned_at(
                        plan,
                        parse - 3,
                        HopStep::SetOption(SshOption::Hostname(login.host)),
                    )
                    &&& planned_at(
                        plan,
                        parse - 2,
                        HopStep::SetOption(SshOption::User(login.user)),
                    )
                    &&& planned_at(
                        plan,
                        parse - 1,
                        HopStep::SetOption(SshOption::Port(login.port)),
                    )
                    &&& plan.subrange(parse + 1, parse + 1 + own.len()) == own
                    &&& planned_at(
                        plan,
                        parse + 1 + own.len(),
                        transport_step(config, login, given),
                    )
                }
        }),
{
    let plan = libssh_plan(config, login, given, emit);
    let own = own_options(config);
    let parse: int = if is_verbose(config) {
        7
    } else {
        5
    };
    assert(planned_at(plan, parse, HopStep::ParseConfig));
    assert(plan.subrange(parse + 1, parse + 1 + own.len()) =~= own);
}

/// The plan ends with a connection over a session that does not block, whichever library it is of.
pub proof fn law_connection_ends_nonblocking(
    backend: Backend,
    config: Map<Seq<char>, Seq<char>>,
    login: Login<Seq<char>>,
    given: bool,
    emit: bool,
)
    ensures
        end_steps(config, given).is_suffix_of(plan_of(backend, config, login, given, emit)),
        end_steps(config, given)[0] == HopStep::<Seq<char>>::SetBlocking(false),
        end_steps(config, given)[1] == HopStep::<Seq<char>>::WrapSession,
{
    let plan = plan_of(backend, config, login, given, emit);
    let end = end_steps(config, given);
    assert(plan.subrange(plan.len() - end.len(), plan.len() as int) =~= end);
}

/// Where the transport is the process of a proxy command, the last step of the plan keeps that
/// process with the connection; where it is not, no step does.
pub proof fn law_proxy_process_is_kept(
    backend: Backend,
    config: Map<Seq<char>, Seq<char>>,
    login: Login<Seq<char>>,
    given: bool,
    emit: bool,
)
    ensures
        forall|i: int|
            #[trigger] planned_at(
                plan_of(backend, config, login, given, emit),
                i,
                HopStep::RetainTransport,
            ) <==> has_process(config, given) && i == plan_of(
                backend,
                config,
                login,
                given,
                emit,
            ).len() - 1,
{
    lemma_own_options_only_set(config);
    let plan = plan_of(backend, config, login, given, emit);
    let keep = HopStep::<Seq<char>>::RetainTransport;
    if backend == Backend::LibSsh {
        let setup = libssh_setup(config, login);
        assert(forall|i: int| 0 <= i < setup.len() ==> setup[i] != keep);
        let rest = libssh_login(config, login, given, emit);
        assert(forall|i: int| 0 <= i < rest.len() - 1 ==> rest[i] != keep);
        assert(rest.last() == keep <==> has_process(config, given));
    }
}

/// Whether `b` is to be gone on with once the current step of `a` has come out as `ev`.
pub open spec fn follows(a: HopView, ev: HopEvent, b: HopView) -> bool {
    a.accepts(ev) && hop_next(a, ev) == (b, HopAction::<Seq<Seq<char>>>::Perform)
}

/// How a connection comes along: the task at each step, and how the steps came out.
pub struct HopTrace {
    /// The tasks; one more than there are outcomes.
    pub tasks: Seq<HopView>,
    /// The outcome of each step.
    pub events: Seq<HopEvent>,
}

impl HopTrace {
    /// Whether each task follows from the one before, from `start` on.
    pub open spec fn is_run(self, start: HopView) -> bool {
        &&& self.tasks.len() == self.events.len() + 1
        &&& self.tasks[0] == start
        &&& forall|i: int|
            0 <= i < self.events.len() ==> follows(
                self.tasks[i],
                #[trigger] self.events[i],
                self.tasks[i + 1],
            )
    }

    /// Whether, among the first `n` tasks, the step at `place` in the plan is performed once, by
    /// the task `i`; what it leads to may come after.
    pub open spec fn performs_once(self, n: int, place: int, i: int) -> bool {
        &&& 0 <= i < n
        &&& self.tasks[i].at == place
        &&& self.tasks[i].follow_up is None
        &&& forall|j: int|
            0 <= j < n && j != i && (#[trigger] self.tasks[j]).at == place ==> j > i
                && self.tasks[j].follow_up is Some
    }
}

/// No step of the plan is skipped: when a connection has come to a place in the plan, the step at
/// every place up to there has been performed, once.
pub proof fn law_no_step_is_skipped(start: HopView, trace: HopTrace, place: int)
    requires
        start.wf(),
        start.at == 0,
        start.follow_up is None,
        trace.is_run(start),
        0 <= place <= trace.tasks.last().at,
    ensures
        trace.tasks.last().plan == start.plan,
        exists|i: int| #[trigger] trace.performs_once(trace.tasks.len() as int, place, i),
{
    let n = trace.events.len() as int;
    lemma_places_grow(start, trace, n);
    lemma_each_place_once(start, trace, n, place);
}

proof fn lemma_places_grow(start: HopView, trace: HopTrace, n: int)
    requires
        start.wf(),
        trace.is_run(start),
        0 <= n < trace.tasks.len(),
    ensures
        trace.tasks[n].plan == start.plan,
        forall|j: int|
            0 <= j <= n ==> start.at <= (#[trigger] trace.tasks[j]).at <= trace.tasks[n].at,
    decreases n,
{
    if n > 0 {
        lemma_places_grow(start, trace, n - 1);
        lemma_one_place_on(trace.tasks[n - 1], trace.events[n - 1], trace.tasks[n]);
    }
}

proof fn lemma_one_place_on(a: HopView, ev: HopEvent, b: HopView)
    requires
        follows(a, ev, b),
    ensures
        b.plan == a.plan,
        (b.at == a.at && b.follow_up is Some) || (b.at == a.at + 1 && b.follow_up is None),
{
}

proof fn lemma_each_place_once(start: HopView, trace: HopTrace, n: int, place: int)
    requires
        start.wf(),
        start.at == 0,
        start.follow_up is None,
        trace.is_run(start),
        0 <= n < trace.tasks.len(),
        0 <= place <= trace.tasks[n].at,
    ensures
        exists|i: int| #[trigger] trace.performs_once(n + 1, place, i),
    decreases n,
{
    if n == 0 {
        assert(trace.performs_once(1, place, 0));
    } else {
        lemma_places_grow(start, trace, n - 1);
        lemma_one_place_on(trace.tasks[n - 1], trace.events[n - 1], trace.tasks[n]);
        if place <= trace.tasks[n - 1].at {
            lemma_each_place_once(start, trace, n - 1, place);
            let i = choose|i: int| #[trigger] trace.performs_once(n, place, i);
            assert(trace.performs_once(n + 1, place, i));
        } else {
            assert(trace.performs_once(n + 1, place, n));
        }
    }
}

/// The first step that fails ends the connection with its own failure, in its context; only a
/// banner for those who are logged in may fail.
pub proof fn law_first_failure_ends(task: HopView, failure: Failure)
    requires
        task.accepts(HopEvent::Failed(failure)),
    ensures
        !(task.current() is IssueBanner) ==> hop_next(task, HopEvent::Failed(failure)).1
            == HopAction::Finished(
            Err::<(), Seq<Seq<char>>>(step_failure(task.backend, task.current(), failure@)),
        ),
        task.current() is IssueBanner ==> hop_next(task, HopEvent::Failed(failure)) == go_on(task),
        failure@.is_suffix_of(step_failure(task.backend, task.current(), failure@)),
{
    let whole = step_failure(task.backend, task.current(), failure@);
    assert(whole.subrange(whole.len() - failure@.len(), whole.len() as int) =~= failure@);
}

/// What a server says is passed on as it is, before the plan goes on.
pub proof fn law_banners_are_passed_on(task: HopView, banner: Option<String>)
    requires
        task.wf(),
        task.accepts(HopEvent::Banner(banner)),
    ensures
        ({
            let next = hop_next(task, HopEvent::Banner(banner)).0;
            &&& next.at == task.at
            &&& next.current() == HopStep::Emit(SessionEvent::Banner(optional_text(banner)))
            &&& hop_next(next, HopEvent::Done) == go_on(task)
        }),
{
}

/// libssh accepts channels to the identity agent if and only if the configuration asks for it and
/// there is an agent: one that the configuration names or else one that the environment names. Where
/// it is asked for and there is none, that is logged, and the plan goes on.
pub proof fn law_agent_is_accepted(config: Map<Seq<char>, Seq<char>>, task: HopView, env: Option<
    String,
>)
    requires
        task.wf(),
        task.follow_up is None,
    ensures
        ({
            let direct = agent_steps(config) == seq![HopStep::<Seq<char>>::AcceptAgentForward];
            let asked = agent_steps(config) == seq![HopStep::<Seq<char>>::LookupAgent];
            let accepts = direct || (asked && hop_next(task, HopEvent::Agent(env)).0.follow_up
                == Some(HopStep::<Seq<char>>::AcceptAgentForward));
            accepts <==> forwards_agent(config) && agent_of(config, optional_text(env)) is Some
        }),
        env is None ==> {
            let next = hop_next(task, HopEvent::Agent(env)).0;
            next.current() == HopStep::LogError(missing_agent_text()) && hop_next(
                next,
                HopEvent::Done,
            ) == go_on(task)
        },
{
    let one = seq![HopStep::<Seq<char>>::AcceptAgentForward];
    let other = seq![HopStep::<Seq<char>>::LookupAgent];
    assert(one[0] != other[0]);
    assert(one.len() == 1 && other.len() == 1);
    assert(Seq::<HopStep<Seq<char>>>::empty().len() == 0);
}

/// What is logged of a message that libssh logs for one of its functions: the name of the function
/// is taken off its front.
pub open spec fn log_text(function: Seq<char>, message: Seq<char>) -> Seq<char> {
    let prefix = function + ": "@;
    if prefix.is_prefix_of(message) {
        message.skip(prefix.len() as int)
    } else {
        message
    }
}

/// Takes the name of the function off the front of a message that libssh logs for it.
pub fn log_message(function: &str, message: &str) -> (text: String)
    ensures
        text@ == log_text(function@, message@),
{
    let prefix = function.to_owned().concat(": ");
    let head = characters(prefix.as_str());
    let whole = characters(message);
    if whole.len() < head.len() {
        return message.to_owned();
    }
    let mut i: usize = 0;
    while i < head.len()
        invariant
            i <= head@.len() <= whole@.len(),
            head@ == prefix@,
            whole@ == message@,
            forall|j: int| 0 <= j < i ==> head@[j] == whole@[j],
            prefix@ == function@ + ": "@,
        decreases head@.len() - i,
    {
        if head[i] != whole[i] {
            assert(!prefix@.is_prefix_of(message@));
            return message.to_owned();
        }
        i += 1;
    }
    assert(prefix@.is_prefix_of(message@));
    let end: usize = whole.len();
    let rest = message.substring_char(i, end).to_owned();
    assert(rest@ =~= message@.skip(i as int));
    rest
}

/// The library that is used is the one that the configuration names; where it names none, it is libssh
/// if that is there, and else libssh2. A library that is not there, or is not known, is reported.
pub proof fn law_library_is_the_configured_one(
    config: Map<Seq<char>, Seq<char>>,
    there: Backends,
    name: Seq<char>,
)
    ensures
        ({
            let unset = config.remove("wezterm_ssh_backend"@);
            let set = config.insert("wezterm_ssh_backend"@, name);
            let invalid = "invalid wezterm_ssh_backend value: "@;
            &&& there.libssh ==> backend_of(unset, there) == Ok::<Backend, Seq<Seq<char>>>(
                Backend::LibSsh,
            )
            &&& !there.libssh && there.ssh2 ==> backend_of(unset, there) == Ok::<
                Backend,
                Seq<Seq<char>>,
            >(Backend::Ssh2)
            &&& !there.libssh && !there.ssh2 ==> backend_of(unset, there) == Err::<
                Backend,
                Seq<Seq<char>>,
            >(seq![invalid + "ssh2"@ + ", "@ + "not compiled with `ssh2`"@])
            &&& name == "libssh"@ ==> backend_of(set, there) == if there.libssh {
                Ok::<Backend, Seq<Seq<char>>>(Backend::LibSsh)
            } else {
                Err::<Backend, Seq<Seq<char>>>(
                    seq![invalid + name + ", "@ + "not compiled with `libssh`"@],
                )
            }
            &&& name == "ssh2"@ ==> backend_of(set, there) == if there.ssh2 {
                Ok::<Backend, Seq<Seq<char>>>(Backend::Ssh2)
            } else {
                Err::<Backend, Seq<Seq<char>>>(
                    seq![invalid + name + ", "@ + "not compiled with `ssh2`"@],
                )
            }
            &&& name != "libssh"@ && name != "ssh2"@ ==> backend_of(set, there) == Err::<
                Backend,
                Seq<Seq<char>>,
            >(seq![invalid + name + ", "@ + "expected either `ssh2` or `libssh`"@])
        }),
{
    reveal_strlit("libssh");
    reveal_strlit("ssh2");
    assert("libssh"@.len() != "ssh2"@.len());
}

/// A connection is made to the host, user and port of its configuration, by the plan for the library
/// that the configuration asks for, from its first step on. It is not begun where the library cannot
/// be had, or where the host, the user or the port is missing, and then the first of these is
/// reported.
pub proof fn law_connection_is_as_configured(
    config: Map<Seq<char>, Seq<char>>,
    there: Backends,
    given: bool,
    emit: bool,
)
    ensures
        match (backend_of(config, there), hostname(config), user(config), port(config)) {
            (Err(failure), _, _, _) => hop_start(config, there, given, emit) == Err::<
                HopView,
                Seq<Seq<char>>,
            >(failure),
            (Ok(_), Err(failure), _, _) => hop_start(config, there, given, emit) == Err::<
                HopView,
                Seq<Seq<char>>,
            >(failure),
            (Ok(_), Ok(_), Err(failure), _) => hop_start(config, there, given, emit) == Err::<
                HopView,
                Seq<Seq<char>>,
            >(failure),
            (Ok(_), Ok(_), Ok(_), Err(failure)) => hop_start(config, there, given, emit) == Err::<
                HopView,
                Seq<Seq<char>>,
            >(failure),
            (Ok(backend), Ok(host), Ok(user), Ok(port)) => hop_start(config, there, given, emit)
                == Ok::<HopView, Seq<Seq<char>>>(
                HopView {
                    backend,
                    plan: plan_of(backend, config, Login { host, user, port }, given, emit),
                    at: 0,
                    follow_up: None,
                },
            ),
        },
{
}

/// How many steps a plan has for an option with this name: one where it is set, none where it is not.
pub open spec fn steps_for(config: Map<Seq<char>, Seq<char>>, name: Seq<char>) -> int {
    if config.contains_key(name) {
        1
    } else {
        0
    }
}

/// The words of the option with this name; none where it is not set.
pub open spec fn words_of(config: Map<Seq<char>, Seq<char>>, name: Seq<char>) -> Seq<Seq<char>> {
    if config.contains_key(name) {
        words(config[name])
    } else {
        Seq::empty()
    }
}

/// The options that the configuration adds, one after the other and nothing else: the identity
/// agent, each identity file in order, the first file of known hosts, the accepted key types, the
/// address to bind to and the host key algorithms. Each is there exactly where its own option is set,
/// with the value of that, and no other option has any part in it.
pub proof fn law_own_options_are_those_set(config: Map<Seq<char>, Seq<char>>)
    ensures
        ({
            let own = own_options(config);
            let ids = words_of(config, "identityfile"@);
            let hosts = words_of(config, "userknownhostsfile"@);
            let files = steps_for(config, "identityagent"@);
            let known = files + ids.len();
            let types = known + (if hosts.len() > 0 {
                1int
            } else {
                0
            });
            let bind = types + steps_for(config, "pubkeyacceptedtypes"@);
            let keys = bind + steps_for(config, "bindaddress"@);
            &&& own.len() == keys + steps_for(config, "hostkeyalgorithms"@)
            &&& config.contains_key("identityagent"@) ==> own[0] == HopStep::SetOption(
                SshOption::IdentityAgent(config["identityagent"@]),
            )
            &&& forall|k: int|
                0 <= k < ids.len() ==> own[files + k] == HopStep::SetOption(
                    SshOption::AddIdentity(#[trigger] ids[k]),
                )
            &&& hosts.len() > 0 ==> own[known] == HopStep::SetOption(
                SshOption::KnownHosts(hosts[0]),
            )
            &&& config.contains_key("pubkeyacceptedtypes"@) ==> own[types] == HopStep::SetOption(
                SshOption::PublicKeyAcceptedTypes(config["pubkeyacceptedtypes"@]),
            )
            &&& config.contains_key("bindaddress"@) ==> own[bind] == HopStep::SetOption(
                SshOption::BindAddress(config["bindaddress"@]),
            )
            &&& config.contains_key("hostkeyalgorithms"@) ==> own[keys] == HopStep::SetOption(
                SshOption::HostKeys(config["hostkeyalgorithms"@]),
            )
        }),
{
    let a = option_step(config, "identityagent"@, |v: Seq<char>| SshOption::IdentityAgent(v));
    let i = identity_options(config);
    let k = known_hosts_option(config);
    let t = option_step(
        config,
        "pubkeyacceptedtypes"@,
        |v: Seq<char>| SshOption::PublicKeyAcceptedTypes(v),
    );
    let b = option_step(config, "bindaddress"@, |v: Seq<char>| SshOption::BindAddress(v));
    let h = option_step(config, "hostkeyalgorithms"@, |v: Seq<char>| SshOption::HostKeys(v));
    let own = own_options(config);
    let ids = words_of(config, "identityfile"@);
    let hosts = words_of(config, "userknownhostsfile"@);
    assert(own == a + i + k + t + b + h);
    assert(i.len() == ids.len());
    assert(k.len() == (if hosts.len() > 0 {
        1int
    } else {
        0
    }));
    assert forall|n: int| 0 <= n < ids.len() implies own[a.len() + n] == HopStep::SetOption(
        SshOption::AddIdentity(#[trigger] ids[n]),
    ) by {
        assert(i[n] == HopStep::SetOption(SshOption::AddIdentity(ids[n])));
        assert((a + i)[a.len() + n] == i[n]);
        assert(own[a.len() + n] == (a + i)[a.len() + n]);
    }
    if a.len() > 0 {
        assert(own[0] == a[0]);
    }
    if k.len() > 0 {
        assert(own[(a + i).len() as int] == k[0]);
    }
    if t.len() > 0 {
        assert(own[(a + i + k).len() as int] == t[0]);
    }
    if b.len() > 0 {
        assert(own[(a + i + k + t).len() as int] == b[0]);
    }
    if h.len() > 0 {
        assert(own[(a + i + k + t + b).len() as int] == h[0]);
    }
}

/// What a libssh plan consists of, from its first step to its last. The owner is told whom is
/// connected to; a session is created, which logs every packet if the configuration asks for that;
/// it is told the host, the user and the port, reads its own configuration, and is told the options
/// of ours; then come the transport, the handshake, the server's banner, the check of the host, the
/// login and the issue banner; the owner is told of the login where that is wanted, and the agent is
/// let in where the configuration asks for it; and at last the session becomes a connection that does
/// not block and keeps the proxy process, where there is one. Nothing else is in it.
pub proof fn law_libssh_plan_is_complete(
    config: Map<Seq<char>, Seq<char>>,
    login: Login<Seq<char>>,
    given: bool,
    emit: bool,
)
    ensures
        ({
            let plan = plan_of(Backend::LibSsh, config, login, given, emit);
            let own = own_options(config);
            let verbose = config.contains_key("wezterm_ssh_verbose"@)
                && config["wezterm_ssh_verbose"@] == "true"@;
            let forwards = config.contains_key("forwardagent"@) && config["forwardagent"@]
                == "yes"@;
            let process = !given && config.contains_key("proxycommand"@)
                && config["proxycommand"@] != "none"@;
            let host = if verbose {
                4int
            } else {
                2
            };
            let transport = host + 4 + own.len();
            let told = transport + 7;
            let agent = told + (if emit {
                1int
            } else {
                0
            });
            let end = agent + (if forwards {
                1int
            } else {
                0
            });
            &&& plan.len() == end + (if process {
                3int
            } else {
                2
            })
            &&& plan[0] == HopStep::Emit(
                SessionEvent::Banner(
                    Some(
                        "Using libssh-rs to connect to "@ + login.user + "@"@ + login.host + ":"@
                            + decimal(login.port as nat),
                    ),
                ),
            )
            &&& plan[1] == HopStep::<Seq<char>>::NewSession
            &&& verbose ==> plan[2] == HopStep::<Seq<char>>::SetOption(SshOption::LogPackets)
            &&& verbose ==> plan[3] == HopStep::<Seq<char>>::RedirectLog
            &&& plan[host] == HopStep::SetOption(SshOption::Hostname(login.host))
            &&& plan[host + 1] == HopStep::SetOption(SshOption::User(login.user))
            &&& plan[host + 2] == HopStep::<Seq<char>>::SetOption(SshOption::Port(login.port))
            &&& plan[host + 3] == HopStep::<Seq<char>>::ParseConfig
            &&& forall|i: int|
                0 <= i < own.len() ==> plan[host + 4 + i] == #[trigger] own[i]
            &&& plan[transport] == if given {
                HopStep::UseSocket
            } else {
                HopStep::ConnectToHost(login.host, login.port, verbose)
            }
            &&& plan[transport + 1] == HopStep::<Seq<char>>::SetOption(SshOption::Socket)
            &&& plan[transport + 2] == HopStep::Handshake(login.host, login.port)
            &&& plan[transport + 3] == HopStep::<Seq<char>>::ServerBanner
            &&& plan[transport + 4] == HopStep::VerifyHost(login.host, login.port)
            &&& plan[transport + 5] == HopStep::Authenticate(login.user, login.host)
            &&& plan[transport + 6] == HopStep::<Seq<char>>::IssueBanner
            &&& emit ==> plan[told] == HopStep::<Seq<char>>::Emit(SessionEvent::Authenticated)
            &&& forwards ==> plan[agent] == if config.contains_key("identityagent"@) {
                HopStep::<Seq<char>>::AcceptAgentForward
            } else {
                HopStep::<Seq<char>>::LookupAgent
            }
            &&& plan[end] == HopStep::<Seq<char>>::SetBlocking(false)
            &&& plan[end + 1] == HopStep::<Seq<char>>::WrapSession
            &&& process ==> plan[end + 2] == HopStep::<Seq<char>>::RetainTransport
        }),
{
    let setup = libssh_setup(config, login);
    let rest = libssh_login(config, login, given, emit);
    let plan = plan_of(Backend::LibSsh, config, login, given, emit);
    let own = own_options(config);
    reveal_strlit("Using ");
    reveal_strlit("libssh-rs");
    reveal_strlit(" to connect to ");
    reveal_strlit("Using libssh-rs to connect to ");
    assert("Using "@ + "libssh-rs"@ + " to connect to "@ =~= "Using libssh-rs to connect to "@);
    assert("Using "@ + "libssh-rs"@ + " to connect to "@ + login.user + "@"@ + host_port(
        login.host,
        login.port,
    ) =~= "Using libssh-rs to connect to "@ + login.user + "@"@ + login.host + ":"@ + decimal(
        login.port as nat,
    ));
    let n = setup.len() as int;
    assert(plan == setup + rest);
    assert(forall|i: int| 0 <= i < n ==> #[trigger] plan[i] == setup[i]);
    assert(forall|i: int| 0 <= i < rest.len() ==> plan[n + i] == #[trigger] rest[i]);
    assert(forall|i: int| 0 <= i < own.len() ==> setup[n - own.len() + i] == #[trigger] own[i]);
    lemma_libssh_login_places(config, login, given, emit);
    assert(rest[0] == transport_step(config, login, given));
    assert(plan[n + 0] == rest[0]);
    assert(plan[n + 1] == rest[1]);
    assert(plan[n + 2] == rest[2]);
    assert(plan[n + 3] == rest[3]);
    assert(plan[n + 4] == rest[4]);
    assert(plan[n + 5] == rest[5]);
    assert(plan[n + 6] == rest[6]);
}

proof fn lemma_libssh_login_places(
    config: Map<Seq<char>, Seq<char>>,
    login: Login<Seq<char>>,
    given: bool,
    emit: bool,
)
    ensures
        ({
            let rest = libssh_login(config, login, given, emit);
            let e = if emit {
                1int
            } else {
                0
            };
            let f = if forwards_agent(config) {
                1int
            } else {
                0
            };
            &&& rest.len() == 7 + e + f + end_steps(config, given).len()
            &&& emit ==> rest[7] == HopStep::<Seq<char>>::Emit(SessionEvent::Authenticated)
            &&& forwards_agent(config) ==> rest[7 + e] == if config.contains_key(
                "identityagent"@,
            ) {
                HopStep::<Seq<char>>::AcceptAgentForward
            } else {
                HopStep::<Seq<char>>::LookupAgent
            }
            &&& rest[7 + e + f] == HopStep::<Seq<char>>::SetBlocking(false)
            &&& rest[8 + e + f] == HopStep::<Seq<char>>::WrapSession
            &&& has_process(config, given) ==> rest[9 + e + f] == HopStep::<
                Seq<char>,
            >::RetainTransport
        }),
{
}

/// What a libssh2 plan consists of, from its first step to its last. The owner is told whom is
/// connected to; the transport is made, and then a session, which traces all if the configuration
/// asks for that; it blocks, is given the transport, and then come the handshake, the server's
/// banner, the check of the host and the login; the owner is told of the login where that is wanted;
/// and at last the session becomes a connection that does not block and keeps the proxy process,
/// where there is one. Nothing else is in it.
pub proof fn law_ssh2_plan_is_complete(
    config: Map<Seq<char>, Seq<char>>,
    login: Login<Seq<char>>,
    given: bool,
    emit: bool,
)
    ensures
        ({
            let plan = plan_of(Backend::Ssh2, config, login, given, emit);
            let verbose = config.contains_key("wezterm_ssh_verbose"@)
                && config["wezterm_ssh_verbose"@] == "true"@;
            let process = !given && config.contains_key("proxycommand"@)
                && config["proxycommand"@] != "none"@;
            let block = if verbose {
                4int
            } else {
                3
            };
            let told = block + 6;
            let end = told + (if emit {
                1int
            } else {
                0
            });
            &&& plan.len() == end + (if process {
                3int
            } else {
                2
            })
            &&& plan[0] == HopStep::Emit(
                SessionEvent::Banner(
                    Some(
                        "Using ssh2 to connect to "@ + login.user + "@"@ + login.host + ":"@
                            + decimal(login.port as nat),
                    ),
                ),
            )
            &&& plan[1] == if given {
                HopStep::UseSocket
            } else {
                HopStep::ConnectToHost(login.host, login.port, verbose)
            }
            &&& plan[2] == HopStep::<Seq<char>>::NewSession
            &&& verbose ==> plan[3] == HopStep::<Seq<char>>::TraceAll
            &&& plan[block] == HopStep::<Seq<char>>::SetBlocking(true)
            &&& plan[block + 1] == HopStep::<Seq<char>>::AttachSocket
            &&& plan[block + 2] == HopStep::Handshake(login.host, login.port)
            &&& plan[block + 3] == HopStep::<Seq<char>>::ServerBanner
            &&& plan[block + 4] == HopStep::VerifyHost(login.host, login.port)
            &&& plan[block + 5] == HopStep::Authenticate(login.user, login.host)
            &&& emit ==> plan[told] == HopStep::<Seq<char>>::Emit(SessionEvent::Authenticated)
            &&& plan[end] == HopStep::<Seq<char>>::SetBlocking(false)
            &&& plan[end + 1] == HopStep::<Seq<char>>::WrapSession
            &&& process ==> plan[end + 2] == HopStep::<Seq<char>>::RetainTransport
        }),
{
    reveal_strlit("Using ");
    reveal_strlit("ssh2");
    reveal_strlit(" to connect to ");
    reveal_strlit("Using ssh2 to connect to ");
    assert("Using "@ + "ssh2"@ + " to connect to "@ =~= "Using ssh2 to connect to "@);
    assert("Using "@ + "ssh2"@ + " to connect to "@ + login.user + "@"@ + host_port(
        login.host,
        login.port,
    ) =~= "Using ssh2 to connect to "@ + login.user + "@"@ + login.host + ":"@ + decimal(
        login.port as nat,
    ));
}

/// How a plan is carried out. A step that is done leads to the next one, and the last one ends it
/// well. What a server says is passed on, and then the plan goes on; so it does once the agent is let
/// in, or its absence is logged. A step that fails ends it, with its failure, and what was tried
/// before it: telling the owner of a banner or of the login, connecting to the host and port, and for
/// libssh2 also the check of the host and the login. Only the issue banner may fail.
pub proof fn law_plan_is_carried_out(task: HopView, ev: HopEvent)
    requires
        task.wf(),
        task.accepts(ev),
    ensures
        ({
            let (next, action) = hop_next(task, ev);
            let step = match task.follow_up {
                Some(step) => step,
                None => task.plan[task.at],
            };
            let goes_on = {
                &&& next == (HopView { at: task.at + 1, follow_up: None, ..task })
                &&& action == if task.at + 1 == task.plan.len() {
                    HopAction::<Seq<Seq<char>>>::Finished(Ok(()))
                } else {
                    HopAction::<Seq<Seq<char>>>::Perform
                }
            };
            let follows_up = |with: HopStep<Seq<char>>|
                {
                    &&& next == (HopView { follow_up: Some(with), ..task })
                    &&& action == HopAction::<Seq<Seq<char>>>::Perform
                };
            let connects = |text: Seq<char>, host: Seq<char>, port: u16|
                text + host + ":"@ + decimal(port as nat);
            match ev {
                HopEvent::Done => goes_on,
                HopEvent::Banner(Some(text)) => follows_up(
                    HopStep::Emit(SessionEvent::Banner(Some(text@))),
                ),
                HopEvent::Banner(None) => follows_up(HopStep::Emit(SessionEvent::Banner(None))),
                HopEvent::Agent(Some(_)) => follows_up(HopStep::AcceptAgentForward),
                HopEvent::Agent(None) => follows_up(
                    HopStep::LogError(
                        "ForwardAgent is set to yes, but IdentityAgent is not set"@,
                    ),
                ),
                HopEvent::Failed(failure) => if step is IssueBanner {
                    goes_on
                } else {
                    action == HopAction::Finished(
                        Err::<(), Seq<Seq<char>>>(
                            match (step, task.backend) {
                                (HopStep::Emit(SessionEvent::Banner(_)), _) => seq![
                                    "notifying user of banner"@,
                                ] + failure@,
                                (HopStep::Emit(SessionEvent::Authenticated), _) => seq![
                                    "notifying user that session is authenticated"@,
                                ] + failure@,
                                (HopStep::Handshake(host, port), Backend::LibSsh) => seq![
                                    connects("Connecting to "@, host, port),
                                ] + failure@,
                                (HopStep::Handshake(host, port), Backend::Ssh2) => seq![
                                    connects("ssh handshake with "@, host, port),
                                ] + failure@,
                                (HopStep::VerifyHost(_, _), Backend::Ssh2) => seq![
                                    "host verification"@,
                                ] + failure@,
                                (HopStep::Authenticate(_, _), Backend::Ssh2) => seq![
                                    "authentication"@,
                                ] + failure@,
                                _ => failure@,
                            },
                        ),
                    )
                },
            }
        }),
{
    if let HopStep::Handshake(host, port) = task.current() {
        assert("Connecting to "@ + host_port(host, port) =~= "Connecting to "@ + host + ":"@
            + decimal(port as nat));
        assert("ssh handshake with "@ + host_port(host, port) =~= "ssh handshake with "@ + host
            + ":"@ + decimal(port as nat));
    }
}

/// An outcome can be taken in if it is of the current step: a banner or its failure, where the
/// environment says the agent is, and of any other step that it is done or failed; but for logging,
/// which does not fail.
pub proof fn law_plan_takes_any_outcome(
    task: HopView,
    failure: Failure,
    banner: Option<String>,
    agent: Option<String>,
)
    requires
        task.wf(),
    ensures
        ({
            let step = match task.follow_up {
                Some(step) => step,
                None => task.plan[task.at],
            };
            if step is ServerBanner || step is IssueBanner {
                &&& task.accepts(HopEvent::Banner(banner))
                &&& task.accepts(HopEvent::Failed(failure))
            } else if step is LookupAgent {
                task.accepts(HopEvent::Agent(agent))
            } else {
                &&& task.accepts(HopEvent::Done)
                &&& !(step is LogError) ==> task.accepts(HopEvent::Failed(failure))
            }
        }),
{
}

/// The name of a function, with a colon and a space, is taken off the front of a message of it, and a
/// message that does not begin so stays as it is.
pub proof fn law_function_is_taken_off(function: Seq<char>, rest: Seq<char>)
    ensures
        log_text(function, function + ": "@ + rest) == rest,
        !(function + ": "@).is_prefix_of(rest) ==> log_text(function, rest) == rest,
{
    let prefix = function + ": "@;
    assert(prefix.is_prefix_of(prefix + rest));
    assert((prefix + rest).skip(prefix.len() as int) =~= rest);
}

} // verus!
