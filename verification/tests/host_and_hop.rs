//! The transport to a host, and the connection over it.

use ssh_session::config::ConfigMap;
use ssh_session::event::SessionEvent;
use ssh_session::failure::Failure;
use ssh_session::hop::{
    choose_backend, connect_hop, log_message, Backends, HopAction, HopEvent, HopStep, HopTask,
    SshOption,
};
use ssh_session::host::{
    bind_failure, connect_to_host, filter_sock_addr, find_address, host_port_text, host_step,
    HostAction, HostEvent, HostTask, SockAddr, Transport,
};
use ssh_session::resources::Backend;

const BOTH: Backends = Backends { libssh: true, ssh2: true };

fn config(options: &[(&str, &str)]) -> ConfigMap {
    let mut map = ConfigMap::new();
    for (name, value) in options {
        map.insert(name.to_string(), value.to_string());
    }
    map
}

fn addr(text: &str) -> SockAddr {
    SockAddr { is_ipv6: text.starts_with('['), text: text.to_string() }
}

fn failure(text: &str) -> Failure {
    Failure::message(text.to_string())
}

/// Hands the outcomes to the attempt one by one; gives the actions, each as it is written.
fn attempt(map: &ConfigMap, windows: bool, events: Vec<HostEvent>) -> Vec<String> {
    let (mut task, mut action) = connect_to_host(map, "example.org", 2222, windows);
    let mut seen = vec![format!("{:?}", action)];
    for ev in events {
        let (next, next_action) = host_step(map, windows, task, ev);
        task = next;
        action = next_action;
        seen.push(match action {
            HostAction::Finished(Err(ref failure)) => format!("failed: {}", failure.to_line()),
            ref other => format!("{:?}", other),
        });
    }
    seen
}

#[test]
fn addresses_are_restricted_to_the_family() {
    let v4 = addr("192.0.2.1:22");
    let v6 = addr("[2001:db8::1]:22");
    for (family, takes_v4, takes_v6) in [
        (None, true, true),
        (Some("inet"), true, false),
        (Some("inet6"), false, true),
        (Some("any"), true, true),
        (Some("unheard-of"), true, true),
    ] {
        let map = match family {
            Some(family) => config(&[("addressfamily", family)]),
            None => config(&[]),
        };
        assert_eq!(filter_sock_addr(&map, &v4), takes_v4);
        assert_eq!(filter_sock_addr(&map, &v6), takes_v6);
    }
}

#[test]
fn the_first_address_of_the_family_is_found() {
    let addrs = vec![addr("[::1]:22"), addr("[::2]:22"), addr("127.0.0.1:22"), addr("127.0.0.2:22")];
    assert_eq!(find_address(&config(&[]), &addrs), Some(0));
    assert_eq!(find_address(&config(&[("addressfamily", "inet6")]), &addrs), Some(0));
    assert_eq!(find_address(&config(&[("addressfamily", "inet")]), &addrs), Some(2));
    let v6 = vec![addr("[::1]:22")];
    assert_eq!(find_address(&config(&[("addressfamily", "inet")]), &v6), None);
    assert_eq!(find_address(&config(&[]), &Vec::new()), None);
}

#[test]
fn a_host_is_connected_to_directly() {
    let seen = attempt(
        &config(&[]),
        false,
        vec![
            HostEvent::Resolved(vec![addr("[2001:db8::1]:2222"), addr("192.0.2.1:2222")]),
            HostEvent::Done,
            HostEvent::Done,
        ],
    );
    assert_eq!(
        seen,
        [
            "Resolve(\"example.org\", 2222)",
            "CreateSocket(0)",
            "Connect(0)",
            "Finished(Ok(Direct))"
        ]
    );
}

#[test]
fn a_socket_is_bound_before_it_is_connected() {
    let seen = attempt(
        &config(&[("bindaddress", "lo"), ("addressfamily", "inet")]),
        false,
        vec![
            HostEvent::Resolved(vec![addr("[2001:db8::1]:2222"), addr("192.0.2.1:2222")]),
            HostEvent::Done,
            HostEvent::Resolved(vec![addr("[::1]:0"), addr("[::2]:0"), addr("127.0.0.1:0")]),
            HostEvent::Done,
            HostEvent::Done,
        ],
    );
    assert_eq!(
        seen,
        [
            "Resolve(\"example.org\", 2222)",
            "CreateSocket(1)",
            "Resolve(\"lo\", 0)",
            "Bind(2)",
            "Connect(1)",
            "Finished(Ok(Direct))"
        ]
    );
}

#[test]
fn a_proxy_command_is_run_by_the_shell() {
    let map = config(&[("proxycommand", "nc %h %p")]);
    let seen = attempt(&map, false, vec![HostEvent::Done, HostEvent::Done, HostEvent::Done]);
    assert_eq!(
        seen,
        [
            "Socketpair",
            "AttachStdio",
            "Spawn(\"sh\", \"-c\", \"exec nc %h %p\")",
            "Finished(Ok(ProxyPair))"
        ]
    );
}

#[test]
fn a_proxy_command_may_pass_a_descriptor() {
    let map = config(&[("proxycommand", "pass"), ("proxyusefdpass", "yes")]);
    let events = vec![HostEvent::Done, HostEvent::Done, HostEvent::Done, HostEvent::Done];
    let seen = attempt(&map, false, events);
    assert_eq!(seen[3..], ["ReceiveFd", "Finished(Ok(ProxyPassed))"]);
    let map = config(&[("proxycommand", "pass"), ("proxyusefdpass", "no")]);
    let seen = attempt(&map, false, vec![HostEvent::Done, HostEvent::Done, HostEvent::Done]);
    assert_eq!(seen[3], "Finished(Ok(ProxyPair))");
}

#[test]
fn a_proxy_command_is_run_by_the_command_interpreter() {
    let map = config(&[("proxycommand", "pass"), ("proxyusefdpass", "yes")]);
    for (found, program) in [(None, "cmd"), (Some("C:\\cmd.exe".to_string()), "C:\\cmd.exe")] {
        let seen = attempt(
            &map,
            true,
            vec![HostEvent::Comspec(found), HostEvent::Done, HostEvent::Done, HostEvent::Done],
        );
        assert_eq!(seen[0], "ReadComspec");
        assert_eq!(seen[3], format!("Spawn({:?}, \"/c\", \"pass\")", program));
        assert_eq!(seen[4], "Finished(Ok(ProxyPair))");
    }
}

#[test]
fn the_proxy_command_none_is_no_proxy_command() {
    let map = config(&[("proxycommand", "none")]);
    assert_eq!(attempt(&map, false, Vec::new()), ["Resolve(\"example.org\", 2222)"]);
    assert_eq!(attempt(&map, true, Vec::new()), ["Resolve(\"example.org\", 2222)"]);
}

#[test]
fn each_failure_says_what_was_tried() {
    let last = |map: &ConfigMap, events: Vec<HostEvent>| {
        attempt(map, false, events).pop().unwrap()
    };
    let resolved = || HostEvent::Resolved(vec![addr("192.0.2.1:2222")]);
    let failed = || HostEvent::Failed(failure("no luck"));
    let proxied = config(&[("proxycommand", "nc h")]);
    let plain = config(&[]);
    let v6 = config(&[("addressfamily", "inet6")]);
    let bound = config(&[("bindaddress", "a \"name\"\n")]);
    assert_eq!(last(&proxied, vec![failed()]), "failed: no luck");
    assert_eq!(last(&proxied, vec![HostEvent::Done, failed()]), "failed: no luck");
    assert_eq!(
        last(&proxied, vec![HostEvent::Done, HostEvent::Done, failed()]),
        "failed: spawning ProxyCommand nc h: no luck"
    );
    assert_eq!(last(&plain, vec![failed()]), "failed: no luck");
    assert_eq!(last(&v6, vec![resolved()]), "failed: resolving address for example.org");
    assert_eq!(last(&plain, vec![resolved(), failed()]), "failed: no luck");
    assert_eq!(
        last(&plain, vec![resolved(), HostEvent::Done, failed()]),
        "failed: Connecting to example.org:2222 (192.0.2.1:2222): no luck"
    );
    assert_eq!(
        last(&bound, vec![resolved(), HostEvent::Done, HostEvent::Resolved(Vec::new())]),
        "failed: resolving bind address \"a \\\"name\\\"\\n\""
    );
    assert_eq!(
        last(
            &bound,
            vec![
                resolved(),
                HostEvent::Done,
                HostEvent::Resolved(vec![addr("127.0.0.1:0")]),
                failed()
            ]
        ),
        "failed: binding to 127.0.0.1:0: no luck"
    );
}

#[test]
fn names_to_bind_to_are_quoted_like_any_text() {
    for name in ["plain", "", "tab\t", "back\\slash", "\u{e9}", "\u{200b}", "quo\"te", "'"] {
        let map = config(&[("bindaddress", name)]);
        let (task, _) = connect_to_host(&map, "h", 22, false);
        let (task, _) =
            host_step(&map, false, task, HostEvent::Resolved(vec![addr("127.0.0.1:22")]));
        let (task, _) = host_step(&map, false, task, HostEvent::Done);
        let (task, action) = host_step(&map, false, task, HostEvent::Resolved(Vec::new()));
        assert!(matches!(task, HostTask::Finished));
        match action {
            HostAction::Finished(Err(failure)) => {
                assert_eq!(failure.to_line(), format!("resolving bind address {:?}", name))
            }
            other => panic!("{:?}", other),
        }
    }
    assert_eq!(bind_failure("<lo>").to_line(), "resolving bind address <lo>");
}

#[test]
fn transports_are_told_apart() {
    assert_ne!(Transport::Direct, Transport::ProxyPair);
    assert_ne!(Transport::ProxyPair, Transport::ProxyPassed);
    assert_eq!(host_port_text("localhost", 22), "localhost:22");
    assert_eq!(host_port_text("::1", 65535), "::1:65535");
}

#[test]
fn the_library_is_chosen_by_the_configuration() {
    let named = |name: &str| config(&[("wezterm_ssh_backend", name)]);
    let libssh = Backends { libssh: true, ssh2: false };
    let ssh2 = Backends { libssh: false, ssh2: true };
    let ok = |map: &ConfigMap, there| choose_backend(map, there).ok();
    assert_eq!(ok(&named("ssh2"), BOTH), Some(Backend::Ssh2));
    assert_eq!(ok(&named("libssh"), BOTH), Some(Backend::LibSsh));
    assert_eq!(ok(&config(&[]), BOTH), Some(Backend::LibSsh));
    assert_eq!(ok(&config(&[]), libssh), Some(Backend::LibSsh));
    assert_eq!(ok(&config(&[]), ssh2), Some(Backend::Ssh2));
    let err = |map: &ConfigMap, there| match choose_backend(map, there) {
        Ok(backend) => panic!("{:?}", backend),
        Err(failure) => failure.to_line(),
    };
    assert_eq!(
        err(&named("ssh2"), libssh),
        "invalid wezterm_ssh_backend value: ssh2, not compiled with `ssh2`"
    );
    assert_eq!(
        err(&named("libssh"), ssh2),
        "invalid wezterm_ssh_backend value: libssh, not compiled with `libssh`"
    );
    assert_eq!(
        err(&named("openssh"), BOTH),
        "invalid wezterm_ssh_backend value: openssh, expected either `ssh2` or `libssh`"
    );
}

fn login(more: &[(&str, &str)]) -> ConfigMap {
    let mut map = config(&[("hostname", "h"), ("user", "u"), ("port", "2222")]);
    for (name, value) in more {
        map.insert(name.to_string(), value.to_string());
    }
    map
}

fn start(map: &ConfigMap, given: bool, emit: bool) -> HopTask {
    match connect_hop(map, BOTH, given, emit) {
        Ok(task) => task,
        Err(failure) => panic!("{}", failure.to_line()),
    }
}

/// Carries the plan out where every step goes well; gives the steps as they are written.
fn perform(mut task: HopTask, env: Option<&str>) -> Vec<String> {
    let mut seen = Vec::new();
    loop {
        let step = task.current();
        seen.push(format!("{:?}", step));
        let ev = match step {
            HopStep::ServerBanner => HopEvent::Banner(Some("SSH-2.0-test".to_string())),
            HopStep::IssueBanner => HopEvent::Failed(failure("no banner")),
            HopStep::LookupAgent => HopEvent::Agent(env.map(|s| s.to_string())),
            _ => HopEvent::Done,
        };
        let (next, action) = task.step(ev);
        task = next;
        match action {
            HopAction::Perform => {}
            HopAction::Finished(Ok(())) => return seen,
            HopAction::Finished(Err(failure)) => panic!("{}", failure.to_line()),
        }
    }
}

#[test]
fn libssh_connects_step_by_step() {
    let map = login(&[
        ("wezterm_ssh_backend", "libssh"),
        ("identityagent", "/agent"),
        ("identityfile", "/id_a  /id_b"),
        ("userknownhostsfile", " /known_a /known_b"),
        ("pubkeyacceptedtypes", "types"),
        ("bindaddress", "lo"),
        ("hostkeyalgorithms", "algorithms"),
        ("forwardagent", "yes"),
    ]);
    assert_eq!(
        perform(start(&map, false, true), None),
        [
            "Emit(Banner(Some(\"Using libssh-rs to connect to u@h:2222\")))",
            "NewSession",
            "SetOption(Hostname(\"h\"))",
            "SetOption(User(\"u\"))",
            "SetOption(Port(2222))",
            "ParseConfig",
            "SetOption(IdentityAgent(\"/agent\"))",
            "SetOption(AddIdentity(\"/id_a\"))",
            "SetOption(AddIdentity(\"/id_b\"))",
            "SetOption(KnownHosts(\"/known_a\"))",
            "SetOption(PublicKeyAcceptedTypes(\"types\"))",
            "SetOption(BindAddress(\"lo\"))",
            "SetOption(HostKeys(\"algorithms\"))",
            "ConnectToHost(\"h\", 2222, false)",
            "SetOption(Socket)",
            "Handshake(\"h\", 2222)",
            "ServerBanner",
            "Emit(Banner(Some(\"SSH-2.0-test\")))",
            "VerifyHost(\"h\", 2222)",
            "Authenticate(\"u\", \"h\")",
            "IssueBanner",
            "Emit(Authenticated)",
            "AcceptAgentForward",
            "SetBlocking(false)",
            "WrapSession",
        ]
    );
}

#[test]
fn libssh_connects_over_a_socket() {
    let map = login(&[("wezterm_ssh_verbose", "true"), ("userknownhostsfile", " \t")]);
    assert_eq!(
        perform(start(&map, true, false), None),
        [
            "Emit(Banner(Some(\"Using libssh-rs to connect to u@h:2222\")))",
            "NewSession",
            "SetOption(LogPackets)",
            "RedirectLog",
            "SetOption(Hostname(\"h\"))",
            "SetOption(User(\"u\"))",
            "SetOption(Port(2222))",
            "ParseConfig",
            "UseSocket",
            "SetOption(Socket)",
            "Handshake(\"h\", 2222)",
            "ServerBanner",
            "Emit(Banner(Some(\"SSH-2.0-test\")))",
            "VerifyHost(\"h\", 2222)",
            "Authenticate(\"u\", \"h\")",
            "IssueBanner",
            "SetBlocking(false)",
            "WrapSession",
        ]
    );
}

#[test]
fn ssh2_connects_step_by_step() {
    let map = login(&[
        ("wezterm_ssh_backend", "ssh2"),
        ("wezterm_ssh_verbose", "true"),
        ("identityfile", "/id_a"),
        ("forwardagent", "yes"),
    ]);
    assert_eq!(
        perform(start(&map, false, true), None),
        [
            "Emit(Banner(Some(\"Using ssh2 to connect to u@h:2222\")))",
            "ConnectToHost(\"h\", 2222, true)",
            "NewSession",
            "TraceAll",
            "SetBlocking(true)",
            "AttachSocket",
            "Handshake(\"h\", 2222)",
            "ServerBanner",
            "Emit(Banner(Some(\"SSH-2.0-test\")))",
            "VerifyHost(\"h\", 2222)",
            "Authenticate(\"u\", \"h\")",
            "Emit(Authenticated)",
            "SetBlocking(false)",
            "WrapSession",
        ]
    );
    let map = login(&[("wezterm_ssh_backend", "ssh2"), ("wezterm_ssh_verbose", "yes")]);
    let seen = perform(start(&map, true, false), None);
    assert_eq!(seen[1..4], ["UseSocket", "NewSession", "SetBlocking(true)"]);
    assert!(!seen.contains(&"Emit(Authenticated)".to_string()));
}

#[test]
fn the_agent_is_forwarded_only_where_there_is_one() {
    let tail = |map: &ConfigMap, env: Option<&str>| {
        let seen = perform(start(map, false, false), env);
        let at = seen.iter().position(|s| s == "IssueBanner").unwrap();
        seen[at + 1..].to_vec()
    };
    let asked = login(&[("forwardagent", "yes")]);
    assert_eq!(
        tail(&asked, None),
        [
            "LookupAgent",
            "LogError(\"ForwardAgent is set to yes, but IdentityAgent is not set\")",
            "SetBlocking(false)",
            "WrapSession"
        ]
    );
    assert_eq!(
        tail(&asked, Some("/env")),
        ["LookupAgent", "AcceptAgentForward", "SetBlocking(false)", "WrapSession"]
    );
    let named = login(&[("forwardagent", "yes"), ("identityagent", "/agent")]);
    assert_eq!(tail(&named, None), ["AcceptAgentForward", "SetBlocking(false)", "WrapSession"]);
    let refused = login(&[("forwardagent", "no"), ("identityagent", "/agent")]);
    assert_eq!(tail(&refused, Some("/env")), ["SetBlocking(false)", "WrapSession"]);
}

#[test]
fn the_process_of_a_proxy_command_is_kept() {
    for backend in ["libssh", "ssh2"] {
        let last = |more: &[(&str, &str)], given: bool| {
            let mut map = login(&[("wezterm_ssh_backend", backend)]);
            for (name, value) in more {
                map.insert(name.to_string(), value.to_string());
            }
            perform(start(&map, given, false), None).pop().unwrap()
        };
        assert_eq!(last(&[("proxycommand", "nc h")], false), "RetainTransport");
        assert_eq!(last(&[("proxycommand", "nc h")], true), "WrapSession");
        assert_eq!(last(&[("proxycommand", "none")], false), "WrapSession");
        assert_eq!(last(&[], false), "WrapSession");
    }
}

#[test]
fn an_issue_banner_is_passed_on() {
    let mut task = start(&login(&[]), false, true);
    while !matches!(task.current(), HopStep::IssueBanner) {
        let ev = match task.current() {
            HopStep::ServerBanner => HopEvent::Banner(None),
            _ => HopEvent::Done,
        };
        task = task.step(ev).0;
    }
    let (task, action) = task.step(HopEvent::Banner(Some("welcome".to_string())));
    assert!(matches!(action, HopAction::Perform));
    match task.current() {
        HopStep::Emit(SessionEvent::Banner(Some(text))) => assert_eq!(text, "welcome"),
        other => panic!("{:?}", other),
    }
    let (task, _) = task.step(HopEvent::Done);
    assert!(matches!(task.current(), HopStep::Emit(SessionEvent::Authenticated)));
}

/// Lets the first step that `fails` accepts fail.
fn fail_at(map: &ConfigMap, fails: fn(&HopStep<String>) -> bool) -> String {
    let mut task = start(map, false, true);
    loop {
        let ev = if fails(task.current()) {
            HopEvent::Failed(failure("no luck"))
        } else {
            match task.current() {
                HopStep::ServerBanner | HopStep::IssueBanner => HopEvent::Banner(None),
                HopStep::LookupAgent => HopEvent::Agent(None),
                _ => HopEvent::Done,
            }
        };
        let (next, action) = task.step(ev);
        task = next;
        match action {
            HopAction::Perform => {}
            HopAction::Finished(Ok(())) => return "connected".to_string(),
            HopAction::Finished(Err(failure)) => return failure.to_line(),
        }
    }
}

#[test]
fn each_step_fails_in_its_context() {
    let libssh = login(&[]);
    let ssh2 = login(&[("wezterm_ssh_backend", "ssh2")]);
    let emit: fn(&HopStep<String>) -> bool = |s| matches!(s, HopStep::Emit(_));
    let told: fn(&HopStep<String>) -> bool =
        |s| matches!(s, HopStep::Emit(SessionEvent::Authenticated));
    let handshake: fn(&HopStep<String>) -> bool = |s| matches!(s, HopStep::Handshake(_, _));
    let verify: fn(&HopStep<String>) -> bool = |s| matches!(s, HopStep::VerifyHost(_, _));
    let authenticate: fn(&HopStep<String>) -> bool = |s| matches!(s, HopStep::Authenticate(_, _));
    let option: fn(&HopStep<String>) -> bool =
        |s| matches!(s, HopStep::SetOption(SshOption::Port(_)));
    let transport: fn(&HopStep<String>) -> bool = |s| matches!(s, HopStep::ConnectToHost(_, _, _));
    let issue: fn(&HopStep<String>) -> bool = |s| matches!(s, HopStep::IssueBanner);
    assert_eq!(fail_at(&libssh, emit), "notifying user of banner: no luck");
    assert_eq!(fail_at(&ssh2, emit), "notifying user of banner: no luck");
    assert_eq!(
        fail_at(&libssh, told),
        "notifying user that session is authenticated: no luck"
    );
    assert_eq!(fail_at(&libssh, handshake), "Connecting to h:2222: no luck");
    assert_eq!(fail_at(&ssh2, handshake), "ssh handshake with h:2222: no luck");
    assert_eq!(fail_at(&libssh, verify), "no luck");
    assert_eq!(fail_at(&ssh2, verify), "host verification: no luck");
    assert_eq!(fail_at(&libssh, authenticate), "no luck");
    assert_eq!(fail_at(&ssh2, authenticate), "authentication: no luck");
    assert_eq!(fail_at(&libssh, option), "no luck");
    assert_eq!(fail_at(&ssh2, transport), "no luck");
    assert_eq!(fail_at(&libssh, issue), "connected");
}

#[test]
fn a_connection_needs_a_host_a_user_and_a_port() {
    let err = |map: &ConfigMap| match connect_hop(map, BOTH, false, true) {
        Ok(_) => panic!("nothing to connect to"),
        Err(failure) => failure.to_line(),
    };
    assert_eq!(err(&config(&[])), "hostname not present in config");
    assert_eq!(err(&config(&[("hostname", "h")])), "username not present in config");
    assert_eq!(
        err(&config(&[("hostname", "h"), ("user", "u")])),
        "port is always set in config loader"
    );
    assert_eq!(err(&login(&[("port", "x")])), "invalid digit found in string");
    assert_eq!(
        err(&config(&[("wezterm_ssh_backend", "x")])),
        "invalid wezterm_ssh_backend value: x, expected either `ssh2` or `libssh`"
    );
}

#[test]
fn the_function_is_taken_off_a_log_message() {
    assert_eq!(log_message("ssh_connect", "ssh_connect: connecting"), "connecting");
    assert_eq!(log_message("ssh_connect", "ssh_connect:connecting"), "ssh_connect:connecting");
    assert_eq!(log_message("ssh_connect", "connecting"), "connecting");
    assert_eq!(log_message("f", "f: f: x"), "f: x");
    assert_eq!(log_message("f", "f: "), "");
    assert_eq!(log_message("", ": x"), "x");
}
