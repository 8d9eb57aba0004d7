//! The run of a session over jump hosts.

use filedescriptor::socketpair;
use smol::channel::{unbounded, Receiver, Sender};
use socket2::{Domain, Socket, Type};
use ssh_session::config::ConfigMap;
use ssh_session::event::SessionEvent;
use ssh_session::failure::Failure;
use ssh_session::hop::{connect_hop, Backends, HopAction, HopEvent, HopStep};
use ssh_session::resources::{Resources, SessionWrap};
use ssh_session::route::{RouteAction, RouteEvent, RouteStage};
use ssh_session::session::{ResolvedSshRoute, SessionInner};

/// Plain values in the place of what a backend brings.
struct Plain;

impl Resources for Plain {
    type Session = String;
    type Channel = (String, u16);
    type Sftp = ();
    type File = ();
    type Dir = ();
    type Bridge = String;
    type Reply = ();
    type Value = ();
    type Metadata = ();
    type OpenOptions = ();
    type RenameOptions = ();
    type NewPty = ();
    type ResizePty = ();
}

fn config(host: &str, port: &str, backend: &str) -> ConfigMap {
    let mut map = ConfigMap::new();
    map.insert("hostname".to_string(), host.to_string());
    map.insert("user".to_string(), "me".to_string());
    map.insert("port".to_string(), port.to_string());
    map.insert("wezterm_ssh_backend".to_string(), backend.to_string());
    map
}

fn session(jumps: Vec<ConfigMap>, target: ConfigMap) -> SessionInner<Plain> {
    SessionInner::new(target, ResolvedSshRoute::new(jumps), None, 0)
}

/// Connects to a host whose steps all go well, and passes on what its owner is told.
fn connect(
    sess: &SessionInner<Plain>,
    at: usize,
    socket: Option<Socket>,
    emit: bool,
    events: &Sender<SessionEvent<String>>,
) -> Result<SessionWrap<Plain>, Failure> {
    let there = Backends { libssh: true, ssh2: true };
    let mut task = connect_hop(sess.hop_config(at), there, socket.is_some(), emit)?;
    let backend = task.backend();
    let mut host = String::new();
    loop {
        let ev = match task.current() {
            HopStep::Emit(SessionEvent::Banner(text)) => {
                events.try_send(SessionEvent::Banner(text.clone())).unwrap();
                HopEvent::Done
            }
            HopStep::Emit(SessionEvent::Authenticated) => {
                events.try_send(SessionEvent::Authenticated).unwrap();
                HopEvent::Done
            }
            HopStep::ServerBanner | HopStep::IssueBanner => HopEvent::Banner(None),
            HopStep::LookupAgent => HopEvent::Agent(None),
            HopStep::Handshake(name, _) => {
                host = name.clone();
                HopEvent::Done
            }
            _ => HopEvent::Done,
        };
        let (next, action) = task.step(ev);
        task = next;
        match action {
            HopAction::Perform => {}
            HopAction::Finished(Ok(())) => {
                return Ok(SessionWrap { backend, session: host, sftp: None })
            }
            HopAction::Finished(Err(failure)) => return Err(failure),
        }
    }
}

/// Runs the session; `fail_at` is the number of the action that fails, if it can.
fn run(sess: &SessionInner<Plain>, fail_at: Option<usize>) -> (Vec<String>, Vec<String>) {
    let (tx, rx): (Sender<SessionEvent<String>>, Receiver<SessionEvent<String>>) = unbounded();
    let mut seen = Vec::new();
    let (mut task, mut action) = sess.run();
    loop {
        let fails = fail_at == Some(seen.len());
        let failed = || RouteEvent::Failed(Failure::message("no luck".to_string()));
        let ev = match action {
            RouteAction::ConnectHop(at, socket, emit) => {
                let over = if socket.is_some() { " over a socket" } else { "" };
                seen.push(format!("connect {}{}", at, over));
                if fails {
                    failed()
                } else {
                    match connect(sess, at, socket, emit, &tx) {
                        Ok(wrap) => RouteEvent::Connected(wrap),
                        Err(failure) => RouteEvent::Failed(failure),
                    }
                }
            }
            RouteAction::SetBlocking(wrap) => {
                seen.push(format!("block {}", wrap.session));
                RouteEvent::Connected(wrap)
            }
            RouteAction::OpenDirectTcpip(wrap, host, port, from, from_port) => {
                seen.push(format!(
                    "open {} to {}:{} for {}:{}",
                    wrap.session, host, port, from, from_port
                ));
                if fails {
                    failed()
                } else {
                    RouteEvent::Opened(wrap, (host, port))
                }
            }
            RouteAction::Socketpair => {
                seen.push("pair".to_string());
                if fails {
                    failed()
                } else {
                    let (socket, _) = Socket::pair(Domain::UNIX, Type::STREAM, None).unwrap();
                    RouteEvent::Pair(socket, socketpair().unwrap().1)
                }
            }
            RouteAction::SpawnBridge(wrap, channel, _) => {
                seen.push(format!("bridge {} to {}:{}", wrap.session, channel.0, channel.1));
                RouteEvent::Bridge(wrap.session)
            }
            RouteAction::RequestLoop(wrap) => {
                seen.push(format!("serve {}", wrap.session));
                let result = if fails {
                    Err(Failure::message("no luck".to_string()))
                } else {
                    Ok(())
                };
                RouteEvent::Served(wrap, result)
            }
            RouteAction::DropSession(wrap) => {
                seen.push(format!("drop {}", wrap.session));
                RouteEvent::Done
            }
            RouteAction::JoinBridge(bridge) => {
                seen.push(format!("join {}", bridge));
                RouteEvent::Done
            }
            RouteAction::Emit(event) => {
                seen.push("emit".to_string());
                tx.try_send(event).unwrap();
                RouteEvent::Done
            }
            RouteAction::Finished => break,
        };
        let (next, next_action) = sess.run_step(task, ev);
        task = next;
        action = next_action;
    }
    assert!(matches!(task.stage, RouteStage::Finished));
    assert!(task.socket.is_none() && task.bridges.is_empty());
    drop(tx);
    let mut events = Vec::new();
    while let Ok(event) = rx.try_recv() {
        events.push(match event {
            SessionEvent::Banner(text) => format!("banner {}", text.unwrap_or_default()),
            SessionEvent::Authenticated => "authenticated".to_string(),
            SessionEvent::Error(line) => format!("error {}", line),
        });
    }
    (seen, events)
}

fn authenticated(events: &[String]) -> usize {
    events.iter().filter(|e| *e == "authenticated").count()
}

#[test]
fn a_target_without_jumps_is_connected_to_at_once() {
    let sess = session(Vec::new(), config("target", "22", "libssh"));
    let (seen, events) = run(&sess, None);
    assert_eq!(seen, ["connect 0", "serve target", "drop target"]);
    assert_eq!(authenticated(&events), 1);
}

#[test]
fn one_jump_leads_to_the_target() {
    for backend in ["libssh", "ssh2"] {
        let sess =
            session(vec![config("jump", "2200", backend)], config("target", "2201", backend));
        let (seen, events) = run(&sess, None);
        assert_eq!(
            seen,
            [
                "connect 0",
                "block jump",
                "open jump to target:2201 for 127.0.0.1:0",
                "pair",
                "bridge jump to target:2201",
                "connect 1 over a socket",
                "serve target",
                "drop target",
                "join jump",
            ]
        );
        assert_eq!(authenticated(&events), 1);
    }
}

#[test]
fn two_jumps_lead_to_the_target() {
    for backend in ["libssh", "ssh2"] {
        let jumps = vec![config("jump0", "2200", backend), config("jump1", "2201", backend)];
        let sess = session(jumps, config("target", "2202", backend));
        assert_eq!(sess.route.jumps().len(), 2);
        let (seen, events) = run(&sess, None);
        assert_eq!(
            seen,
            [
                "connect 0",
                "block jump0",
                "open jump0 to jump1:2201 for 127.0.0.1:0",
                "pair",
                "bridge jump0 to jump1:2201",
                "connect 1 over a socket",
                "block jump1",
                "open jump1 to target:2202 for 127.0.0.1:0",
                "pair",
                "bridge jump1 to target:2202",
                "connect 2 over a socket",
                "serve target",
                "drop target",
                "join jump0",
                "join jump1",
            ]
        );
        assert_eq!(authenticated(&events), 1);
        let at = events.iter().position(|e| e == "authenticated").unwrap();
        assert_eq!(events.len(), at + 1);
    }
}

fn errors(events: &[String]) -> Vec<String> {
    events.iter().filter(|e| e.starts_with("error ")).cloned().collect()
}

#[test]
fn each_failure_on_the_way_is_reported_once() {
    let sess = session(vec![config("jump", "2200", "ssh2")], config("target", "2201", "ssh2"));
    for (at, line) in [
        (0, "error connecting ProxyJump host jump: no luck"),
        (2, "error opening ProxyJump direct-tcpip to target:2201: no luck"),
        (3, "error no luck"),
        (5, "error connecting final SSH target target: no luck"),
    ] {
        let (seen, events) = run(&sess, Some(at));
        assert_eq!(seen.len(), at + 2);
        assert_eq!(errors(&events), [line]);
        assert_eq!(authenticated(&events), 0);
    }
}

#[test]
fn bridges_are_waited_for_when_serving_fails() {
    let sess = session(vec![config("jump", "2200", "ssh2")], config("target", "2201", "ssh2"));
    let (seen, events) = run(&sess, Some(6));
    assert_eq!(seen[6..], ["serve target", "drop target", "join jump", "emit"]);
    assert_eq!(errors(&events), ["error no luck"]);
}

#[test]
fn a_host_that_is_not_configured_ends_the_run() {
    let nameless = || ConfigMap::new();
    let (seen, events) = run(&session(vec![nameless()], config("target", "22", "ssh2")), None);
    assert_eq!(seen, ["emit"]);
    assert_eq!(errors(&events), ["error hostname not present in config"]);
    let (seen, events) = run(&session(vec![config("jump", "22", "ssh2")], nameless()), None);
    assert_eq!(seen, ["connect 0", "emit"]);
    assert_eq!(errors(&events), ["error hostname not present in config"]);
    let target = config("target", "x", "ssh2");
    let (seen, events) = run(&session(vec![config("jump", "22", "ssh2")], target), None);
    assert_eq!(seen, ["connect 0", "emit"]);
    assert_eq!(errors(&events), ["error invalid digit found in string"]);
    let (seen, events) = run(&session(vec![], config("target", "22", "openssh")), None);
    assert_eq!(seen, ["connect 0", "emit"]);
    assert_eq!(
        errors(&events),
        ["error connecting final SSH target target: invalid wezterm_ssh_backend value: openssh, \
          expected either `ssh2` or `libssh`"]
    );
}

#[test]
fn the_configuration_of_each_host_is_found() {
    let jumps = vec![config("a", "1", "ssh2"), config("b", "2", "libssh")];
    let sess = session(jumps, config("c", "3", "ssh2"));
    let host = |at| sess.hop_config(at).get("hostname").cloned();
    assert_eq!(host(0).as_deref(), Some("a"));
    assert_eq!(host(1).as_deref(), Some("b"));
    assert_eq!(host(2).as_deref(), Some("c"));
    let (_, events) = run(&sess, None);
    assert_eq!(events[0], "banner Using ssh2 to connect to me@a:1");
    assert!(events.contains(&"banner Using libssh-rs to connect to me@b:2".to_string()));
}
