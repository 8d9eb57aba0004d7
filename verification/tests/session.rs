//! A session: its numbers, its channels, its requests and its loop.

use camino::Utf8PathBuf;
use filedescriptor::{socketpair, FileDescriptor};
use portable_pty::ExitStatus;
use smol::channel::{bounded, Receiver};
use ssh_session::agent::{missing_agent, AgentAction, AgentEvent, AgentTask};
use ssh_session::bridge::{Interest, Wanted};
use ssh_session::config::ConfigMap;
use ssh_session::dispatch::{
    request_label, DispatchAction, DispatchEvent, DispatchTask, FileOp, RecvError, ReplyValue,
    SftpOp,
};
use ssh_session::exec::{ExecAction, ExecEvent, ExecResult};
use ssh_session::failure::{Failure, IoError, IoErrorKind};
use ssh_session::iobuf::{pending, read_into_buf, ByteQueue};
use ssh_session::request_loop::{
    LoopAction, LoopEvent, LoopTask, Source, Waiting, FIRST_DELAY,
};
use ssh_session::requests::{
    CreateDir, DirRequest, Exec, FileRequest, OpenWithMode, ReadFile, Rename, SessionRequest,
    SetMetadata, SetMetadataFile, SftpRequest, SignalChannel, Symlink, WriteFile,
};
use ssh_session::resources::{Backend, Resources, SessionWrap};
use ssh_session::session::{ResolvedSshRoute, SessionInner};
use ssh_session::tick::{TickAction, TickEvent};
use std::collections::VecDeque;
use std::io::{Read, Write};

/// Plain values in the place of what a backend brings.
struct Plain;

impl Resources for Plain {
    type Session = ();
    type Channel = &'static str;
    type Sftp = &'static str;
    type File = &'static str;
    type Dir = &'static str;
    type Bridge = ();
    type Reply = u32;
    type Value = &'static str;
    type Metadata = u64;
    type OpenOptions = &'static str;
    type RenameOptions = &'static str;
    type NewPty = &'static str;
    type ResizePty = (u16, u16);
}

type Session = SessionInner<Plain>;

fn session(options: &[(&str, &str)]) -> Session {
    let mut config = ConfigMap::new();
    for (name, value) in options {
        config.insert(name.to_string(), value.to_string());
    }
    SessionInner::new(config, ResolvedSshRoute::new(Vec::new()), None, 0)
}

fn failure(text: &str) -> Failure {
    Failure::message(text.to_string())
}

fn would_block() -> IoError {
    IoError { kind: IoErrorKind::WouldBlock, message: "Would block".to_string() }
}

fn broken() -> IoError {
    IoError { kind: IoErrorKind::Other, message: "broken pipe".to_string() }
}

fn path(text: &str) -> Utf8PathBuf {
    Utf8PathBuf::from(text)
}

/// Runs a command to the point where its channel is filed.
fn run_command(sess: &mut Session, command: &str) -> (ExecResult, Receiver<ExitStatus>) {
    let exec = Exec { command_line: command.to_string(), env: None };
    let (mut task, mut action) = sess.exec(exec);
    let mut exits = None;
    loop {
        let ev = match action {
            ExecAction::OpenSession => ExecEvent::Opened(Ok("channel")),
            ExecAction::LookupAgent => ExecEvent::AgentEnv(None),
            ExecAction::RequestAgentForwarding(channel) => ExecEvent::Requested(channel, Ok(())),
            ExecAction::RequestEnv(channel, _, _) => ExecEvent::Requested(channel, Ok(())),
            ExecAction::RequestExec(channel, line) => {
                assert_eq!(line, command);
                ExecEvent::Requested(channel, Ok(()))
            }
            ExecAction::Report(_) => ExecEvent::Done,
            ExecAction::Socketpair => ExecEvent::Paired(Ok(socketpair().unwrap())),
            ExecAction::SetNonBlocking(mut fd) => {
                fd.set_non_blocking(true).unwrap();
                ExecEvent::NonBlocking(Ok(fd))
            }
            ExecAction::MakeExitChannel(len) => {
                assert_eq!(len, 1);
                let (tx, rx) = bounded(len);
                exits = Some(rx);
                ExecEvent::ExitChannel(tx)
            }
            ExecAction::Finished(Ok(result)) => return (result, exits.unwrap()),
            ExecAction::Finished(Err(failure)) => panic!("{}", failure.to_line()),
        };
        let (next, next_action) = sess.exec_step(task, ev);
        task = next;
        action = next_action;
    }
}

/// What the process behind a channel does.
struct Process {
    status: Option<ExitStatus>,
    output: [VecDeque<Result<Vec<u8>, IoError>>; 2],
    input: Vec<u8>,
    input_fails: bool,
}

impl Process {
    fn new() -> Process {
        Process {
            status: None,
            output: [VecDeque::new(), VecDeque::new()],
            input: Vec::new(),
            input_fails: false,
        }
    }
}

/// Runs a round with `process` behind every channel.
fn round(sess: &mut Session, process: &mut Process) {
    let (mut task, mut action) = sess.tick_io();
    loop {
        let ev = match action {
            TickAction::AskExit(_) => TickEvent::Exited(process.status.clone()),
            TickAction::SendExit(to, status) => {
                smol::block_on(to.send(status)).ok();
                TickEvent::Sent
            }
            TickAction::WriteChannel(_, bytes) => TickEvent::Wrote(if process.input_fails {
                Err(broken())
            } else {
                process.input.extend_from_slice(&bytes);
                Ok(bytes.len())
            }),
            TickAction::ReadChannel(_, stream, max) => {
                TickEvent::Read(match process.output[stream].pop_front() {
                    Some(Ok(data)) => {
                        assert!(data.len() <= max);
                        Ok(data)
                    }
                    Some(Err(err)) => Err(err),
                    None => Err(would_block()),
                })
            }
            TickAction::Finished => return,
        };
        let (next, next_action) = sess.tick_step(task, ev);
        task = next;
        action = next_action;
    }
}

/// What is waited for, where it is no other's choice.
fn interest(waiting: &Waiting) -> Interest {
    match waiting.wanted {
        Wanted::This(interest) => interest,
        Wanted::Own => panic!("only a session asks for something itself"),
    }
}

/// Where a turn of the loop ended.
enum Turn {
    Waited,
    Ended(Result<(), Failure>),
}

/// Runs one turn of the loop up to the next sign of life. `ready` says what happens to the entries.
fn turn(
    sess: &mut Session,
    task: LoopTask,
    process: &mut Process,
    ready: impl Fn(&Waiting) -> i16,
) -> (LoopTask, Turn, Vec<u128>) {
    let mut task = task;
    let mut waits = Vec::new();
    let mut action: LoopAction<Vec<u8>, Failure> = LoopAction::Keepalive;
    let mut started = false;
    loop {
        let ev = match action {
            LoopAction::Keepalive => {
                if started {
                    return (task, Turn::Waited, waits);
                }
                started = true;
                LoopEvent::Done
            }
            LoopAction::TickIo => {
                round(sess, process);
                LoopEvent::Done
            }
            LoopAction::DrainRequestPipe(max) => {
                assert_eq!(max, 16);
                LoopEvent::Done
            }
            LoopAction::ConnectAgents => LoopEvent::Done,
            LoopAction::DispatchOne => LoopEvent::Dispatched(Ok(false)),
            LoopAction::Poll(delay) => {
                waits.push(delay);
                let list = task.waits();
                let revents = list.iter().map(|waiting| match waiting.source {
                    Source::Stream(_, _) => ready(waiting),
                    _ => 0,
                });
                LoopEvent::Polled(Ok(revents.collect()))
            }
            LoopAction::ReadDescriptor(id, max) => {
                let fd = sess.channels.get_mut(&id).unwrap().descriptors[0].fd.as_mut().unwrap();
                let mut data = vec![0; max];
                LoopEvent::Read(match fd.read(&mut data) {
                    Ok(n) => {
                        data.truncate(n);
                        Ok(data)
                    }
                    Err(_) => Err(would_block()),
                })
            }
            LoopAction::WriteDescriptor(id, n, bytes) => {
                let fd = sess.channels.get_mut(&id).unwrap().descriptors[n].fd.as_mut().unwrap();
                LoopEvent::Wrote(fd.write(&bytes).map_err(|_| broken()))
            }
            LoopAction::CloseChannel(_) => LoopEvent::Done,
            LoopAction::Finished(result) => return (task, Turn::Ended(result), waits),
        };
        let (next, next_action) = sess.loop_step(task, ev);
        task = next;
        action = next_action;
    }
}

#[test]
fn a_new_session_is_empty() {
    let sess = session(&[]);
    assert!(sess.channels.is_empty() && sess.files.is_empty() && sess.dirs.is_empty());
    assert_eq!((sess.next_channel_id, sess.next_file_id), (1, 1));
    assert!(!sess.session_was_dropped);
    assert!(!sess.shown_accept_env_error);
}

#[test]
fn a_sign_of_life_is_due_after_the_interval() {
    let mut sess = session(&[]);
    assert!(sess.do_keepalive(Backend::LibSsh, u128::MAX, 5).is_none());
    sess.keep_alive = Some(100);
    assert!(sess.do_keepalive(Backend::LibSsh, 99, 6).is_none());
    assert!(sess.do_keepalive(Backend::Ssh2, 100, 7).is_none());
    assert_eq!(sess.last_keep_alive, 0);
    assert_eq!(sess.do_keepalive(Backend::LibSsh, 100, 8), Some(vec![0x42; 128]));
    assert_eq!(sess.last_keep_alive, 8);
    sess.keep_alive = Some(0);
    assert_eq!(sess.do_keepalive(Backend::LibSsh, 0, 9), Some(vec![0x42; 128]));
}

#[test]
fn the_identity_agent_is_configured_or_found_in_the_environment() {
    let env = || Some("/env".to_string());
    let sess = session(&[("identityagent", "/configured")]);
    assert_eq!(sess.identity_agent(env()), Some("/configured".to_string()));
    assert_eq!(sess.identity_agent(None), Some("/configured".to_string()));
    let other = ConfigMap::new();
    assert_eq!(sess.identity_agent_for_config(&other, env()), env());
    assert_eq!(sess.identity_agent_for_config(&other, None), None);
    assert_eq!(session(&[]).identity_agent(env()), env());
}

#[test]
fn a_signal_needs_a_channel() {
    let mut sess = session(&[]);
    let (result, _exits) = run_command(&mut sess, "sleep 100");
    let signal = |channel| SignalChannel { channel, signame: "HUP" };
    assert_eq!(sess.signal_channel(&signal(result.child)).ok(), Some(result.child));
    match sess.signal_channel(&signal(99)) {
        Err(failure) => assert_eq!(failure.to_line(), "invalid channel id 99"),
        Ok(id) => panic!("{}", id),
    }
}

#[test]
fn channels_get_fresh_numbers() {
    let mut sess = session(&[]);
    let (a, _) = run_command(&mut sess, "one");
    let (b, _) = run_command(&mut sess, "two");
    assert_eq!((a.child, b.child, sess.next_channel_id), (1, 2, 3));
    assert_eq!(sess.allocate_channel_id(), 3);
    assert_eq!(sess.channels.len(), 2);
    sess.insert_channel(3, "third", None, None, None, None);
    assert_eq!(sess.channels[&3].channel, "third");
    assert_eq!(sess.channels[&3].channel_id, 3);
}

#[test]
fn the_streams_of_a_command_are_connected() {
    let mut sess = session(&[]);
    let (mut result, _) = run_command(&mut sess, "cat");
    let info = sess.channels.get_mut(&result.child).unwrap();
    let mut seen = [0; 16];
    result.stdin.write_all(b"in").unwrap();
    assert_eq!(info.descriptors[0].fd.as_mut().unwrap().read(&mut seen).unwrap(), 2);
    assert_eq!(&seen[..2], b"in");
    info.descriptors[1].fd.as_mut().unwrap().write_all(b"out").unwrap();
    assert_eq!(result.stdout.read(&mut seen).unwrap(), 3);
    assert_eq!(&seen[..3], b"out");
    info.descriptors[2].fd.as_mut().unwrap().write_all(b"err!").unwrap();
    assert_eq!(result.stderr.read(&mut seen).unwrap(), 4);
    assert_eq!(&seen[..4], b"err!");
    assert!(info.exit.is_some() && !info.exited);
    assert!(info.descriptors.iter().all(|d| d.buf.len() == 0));
}

#[test]
fn refused_requests_do_not_keep_a_command_from_running() {
    let mut sess = session(&[("forwardagent", "yes")]);
    let env = vec![("LANG".to_string(), "C".to_string()), ("TERM".to_string(), "x".to_string())];
    let exec = Exec { command_line: "true".to_string(), env: Some(env) };
    let (task, action) = sess.exec(exec);
    assert!(matches!(action, ExecAction::OpenSession));
    let (task, action) = sess.exec_step(task, ExecEvent::Opened(Ok("channel")));
    assert!(matches!(action, ExecAction::LookupAgent));
    let (task, action) = sess.exec_step(task, ExecEvent::AgentEnv(Some("/env".to_string())));
    assert!(matches!(action, ExecAction::RequestAgentForwarding("channel")));
    let refused = || ExecEvent::Requested("channel", Err(failure("refused")));
    let (task, action) = sess.exec_step(task, refused());
    let logged = |action| match action {
        ExecAction::<Plain, Failure>::Report(failure) => failure.to_line(),
        _ => panic!("nothing is logged"),
    };
    assert_eq!(logged(action), "Failed to request agent forwarding: refused");
    let (task, action) = sess.exec_step(task, ExecEvent::Done);
    assert!(matches!(action, ExecAction::RequestEnv("channel", n, v) if n == "LANG" && v == "C"));
    let deep = failure("refused").context("denied".to_string());
    let (task, action) = sess.exec_step(task, ExecEvent::Requested("channel", Err(deep)));
    assert_eq!(
        logged(action),
        "ssh: setenv LANG=C failed: denied. \
         Check the AcceptEnv setting on the ssh server side."
    );
    let (task, action) = sess.exec_step(task, ExecEvent::Done);
    assert!(matches!(action, ExecAction::RequestEnv("channel", n, v) if n == "TERM" && v == "x"));
    let (task, action) = sess.exec_step(task, ExecEvent::Requested("channel", Ok(())));
    assert!(matches!(action, ExecAction::RequestExec("channel", line) if line == "true"));
    let (_, action) = sess.exec_step(task, refused());
    assert!(matches!(action, ExecAction::Finished(Err(f)) if f.to_line() == "refused"));
    assert_eq!((sess.channels.len(), sess.next_channel_id), (0, 1));
}

#[test]
fn a_command_without_an_agent_asks_for_none() {
    for (options, env) in [
        (vec![("forwardagent", "yes")], None),
        (vec![("forwardagent", "no"), ("identityagent", "/a")], None),
    ] {
        let mut sess = session(&options);
        let exec = Exec { command_line: "true".to_string(), env: None };
        let (task, _) = sess.exec(exec);
        let (task, mut action) = sess.exec_step(task, ExecEvent::Opened(Ok("channel")));
        if let ExecAction::LookupAgent = action {
            action = sess.exec_step(task, ExecEvent::AgentEnv(env)).1;
        }
        assert!(matches!(action, ExecAction::RequestExec("channel", _)));
    }
    let mut sess = session(&[("forwardagent", "yes"), ("identityagent", "/a")]);
    let (task, _) = sess.exec(Exec { command_line: "true".to_string(), env: None });
    let (_, action) = sess.exec_step(task, ExecEvent::Opened(Ok("channel")));
    assert!(matches!(action, ExecAction::RequestAgentForwarding("channel")));
}

#[test]
fn a_command_that_cannot_be_started_leaves_no_channel() {
    let fails = |at: usize| {
        let mut sess = session(&[]);
        let exec = Exec { command_line: "true".to_string(), env: Some(Vec::new()) };
        let (mut task, mut action) = sess.exec(exec);
        let mut step = 0;
        loop {
            let fail = step == at;
            let ev = match action {
                ExecAction::OpenSession if fail => ExecEvent::Opened(Err(failure("no"))),
                ExecAction::OpenSession => ExecEvent::Opened(Ok("channel")),
                ExecAction::RequestExec(c, _) if fail => ExecEvent::Requested(c, Err(failure("no"))),
                ExecAction::RequestExec(c, _) => ExecEvent::Requested(c, Ok(())),
                ExecAction::Socketpair if fail => ExecEvent::Paired(Err(failure("no"))),
                ExecAction::Socketpair => ExecEvent::Paired(Ok(socketpair().unwrap())),
                ExecAction::SetNonBlocking(_) if fail => ExecEvent::NonBlocking(Err(failure("no"))),
                ExecAction::SetNonBlocking(fd) => ExecEvent::NonBlocking(Ok(fd)),
                ExecAction::Finished(Err(failure)) => {
                    assert_eq!(failure.to_line(), "no");
                    assert!(sess.channels.is_empty());
                    return sess.next_channel_id;
                }
                _ => panic!("not expected here"),
            };
            let (next, next_action) = sess.exec_step(task, ev);
            task = next;
            action = next_action;
            step += 1;
        }
    };
    let numbers: Vec<usize> = (0..8).map(fails).collect();
    assert_eq!(numbers, [1, 1, 2, 2, 2, 2, 2, 2]);
}

#[test]
fn output_reaches_the_caller_and_the_channel_goes() {
    let mut sess = session(&[]);
    let (mut result, exits) = run_command(&mut sess, "printf two-jump-ok");
    let mut process = Process::new();
    process.output[0].push_back(Ok(b"two-".to_vec()));
    process.output[0].push_back(Ok(b"jump".to_vec()));
    process.output[0].push_back(Ok(b"-ok".to_vec()));
    process.output[0].push_back(Ok(Vec::new()));
    process.output[0].push_back(Ok(Vec::new()));
    for _ in 0..5 {
        process.output[1].push_back(Ok(Vec::new()));
    }
    let writable = |e: &Waiting| if interest(e).write { 1 } else { 0 };
    let (mut task, _) = sess.request_loop();
    for _ in 0..5 {
        task = turn(&mut sess, task, &mut process, writable).0;
    }
    let mut output = String::new();
    result.stdout.read_to_string(&mut output).unwrap();
    assert_eq!(output, "two-jump-ok");
    process.status = Some(ExitStatus::with_exit_code(0));
    assert_eq!(sess.channels.len(), 1);
    drop(result.stdin);
    let readable = |e: &Waiting| if interest(e).read { 1 } else { 0 };
    task = turn(&mut sess, task, &mut process, readable).0;
    assert!(exits.try_recv().unwrap().success());
    assert!(exits.try_recv().is_err());
    sess.session_was_dropped = true;
    let (_, end, _) = turn(&mut sess, task, &mut process, |_| 0);
    assert!(sess.channels.is_empty());
    assert!(matches!(end, Turn::Ended(Ok(()))));
}

#[test]
fn input_reaches_the_process_in_order() {
    let mut sess = session(&[]);
    let (mut result, _exits) = run_command(&mut sess, "cat");
    let mut process = Process::new();
    let readable = |e: &Waiting| if interest(e).read { 1 } else { 0 };
    let (mut task, _) = sess.request_loop();
    for piece in ["first ", "second ", "third"] {
        result.stdin.write_all(piece.as_bytes()).unwrap();
        task = turn(&mut sess, task, &mut process, readable).0;
    }
    turn(&mut sess, task, &mut process, |_| 0);
    assert_eq!(process.input, b"first second third");
}

#[test]
fn a_failed_write_to_the_process_closes_its_input() {
    let mut sess = session(&[]);
    let (mut result, _exits) = run_command(&mut sess, "cat");
    let mut process = Process::new();
    process.input_fails = true;
    let readable = |e: &Waiting| if interest(e).read { 1 } else { 0 };
    let (task, _) = sess.request_loop();
    result.stdin.write_all(b"lost").unwrap();
    let (task, _, _) = turn(&mut sess, task, &mut process, readable);
    turn(&mut sess, task, &mut process, |_| 0);
    let info = &sess.channels[&result.child];
    assert!(info.descriptors[0].fd.is_none());
    assert!(info.descriptors[1].fd.is_some() && info.descriptors[2].fd.is_some());
    assert_eq!(pending(&info.descriptors[0].buf), b"lost");
}

#[test]
fn output_that_waits_keeps_its_stream_open() {
    let mut sess = session(&[]);
    let (result, _exits) = run_command(&mut sess, "printf x");
    let mut process = Process::new();
    process.output[0].push_back(Ok(b"x".to_vec()));
    process.output[0].push_back(Ok(Vec::new()));
    process.output[1].push_back(Err(broken()));
    round(&mut sess, &mut process);
    round(&mut sess, &mut process);
    let info = &sess.channels[&result.child];
    assert!(info.descriptors[1].fd.is_some());
    assert_eq!(pending(&info.descriptors[1].buf), b"x");
    assert!(info.descriptors[2].fd.is_none());
}

#[test]
fn a_stream_that_is_full_is_not_read() {
    let mut sess = session(&[]);
    let (result, _exits) = run_command(&mut sess, "yes");
    let mut process = Process::new();
    process.output[0].push_back(Ok(vec![b'y'; 8192]));
    process.output[0].push_back(Ok(vec![b'z'; 1]));
    round(&mut sess, &mut process);
    round(&mut sess, &mut process);
    assert_eq!(sess.channels[&result.child].descriptors[1].buf.len(), 8192);
    assert_eq!(process.output[0].len(), 1);
}

#[test]
fn a_stream_goes_by_the_capacity_of_its_queue() {
    let mut sess = session(&[]);
    let (result, _exits) = run_command(&mut sess, "yes");
    let info = sess.channels.get_mut(&result.child).unwrap();
    info.descriptors[1].buf = ByteQueue::with_capacity(0);
    info.descriptors[2].buf = ByteQueue::with_capacity(3);
    let (task, _) = sess.tick_io();
    let (_, action) = sess.tick_step(task, TickEvent::Exited(None));
    assert!(matches!(action, TickAction::ReadChannel(1, 1, 3)));
}

#[test]
fn a_round_changes_only_the_visited_channel() {
    let mut sess = session(&[]);
    let (a, _x) = run_command(&mut sess, "one");
    let (b, _y) = run_command(&mut sess, "two");
    let (mut task, mut action) = sess.tick_io();
    loop {
        let ev = match action {
            TickAction::AskExit(_) => TickEvent::Exited(None),
            TickAction::ReadChannel(id, 0, _) if id == a.child => {
                TickEvent::Read(Ok(b"for one".to_vec()))
            }
            TickAction::ReadChannel(_, _, _) => TickEvent::Read(Err(would_block())),
            TickAction::Finished => break,
            _ => panic!("nothing to write or to send"),
        };
        let (next, next_action) = sess.tick_step(task, ev);
        task = next;
        action = next_action;
    }
    assert_eq!(pending(&sess.channels[&a.child].descriptors[1].buf), b"for one");
    assert_eq!(pending(&sess.channels[&b.child].descriptors[1].buf), b"");
}

#[test]
fn every_open_stream_is_waited_for() {
    let mut sess = session(&[]);
    let (result, _exits) = run_command(&mut sess, "one");
    let mut process = Process::new();
    let (task, _) = sess.request_loop();
    let (task, _, _) = turn(&mut sess, task, &mut process, |_| 0);
    let entries = |task: &LoopTask| -> Vec<(usize, usize, Interest)> {
        let list = task.waits();
        let input = Wanted::This(Interest { read: true, write: false });
        assert_eq!(list[0], Waiting { source: Source::RequestPipe, wanted: input });
        assert_eq!(list[1], Waiting { source: Source::Session, wanted: Wanted::Own });
        let streams = list[2..].iter().map(|waiting| match waiting.source {
            Source::Stream(id, n) => (id, n, interest(waiting)),
            other => panic!("{:?}", other),
        });
        streams.collect()
    };
    let read = Interest { read: true, write: false };
    let write = Interest { read: false, write: true };
    let none = Interest { read: false, write: false };
    let id = result.child;
    assert_eq!(entries(&task), [(id, 0, read), (id, 1, none), (id, 2, none)]);
    process.output[0].push_back(Ok(b"x".to_vec()));
    let (task, _, _) = turn(&mut sess, task, &mut process, |_| 0);
    assert_eq!(entries(&task), [(id, 0, read), (id, 1, write), (id, 2, none)]);
    process.status = Some(ExitStatus::with_exit_code(1));
    process.output[1].push_back(Err(broken()));
    let (task, _, _) = turn(&mut sess, task, &mut process, |_| 0);
    assert_eq!(entries(&task), [(id, 0, read), (id, 1, write)]);
}

#[test]
fn waits_double_until_something_happens() {
    let mut sess = session(&[]);
    let (_result, _exits) = run_command(&mut sess, "one");
    let mut process = Process::new();
    let (mut task, _) = sess.request_loop();
    let mut waits = Vec::new();
    for n in 0..6 {
        let ready = move |e: &Waiting| if n == 3 && interest(e).read { 1 } else { 0 };
        let (next, _, waited) = turn(&mut sess, task, &mut process, ready);
        task = next;
        waits.extend(waited);
    }
    assert_eq!(FIRST_DELAY, 100);
    assert_eq!(waits, [100, 200, 400, 800, 100, 200]);
}

/// Goes from the start of a turn to its wait.
fn up_to_the_wait(sess: &mut Session, task: LoopTask) -> (LoopTask, u128) {
    let (task, _) = sess.loop_step(task, LoopEvent::Done);
    let (task, _) = sess.loop_step(task, LoopEvent::Done);
    let (task, action) = sess.loop_step(task, LoopEvent::Done);
    assert!(matches!(action, LoopAction::DispatchOne));
    let (task, action) = sess.loop_step(task, LoopEvent::Dispatched(Ok(true)));
    assert!(matches!(action, LoopAction::DispatchOne));
    let (task, action) = sess.loop_step(task, LoopEvent::Dispatched(Ok(false)));
    assert!(matches!(action, LoopAction::ConnectAgents));
    match sess.loop_step(task, LoopEvent::Done) {
        (task, LoopAction::Poll(delay)) => (task, delay),
        _ => panic!("the loop does not wait"),
    }
}

#[test]
fn a_wait_is_reset_by_the_session_too() {
    let mut sess = session(&[]);
    let (mut task, _) = sess.request_loop();
    for expected in [100, 200, 400, 800] {
        let (next, delay) = up_to_the_wait(&mut sess, task);
        assert_eq!(delay, expected);
        task = sess.loop_step(next, LoopEvent::Polled(Ok(vec![0, 0]))).0;
    }
    for revents in [vec![0, 4], vec![1, 0]] {
        let (next, _) = up_to_the_wait(&mut sess, task);
        let (next, action) = sess.loop_step(next, LoopEvent::Polled(Ok(revents)));
        assert!(matches!(action, LoopAction::Keepalive));
        assert_eq!(next.delay(), 100);
        task = next;
    }
}

#[test]
fn the_loop_ends_with_the_failure() {
    let mut sess = session(&[]);
    let (task, _) = sess.request_loop();
    let (task, _) = sess.loop_step(task, LoopEvent::Done);
    let (task, _) = sess.loop_step(task, LoopEvent::Done);
    let (task, action) = sess.loop_step(task, LoopEvent::Done);
    assert!(matches!(action, LoopAction::DispatchOne));
    let closed = LoopEvent::Dispatched(Err(failure("all clients are closed")));
    match sess.loop_step(task, closed).1 {
        LoopAction::Finished(Err(f)) => assert_eq!(f.to_line(), "all clients are closed"),
        _ => panic!("the loop goes on"),
    }
    let (task, _) = sess.request_loop();
    let (task, _) = sess.loop_step(task, LoopEvent::Done);
    let (task, _) = sess.loop_step(task, LoopEvent::Done);
    let (task, _) = sess.loop_step(task, LoopEvent::Done);
    let (task, _) = sess.loop_step(task, LoopEvent::Dispatched(Ok(false)));
    let (task, action) = sess.loop_step(task, LoopEvent::Done);
    assert!(matches!(action, LoopAction::Poll(100)));
    match sess.loop_step(task, LoopEvent::Polled(Err(failure("EINVAL")))).1 {
        LoopAction::Finished(Err(f)) => assert_eq!(f.to_line(), "poll: EINVAL"),
        _ => panic!("the loop goes on"),
    }
}

#[test]
fn the_loop_goes_on_while_a_channel_is_there() {
    let mut sess = session(&[]);
    let (_result, _exits) = run_command(&mut sess, "one");
    sess.session_was_dropped = true;
    let (task, _) = sess.request_loop();
    let (_, end, _) = turn(&mut sess, task, &mut Process::new(), |_| 0);
    assert!(matches!(end, Turn::Waited));
    let mut idle = session(&[]);
    let (task, _) = idle.request_loop();
    let (task, end, _) = turn(&mut idle, task, &mut Process::new(), |_| 0);
    assert!(matches!(end, Turn::Waited));
    idle.session_was_dropped = true;
    let (_, end, _) = turn(&mut idle, task, &mut Process::new(), |_| 0);
    assert!(matches!(end, Turn::Ended(Ok(()))));
}

#[test]
fn spent_output_streams_are_closed_on_the_way() {
    let mut sess = session(&[]);
    let (result, _exits) = run_command(&mut sess, "one");
    let mut process = Process::new();
    process.status = Some(ExitStatus::with_exit_code(0));
    let (task, _) = sess.request_loop();
    let writable = |e: &Waiting| if interest(e).write { 1 } else { 0 };
    turn(&mut sess, task, &mut process, writable);
    let info = &sess.channels[&result.child];
    assert!(info.exited);
    assert!(info.descriptors[0].fd.is_some());
    assert!(info.descriptors[1].fd.is_none() && info.descriptors[2].fd.is_none());
}

#[test]
fn a_reader_who_is_gone_closes_the_stream() {
    let mut sess = session(&[]);
    let (result, _exits) = run_command(&mut sess, "one");
    let buf = &mut sess.channels.get_mut(&1).unwrap().descriptors[1].buf;
    assert!(read_into_buf(Ok(b"abc".to_vec()), buf).is_ok());
    let (task, _) = sess.request_loop();
    let (task, _) = sess.loop_step(task, LoopEvent::Done);
    let (task, _) = sess.loop_step(task, LoopEvent::Done);
    let (task, _) = sess.loop_step(task, LoopEvent::Done);
    let (task, _) = sess.loop_step(task, LoopEvent::Dispatched(Ok(false)));
    let (task, _) = sess.loop_step(task, LoopEvent::Done);
    let (task, action) = sess.loop_step(task, LoopEvent::Polled(Ok(vec![0, 0, 0, 4, 0])));
    assert!(matches!(action, LoopAction::WriteDescriptor(1, 1, bytes) if bytes == b"abc"));
    let (_, action) = sess.loop_step(task, LoopEvent::Wrote(Err(broken())));
    assert!(matches!(action, LoopAction::Keepalive));
    let info = &sess.channels[&result.child];
    assert!(info.descriptors[1].fd.is_none());
    assert_eq!(pending(&info.descriptors[1].buf), b"abc");
}

#[test]
fn the_end_of_input_closes_the_channel() {
    let mut sess = session(&[]);
    let (result, _exits) = run_command(&mut sess, "one");
    let (task, _) = sess.request_loop();
    let (task, _) = sess.loop_step(task, LoopEvent::Done);
    let (task, _) = sess.loop_step(task, LoopEvent::Done);
    let (task, _) = sess.loop_step(task, LoopEvent::Done);
    let (task, _) = sess.loop_step(task, LoopEvent::Dispatched(Ok(false)));
    let (task, _) = sess.loop_step(task, LoopEvent::Done);
    let (task, action) = sess.loop_step(task, LoopEvent::Polled(Ok(vec![0, 0, 1, 0, 0])));
    assert!(matches!(action, LoopAction::ReadDescriptor(1, 8192)));
    let (task, action) = sess.loop_step(task, LoopEvent::Read(Ok(Vec::new())));
    assert!(matches!(action, LoopAction::CloseChannel(1)));
    assert!(sess.channels[&result.child].descriptors[0].fd.is_some());
    let (_, action) = sess.loop_step(task, LoopEvent::Done);
    assert!(matches!(action, LoopAction::Keepalive));
    assert!(sess.channels[&result.child].descriptors[0].fd.is_none());
}

fn agent_pair() -> (FileDescriptor, FileDescriptor) {
    socketpair().unwrap()
}

#[test]
fn agent_channels_are_connected() {
    let mut sess = session(&[("identityagent", "/agent")]);
    let (task, action) = sess.connect_pending_agent_forward_channels();
    assert!(matches!(action, AgentAction::Accept));
    let (task, action) = sess.agent_step(task, AgentEvent::Accepted(Some("first")));
    assert!(matches!(action, AgentAction::Connect(path) if path == "/agent"));
    let (ours, _theirs) = agent_pair();
    let (task, action) = sess.agent_step(task, AgentEvent::Descriptor(Ok(ours)));
    let fd = match action {
        AgentAction::SetNonBlocking(fd) => fd,
        _ => panic!("not made non-blocking"),
    };
    let (task, action) = sess.agent_step(task, AgentEvent::Descriptor(Ok(fd)));
    let fd = match action {
        AgentAction::Duplicate(fd) => fd,
        _ => panic!("not duplicated"),
    };
    let copy = fd.try_clone().unwrap();
    let (task, action) = sess.agent_step(task, AgentEvent::Duplicated(Ok((fd, copy))));
    assert!(matches!(action, AgentAction::Accept));
    let (task, action) = sess.agent_step(task, AgentEvent::Accepted(None));
    assert!(matches!(task, AgentTask::Finished));
    assert!(matches!(action, AgentAction::Finished));
    let info = &sess.channels[&1];
    assert_eq!(info.channel, "first");
    assert!(info.exit.is_none() && !info.exited);
    assert!(info.descriptors[0].fd.is_some() && info.descriptors[1].fd.is_some());
    assert!(info.descriptors[2].fd.is_none());
    assert_eq!(sess.next_channel_id, 2);
}

#[test]
fn agent_channels_that_fail_are_dropped() {
    let mut sess = session(&[]);
    let (task, _) = sess.connect_pending_agent_forward_channels();
    let (task, action) = sess.agent_step(task, AgentEvent::Accepted(Some("first")));
    assert!(matches!(action, AgentAction::LookupAgent));
    let (task, action) = sess.agent_step(task, AgentEvent::AgentEnv(None));
    assert!(matches!(action, AgentAction::Report(f) if f.to_line() == "no identity agent in config"));
    assert_eq!(missing_agent().to_line(), "no identity agent in config");
    let (task, action) = sess.agent_step(task, AgentEvent::Done);
    assert!(matches!(action, AgentAction::Accept));
    let (task, _) = sess.agent_step(task, AgentEvent::Accepted(Some("second")));
    let (task, action) = sess.agent_step(task, AgentEvent::AgentEnv(Some("/env".to_string())));
    assert!(matches!(action, AgentAction::Connect(path) if path == "/env"));
    let (task, action) = sess.agent_step(task, AgentEvent::Descriptor(Err(failure("refused"))));
    assert!(matches!(action, AgentAction::Report(f) if f.to_line() == "refused"));
    let (task, action) = sess.agent_step(task, AgentEvent::Done);
    assert!(matches!(action, AgentAction::Accept));
    let (task, _) = sess.agent_step(task, AgentEvent::Accepted(Some("third")));
    let (task, _) = sess.agent_step(task, AgentEvent::AgentEnv(Some("/env".to_string())));
    let (task, _) = sess.agent_step(task, AgentEvent::Descriptor(Ok(agent_pair().0)));
    let (task, _) = sess.agent_step(task, AgentEvent::Descriptor(Ok(agent_pair().0)));
    let (task, action) = sess.agent_step(task, AgentEvent::Duplicated(Err(failure("no room"))));
    assert!(matches!(action, AgentAction::Report(f) if f.to_line() == "no room"));
    let (_, action) = sess.agent_step(task, AgentEvent::Done);
    assert!(matches!(action, AgentAction::Accept));
    assert!(sess.channels.is_empty());
    assert_eq!(sess.next_channel_id, 1);
}

type Answer = Result<ReplyValue<Plain, Vec<u8>>, Failure>;

/// What serving a request came to.
struct Served {
    blocking: Vec<bool>,
    actions: Vec<&'static str>,
    answers: Vec<(u32, Answer)>,
    logged: Vec<String>,
    result: Result<bool, Failure>,
}

fn wrap() -> SessionWrap<Plain> {
    SessionWrap { backend: Backend::LibSsh, session: (), sftp: None }
}

/// Serves a request; `opens` says how opening anything comes out.
fn serve(
    sess: &mut Session,
    wrap: &mut SessionWrap<Plain>,
    request: Result<SessionRequest<Plain>, RecvError>,
    opens: bool,
) -> Served {
    let mut served = Served {
        blocking: Vec::new(),
        actions: Vec::new(),
        answers: Vec::new(),
        logged: Vec::new(),
        result: Ok(false),
    };
    let mut request = Some(request);
    let (mut task, mut action) = sess.dispatch_one_request();
    loop {
        let open = |what| if opens { Ok(what) } else { Err(failure("not opened")) };
        let ev = match action {
            DispatchAction::TryRecv => DispatchEvent::Received(request.take().unwrap()),
            DispatchAction::SetBlocking(on) => {
                served.blocking.push(on);
                DispatchEvent::Done
            }
            DispatchAction::NewPty(_) => {
                served.actions.push("new_pty");
                DispatchEvent::Completed(Ok("pty"))
            }
            DispatchAction::ResizePty((columns, _)) => {
                served.actions.push("resize_pty");
                DispatchEvent::Completed(if columns > 0 {
                    Ok("resized")
                } else {
                    Err(failure("no columns"))
                })
            }
            DispatchAction::Exec(_) => {
                served.actions.push("exec");
                DispatchEvent::Completed(Err(failure("no exec")))
            }
            DispatchAction::SendSignal(_) => {
                served.actions.push("signal");
                DispatchEvent::Completed(Ok(""))
            }
            DispatchAction::OpenSftp => {
                served.actions.push("open_sftp");
                DispatchEvent::SftpOpened(open("sftp"))
            }
            DispatchAction::Sftp(op) => {
                let (name, ev) = match op {
                    SftpOp::Open(_) => ("open", DispatchEvent::FileOpened(open("file"))),
                    SftpOp::OpenDir(_) => ("open_dir", DispatchEvent::DirOpened(open("dir"))),
                    SftpOp::ReadDir(_) => ("read_dir", DispatchEvent::Completed(Ok("entries"))),
                    SftpOp::CreateDir(_) => ("create_dir", DispatchEvent::Completed(Ok(""))),
                    SftpOp::RemoveDir(_) => ("remove_dir", DispatchEvent::Completed(Ok(""))),
                    SftpOp::Metadata(_) => ("metadata", DispatchEvent::Completed(Ok(""))),
                    SftpOp::SymlinkMetadata(_) => {
                        ("symlink_metadata", DispatchEvent::Completed(Ok("")))
                    }
                    SftpOp::SetMetadata(_) => ("set_metadata", DispatchEvent::Completed(Ok(""))),
                    SftpOp::Symlink(_) => ("symlink", DispatchEvent::Completed(Ok(""))),
                    SftpOp::ReadLink(_) => ("read_link", DispatchEvent::Completed(Ok(""))),
                    SftpOp::Canonicalize(_) => ("canonicalize", DispatchEvent::Completed(Ok(""))),
                    SftpOp::Rename(_) => ("rename", DispatchEvent::Completed(Ok(""))),
                    SftpOp::RemoveFile(_) => {
                        ("remove_file", DispatchEvent::Completed(Err(failure("in use"))))
                    }
                };
                served.actions.push(name);
                ev
            }
            DispatchAction::File(_, op) => {
                let (name, ev) = match op {
                    FileOp::Write(_) => ("write", DispatchEvent::Completed(Ok("written"))),
                    FileOp::Read(max) => {
                        let mut buf = vec![0; max];
                        buf[..2].copy_from_slice(b"hi");
                        ("read", DispatchEvent::FileRead(Ok((buf, 2))))
                    }
                    FileOp::Flush => ("flush", DispatchEvent::Completed(Ok(""))),
                    FileOp::SetMetadata(_) => {
                        ("set_metadata_file", DispatchEvent::Completed(Ok("")))
                    }
                    FileOp::Metadata => ("metadata_file", DispatchEvent::Completed(Ok(""))),
                    FileOp::Fsync => ("fsync", DispatchEvent::Completed(Ok(""))),
                };
                served.actions.push(name);
                ev
            }
            DispatchAction::ReadDir(_) => {
                served.actions.push("read_open_dir");
                DispatchEvent::Completed(Ok("entry"))
            }
            DispatchAction::Reply(to, answer) => {
                served.answers.push((to, answer));
                DispatchEvent::Done
            }
            DispatchAction::Report(failure) => {
                served.logged.push(failure.to_line());
                DispatchEvent::Done
            }
            DispatchAction::Finished(result) => {
                served.result = result;
                assert!(matches!(task, DispatchTask::Finished));
                return served;
            }
        };
        let (next, next_action) = sess.dispatch_step(wrap, task, ev);
        task = next;
        action = next_action;
    }
}

fn file(request: FileRequest<Plain>) -> Result<SessionRequest<Plain>, RecvError> {
    Ok(SessionRequest::Sftp(SftpRequest::File(request)))
}

fn open_request(to: u32) -> Result<SessionRequest<Plain>, RecvError> {
    let msg = OpenWithMode { filename: path("/f"), opts: "read" };
    Ok(SessionRequest::Sftp(SftpRequest::OpenWithMode(msg, to)))
}

fn said(answer: &Answer) -> String {
    match answer {
        Ok(ReplyValue::Value(v)) => format!("value {}", v),
        Ok(ReplyValue::File(id)) => format!("file {}", id),
        Ok(ReplyValue::Dir(id)) => format!("dir {}", id),
        Ok(ReplyValue::Data(data)) => format!("data {:?}", data),
        Ok(ReplyValue::Unit) => "done".to_string(),
        Err(failure) => format!("failed: {}", failure.to_line()),
    }
}

#[test]
fn without_a_request_nothing_is_done() {
    let mut sess = session(&[]);
    let served = serve(&mut sess, &mut wrap(), Err(RecvError::Empty), true);
    assert!(matches!(served.result, Ok(false)));
    assert!(served.blocking.is_empty() && served.answers.is_empty());
    let served = serve(&mut sess, &mut wrap(), Err(RecvError::Closed), true);
    assert!(matches!(served.result, Err(f) if f.to_line() == "all clients are closed"));
}

#[test]
fn the_connection_blocks_while_a_request_is_served() {
    let mut sess = session(&[]);
    let requests: Vec<SessionRequest<Plain>> = vec![
        SessionRequest::SessionDropped,
        SessionRequest::NewPty("xterm", 1),
        SessionRequest::ResizePty((80, 24), Some(2)),
        SessionRequest::ResizePty((80, 24), None),
        SessionRequest::Exec(Exec { command_line: "ls".to_string(), env: None }, 3),
        SessionRequest::SignalChannel(SignalChannel { channel: 7, signame: "HUP" }),
        SessionRequest::Sftp(SftpRequest::RemoveFile(path("/f"), 4)),
    ];
    let mut said_all = Vec::new();
    let mut done = Vec::new();
    let mut connection = wrap();
    for request in requests {
        let served = serve(&mut sess, &mut connection, Ok(request), true);
        assert_eq!(served.blocking, [true, false]);
        assert!(matches!(served.result, Ok(true)));
        done.extend(served.actions);
        for (to, answer) in &served.answers {
            said_all.push(format!("{}: {}", to, said(answer)));
        }
    }
    assert!(sess.session_was_dropped);
    assert_eq!(
        said_all,
        ["1: value pty", "2: value resized", "3: failed: no exec", "4: failed: in use"]
    );
    assert_eq!(
        done,
        ["new_pty", "resize_pty", "resize_pty", "exec", "open_sftp", "remove_file"]
    );
    assert_eq!(connection.sftp, Some("sftp"));
}

#[test]
fn a_signal_goes_to_its_channel() {
    let mut sess = session(&[]);
    let (result, _exits) = run_command(&mut sess, "sleep 100");
    let info = SignalChannel { channel: result.child, signame: "HUP" };
    let served = serve(&mut sess, &mut wrap(), Ok(SessionRequest::SignalChannel(info)), true);
    assert_eq!(served.actions, ["signal"]);
    assert!(served.answers.is_empty());
}

#[test]
fn a_failure_without_an_answer_is_logged() {
    let mut sess = session(&[]);
    let info = SignalChannel { channel: 7, signame: "HUP" };
    let served = serve(&mut sess, &mut wrap(), Ok(SessionRequest::SignalChannel(info)), true);
    assert_eq!(served.logged, ["invalid channel id 7"]);
    assert_eq!(served.blocking, [true, false]);
    assert!(served.actions.is_empty() && served.answers.is_empty());
    let resize = SessionRequest::ResizePty((0, 0), None);
    let served = serve(&mut sess, &mut wrap(), Ok(resize), true);
    assert_eq!(served.logged, ["no columns"]);
    assert!(served.answers.is_empty());
    let resize = SessionRequest::ResizePty((0, 0), Some(1));
    let served = serve(&mut sess, &mut wrap(), Ok(resize), true);
    assert!(served.logged.is_empty());
    assert_eq!(said(&served.answers[0].1), "failed: no columns");
}

#[test]
fn the_file_transfer_subsystem_is_opened_once() {
    let mut sess = session(&[]);
    let mut connection = wrap();
    let read_dir = |to| Ok(SessionRequest::Sftp(SftpRequest::ReadDir(path("/"), to)));
    let served = serve(&mut sess, &mut connection, read_dir(1), false);
    assert_eq!(served.actions, ["open_sftp"]);
    assert_eq!(said(&served.answers[0].1), "failed: not opened");
    assert!(connection.sftp.is_none());
    let served = serve(&mut sess, &mut connection, read_dir(2), true);
    assert_eq!(served.actions, ["open_sftp", "read_dir"]);
    assert_eq!(said(&served.answers[0].1), "value entries");
    let served = serve(&mut sess, &mut connection, read_dir(3), true);
    assert_eq!(served.actions, ["read_dir"]);
    assert_eq!(served.answers[0].0, 3);
}

#[test]
fn the_file_transfer_subsystem_is_given_where_it_is_there() {
    let sess = session(&[]);
    let mut connection = wrap();
    assert!(matches!(sess.init_sftp(&mut connection, None), Ok(None)));
    match sess.init_sftp(&mut connection, Some(Err(failure("refused")))) {
        Err(failure) => assert_eq!(failure.to_line(), "refused"),
        Ok(_) => panic!("it was not opened"),
    }
    assert!(connection.sftp.is_none());
    assert!(matches!(sess.init_sftp(&mut connection, Some(Ok("first"))), Ok(Some(s)) if *s == "first"));
    assert!(matches!(sess.init_sftp(&mut connection, None), Ok(Some(s)) if *s == "first"));
    assert!(matches!(sess.init_sftp(&mut connection, Some(Ok("other"))), Ok(Some(s)) if *s == "first"));
    assert!(matches!(
        sess.init_sftp(&mut connection, Some(Err(failure("late")))),
        Ok(Some(s)) if *s == "first"
    ));
    assert_eq!((connection.sftp, connection.backend), (Some("first"), Backend::LibSsh));
}

#[test]
fn requests_have_names_in_the_log() {
    let name = |request: SessionRequest<Plain>| request_label(&request);
    let sftp = |request| SessionRequest::<Plain>::Sftp(request);
    assert_eq!(name(SessionRequest::NewPty("xterm", 1)), "NewPty");
    assert_eq!(name(SessionRequest::ResizePty((1, 1), Some(1))), "resize_pty");
    assert_eq!(name(sftp(SftpRequest::OpenDir(path("/"), 1))), "OpenDir");
    assert_eq!(name(sftp(SftpRequest::File(FileRequest::Close(1, 1)))), "close_file");
    assert_eq!(name(sftp(SftpRequest::Dir(DirRequest::Close(1, 1)))), "close_dir");
    assert_eq!(name(sftp(SftpRequest::RemoveFile(path("/"), 1))), "remove_file");
}

#[test]
fn each_operation_is_passed_on() {
    let mut sess = session(&[]);
    let mut connection = wrap();
    connection.sftp = Some("sftp");
    let p = || path("/p");
    let requests: Vec<(SftpRequest<Plain>, &str)> = vec![
        (SftpRequest::CreateDir(CreateDir { filename: p(), mode: 0o755 }, 1), "create_dir"),
        (SftpRequest::RemoveDir(p(), 1), "remove_dir"),
        (SftpRequest::Metadata(p(), 1), "metadata"),
        (SftpRequest::SymlinkMetadata(p(), 1), "symlink_metadata"),
        (SftpRequest::SetMetadata(SetMetadata { filename: p(), metadata: 5 }, 1), "set_metadata"),
        (SftpRequest::Symlink(Symlink { path: p(), target: p() }, 1), "symlink"),
        (SftpRequest::ReadLink(p(), 1), "read_link"),
        (SftpRequest::Canonicalize(p(), 1), "canonicalize"),
        (SftpRequest::Rename(Rename { src: p(), dst: p(), opts: "atomic" }, 1), "rename"),
        (SftpRequest::RemoveFile(p(), 1), "remove_file"),
    ];
    for (request, name) in requests {
        let served = serve(&mut sess, &mut connection, Ok(SessionRequest::Sftp(request)), true);
        assert_eq!(served.actions, [name]);
        assert_eq!(served.answers.len(), 1);
    }
}

#[test]
fn an_open_file_can_be_worked_on_until_it_is_closed() {
    let mut sess = session(&[]);
    let mut connection = wrap();
    let served = serve(&mut sess, &mut connection, open_request(1), true);
    assert_eq!(served.actions, ["open_sftp", "open"]);
    assert_eq!(said(&served.answers[0].1), "file 1");
    assert_eq!((sess.files.get(&1), sess.next_file_id), (Some(&"file"), 2));
    let mut ask = |request| {
        let served = serve(&mut sess, &mut connection, file(request), true);
        assert_eq!(served.answers.len(), 1);
        said(&served.answers[0].1)
    };
    let write = || FileRequest::Write(WriteFile { file_id: 1, data: b"x".to_vec() }, 2);
    let read = || FileRequest::Read(ReadFile { file_id: 1, max_bytes: 10 }, 3);
    let set = || FileRequest::SetMetadata(SetMetadataFile { file_id: 1, metadata: 5 }, 4);
    assert_eq!(ask(write()), "value written");
    assert_eq!(ask(read()), "data [104, 105]");
    assert_eq!(ask(set()), "value ");
    assert_eq!(ask(FileRequest::Flush(1, 5)), "value ");
    assert_eq!(ask(FileRequest::Metadata(1, 5)), "value ");
    assert_eq!(ask(FileRequest::Fsync(1, 5)), "value ");
    assert_eq!(ask(FileRequest::Close(1, 6)), "done");
    assert_eq!(ask(write()), "failed: invalid file_id");
    assert_eq!(ask(read()), "failed: invalid file_id");
    assert_eq!(ask(set()), "failed: invalid file_id");
    assert_eq!(ask(FileRequest::Flush(1, 5)), "failed: invalid file_id");
    assert_eq!(ask(FileRequest::Metadata(1, 5)), "failed: invalid file_id");
    assert_eq!(ask(FileRequest::Fsync(1, 5)), "failed: invalid file_id");
    assert_eq!(ask(FileRequest::Close(1, 6)), "done");
}

#[test]
fn an_open_directory_can_be_read_until_it_is_closed() {
    let mut sess = session(&[]);
    let mut connection = wrap();
    let open = Ok(SessionRequest::Sftp(SftpRequest::OpenDir(path("/d"), 1)));
    let served = serve(&mut sess, &mut connection, open, true);
    assert_eq!(said(&served.answers[0].1), "dir 1");
    let mut ask = |request| {
        let request = Ok(SessionRequest::Sftp(SftpRequest::Dir(request)));
        said(&serve(&mut sess, &mut connection, request, true).answers[0].1)
    };
    assert_eq!(ask(DirRequest::ReadDir(1, 2)), "value entry");
    assert_eq!(ask(DirRequest::Close(1, 3)), "done");
    assert_eq!(ask(DirRequest::Close(1, 4)), "failed: invalid dir_id");
    assert_eq!(ask(DirRequest::ReadDir(1, 5)), "failed: invalid dir_id");
}

#[test]
fn files_and_directories_share_their_numbers() {
    let mut sess = session(&[]);
    let mut connection = wrap();
    connection.sftp = Some("sftp");
    let dir = || Ok(SessionRequest::Sftp(SftpRequest::OpenDir(path("/d"), 1)));
    let mut ids = Vec::new();
    for request in [open_request(1), dir(), open_request(1), dir()] {
        ids.push(said(&serve(&mut sess, &mut connection, request, true).answers[0].1));
    }
    assert_eq!(ids, ["file 1", "dir 2", "file 3", "dir 4"]);
    let served = serve(&mut sess, &mut connection, open_request(1), false);
    assert_eq!(said(&served.answers[0].1), "failed: not opened");
    let served = serve(&mut sess, &mut connection, dir(), false);
    assert_eq!(said(&served.answers[0].1), "failed: not opened");
    assert_eq!(sess.next_file_id, 5);
    assert!(matches!(sess.open_with_mode(Ok("more")), Ok(5)));
    assert!(matches!(sess.open_dir(Ok("more")), Ok(6)));
    assert!(matches!(sess.open_dir(Err(failure("x"))), Err(f) if f.to_line() == "x"));
}
