//! Byte queues and the bridge.

use ssh_session::bridge::{
    Bridge, BridgeAction, BridgeEvent, BridgePhase, BridgeWait, Interest, Wanted, BRIDGE_DELAY,
};
use ssh_session::failure::{Failure, IoError, IoErrorKind};
use ssh_session::iobuf::{
    new_buf, pending, read_into_buf, room, write_from_buf, ByteQueue, BUF_CAPACITY,
};
use std::collections::VecDeque;

fn would_block() -> IoError {
    IoError { kind: IoErrorKind::WouldBlock, message: "Would block".to_string() }
}

fn broken() -> IoError {
    IoError { kind: IoErrorKind::Other, message: "broken pipe".to_string() }
}

fn waits_for(read: bool, write: bool) -> BridgeWait {
    BridgeWait {
        session: Wanted::Own,
        socket: Wanted::This(Interest { read, write }),
        milliseconds: 100,
    }
}

fn queue(bytes: &[u8]) -> ByteQueue {
    let mut buf = new_buf();
    assert!(read_into_buf(Ok(bytes.to_vec()), &mut buf).is_ok());
    buf
}

#[test]
fn a_queue_holds_8192_bytes() {
    assert_eq!(BUF_CAPACITY, 8192);
    assert_eq!(room(&new_buf()), 8192);
    assert_eq!(room(&queue(b"abc")), 8189);
    assert_eq!(new_buf().capacity(), 8192);
    assert_eq!(VecDeque::<u8>::with_capacity(8192).capacity(), 8192);
}

#[test]
fn a_queue_goes_by_its_own_capacity() {
    let none = ByteQueue::with_capacity(0);
    assert_eq!((none.capacity(), none.len(), room(&none)), (0, 0, 0));
    assert_eq!(VecDeque::<u8>::new().capacity(), 0);
    let mut small = ByteQueue::with_capacity(5);
    assert!(read_into_buf(Ok(b"abc".to_vec()), &mut small).is_ok());
    assert_eq!(room(&small), 2);
    assert!(read_into_buf(Ok(b"de".to_vec()), &mut small).is_ok());
    assert_eq!(room(&small), 0);
    assert!(read_into_buf(Ok(Vec::new()), &mut small).is_err());
    assert!(write_from_buf(Ok(4), &mut small).is_ok());
    assert_eq!((room(&small), small.capacity()), (4, 5));
    small.clear();
    assert_eq!((room(&small), small.len()), (5, 0));
}

#[test]
fn a_write_takes_from_the_front() {
    let mut buf = queue(b"hello");
    assert!(write_from_buf(Ok(2), &mut buf).is_ok());
    assert_eq!(pending(&buf), b"llo");
    assert!(write_from_buf(Ok(0), &mut buf).is_ok());
    assert_eq!(pending(&buf), b"llo");
    assert!(write_from_buf(Ok(3), &mut buf).is_ok());
    assert_eq!(pending(&buf), b"");
}

#[test]
fn a_write_that_would_block_takes_nothing() {
    let mut buf = queue(b"hello");
    assert!(write_from_buf(Err(would_block()), &mut buf).is_ok());
    assert_eq!(pending(&buf), b"hello");
    match write_from_buf(Err(broken()), &mut buf) {
        Err(err) => assert_eq!(err.message, "broken pipe"),
        Ok(()) => panic!("a failed write is an error"),
    }
    assert_eq!(pending(&buf), b"hello");
}

#[test]
fn a_read_goes_to_the_end() {
    let mut buf = queue(b"ab");
    assert!(read_into_buf(Ok(b"cd".to_vec()), &mut buf).is_ok());
    assert_eq!(pending(&buf), b"abcd");
    assert!(read_into_buf(Err(would_block()), &mut buf).is_ok());
    assert_eq!(pending(&buf), b"abcd");
}

#[test]
fn a_read_of_nothing_is_the_end() {
    let mut buf = queue(b"ab");
    match read_into_buf(Ok(Vec::new()), &mut buf) {
        Err(err) => {
            assert_eq!(err.kind, IoErrorKind::UnexpectedEof);
            assert_eq!(err.message, "EOF");
        }
        Ok(()) => panic!("a read of nothing is an error"),
    }
    match read_into_buf(Err(broken()), &mut buf) {
        Err(err) => assert_eq!(err.message, "broken pipe"),
        Ok(()) => panic!("a failed read is an error"),
    }
    assert_eq!(pending(&buf), b"ab");
}

#[test]
fn what_is_read_is_written_after_what_waited() {
    let mut buf = queue(b"old");
    assert!(read_into_buf(Ok(b"new".to_vec()), &mut buf).is_ok());
    assert!(write_from_buf(Ok(3), &mut buf).is_ok());
    assert_eq!(pending(&buf), b"new");
}

/// One end of a bridge: what it will give, piece by piece, and what it has taken.
struct End {
    gives: VecDeque<Result<Vec<u8>, IoError>>,
    takes: usize,
    taken: Vec<u8>,
    write_fails: bool,
    ended: u32,
}

impl End {
    fn new(gives: Vec<&[u8]>, takes: usize) -> End {
        End {
            gives: gives.into_iter().map(|g| Ok(g.to_vec())).collect(),
            takes,
            taken: Vec::new(),
            write_fails: false,
            ended: 0,
        }
    }

    fn read(&mut self, max: usize) -> Result<Vec<u8>, IoError> {
        match self.gives.pop_front() {
            Some(Ok(data)) => {
                assert!(data.len() <= max);
                Ok(data)
            }
            Some(Err(err)) => Err(err),
            None => Ok(Vec::new()),
        }
    }

    fn write(&mut self, bytes: &[u8]) -> Result<usize, IoError> {
        assert_eq!(self.ended, 0);
        if self.write_fails {
            return Err(broken());
        }
        let n = bytes.len().min(self.takes);
        self.taken.extend_from_slice(&bytes[..n]);
        Ok(n)
    }
}

fn run(channel: &mut End, socket: &mut End) -> (u32, Result<(), Failure>) {
    let (mut bridge, mut action) = Bridge::new();
    let mut polls = 0;
    let mut closed = 0;
    loop {
        let ev = match action {
            BridgeAction::UnblockSession | BridgeAction::UnblockSocket => BridgeEvent::Done,
            BridgeAction::WriteChannel(bytes) => BridgeEvent::Wrote(channel.write(&bytes)),
            BridgeAction::ReadChannel(max) => BridgeEvent::Read(channel.read(max)),
            BridgeAction::WriteSocket(bytes) => BridgeEvent::Wrote(socket.write(&bytes)),
            BridgeAction::ReadSocket(max) => BridgeEvent::Read(socket.read(max)),
            BridgeAction::SendEof => {
                channel.ended += 1;
                BridgeEvent::Done
            }
            BridgeAction::ShutdownWrite => {
                socket.ended += 1;
                BridgeEvent::Done
            }
            BridgeAction::Poll(_) => {
                polls += 1;
                assert!(polls < 1000);
                BridgeEvent::Done
            }
            BridgeAction::CloseChannel => {
                closed += 1;
                BridgeEvent::Done
            }
            BridgeAction::Finished(result) => return (closed, result),
        };
        action = bridge.step(ev);
    }
}

#[test]
fn a_bridge_carries_both_directions() {
    let mut channel = End::new(vec![b"from ", b"the ", b"channel"], 3);
    let mut socket = End::new(vec![b"from the", b" socket"], 4);
    let (closed, result) = run(&mut channel, &mut socket);
    assert!(result.is_ok());
    assert_eq!(closed, 1);
    assert_eq!(channel.taken, b"from the socket");
    assert_eq!(socket.taken, b"from the channel");
    assert_eq!((channel.ended, socket.ended), (1, 1));
}

#[test]
fn a_bridge_waits_where_a_read_would_block() {
    let mut channel = End::new(vec![b"c"], 8192);
    let mut socket = End::new(vec![b"s"], 8192);
    channel.gives.push_front(Err(would_block()));
    socket.gives.push_front(Err(would_block()));
    let (closed, result) = run(&mut channel, &mut socket);
    assert!(result.is_ok());
    assert_eq!(closed, 1);
    assert_eq!(channel.taken, b"s");
    assert_eq!(socket.taken, b"c");
}

#[test]
fn a_failed_write_to_the_channel_closes_that_direction() {
    let mut channel = End::new(vec![b"still delivered"], 8192);
    let mut socket = End::new(vec![b"lost", b"never read"], 8192);
    channel.write_fails = true;
    let (closed, result) = run(&mut channel, &mut socket);
    assert!(result.is_ok());
    assert_eq!(closed, 1);
    assert_eq!(channel.taken, b"");
    assert_eq!(channel.ended, 0);
    assert_eq!(socket.taken, b"still delivered");
    assert_eq!(socket.ended, 1);
    assert_eq!(socket.gives.len(), 1);
}

#[test]
fn a_failed_write_to_the_socket_closes_that_direction() {
    let mut channel = End::new(vec![b"lost", b"never read"], 8192);
    let mut socket = End::new(vec![b"still delivered"], 8192);
    socket.write_fails = true;
    let (closed, result) = run(&mut channel, &mut socket);
    assert!(result.is_ok());
    assert_eq!(closed, 1);
    assert_eq!(channel.taken, b"still delivered");
    assert_eq!(channel.ended, 1);
    assert_eq!(socket.taken, b"");
    assert_eq!(socket.ended, 0);
    assert_eq!(channel.gives.len(), 1);
}

#[test]
fn a_bridge_starts_by_making_both_sides_non_blocking() {
    let (mut bridge, action) = Bridge::new();
    assert!(matches!(action, BridgeAction::UnblockSession));
    assert!(matches!(bridge.step(BridgeEvent::Done), BridgeAction::UnblockSocket));
    assert!(matches!(bridge.step(BridgeEvent::Done), BridgeAction::ReadChannel(8192)));
    let next = bridge.step(BridgeEvent::Read(Ok(b"abc".to_vec())));
    assert!(matches!(next, BridgeAction::WriteSocket(bytes) if bytes == b"abc"));
    assert!(matches!(
        bridge.step(BridgeEvent::Wrote(Ok(1))),
        BridgeAction::ReadSocket(8192)
    ));
    let next = bridge.step(BridgeEvent::Read(Err(would_block())));
    assert!(matches!(next, BridgeAction::Poll(wait) if wait == waits_for(true, true)));
    assert_eq!(bridge.phase, BridgePhase::Poll);
    assert_eq!(BRIDGE_DELAY, 100);
    assert_eq!(pending(&bridge.channel_to_fd), b"bc");
}

#[test]
fn a_bridge_that_cannot_wait_ends_with_the_failure() {
    let (mut bridge, _) = Bridge::new();
    bridge.step(BridgeEvent::Done);
    bridge.step(BridgeEvent::Done);
    bridge.step(BridgeEvent::Read(Err(would_block())));
    let next = bridge.step(BridgeEvent::Read(Err(would_block())));
    assert!(matches!(next, BridgeAction::Poll(wait) if wait == waits_for(true, false)));
    let failure = Failure::message("no poll".to_string());
    match bridge.step(BridgeEvent::Failed(failure)) {
        BridgeAction::Finished(Err(failure)) => assert_eq!(failure.to_line(), "no poll"),
        other => panic!("{:?}", other),
    }
}

#[test]
fn a_bridge_whose_socket_stays_blocking_ends_at_once() {
    let (mut bridge, _) = Bridge::new();
    bridge.step(BridgeEvent::Done);
    match bridge.step(BridgeEvent::Failed(Failure::message("bad descriptor".to_string()))) {
        BridgeAction::Finished(Err(failure)) => assert_eq!(failure.to_line(), "bad descriptor"),
        other => panic!("{:?}", other),
    }
}

#[test]
fn a_full_queue_is_not_read_into() {
    let (mut bridge, _) = Bridge::new();
    bridge.step(BridgeEvent::Done);
    bridge.step(BridgeEvent::Done);
    bridge.step(BridgeEvent::Read(Ok(vec![7; 8192])));
    let next = bridge.step(BridgeEvent::Wrote(Err(would_block())));
    assert!(matches!(next, BridgeAction::ReadSocket(8192)));
    let next = bridge.step(BridgeEvent::Read(Ok(vec![9; 8192])));
    assert!(matches!(next, BridgeAction::Poll(wait) if wait == waits_for(false, true)));
    let next = bridge.step(BridgeEvent::Done);
    assert!(matches!(next, BridgeAction::WriteChannel(bytes) if bytes == vec![9; 8192]));
    let next = bridge.step(BridgeEvent::Wrote(Ok(8191)));
    assert!(matches!(next, BridgeAction::WriteSocket(bytes) if bytes == vec![7; 8192]));
    let next = bridge.step(BridgeEvent::Wrote(Err(would_block())));
    assert!(matches!(next, BridgeAction::ReadSocket(8191)));
}
