//! The bridge between a socket and a channel that tunnels a connection through a jump host.
//!
//! A [`Bridge`] decides; its driver performs. The driver carries out the action that it was given
//! last, and hands the outcome to [`Bridge::step`], which gives the next action.

use crate::failure::{Failure, IoError};
use crate::iobuf::{
    after_read, after_write, bytes_read, bytes_taken, ended, failed, new_buf, pending,
    read_into_buf, room, write_from_buf, ByteQueue, BUF_CAPACITY,
};
use vstd::prelude::*;

verus! {

/// What to wait for on a descriptor.
#[derive(Clone, Copy, Debug, PartialEq, Eq, Structural)]
pub struct Interest {
    /// Wait until it can be read.
    pub read: bool,
    /// Wait until it can be written.
    pub write: bool,
}

/// What is waited for on something that can be waited for.
#[derive(Clone, Copy, Debug, PartialEq, Eq, Structural)]
pub enum Wanted {
    /// What it asks for itself.
    Own,
    /// This.
    This(Interest),
}

/// How many milliseconds a bridge waits at most.
pub const BRIDGE_DELAY: u64 = 100;

/// What a bridge waits for, and how long at most.
#[derive(Clone, Copy, Debug, PartialEq, Eq, Structural)]
pub struct BridgeWait {
    /// What is waited for on the session.
    pub session: Wanted,
    /// What is waited for on the socket.
    pub socket: Wanted,
    /// How long at most.
    pub milliseconds: u64,
}

/// What the driver of a bridge is to do next.
#[derive(Debug)]
pub enum BridgeAction<B, F> {
    /// Make the session non-blocking.
    UnblockSession,
    /// Make the socket non-blocking.
    UnblockSocket,
    /// Write these bytes to the channel, as many as it takes.
    WriteChannel(B),
    /// Read at most that many bytes from the channel.
    ReadChannel(usize),
    /// Write these bytes to the socket, as many as it takes.
    WriteSocket(B),
    /// Read at most that many bytes from the socket.
    ReadSocket(usize),
    /// Tell the channel that no more data will come.
    SendEof,
    /// Shut the socket down for writing.
    ShutdownWrite,
    /// Wait for this.
    Poll(BridgeWait),
    /// Close the channel.
    CloseChannel,
    /// The bridge has ended with this result.
    Finished(Result<(), F>),
}

impl View for BridgeAction<Vec<u8>, Failure> {
    type V = BridgeAction<Seq<u8>, Seq<Seq<char>>>;

    open spec fn view(&self) -> BridgeAction<Seq<u8>, Seq<Seq<char>>> {
        match *self {
            BridgeAction::UnblockSession => BridgeAction::UnblockSession,
            BridgeAction::UnblockSocket => BridgeAction::UnblockSocket,
            BridgeAction::WriteChannel(bytes) => BridgeAction::WriteChannel(bytes@),
            BridgeAction::ReadChannel(max) => BridgeAction::ReadChannel(max),
            BridgeAction::WriteSocket(bytes) => BridgeAction::WriteSocket(bytes@),
            BridgeAction::ReadSocket(max) => BridgeAction::ReadSocket(max),
            BridgeAction::SendEof => BridgeAction::SendEof,
            BridgeAction::ShutdownWrite => BridgeAction::ShutdownWrite,
            BridgeAction::Poll(wait) => BridgeAction::Poll(wait),
            BridgeAction::CloseChannel => BridgeAction::CloseChannel,
            BridgeAction::Finished(Ok(_)) => BridgeAction::Finished(Ok(())),
            BridgeAction::Finished(Err(failure)) => BridgeAction::Finished(Err(failure@)),
        }
    }
}

/// How the action that was given last came out.
#[derive(Debug)]
pub enum BridgeEvent {
    /// It is done.
    Done,
    /// It failed.
    Failed(Failure),
    /// It was a write, which returned this.
    Wrote(Result<usize, IoError>),
    /// It was a read, which returned this.
    Read(Result<Vec<u8>, IoError>),
}

/// The action whose outcome a bridge waits for.
#[derive(Clone, Copy, Debug, PartialEq, Eq, Structural)]
pub enum BridgePhase {
    UnblockSession,
    UnblockSocket,
    WriteChannel,
    ReadChannel,
    WriteSocket,
    ReadSocket,
    SendEof,
    ShutdownWrite,
    Poll,
    CloseChannel,
    Finished,
}

/// The state of a bridge.
#[derive(Debug)]
pub struct Bridge {
    /// Bytes from the socket for the channel.
    pub fd_to_channel: ByteQueue,
    /// Bytes from the channel for the socket.
    pub channel_to_fd: ByteQueue,
    /// Whether the socket may still be read.
    pub fd_read_open: bool,
    /// Whether the socket may still be written.
    pub fd_write_open: bool,
    /// Whether the channel may still be read.
    pub channel_read_open: bool,
    /// Whether the channel may still be written.
    pub channel_write_open: bool,
    /// The action whose outcome is awaited.
    pub phase: BridgePhase,
}

/// The state of a bridge, with its queues as sequences.
pub struct BridgeView {
    pub fd_to_channel: Seq<u8>,
    pub channel_to_fd: Seq<u8>,
    pub fd_read_open: bool,
    pub fd_write_open: bool,
    pub channel_read_open: bool,
    pub channel_write_open: bool,
    pub phase: BridgePhase,
}

impl View for Bridge {
    type V = BridgeView;

    open spec fn view(&self) -> BridgeView {
        BridgeView {
            fd_to_channel: self.fd_to_channel@.bytes,
            channel_to_fd: self.channel_to_fd@.bytes,
            fd_read_open: self.fd_read_open,
            fd_write_open: self.fd_write_open,
            channel_read_open: self.channel_read_open,
            channel_write_open: self.channel_write_open,
            phase: self.phase,
        }
    }
}

/// The action of a bridge, with sequences for what it carries.
pub type BridgeActionView = BridgeAction<Seq<u8>, Seq<Seq<char>>>;

/// The phase in which the outcome of `action` is awaited.
pub open spec fn phase_of(action: BridgeActionView) -> BridgePhase {
    match action {
        BridgeAction::UnblockSession => BridgePhase::UnblockSession,
        BridgeAction::UnblockSocket => BridgePhase::UnblockSocket,
        BridgeAction::WriteChannel(_) => BridgePhase::WriteChannel,
        BridgeAction::ReadChannel(_) => BridgePhase::ReadChannel,
        BridgeAction::WriteSocket(_) => BridgePhase::WriteSocket,
        BridgeAction::ReadSocket(_) => BridgePhase::ReadSocket,
        BridgeAction::SendEof => BridgePhase::SendEof,
        BridgeAction::ShutdownWrite => BridgePhase::ShutdownWrite,
        BridgeAction::Poll(_) => BridgePhase::Poll,
        BridgeAction::CloseChannel => BridgePhase::CloseChannel,
        BridgeAction::Finished(_) => BridgePhase::Finished,
    }
}

impl BridgeView {
    /// A bridge before its first action: nothing queued, every direction open.
    pub open spec fn start() -> BridgeView {
        BridgeView {
            fd_to_channel: Seq::empty(),
            channel_to_fd: Seq::empty(),
            fd_read_open: true,
            fd_write_open: true,
            channel_read_open: true,
            channel_write_open: true,
            phase: BridgePhase::UnblockSession,
        }
    }

    /// Neither queue holds more than it may.
    pub open spec fn wf(self) -> bool {
        &&& self.fd_to_channel.len() <= BUF_CAPACITY
        &&& self.channel_to_fd.len() <= BUF_CAPACITY
    }

    /// Whether `ev` can be the outcome of the awaited action. A write takes no more than was
    /// offered, and a read gives no more than was asked for.
    pub open spec fn accepts(self, ev: BridgeEvent) -> bool {
        match self.phase {
            BridgePhase::UnblockSession | BridgePhase::SendEof | BridgePhase::ShutdownWrite
            | BridgePhase::CloseChannel => ev is Done,
            BridgePhase::UnblockSocket | BridgePhase::Poll => ev is Done || ev is Failed,
            BridgePhase::WriteChannel => ev matches BridgeEvent::Wrote(written) && (
            written matches Ok(len) ==> len <= self.fd_to_channel.len()),
            BridgePhase::WriteSocket => ev matches BridgeEvent::Wrote(written) && (
            written matches Ok(len) ==> len <= self.channel_to_fd.len()),
            BridgePhase::ReadChannel => ev matches BridgeEvent::Read(read) && (read matches Ok(
                data,
            ) ==> self.channel_to_fd.len() + data@.len() <= BUF_CAPACITY),
            BridgePhase::ReadSocket => ev matches BridgeEvent::Read(read) && (read matches Ok(
                data,
            ) ==> self.fd_to_channel.len() + data@.len() <= BUF_CAPACITY),
            BridgePhase::Finished => false,
        }
    }

    /// The state once the outcome of the awaited action is taken in. A failed write drops what was
    /// queued for it and closes the direction at both ends; a read that ends the stream closes the
    /// side that was read.
    pub open spec fn absorb(self, ev: BridgeEvent) -> BridgeView {
        match (self.phase, ev) {
            (BridgePhase::WriteChannel, BridgeEvent::Wrote(written)) => if failed(written) {
                BridgeView {
                    fd_to_channel: Seq::empty(),
                    fd_read_open: false,
                    channel_write_open: false,
                    ..self
                }
            } else {
                BridgeView { fd_to_channel: after_write(self.fd_to_channel, written), ..self }
            },
            (BridgePhase::ReadChannel, BridgeEvent::Read(read)) => BridgeView {
                channel_to_fd: after_read(self.channel_to_fd, read),
                channel_read_open: !ended(read),
                ..self
            },
            (BridgePhase::WriteSocket, BridgeEvent::Wrote(written)) => if failed(written) {
                BridgeView {
                    channel_to_fd: Seq::empty(),
                    fd_write_open: false,
                    channel_read_open: false,
                    ..self
                }
            } else {
                BridgeView { channel_to_fd: after_write(self.channel_to_fd, written), ..self }
            },
            (BridgePhase::ReadSocket, BridgeEvent::Read(read)) => BridgeView {
                fd_to_channel: after_read(self.fd_to_channel, read),
                fd_read_open: !ended(read),
                ..self
            },
            (BridgePhase::SendEof, _) => BridgeView { channel_write_open: false, ..self },
            (BridgePhase::ShutdownWrite, _) => BridgeView { fd_write_open: false, ..self },
            _ => self,
        }
    }

    /// The first thing to do in a round.
    pub open spec fn from_write_channel(self) -> BridgeActionView {
        if self.fd_to_channel.len() > 0 {
            BridgeAction::WriteChannel(self.fd_to_channel)
        } else {
            self.from_read_channel()
        }
    }

    /// The first thing to do in the rest of a round, from the read of the channel on.
    pub open spec fn from_read_channel(self) -> BridgeActionView {
        if self.channel_read_open && self.channel_to_fd.len() < BUF_CAPACITY {
            BridgeAction::ReadChannel((BUF_CAPACITY - self.channel_to_fd.len()) as usize)
        } else {
            self.from_write_socket()
        }
    }

    /// The first thing to do in the rest of a round, from the write to the socket on.
    pub open spec fn from_write_socket(self) -> BridgeActionView {
        if self.channel_to_fd.len() > 0 {
            BridgeAction::WriteSocket(self.channel_to_fd)
        } else {
            self.from_read_socket()
        }
    }

    /// The first thing to do in the rest of a round, from the read of the socket on.
    pub open spec fn from_read_socket(self) -> BridgeActionView {
        if self.fd_read_open && self.fd_to_channel.len() < BUF_CAPACITY {
            BridgeAction::ReadSocket((BUF_CAPACITY - self.fd_to_channel.len()) as usize)
        } else {
            self.from_send_eof()
        }
    }

    /// The first thing to do in the rest of a round, once all transfers are made.
    pub open spec fn from_send_eof(self) -> BridgeActionView {
        if !self.fd_read_open && self.channel_write_open && self.fd_to_channel.len() == 0 {
            BridgeAction::SendEof
        } else {
            self.from_shutdown()
        }
    }

    /// The first thing to do in the rest of a round, from the shutdown of the socket on.
    pub open spec fn from_shutdown(self) -> BridgeActionView {
        if !self.channel_read_open && self.fd_write_open && self.channel_to_fd.len() == 0 {
            BridgeAction::ShutdownWrite
        } else {
            self.at_end_of_round()
        }
    }

    /// Whether nothing is left to do.
    pub open spec fn idle(self) -> bool {
        &&& !self.fd_read_open
        &&& !self.fd_write_open
        &&& !self.channel_read_open
        &&& !self.channel_write_open
        &&& self.fd_to_channel.len() == 0
        &&& self.channel_to_fd.len() == 0
    }

    /// The last thing to do in a round: end the bridge, or wait.
    pub open spec fn at_end_of_round(self) -> BridgeActionView {
        if self.idle() {
            BridgeAction::CloseChannel
        } else {
            BridgeAction::Poll(
                BridgeWait {
                    session: Wanted::Own,
                    socket: Wanted::This(
                        Interest {
                            read: self.fd_read_open && self.fd_to_channel.len() < BUF_CAPACITY,
                            write: self.fd_write_open && self.channel_to_fd.len() > 0,
                        },
                    ),
                    milliseconds: BRIDGE_DELAY,
                },
            )
        }
    }

    /// The action that follows, given the outcome of the awaited one.
    pub open spec fn next_action(self, ev: BridgeEvent) -> BridgeActionView {
        let s = self.absorb(ev);
        match (self.phase, ev) {
            (BridgePhase::UnblockSession, _) => BridgeAction::UnblockSocket,
            (BridgePhase::UnblockSocket, BridgeEvent::Failed(failure)) => BridgeAction::Finished(
                Err(failure@),
            ),
            (BridgePhase::UnblockSocket, _) => s.from_write_channel(),
            (BridgePhase::WriteChannel, _) => s.from_read_channel(),
            (BridgePhase::ReadChannel, _) => s.from_write_socket(),
            (BridgePhase::WriteSocket, _) => s.from_read_socket(),
            (BridgePhase::ReadSocket, _) => s.from_send_eof(),
            (BridgePhase::SendEof, _) => s.from_shutdown(),
            (BridgePhase::ShutdownWrite, _) => s.at_end_of_round(),
            (BridgePhase::Poll, BridgeEvent::Failed(failure)) => BridgeAction::Finished(
                Err(failure@),
            ),
            (BridgePhase::Poll, _) => s.from_write_channel(),
            (BridgePhase::CloseChannel, _) => BridgeAction::Finished(Ok(())),
            (BridgePhase::Finished, _) => BridgeAction::Finished(Ok(())),
        }
    }

    /// The state in which the outcome of the following action is awaited.
    pub open spec fn next(self, ev: BridgeEvent) -> BridgeView {
        BridgeView { phase: phase_of(self.next_action(ev)), ..self.absorb(ev) }
    }
}

impl Bridge {
    /// Both queues have the capacity of a bridge's queues, and neither holds more than it may.
    pub open spec fn wf(&self) -> bool {
        &&& self.fd_to_channel@.capacity == BUF_CAPACITY
        &&& self.channel_to_fd@.capacity == BUF_CAPACITY
        &&& self@.wf()
    }

    /// A new bridge and its first action.
    pub fn new() -> (r: (Bridge, BridgeAction<Vec<u8>, Failure>))
        ensures
            r.0@ == BridgeView::start(),
            r.0.wf(),
            r.1@ == BridgeActionView::UnblockSession,
    {
        let bridge = Bridge {
            fd_to_channel: new_buf(),
            channel_to_fd: new_buf(),
            fd_read_open: true,
            fd_write_open: true,
            channel_read_open: true,
            channel_write_open: true,
            phase: BridgePhase::UnblockSession,
        };
        (bridge, BridgeAction::UnblockSession)
    }

    /// Takes in the outcome of the action that was given last, and gives the next one.
    pub fn step(&mut self, ev: BridgeEvent) -> (action: BridgeAction<Vec<u8>, Failure>)
        requires
            old(self).wf(),
            old(self)@.accepts(ev),
        ensures
            final(self)@ == old(self)@.next(ev),
            action@ == old(self)@.next_action(ev),
            final(self).wf(),
    {
        let action = match (self.phase, ev) {
            (BridgePhase::UnblockSession, _) => BridgeAction::UnblockSocket,
            (BridgePhase::UnblockSocket, BridgeEvent::Failed(failure)) => BridgeAction::Finished(
                Err(failure),
            ),
            (BridgePhase::UnblockSocket, _) => self.write_channel(),
            (BridgePhase::WriteChannel, BridgeEvent::Wrote(written)) => {
                if write_from_buf(written, &mut self.fd_to_channel).is_err() {
                    self.fd_to_channel.clear();
                    self.fd_read_open = false;
                    self.channel_write_open = false;
                }
                self.read_channel()
            },
            (BridgePhase::ReadChannel, BridgeEvent::Read(read)) => {
                self.channel_read_open = read_into_buf(read, &mut self.channel_to_fd).is_ok();
                self.write_socket()
            },
            (BridgePhase::WriteSocket, BridgeEvent::Wrote(written)) => {
                if write_from_buf(written, &mut self.channel_to_fd).is_err() {
                    self.channel_to_fd.clear();
                    self.fd_write_open = false;
                    self.channel_read_open = false;
                }
                self.read_socket()
            },
            (BridgePhase::ReadSocket, BridgeEvent::Read(read)) => {
                self.fd_read_open = read_into_buf(read, &mut self.fd_to_channel).is_ok();
                self.send_eof()
            },
            (BridgePhase::SendEof, _) => {
                self.channel_write_open = false;
                self.shutdown_write()
            },
            (BridgePhase::ShutdownWrite, _) => {
                self.fd_write_open = false;
                self.end_of_round()
            },
            (BridgePhase::Poll, BridgeEvent::Failed(failure)) => BridgeAction::Finished(
                Err(failure),
            ),
            (BridgePhase::Poll, _) => self.write_channel(),
            _ => BridgeAction::Finished(Ok(())),
        };
        self.phase = match action {
            BridgeAction::UnblockSession => BridgePhase::UnblockSession,
            BridgeAction::UnblockSocket => BridgePhase::UnblockSocket,
            BridgeAction::WriteChannel(_) => BridgePhase::WriteChannel,
            BridgeAction::ReadChannel(_) => BridgePhase::ReadChannel,
            BridgeAction::WriteSocket(_) => BridgePhase::WriteSocket,
            BridgeAction::ReadSocket(_) => BridgePhase::ReadSocket,
            BridgeAction::SendEof => BridgePhase::SendEof,
            BridgeAction::ShutdownWrite => BridgePhase::ShutdownWrite,
            BridgeAction::Poll(_) => BridgePhase::Poll,
            BridgeAction::CloseChannel => BridgePhase::CloseChannel,
            BridgeAction::Finished(_) => BridgePhase::Finished,
        };
        action
    }

    fn write_channel(&self) -> (action: BridgeAction<Vec<u8>, Failure>)
        requires
            self.wf(),
        ensures
            action@ == self@.from_write_channel(),
    {
        if self.fd_to_channel.len() > 0 {
            BridgeAction::WriteChannel(pending(&self.fd_to_channel))
        } else {
            self.read_channel()
        }
    }

    fn read_channel(&self) -> (action: BridgeAction<Vec<u8>, Failure>)
        requires
            self.wf(),
        ensures
            action@ == self@.from_read_channel(),
    {
        let free: usize = room(&self.channel_to_fd);
        if self.channel_read_open && free > 0 {
            BridgeAction::ReadChannel(free)
        } else {
            self.write_socket()
        }
    }

    fn write_socket(&self) -> (action: BridgeAction<Vec<u8>, Failure>)
        requires
            self.wf(),
        ensures
            action@ == self@.from_write_socket(),
    {
        if self.channel_to_fd.len() > 0 {
            BridgeAction::WriteSocket(pending(&self.channel_to_fd))
        } else {
            self.read_socket()
        }
    }

    fn read_socket(&self) -> (action: BridgeAction<Vec<u8>, Failure>)
        requires
            self.wf(),
        ensures
            action@ == self@.from_read_socket(),
    {
        let free: usize = room(&self.fd_to_channel);
        if self.fd_read_open && free > 0 {
            BridgeAction::ReadSocket(free)
        } else {
            self.send_eof()
        }
    }

    fn send_eof(&self) -> (action: BridgeAction<Vec<u8>, Failure>)
        requires
            self.wf(),
        ensures
            action@ == self@.from_send_eof(),
    {
        if !self.fd_read_open && self.channel_write_open && self.fd_to_channel.len() == 0 {
            BridgeAction::SendEof
        } else {
            self.shutdown_write()
        }
    }

    fn shutdown_write(&self) -> (action: BridgeAction<Vec<u8>, Failure>)
        requires
            self.wf(),
        ensures
            action@ == self@.from_shutdown(),
    {
        if !self.channel_read_open && self.fd_write_open && self.channel_to_fd.len() == 0 {
            BridgeAction::ShutdownWrite
        } else {
            self.end_of_round()
        }
    }

    fn end_of_round(&self) -> (action: BridgeAction<Vec<u8>, Failure>)
        requires
            self.wf(),
        ensures
            action@ == self@.at_end_of_round(),
    {
        if !self.fd_read_open && !self.fd_write_open && !self.channel_read_open
            && !self.channel_write_open && self.fd_to_channel.len() == 0
            && self.channel_to_fd.len() == 0 {
            BridgeAction::CloseChannel
        } else {
            BridgeAction::Poll(
                BridgeWait {
                    session: Wanted::Own,
                    socket: Wanted::This(
                        Interest {
                            read: self.fd_read_open && room(&self.fd_to_channel) > 0,
                            write: self.fd_write_open && self.channel_to_fd.len() > 0,
                        },
                    ),
                    milliseconds: BRIDGE_DELAY,
                },
            )
        }
    }
}

/// A bridge together with what has passed through it since it started.
pub struct BridgeTrace {
    /// The state of the bridge.
    pub state: BridgeView,
    /// All bytes that were read from the socket.
    pub from_socket: Seq<u8>,
    /// All bytes that the channel took.
    pub to_channel: Seq<u8>,
    /// All bytes that were read from the channel.
    pub from_channel: Seq<u8>,
    /// All bytes that the socket took.
    pub to_socket: Seq<u8>,
    /// Whether a write to the channel has failed.
    pub channel_failed: bool,
    /// Whether a write to the socket has failed.
    pub socket_failed: bool,
    /// How often the channel was told that no more data will come.
    pub eofs: nat,
    /// How often the socket was shut down for writing.
    pub shutdowns: nat,
    /// How often the channel was closed.
    pub closes: nat,
}

impl BridgeTrace {
    /// Before the first action.
    pub open spec fn start() -> BridgeTrace {
        BridgeTrace {
            state: BridgeView::start(),
            from_socket: Seq::empty(),
            to_channel: Seq::empty(),
            from_channel: Seq::empty(),
            to_socket: Seq::empty(),
            channel_failed: false,
            socket_failed: false,
            eofs: 0,
            shutdowns: 0,
            closes: 0,
        }
    }

    /// After the outcome `ev` of the awaited action.
    pub open spec fn next(self, ev: BridgeEvent) -> BridgeTrace {
        let t = match (self.state.phase, ev) {
            (BridgePhase::ReadSocket, BridgeEvent::Read(read)) => BridgeTrace {
                from_socket: self.from_socket + bytes_read(read),
                ..self
            },
            (BridgePhase::ReadChannel, BridgeEvent::Read(read)) => BridgeTrace {
                from_channel: self.from_channel + bytes_read(read),
                ..self
            },
            (BridgePhase::WriteChannel, BridgeEvent::Wrote(written)) => BridgeTrace {
                to_channel: self.to_channel + bytes_taken(self.state.fd_to_channel, written),
                channel_failed: self.channel_failed || failed(written),
                ..self
            },
            (BridgePhase::WriteSocket, BridgeEvent::Wrote(written)) => BridgeTrace {
                to_socket: self.to_socket + bytes_taken(self.state.channel_to_fd, written),
                socket_failed: self.socket_failed || failed(written),
                ..self
            },
            (BridgePhase::SendEof, _) => BridgeTrace { eofs: self.eofs + 1, ..self },
            (BridgePhase::ShutdownWrite, _) => BridgeTrace {
                shutdowns: self.shutdowns + 1,
                ..self
            },
            (BridgePhase::CloseChannel, _) => BridgeTrace { closes: self.closes + 1, ..self },
            _ => self,
        };
        BridgeTrace { state: self.state.next(ev), ..t }
    }

    /// After the outcomes `events`, in order.
    pub open spec fn after(events: Seq<BridgeEvent>) -> BridgeTrace
        decreases events.len(),
    {
        if events.len() == 0 {
            BridgeTrace::start()
        } else {
            BridgeTrace::after(events.drop_last()).next(events.last())
        }
    }

    /// What holds of a bridge at every moment.
    pub open spec fn inv(self) -> bool {
        let s = self.state;
        &&& s.wf()
        &&& self.channel_inv()
        &&& self.socket_inv()
        &&& self.closes == (if s.phase == BridgePhase::Finished && self.closes > 0 {
            1nat
        } else {
            0nat
        })
        &&& s.phase == BridgePhase::CloseChannel || self.closes > 0 ==> s.idle()
    }

    /// The direction from the socket to the channel.
    pub open spec fn channel_inv(self) -> bool {
        let s = self.state;
        &&& if self.channel_failed {
            &&& self.to_channel.is_prefix_of(self.from_socket)
            &&& !s.channel_write_open
            &&& self.eofs == 0
        } else {
            &&& self.to_channel + s.fd_to_channel == self.from_socket
            &&& self.eofs == (if s.channel_write_open {
                0nat
            } else {
                1nat
            })
        }
        &&& !s.channel_write_open ==> s.fd_to_channel.len() == 0 && !s.fd_read_open
        &&& s.phase == BridgePhase::WriteChannel ==> s.fd_to_channel.len() > 0
        &&& s.phase == BridgePhase::ReadSocket ==> s.fd_read_open
        &&& s.phase == BridgePhase::SendEof ==> s.channel_write_open && !s.fd_read_open
            && s.fd_to_channel.len() == 0
    }

    /// The direction from the channel to the socket.
    pub open spec fn socket_inv(self) -> bool {
        let s = self.state;
        &&& if self.socket_failed {
            &&& self.to_socket.is_prefix_of(self.from_channel)
            &&& !s.fd_write_open
            &&& self.shutdowns == 0
        } else {
            &&& self.to_socket + s.channel_to_fd == self.from_channel
            &&& self.shutdowns == (if s.fd_write_open {
                0nat
            } else {
                1nat
            })
        }
        &&& !s.fd_write_open ==> s.channel_to_fd.len() == 0 && !s.channel_read_open
        &&& s.phase == BridgePhase::WriteSocket ==> s.channel_to_fd.len() > 0
        &&& s.phase == BridgePhase::ReadChannel ==> s.channel_read_open
        &&& s.phase == BridgePhase::ShutdownWrite ==> s.fd_write_open && !s.channel_read_open
            && s.channel_to_fd.len() == 0
    }
}

/// Whether each of `events`, in order, can be the outcome of the action that was awaited then.
pub open spec fn possible(events: Seq<BridgeEvent>) -> bool
    decreases events.len(),
{
    events.len() > 0 ==> {
        &&& possible(events.drop_last())
        &&& BridgeTrace::after(events.drop_last()).state.accepts(events.last())
    }
}

proof fn lemma_bridge_step(t: BridgeTrace, ev: BridgeEvent)
    requires
        t.inv(),
        t.state.accepts(ev),
    ensures
        t.next(ev).inv(),
{
    let n = t.next(ev);
    let s = t.state;
    match (s.phase, ev) {
        (BridgePhase::WriteChannel, BridgeEvent::Wrote(written)) => {
            if let Ok(len) = written {
                assert(s.fd_to_channel.take(len as int) + s.fd_to_channel.skip(len as int)
                    == s.fd_to_channel);
                assert(n.to_channel + n.state.fd_to_channel == t.to_channel + s.fd_to_channel);
            } else {
                assert(n.to_channel == t.to_channel);
            }
        },
        (BridgePhase::WriteSocket, BridgeEvent::Wrote(written)) => {
            if let Ok(len) = written {
                assert(s.channel_to_fd.take(len as int) + s.channel_to_fd.skip(len as int)
                    == s.channel_to_fd);
                assert(n.to_socket + n.state.channel_to_fd == t.to_socket + s.channel_to_fd);
            } else {
                assert(n.to_socket == t.to_socket);
            }
        },
        (BridgePhase::ReadSocket, BridgeEvent::Read(read)) => {
            assert(n.to_channel + n.state.fd_to_channel == n.from_socket);
        },
        (BridgePhase::ReadChannel, BridgeEvent::Read(read)) => {
            assert(n.to_socket + n.state.channel_to_fd == n.from_channel);
        },
        _ => {},
    }
}

/// The invariant of a bridge holds after any outcomes that its actions can have.
pub proof fn law_bridge_invariant(events: Seq<BridgeEvent>)
    requires
        possible(events),
    ensures
        BridgeTrace::after(events).inv(),
    decreases events.len(),
{
    if events.len() > 0 {
        law_bridge_invariant(events.drop_last());
        lemma_bridge_step(BridgeTrace::after(events.drop_last()), events.last());
    } else {
        let t = BridgeTrace::start();
        assert(t.to_channel + t.state.fd_to_channel == t.from_socket);
        assert(t.to_socket + t.state.channel_to_fd == t.from_channel);
    }
}

/// The bridge reorders, repeats and invents nothing: at every moment each end has taken a prefix of
/// what the other end gave; and while no write has failed, what is not yet taken waits in the
/// queue.
pub proof fn law_bridge_keeps_the_streams(events: Seq<BridgeEvent>)
    requires
        possible(events),
    ensures
        ({
            let t = BridgeTrace::after(events);
            &&& t.to_channel.is_prefix_of(t.from_socket)
            &&& t.to_socket.is_prefix_of(t.from_channel)
            &&& !t.channel_failed ==> t.to_channel + t.state.fd_to_channel == t.from_socket
            &&& !t.socket_failed ==> t.to_socket + t.state.channel_to_fd == t.from_channel
        }),
{
    law_bridge_invariant(events);
}

/// Once the bridge has closed the channel, nothing is queued, and each end was told of the end of
/// the other's data exactly once, after it had taken all of it, unless a write to it has failed.
pub proof fn law_bridge_ends_drained(events: Seq<BridgeEvent>)
    requires
        possible(events),
        BridgeTrace::after(events).closes > 0,
    ensures
        ({
            let t = BridgeTrace::after(events);
            &&& t.closes == 1
            &&& t.state.idle()
            &&& !t.channel_failed ==> t.to_channel == t.from_socket && t.eofs == 1
            &&& !t.socket_failed ==> t.to_socket == t.from_channel && t.shutdowns == 1
            &&& t.channel_failed ==> t.eofs == 0
            &&& t.socket_failed ==> t.shutdowns == 0
        }),
{
    law_bridge_invariant(events);
    let t = BridgeTrace::after(events);
    if !t.channel_failed {
        assert(t.to_channel + t.state.fd_to_channel == t.to_channel);
    }
    if !t.socket_failed {
        assert(t.to_socket + t.state.channel_to_fd == t.to_socket);
    }
}

/// The channel gets no byte after it was told that no more data will come, nor the socket after it
/// was shut down for writing: from then on nothing is queued for it and its source is not read.
pub proof fn law_bridge_sends_nothing_after_the_end(events: Seq<BridgeEvent>)
    requires
        possible(events),
    ensures
        ({
            let t = BridgeTrace::after(events);
            &&& t.eofs <= 1
            &&& t.shutdowns <= 1
            &&& t.eofs == 1 ==> t.state.phase != BridgePhase::WriteChannel
                && t.state.phase != BridgePhase::ReadSocket && t.state.phase
                != BridgePhase::SendEof
            &&& t.shutdowns == 1 ==> t.state.phase != BridgePhase::WriteSocket
                && t.state.phase != BridgePhase::ReadChannel && t.state.phase
                != BridgePhase::ShutdownWrite
        }),
{
    law_bridge_invariant(events);
}

/// A side that was closed stays closed.
pub proof fn law_bridge_never_reopens(s: BridgeView, ev: BridgeEvent)
    requires
        s.accepts(ev),
        s.phase == BridgePhase::ReadSocket ==> s.fd_read_open,
        s.phase == BridgePhase::ReadChannel ==> s.channel_read_open,
    ensures
        s.next(ev).fd_read_open ==> s.fd_read_open,
        s.next(ev).fd_write_open ==> s.fd_write_open,
        s.next(ev).channel_read_open ==> s.channel_read_open,
        s.next(ev).channel_write_open ==> s.channel_write_open,
{
}

/// The bridge waits for the session, as that asks, for the socket, and never longer than its delay.
/// It never waits with nothing to wait for on the socket, unless only the session can bring news: the
/// channel is still read, or still has to take what is queued.
pub proof fn law_bridge_waits_for_something(events: Seq<BridgeEvent>, ev: BridgeEvent)
    requires
        possible(events),
        BridgeTrace::after(events).state.accepts(ev),
    ensures
        ({
            let s = BridgeTrace::after(events).state;
            s.next_action(ev) matches BridgeAction::Poll(wait) ==> {
                &&& wait.session == Wanted::Own
                &&& wait.milliseconds == BRIDGE_DELAY
                &&& wait.socket matches Wanted::This(interest) && {
                    ||| interest.read
                    ||| interest.write
                    ||| s.next(ev).channel_read_open
                    ||| s.next(ev).fd_to_channel.len() > 0
                }
            }
        }),
{
    law_bridge_invariant(events);
    lemma_bridge_step(BridgeTrace::after(events), ev);
}

/// What the outcome of an action does to a bridge. A direction is closed for reading only where a
/// read of it gave no byte or failed, or where a write at its other end failed; it is closed for
/// writing only where a write failed or its end was told so; a transfer that would have had to wait
/// changes nothing; and bytes are dropped only where a write failed.
pub proof fn law_bridge_outcomes(s: BridgeView, ev: BridgeEvent)
    requires
        s.accepts(ev),
        s.phase == BridgePhase::ReadSocket ==> s.fd_read_open,
        s.phase == BridgePhase::ReadChannel ==> s.channel_read_open,
    ensures
        ({
            let n = s.next(ev);
            let write_failed = ev matches BridgeEvent::Wrote(Err(err)) && !err.would_block();
            let read_ended = (ev matches BridgeEvent::Read(Ok(data)) && data@.len() == 0) || (
            ev matches BridgeEvent::Read(Err(err)) && !err.would_block());
            let to_channel = s.phase == BridgePhase::WriteChannel;
            let to_socket = s.phase == BridgePhase::WriteSocket;
            &&& n.fd_read_open == (s.fd_read_open && !(to_channel && write_failed) && !(s.phase
                == BridgePhase::ReadSocket && read_ended))
            &&& n.channel_read_open == (s.channel_read_open && !(to_socket && write_failed) && !(
            s.phase == BridgePhase::ReadChannel && read_ended))
            &&& n.channel_write_open == (s.channel_write_open && !(to_channel && write_failed)
                && s.phase != BridgePhase::SendEof)
            &&& n.fd_write_open == (s.fd_write_open && !(to_socket && write_failed) && s.phase
                != BridgePhase::ShutdownWrite)
            &&& n.fd_to_channel == if to_channel && write_failed {
                Seq::empty()
            } else {
                match ev {
                    BridgeEvent::Wrote(Ok(len)) => if to_channel {
                        s.fd_to_channel.skip(len as int)
                    } else {
                        s.fd_to_channel
                    },
                    BridgeEvent::Read(Ok(data)) => if s.phase == BridgePhase::ReadSocket {
                        s.fd_to_channel + data@
                    } else {
                        s.fd_to_channel
                    },
                    _ => s.fd_to_channel,
                }
            }
            &&& n.channel_to_fd == if to_socket && write_failed {
                Seq::empty()
            } else {
                match ev {
                    BridgeEvent::Wrote(Ok(len)) => if to_socket {
                        s.channel_to_fd.skip(len as int)
                    } else {
                        s.channel_to_fd
                    },
                    BridgeEvent::Read(Ok(data)) => if s.phase == BridgePhase::ReadChannel {
                        s.channel_to_fd + data@
                    } else {
                        s.channel_to_fd
                    },
                    _ => s.channel_to_fd,
                }
            }
        }),
{
}

/// Every action of a bridge is one that its state calls for: a write offers all that is queued for
/// that end, a read asks for all the room that is left, an end is told of only where its data has
/// ended and it does not know, a wait is for what can be used, and the channel is closed only where
/// nothing is left. The action that was given is the one whose outcome is awaited.
pub proof fn law_bridge_actions_are_called_for(s: BridgeView, ev: BridgeEvent)
    requires
        s.accepts(ev),
        s.wf(),
    ensures
        ({
            let n = s.next(ev);
            match s.next_action(ev) {
                BridgeAction::UnblockSession => false,
                BridgeAction::UnblockSocket => {
                    s.phase == BridgePhase::UnblockSession && n.phase == BridgePhase::UnblockSocket
                },
                BridgeAction::WriteChannel(bytes) => {
                    &&& bytes == n.fd_to_channel
                    &&& bytes.len() > 0
                    &&& n.phase == BridgePhase::WriteChannel
                },
                BridgeAction::ReadChannel(max) => {
                    &&& n.channel_read_open
                    &&& max > 0
                    &&& max == 8192 - n.channel_to_fd.len()
                    &&& n.phase == BridgePhase::ReadChannel
                },
                BridgeAction::WriteSocket(bytes) => {
                    &&& bytes == n.channel_to_fd
                    &&& bytes.len() > 0
                    &&& n.phase == BridgePhase::WriteSocket
                },
                BridgeAction::ReadSocket(max) => {
                    &&& n.fd_read_open
                    &&& max > 0
                    &&& max == 8192 - n.fd_to_channel.len()
                    &&& n.phase == BridgePhase::ReadSocket
                },
                BridgeAction::SendEof => {
                    &&& !n.fd_read_open && n.fd_to_channel.len() == 0 && n.channel_write_open
                    &&& n.phase == BridgePhase::SendEof
                },
                BridgeAction::ShutdownWrite => {
                    &&& !n.channel_read_open && n.channel_to_fd.len() == 0 && n.fd_write_open
                    &&& n.phase == BridgePhase::ShutdownWrite
                },
                BridgeAction::Poll(wait) => {
                    &&& wait.session == Wanted::Own
                    &&& wait.milliseconds == 100
                    &&& wait.socket == Wanted::This(
                        Interest {
                            read: n.fd_read_open && n.fd_to_channel.len() < 8192,
                            write: n.fd_write_open && n.channel_to_fd.len() > 0,
                        },
                    )
                    &&& n.fd_read_open || n.fd_write_open || n.channel_read_open
                        || n.channel_write_open || n.fd_to_channel.len() > 0
                        || n.channel_to_fd.len() > 0
                    &&& n.phase == BridgePhase::Poll
                },
                BridgeAction::CloseChannel => {
                    &&& !n.fd_read_open && !n.fd_write_open && !n.channel_read_open
                        && !n.channel_write_open
                    &&& n.fd_to_channel.len() == 0 && n.channel_to_fd.len() == 0
                    &&& n.phase == BridgePhase::CloseChannel
                },
                BridgeAction::Finished(Ok(_)) => {
                    s.phase == BridgePhase::CloseChannel && n.phase == BridgePhase::Finished
                },
                BridgeAction::Finished(Err(chain)) => {
                    &&& s.phase == BridgePhase::UnblockSocket || s.phase == BridgePhase::Poll
                    &&& ev matches BridgeEvent::Failed(failure) && failure@ == chain
                    &&& n.phase == BridgePhase::Finished
                },
            }
        }),
        ev matches BridgeEvent::Failed(failure) ==> s.next_action(ev) == BridgeActionView::Finished(
            Err(failure@),
        ),
        s.phase == BridgePhase::CloseChannel ==> s.next_action(ev) == BridgeActionView::Finished(
            Ok(()),
        ),
        s.phase == BridgePhase::UnblockSession ==> s.next_action(ev)
            == BridgeActionView::UnblockSocket,
{
}

/// A bridge together with what it has tried since it last waited.
pub struct BridgeRound {
    /// The state of the bridge.
    pub state: BridgeView,
    /// What was queued for the channel when the round began.
    pub for_channel: Seq<u8>,
    /// What was queued for the socket when the round began.
    pub for_socket: Seq<u8>,
    /// Whether the channel was written to.
    pub wrote_channel: bool,
    /// Whether the channel was read.
    pub read_channel: bool,
    /// Whether the socket was written to.
    pub wrote_socket: bool,
    /// Whether the socket was read.
    pub read_socket: bool,
}

impl BridgeRound {
    /// Before the first action.
    pub open spec fn start() -> BridgeRound {
        BridgeRound {
            state: BridgeView::start(),
            for_channel: Seq::empty(),
            for_socket: Seq::empty(),
            wrote_channel: false,
            read_channel: false,
            wrote_socket: false,
            read_socket: false,
        }
    }

    /// After the outcome `ev` of the awaited action. A wait begins a new round.
    pub open spec fn next(self, ev: BridgeEvent) -> BridgeRound {
        let state = self.state.next(ev);
        if self.state.phase == BridgePhase::Poll || self.state.phase == BridgePhase::UnblockSocket
            || self.state.phase == BridgePhase::UnblockSession {
            BridgeRound {
                state,
                for_channel: state.fd_to_channel,
                for_socket: state.channel_to_fd,
                ..BridgeRound::start()
            }
        } else {
            BridgeRound {
                state,
                wrote_channel: self.wrote_channel || self.state.phase == BridgePhase::WriteChannel,
                read_channel: self.read_channel || self.state.phase == BridgePhase::ReadChannel,
                wrote_socket: self.wrote_socket || self.state.phase == BridgePhase::WriteSocket,
                read_socket: self.read_socket || self.state.phase == BridgePhase::ReadSocket,
                ..self
            }
        }
    }

    /// After the outcomes `events`, in order.
    pub open spec fn after(events: Seq<BridgeEvent>) -> BridgeRound
        decreases events.len(),
    {
        if events.len() == 0 {
            BridgeRound::start()
        } else {
            BridgeRound::after(events.drop_last()).next(events.last())
        }
    }

    /// Whether nothing that was due up to the awaited action has been left out of the round.
    pub open spec fn inv(self) -> bool {
        let s = self.state;
        let p = s.phase;
        let past_write_channel = p == BridgePhase::ReadChannel || p == BridgePhase::WriteSocket || p
            == BridgePhase::ReadSocket || p == BridgePhase::SendEof || p
            == BridgePhase::ShutdownWrite || p == BridgePhase::Poll || p
            == BridgePhase::CloseChannel;
        let past_read_channel = past_write_channel && p != BridgePhase::ReadChannel;
        let past_write_socket = past_read_channel && p != BridgePhase::WriteSocket;
        let past_read_socket = past_write_socket && p != BridgePhase::ReadSocket;
        &&& s.wf()
        &&& p == BridgePhase::WriteChannel ==> self.for_channel == s.fd_to_channel
        &&& p == BridgePhase::WriteChannel || p == BridgePhase::ReadChannel ==> self.for_socket
            == s.channel_to_fd
        &&& past_write_channel && self.for_channel.len() > 0 ==> self.wrote_channel
        &&& past_read_channel && s.channel_read_open ==> self.read_channel || self.for_socket.len()
            == 8192
        &&& past_write_socket && s.channel_to_fd.len() > 0 ==> self.wrote_socket
        &&& past_read_socket && s.fd_read_open && s.fd_to_channel.len() < 8192 ==> self.read_socket
        &&& past_read_socket && p != BridgePhase::SendEof && !s.fd_read_open
            && s.fd_to_channel.len() == 0 ==> !s.channel_write_open
        &&& (p == BridgePhase::Poll || p == BridgePhase::CloseChannel) && !s.channel_read_open
            && s.channel_to_fd.len() == 0 ==> !s.fd_write_open
    }
}

proof fn lemma_round_step(r: BridgeRound, ev: BridgeEvent)
    requires
        r.inv(),
        r.state.accepts(ev),
    ensures
        r.next(ev).inv(),
{
}

/// A bridge waits only after it has tried everything that it could do: it has offered the channel
/// what was queued for it, it has read the channel unless that has ended or there was no room, it
/// has offered the socket what is still queued for it, and it has read the socket unless that has
/// ended or there is no room.
pub proof fn law_bridge_tries_all_before_it_waits(events: Seq<BridgeEvent>)
    requires
        possible(events),
    ensures
        BridgeRound::after(events).state == BridgeTrace::after(events).state,
        BridgeRound::after(events).inv(),
        BridgeRound::after(events).state.phase == BridgePhase::Poll ==> {
            let r = BridgeRound::after(events);
            &&& r.for_channel.len() > 0 ==> r.wrote_channel
            &&& r.state.channel_read_open && r.for_socket.len() < 8192 ==> r.read_channel
            &&& r.state.channel_to_fd.len() > 0 ==> r.wrote_socket
            &&& r.state.fd_read_open && r.state.fd_to_channel.len() < 8192 ==> r.read_socket
        },
    decreases events.len(),
{
    if events.len() > 0 {
        law_bridge_tries_all_before_it_waits(events.drop_last());
        lemma_round_step(BridgeRound::after(events.drop_last()), events.last());
    }
}

/// The end of data is passed on at once, in each direction and whatever the state of the other: the
/// bridge does not wait while the socket is no longer read, nothing is queued for the channel, and
/// the channel is still open for writing; nor while the channel is no longer read, nothing is queued
/// for the socket, and the socket is still open for writing.
pub proof fn law_bridge_passes_on_the_end(events: Seq<BridgeEvent>, ev: BridgeEvent)
    requires
        possible(events),
        BridgeTrace::after(events).state.accepts(ev),
    ensures
        ({
            let s = BridgeTrace::after(events).state;
            let n = s.next(ev);
            s.next_action(ev) is Poll || s.next_action(ev) is CloseChannel ==> {
                &&& !n.fd_read_open && n.fd_to_channel.len() == 0 ==> !n.channel_write_open
                &&& !n.channel_read_open && n.channel_to_fd.len() == 0 ==> !n.fd_write_open
            }
        }),
{
    law_bridge_tries_all_before_it_waits(events);
    lemma_round_step(BridgeRound::after(events), ev);
}

/// An outcome can be taken in if it is of the awaited action: any failure, any number of bytes up to
/// those offered, and any data for which there is room.
pub proof fn law_bridge_takes_any_outcome(
    s: BridgeView,
    failure: Failure,
    written: Result<usize, IoError>,
    read: Result<Vec<u8>, IoError>,
)
    ensures
        match s.phase {
            BridgePhase::UnblockSession | BridgePhase::SendEof | BridgePhase::ShutdownWrite
            | BridgePhase::CloseChannel => s.accepts(BridgeEvent::Done),
            BridgePhase::UnblockSocket | BridgePhase::Poll => {
                s.accepts(BridgeEvent::Done) && s.accepts(BridgeEvent::Failed(failure))
            },
            BridgePhase::WriteChannel => (written matches Ok(len) ==> len <= s.fd_to_channel.len())
                ==> s.accepts(BridgeEvent::Wrote(written)),
            BridgePhase::WriteSocket => (written matches Ok(len) ==> len <= s.channel_to_fd.len())
                ==> s.accepts(BridgeEvent::Wrote(written)),
            BridgePhase::ReadChannel => (read matches Ok(data) ==> s.channel_to_fd.len()
                + data@.len() <= 8192) ==> s.accepts(BridgeEvent::Read(read)),
            BridgePhase::ReadSocket => (read matches Ok(data) ==> s.fd_to_channel.len()
                + data@.len() <= 8192) ==> s.accepts(BridgeEvent::Read(read)),
            BridgePhase::Finished => true,
        },
        BridgeView::start() == (BridgeView {
            fd_to_channel: Seq::empty(),
            channel_to_fd: Seq::empty(),
            fd_read_open: true,
            fd_write_open: true,
            channel_read_open: true,
            channel_write_open: true,
            phase: BridgePhase::UnblockSession,
        }),
{
}

} // verus!
