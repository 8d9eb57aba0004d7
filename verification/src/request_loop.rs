//! The loop that a session runs once it is connected.
//!
//! Each turn sends a sign of life if one is due, moves data, serves the requests that have come in,
//! connects to the identity agent where the other side asked for it, and then waits for something
//! to happen.

use crate::bridge::{Interest, Wanted};
use crate::failure::{Failure, IoError};
use crate::iobuf::{
    after_read, after_write, ended, failed, law_read_keeps_the_queue_faithful,
    law_write_keeps_the_queue_faithful, pending, read_into_buf, room, write_from_buf, StreamTrace,
};
use crate::resources::Resources;
use crate::session::{
    channel_ids, channel_mut, ChannelId, ChannelInfo, ChannelView, DescriptorView, SessionInner,
    SessionView,
};
use vstd::prelude::*;

verus! {

broadcast use vstd::std_specs::hash::group_hash_axioms;

/// How long a turn waits at first, in milliseconds.
pub const FIRST_DELAY: u128 = 100;

/// The longest time that can be waited, in milliseconds.
pub const MAX_DELAY: u128 = 18446744073709551615999;

/// How many bytes are read at once from the pipe that wakes the loop up.
pub const DRAIN_LEN: usize = 16;

/// A stream of a channel to wait for.
#[derive(Clone, Copy, PartialEq, Eq, Structural)]
pub struct PollEntry {
    /// The channel.
    pub channel_id: ChannelId,
    /// The stream.
    pub fd_num: usize,
    /// What to wait for.
    pub interest: Interest,
}

/// What can be waited for.
#[derive(Clone, Copy, Debug, PartialEq, Eq, Structural)]
pub enum Source {
    /// The pipe that wakes the loop up when a request comes in.
    RequestPipe,
    /// The session.
    Session,
    /// This stream of this channel.
    Stream(ChannelId, usize),
}

/// Something to wait for.
#[derive(Clone, Copy, Debug, PartialEq, Eq, Structural)]
pub struct Waiting {
    /// On what.
    pub source: Source,
    /// For what.
    pub wanted: Wanted,
}

/// Where a turn of the loop stands.
#[derive(Clone, Copy, PartialEq, Eq, Structural)]
pub enum LoopStage {
    /// A sign of life may be sent.
    Keepalive,
    /// Data is moved.
    TickIo,
    /// The wake-up pipe is emptied.
    Drain,
    /// Requests are served.
    Dispatch,
    /// Agent connections are made.
    Agents,
    /// The loop waits.
    Poll,
    /// A descriptor that is ready is used.
    Ready,
    /// A channel whose input has ended is closed.
    Closing,
    /// The loop is over.
    Finished,
}

/// What the driver of the loop is to do next.
pub enum LoopAction<B, F> {
    /// Send a sign of life if one is due.
    Keepalive,
    /// Run a round of data transfer.
    TickIo,
    /// Read at most that many bytes from the pipe that wakes the loop up; what comes of it does not
    /// matter.
    DrainRequestPipe(usize),
    /// Serve one request, if one has come in.
    DispatchOne,
    /// Connect the channels that ask for the identity agent.
    ConnectAgents,
    /// Wait at most that many milliseconds for what the task lists.
    Poll(u128),
    /// Read at most that many bytes from the standard input of the channel.
    ReadDescriptor(ChannelId, usize),
    /// Close the channel.
    CloseChannel(ChannelId),
    /// Write these bytes to that stream of the channel, as many as it takes.
    WriteDescriptor(ChannelId, usize, B),
    /// The loop has ended with this result.
    Finished(Result<(), F>),
}

/// An action of the loop, with sequences for what it carries.
pub type LoopActionView = LoopAction<Seq<u8>, Seq<Seq<char>>>;

impl View for LoopAction<Vec<u8>, Failure> {
    type V = LoopActionView;

    open spec fn view(&self) -> LoopActionView {
        match *self {
            LoopAction::Keepalive => LoopAction::Keepalive,
            LoopAction::TickIo => LoopAction::TickIo,
            LoopAction::DrainRequestPipe(max) => LoopAction::DrainRequestPipe(max),
            LoopAction::DispatchOne => LoopAction::DispatchOne,
            LoopAction::ConnectAgents => LoopAction::ConnectAgents,
            LoopAction::Poll(delay) => LoopAction::Poll(delay),
            LoopAction::ReadDescriptor(id, max) => LoopAction::ReadDescriptor(id, max),
            LoopAction::CloseChannel(id) => LoopAction::CloseChannel(id),
            LoopAction::WriteDescriptor(id, n, bytes) => LoopAction::WriteDescriptor(id, n, bytes@),
            LoopAction::Finished(Ok(_)) => LoopAction::Finished(Ok(())),
            LoopAction::Finished(Err(failure)) => LoopAction::Finished(Err(failure@)),
        }
    }
}

/// How the action that was given last came out.
pub enum LoopEvent {
    /// It is done.
    Done,
    /// Whether a request was served, or how that failed.
    Dispatched(Result<bool, Failure>),
    /// The wait is over: what happened to each thing that the task lists, or how waiting failed.
    Polled(Result<Vec<i16>, Failure>),
    /// What the write returned.
    Wrote(Result<usize, IoError>),
    /// What the read returned.
    Read(Result<Vec<u8>, IoError>),
}

/// How far the loop has come.
pub struct LoopTask {
    /// Where the turn stands.
    stage: LoopStage,
    /// How long the next wait may take, in milliseconds.
    delay: u128,
    /// The channels, in the order in which their streams are listed.
    ids: Vec<ChannelId>,
    /// The streams to wait for.
    entries: Vec<PollEntry>,
    /// What happened to the wake-up pipe, to the session and to the entries.
    revents: Vec<i16>,
    /// Which of them is dealt with.
    at: usize,
}

/// How far the loop has come, with sequences for its lists.
pub struct LoopView {
    pub stage: LoopStage,
    pub delay: u128,
    pub ids: Seq<ChannelId>,
    pub entries: Seq<PollEntry>,
    pub revents: Seq<i16>,
    pub at: nat,
}

impl View for LoopTask {
    type V = LoopView;

    closed spec fn view(&self) -> LoopView {
        LoopView {
            stage: self.stage,
            delay: self.delay,
            ids: self.ids@,
            entries: self.entries@,
            revents: self.revents@,
            at: self.at as nat,
        }
    }
}

impl LoopTask {
    /// All that is to be waited for, in the order in which a wait tells what happened.
    pub fn waits(&self) -> (list: Vec<Waiting>)
        ensures
            list@ == wait_list(self@.entries),
    {
        let mut list: Vec<Waiting> = Vec::new();
        list.push(
            Waiting {
                source: Source::RequestPipe,
                wanted: Wanted::This(Interest { read: true, write: false }),
            },
        );
        list.push(Waiting { source: Source::Session, wanted: Wanted::Own });
        let mut i: usize = 0;
        while i < self.entries.len()
            invariant
                i <= self.entries@.len(),
                list@ == wait_list(self.entries@.take(i as int)),
            decreases self.entries@.len() - i,
        {
            let entry = self.entries[i];
            list.push(
                Waiting {
                    source: Source::Stream(entry.channel_id, entry.fd_num),
                    wanted: Wanted::This(entry.interest),
                },
            );
            assert(list@ =~= wait_list(self.entries@.take(i as int + 1)));
            i += 1;
        }
        assert(self.entries@.take(i as int) =~= self.entries@);
        list
    }

    /// How long the next wait may take, in milliseconds.
    pub fn delay(&self) -> (delay: u128)
        ensures
            delay == self@.delay,
    {
        self.delay
    }
}

/// What to wait for on stream `n` of a channel: input is always wanted, and output is written when
/// there is some, or when the process has ended and the stream may be closed.
pub open spec fn interest<R: Resources>(channel: ChannelView<R>, n: int) -> Interest {
    Interest {
        read: n == 0,
        write: n != 0 && (channel.descriptors[n].buf.len() > 0 || channel.exited),
    }
}

/// The entry for stream `n` of a channel, if that stream is open.
pub open spec fn stream_entry<R: Resources>(channel: ChannelView<R>, n: int) -> Seq<PollEntry> {
    if channel.descriptors[n].fd is Some {
        seq![
            PollEntry {
                channel_id: channel.channel_id,
                fd_num: n as usize,
                interest: interest(channel, n),
            },
        ]
    } else {
        Seq::empty()
    }
}

/// The entries for the first `n` streams of a channel.
pub open spec fn stream_entries<R: Resources>(channel: ChannelView<R>, n: int) -> Seq<PollEntry>
    decreases n,
{
    if n <= 0 {
        Seq::empty()
    } else {
        stream_entries(channel, n - 1) + stream_entry(channel, n - 1)
    }
}

/// The entries for the open streams of the channels `ids`, in order.
pub open spec fn entries_of<R: Resources>(
    channels: Map<ChannelId, ChannelView<R>>,
    ids: Seq<ChannelId>,
) -> Seq<PollEntry>
    decreases ids.len(),
{
    if ids.len() == 0 {
        Seq::empty()
    } else {
        entries_of(channels, ids.drop_last()) + stream_entries(channels[ids.last()], 3)
    }
}

/// How an entry is waited for.
pub open spec fn waiting_for(entry: PollEntry) -> Waiting {
    Waiting {
        source: Source::Stream(entry.channel_id, entry.fd_num),
        wanted: Wanted::This(entry.interest),
    }
}

/// All that is waited for, in order: the wake-up pipe, for input; the session, for what it asks for
/// itself; and the entries.
pub open spec fn wait_list(entries: Seq<PollEntry>) -> Seq<Waiting> {
    seq![
        Waiting {
            source: Source::RequestPipe,
            wanted: Wanted::This(Interest { read: true, write: false }),
        },
        Waiting { source: Source::Session, wanted: Wanted::Own },
    ] + entries.map_values(|entry: PollEntry| waiting_for(entry))
}

/// Whether something happened to anything that was waited for.
pub open spec fn any_ready(revents: Seq<i16>) -> bool {
    exists|i: int| 0 <= i < revents.len() && revents[i] != 0
}

/// Whether the entry's stream is there and open.
pub open spec fn entry_open<R: Resources>(
    channels: Map<ChannelId, ChannelView<R>>,
    entry: PollEntry,
) -> bool {
    &&& channels.contains_key(entry.channel_id)
    &&& entry.fd_num < 3
    &&& channels[entry.channel_id].descriptors[entry.fd_num as int].fd is Some
}

/// Whether no stream is listed twice.
pub open spec fn entries_distinct(entries: Seq<PollEntry>) -> bool {
    forall|i: int, j: int|
        0 <= i < j < entries.len() ==> (#[trigger] entries[i]).channel_id != (
        #[trigger] entries[j]).channel_id || entries[i].fd_num != entries[j].fd_num
}

/// Whether all entries from the first `from` on are of open streams.
pub open spec fn entries_open<R: Resources>(
    channels: Map<ChannelId, ChannelView<R>>,
    entries: Seq<PollEntry>,
    from: int,
) -> bool {
    forall|i: int| from <= i < entries.len() && 0 <= i ==> entry_open(channels, #[trigger] entries[i])
}

impl LoopView {
    /// The first turn.
    pub open spec fn start() -> LoopView {
        LoopView {
            stage: LoopStage::Keepalive,
            delay: FIRST_DELAY,
            ids: Seq::empty(),
            entries: Seq::empty(),
            revents: Seq::empty(),
            at: 0,
        }
    }

    /// The same turn at another stage.
    pub open spec fn at_stage(self, stage: LoopStage) -> LoopView {
        LoopView { stage, ..self }
    }

    /// The entry that is dealt with. The first two places are the wake-up pipe and the session.
    pub open spec fn entry(self) -> PollEntry {
        self.entries[self.at - 2]
    }

    /// What holds of the loop: from the wait on, the streams to wait for are listed once each, and
    /// those not yet dealt with are open.
    pub open spec fn inv<R: Resources>(self, channels: Map<ChannelId, ChannelView<R>>) -> bool {
        match self.stage {
            LoopStage::Poll => {
                &&& entries_distinct(self.entries)
                &&& entries_open(channels, self.entries, 0)
            },
            LoopStage::Ready | LoopStage::Closing => {
                &&& self.revents.len() == self.entries.len() + 2
                &&& 2 <= self.at < self.revents.len()
                &&& entries_distinct(self.entries)
                &&& entries_open(channels, self.entries, self.at - 2)
                &&& self.stage == LoopStage::Closing ==> self.entry().fd_num == 0
            },
            _ => true,
        }
    }

    /// Whether `ev` can be the outcome of the awaited action.
    pub open spec fn accepts<R: Resources>(
        self,
        channels: Map<ChannelId, ChannelView<R>>,
        ev: LoopEvent,
    ) -> bool {
        match (self.stage, ev) {
            (LoopStage::Keepalive, LoopEvent::Done) => true,
            (LoopStage::TickIo, LoopEvent::Done) => true,
            (LoopStage::Drain, LoopEvent::Done) => true,
            (LoopStage::Dispatch, LoopEvent::Dispatched(_)) => true,
            (LoopStage::Agents, LoopEvent::Done) => true,
            (LoopStage::Poll, LoopEvent::Polled(Ok(revents))) => revents@.len()
                == wait_list(self.entries).len() && self.delay + self.delay <= MAX_DELAY,
            (LoopStage::Poll, LoopEvent::Polled(Err(_))) => true,
            (LoopStage::Ready, LoopEvent::Read(read)) => {
                &&& self.entry().fd_num == 0
                &&& read matches Ok(data)
                    ==> channels[self.entry().channel_id].descriptors[0].buf.len() + data@.len()
                    <= channels[self.entry().channel_id].descriptors[0].capacity
            },
            (LoopStage::Ready, LoopEvent::Wrote(written)) => {
                &&& self.entry().fd_num != 0
                &&& written matches Ok(len) ==> len
                    <= channels[self.entry().channel_id].descriptors[self.entry().fd_num as int].buf.len()
            },
            (LoopStage::Closing, LoopEvent::Done) => true,
            _ => false,
        }
    }
}

/// The channels with stream `n` of channel `id` closed.
pub open spec fn close_stream<R: Resources>(
    channels: Map<ChannelId, ChannelView<R>>,
    id: ChannelId,
    n: int,
) -> Map<ChannelId, ChannelView<R>> {
    channels.insert(id, channels[id].with_closed(n))
}

/// What comes next from place `task.at` on: the channels, where the turn stands, and the action.
/// An output stream that is ready, empty and without a process behind it is closed on the way.
pub open spec fn ready_from<R: Resources>(
    channels: Map<ChannelId, ChannelView<R>>,
    task: LoopView,
) -> (Map<ChannelId, ChannelView<R>>, LoopView, LoopActionView)
    decreases task.revents.len() - task.at,
{
    if task.at >= task.revents.len() {
        (channels, task.at_stage(LoopStage::Keepalive), LoopAction::Keepalive)
    } else if task.at < 2 || task.revents[task.at as int] == 0 {
        ready_from(channels, LoopView { at: task.at + 1, ..task })
    } else {
        let id = task.entry().channel_id;
        let n = task.entry().fd_num;
        let d = channels[id].descriptors[n as int];
        if n == 0 {
            (
                channels,
                task.at_stage(LoopStage::Ready),
                LoopAction::ReadDescriptor(id, (d.capacity - d.buf.len()) as usize),
            )
        } else if channels[id].exited && d.buf.len() == 0 {
            ready_from(close_stream(channels, id, n as int), LoopView { at: task.at + 1, ..task })
        } else {
            (
                channels,
                task.at_stage(LoopStage::Ready),
                LoopAction::WriteDescriptor(id, n, d.buf),
            )
        }
    }
}

/// The stream that is dealt with, once the outcome of its use is taken in.
pub open spec fn stream_after(d: DescriptorView, ev: LoopEvent) -> DescriptorView {
    match ev {
        LoopEvent::Read(read) => DescriptorView { buf: after_read(d.buf, read), ..d },
        LoopEvent::Wrote(written) => DescriptorView {
            fd: if failed(written) {
                None
            } else {
                d.fd
            },
            buf: after_write(d.buf, written),
            ..d
        },
        _ => DescriptorView { fd: None, ..d },
    }
}

/// The channels, once the outcome of the use of a stream is taken in.
pub open spec fn used<R: Resources>(
    channels: Map<ChannelId, ChannelView<R>>,
    task: LoopView,
    ev: LoopEvent,
) -> Map<ChannelId, ChannelView<R>> {
    let id = task.entry().channel_id;
    let n = task.entry().fd_num as int;
    channels.insert(
        id,
        channels[id].with_descriptor(n, stream_after(channels[id].descriptors[n], ev)),
    )
}

/// The next step of the loop, given the outcome of the awaited action: the channels, where the loop
/// stands, and the action. `ids` is the order in which the streams are listed for a wait.
pub open spec fn loop_next<R: Resources>(
    session: SessionView<R>,
    task: LoopView,
    ev: LoopEvent,
    ids: Seq<ChannelId>,
) -> (Map<ChannelId, ChannelView<R>>, LoopView, LoopActionView) {
    let channels = session.channels;
    match (task.stage, ev) {
        (LoopStage::Keepalive, _) => (
            channels,
            task.at_stage(LoopStage::TickIo),
            LoopAction::TickIo,
        ),
        (LoopStage::TickIo, _) => (
            channels,
            task.at_stage(LoopStage::Drain),
            LoopAction::DrainRequestPipe(DRAIN_LEN),
        ),
        (LoopStage::Drain, _) => (
            channels,
            task.at_stage(LoopStage::Dispatch),
            LoopAction::DispatchOne,
        ),
        (LoopStage::Dispatch, LoopEvent::Dispatched(Err(failure))) => (
            channels,
            task.at_stage(LoopStage::Finished),
            LoopAction::Finished(Err(failure@)),
        ),
        (LoopStage::Dispatch, LoopEvent::Dispatched(Ok(true))) => (
            channels,
            task,
            LoopAction::DispatchOne,
        ),
        (LoopStage::Dispatch, _) => (
            channels,
            task.at_stage(LoopStage::Agents),
            LoopAction::ConnectAgents,
        ),
        (LoopStage::Agents, _) => if channels.is_empty() && session.session_was_dropped {
            (channels, task.at_stage(LoopStage::Finished), LoopAction::Finished(Ok(())))
        } else {
            (
                channels,
                LoopView {
                    stage: LoopStage::Poll,
                    ids,
                    entries: entries_of(channels, ids),
                    ..task
                },
                LoopAction::Poll(task.delay),
            )
        },
        (LoopStage::Poll, LoopEvent::Polled(Ok(revents))) => ready_from(
            channels,
            LoopView {
                stage: LoopStage::Ready,
                delay: if any_ready(revents@) {
                    FIRST_DELAY
                } else {
                    (task.delay + task.delay) as u128
                },
                revents: revents@,
                at: 0,
                ..task
            },
        ),
        (LoopStage::Poll, LoopEvent::Polled(Err(failure))) => (
            channels,
            task.at_stage(LoopStage::Finished),
            LoopAction::Finished(Err(seq!["poll"@] + failure@)),
        ),
        (LoopStage::Ready, LoopEvent::Read(read)) => if ended(read) {
            (
                used(channels, task, ev),
                task.at_stage(LoopStage::Closing),
                LoopAction::CloseChannel(task.entry().channel_id),
            )
        } else {
            ready_from(used(channels, task, ev), LoopView { at: task.at + 1, ..task })
        },
        (LoopStage::Ready, _) => ready_from(
            used(channels, task, ev),
            LoopView { at: task.at + 1, ..task },
        ),
        (LoopStage::Closing, _) => ready_from(
            used(channels, task, ev),
            LoopView { stage: LoopStage::Ready, at: task.at + 1, ..task },
        ),
        _ => (channels, task, LoopAction::Finished(Ok(()))),
    }
}

proof fn lemma_stream_entries<R: Resources>(channel: ChannelView<R>, n: int)
    requires
        0 <= n <= 3,
        channel.descriptors.len() == 3,
    ensures
        forall|i: int|
            0 <= i < stream_entries(channel, n).len() ==> {
                let e = #[trigger] stream_entries(channel, n)[i];
                &&& e.channel_id == channel.channel_id
                &&& e.fd_num < n
                &&& channel.descriptors[e.fd_num as int].fd is Some
            },
        entries_distinct(stream_entries(channel, n)),
    decreases n,
{
    if n > 0 {
        lemma_stream_entries(channel, n - 1);
    }
}

proof fn lemma_entries_of<R: Resources>(
    channels: Map<ChannelId, ChannelView<R>>,
    ids: Seq<ChannelId>,
)
    requires
        ids.no_duplicates(),
        forall|i: int|
            0 <= i < ids.len() ==> channels.contains_key(#[trigger] ids[i])
                && channels[ids[i]].channel_id == ids[i] && channels[ids[i]].wf(),
    ensures
        entries_distinct(entries_of(channels, ids)),
        entries_open(channels, entries_of(channels, ids), 0),
        forall|i: int|
            0 <= i < entries_of(channels, ids).len() ==> ids.contains(
                (#[trigger] entries_of(channels, ids)[i]).channel_id,
            ),
    decreases ids.len(),
{
    if ids.len() > 0 {
        let rest = ids.drop_last();
        let last = ids.last();
        assert(forall|i: int| 0 <= i < rest.len() ==> rest[i] == ids[i]);
        lemma_entries_of(channels, rest);
        assert(ids[ids.len() - 1] == last);
        lemma_stream_entries(channels[last], 3);
        let a = entries_of(channels, rest);
        let b = stream_entries(channels[last], 3);
        let all = entries_of(channels, ids);
        assert(all == a + b);
        assert forall|i: int| 0 <= i < all.len() implies ids.contains(
            (#[trigger] all[i]).channel_id,
        ) by {
            if i < a.len() {
                assert(all[i] == a[i]);
                let k = choose|k: int| 0 <= k < rest.len() && rest[k] == a[i].channel_id;
                assert(ids[k] == a[i].channel_id);
            } else {
                assert(all[i] == b[i - a.len()]);
            }
        }
        assert forall|i: int, j: int| 0 <= i < j < all.len() implies (
        #[trigger] all[i]).channel_id != (#[trigger] all[j]).channel_id || all[i].fd_num
            != all[j].fd_num by {
            if j < a.len() {
                assert(all[i] == a[i] && all[j] == a[j]);
            } else if i >= a.len() {
                assert(all[i] == b[i - a.len()] && all[j] == b[j - a.len()]);
            } else {
                assert(all[i] == a[i] && all[j] == b[j - a.len()]);
                let k = choose|k: int| 0 <= k < rest.len() && rest[k] == a[i].channel_id;
                assert(ids[k] == a[i].channel_id);
            }
        }
        assert forall|i: int| 0 <= i < all.len() implies entry_open(channels, #[trigger] all[i]) by {
            if i < a.len() {
                assert(all[i] == a[i]);
            } else {
                assert(all[i] == b[i - a.len()]);
            }
        }
    }
}

/// After stream `k` of the list was dealt with, the streams behind it are still open.
proof fn lemma_rest_stays_open<R: Resources>(
    channels: Map<ChannelId, ChannelView<R>>,
    entries: Seq<PollEntry>,
    k: int,
    d: DescriptorView,
)
    requires
        0 <= k < entries.len(),
        entries_distinct(entries),
        entries_open(channels, entries, k),
        channels[entries[k].channel_id].descriptors.len() == 3,
    ensures
        ({
            let e = entries[k];
            let c = channels[e.channel_id].with_descriptor(e.fd_num as int, d);
            entries_open(channels.insert(e.channel_id, c), entries, k + 1)
        }),
{
    let e = entries[k];
    let c = channels[e.channel_id].with_descriptor(e.fd_num as int, d);
    let channels2 = channels.insert(e.channel_id, c);
    assert forall|i: int| k + 1 <= i < entries.len() && 0 <= i implies entry_open(
        channels2,
        #[trigger] entries[i],
    ) by {
        assert(entry_open(channels, entries[i]));
        assert(entries[k].channel_id != entries[i].channel_id || entries[k].fd_num
            != entries[i].fd_num);
    }
}

impl<R: Resources> SessionInner<R> {
    /// Starts the loop: gives its first action.
    pub fn request_loop(&self) -> (r: (LoopTask, LoopAction<Vec<u8>, Failure>))
        ensures
            r.0@ == LoopView::start(),
            r.0@.inv(self@.channels),
            r.1@ == LoopActionView::Keepalive,
    {
        let task = LoopTask {
            stage: LoopStage::Keepalive,
            delay: FIRST_DELAY,
            ids: Vec::new(),
            entries: Vec::new(),
            revents: Vec::new(),
            at: 0,
        };
        assert(task@ == LoopView::start());
        (task, LoopAction::Keepalive)
    }

    /// Takes in the outcome of the action of the loop that was given last, and gives the next one.
    pub fn loop_step(&mut self, task: LoopTask, ev: LoopEvent) -> (r: (
        LoopTask,
        LoopAction<Vec<u8>, Failure>,
    ))
        requires
            old(self)@.wf(),
            task@.inv(old(self)@.channels),
            task@.accepts(old(self)@.channels, ev),
        ensures
            (final(self)@.channels, r.0@, r.1@) == loop_next(old(self)@, task@, ev, r.0@.ids),
            r.0@.stage == LoopStage::Poll ==> r.0@.ids.no_duplicates() && r.0@.ids.to_set()
                == old(self)@.channels.dom(),
            r.0@.inv(final(self)@.channels),
            final(self)@ == (SessionView { channels: final(self)@.channels, ..old(self)@ }),
            final(self)@.wf(),
    {
        let mut work = task;
        match (work.stage, ev) {
            (LoopStage::Keepalive, _) => {
                work.stage = LoopStage::TickIo;
                (work, LoopAction::TickIo)
            },
            (LoopStage::TickIo, _) => {
                work.stage = LoopStage::Drain;
                (work, LoopAction::DrainRequestPipe(DRAIN_LEN))
            },
            (LoopStage::Drain, _) => {
                work.stage = LoopStage::Dispatch;
                (work, LoopAction::DispatchOne)
            },
            (LoopStage::Dispatch, LoopEvent::Dispatched(Err(failure))) => {
                work.stage = LoopStage::Finished;
                (work, LoopAction::Finished(Err(failure)))
            },
            (LoopStage::Dispatch, LoopEvent::Dispatched(Ok(true))) => (
                work,
                LoopAction::DispatchOne,
            ),
            (LoopStage::Dispatch, _) => {
                work.stage = LoopStage::Agents;
                (work, LoopAction::ConnectAgents)
            },
            (LoopStage::Agents, _) => {
                assert(self@.channels.dom() == self.channels@.dom());
                if self.channels.is_empty() && self.session_was_dropped {
                    work.stage = LoopStage::Finished;
                    (work, LoopAction::Finished(Ok(())))
                } else {
                    self.list_streams(&mut work);
                    let delay: u128 = work.delay;
                    (work, LoopAction::Poll(delay))
                }
            },
            (LoopStage::Poll, LoopEvent::Polled(Ok(revents))) => {
                let doubled: u128 = work.delay + work.delay;
                work.delay = if something_ready(&revents) {
                    FIRST_DELAY
                } else {
                    doubled
                };
                work.stage = LoopStage::Ready;
                work.revents = revents;
                work.at = 0;
                self.ready_seek(work)
            },
            (LoopStage::Poll, LoopEvent::Polled(Err(failure))) => {
                work.stage = LoopStage::Finished;
                (work, LoopAction::Finished(Err(failure.context("poll".to_owned()))))
            },
            (LoopStage::Ready, ev) | (LoopStage::Closing, ev) => {
                let entry = work.entries[work.at - 2];
                assert(work.at < work.revents.len());
                proof {
                    lemma_rest_stays_open(
                        self@.channels,
                        work@.entries,
                        work@.at - 2,
                        stream_after(
                            self@.channels[entry.channel_id].descriptors[entry.fd_num as int],
                            ev,
                        ),
                    );
                }
                if self.use_stream(entry, ev) {
                    work.stage = LoopStage::Closing;
                    (work, LoopAction::CloseChannel(entry.channel_id))
                } else {
                    work.stage = LoopStage::Ready;
                    work.at = work.at + 1;
                    self.ready_seek(work)
                }
            },
            _ => (work, LoopAction::Finished(Ok(()))),
        }
    }

    /// Takes in the outcome of the use of a stream; tells whether its input has ended.
    fn use_stream(&mut self, entry: PollEntry, ev: LoopEvent) -> (input_ended: bool)
        requires
            old(self)@.wf(),
            entry_open(old(self)@.channels, entry),
            ({
                let d = old(self)@.channels[entry.channel_id].descriptors[entry.fd_num as int];
                &&& ev matches LoopEvent::Read(Ok(data)) ==> d.buf.len() + data@.len()
                    <= d.capacity
                &&& ev matches LoopEvent::Wrote(Ok(len)) ==> len <= d.buf.len()
            }),
        ensures
            final(self)@ == old(self)@.with_channel(
                entry.channel_id,
                old(self)@.channels[entry.channel_id].with_descriptor(
                    entry.fd_num as int,
                    stream_after(
                        old(self)@.channels[entry.channel_id].descriptors[entry.fd_num as int],
                        ev,
                    ),
                ),
            ),
            final(self)@.wf(),
            input_ended == (ev matches LoopEvent::Read(read) && ended(read)),
    {
        let id: ChannelId = entry.channel_id;
        let n: usize = entry.fd_num;
        let ghost before = old(self)@.channels[id];
        let ghost after = before.with_descriptor(
            n as int,
            stream_after(before.descriptors[n as int], ev),
        );
        let mut input_ended = false;
        match channel_mut(&mut self.channels, id) {
            Some(info) => {
                match ev {
                    LoopEvent::Read(read) => {
                        input_ended = read_into_buf(read, &mut info.descriptors[n].buf).is_err();
                    },
                    LoopEvent::Wrote(written) => {
                        if write_from_buf(written, &mut info.descriptors[n].buf).is_err() {
                            info.descriptors[n].fd = None;
                        }
                    },
                    _ => {
                        info.descriptors[n].fd = None;
                    },
                }
                assert(info@.descriptors == after.descriptors);
            },
            None => {},
        }
        assert(self@.channels == old(self)@.channels.insert(id, after));
        input_ended
    }

    /// Lists the open streams of all channels.
    fn list_streams(&self, task: &mut LoopTask)
        requires
            self@.wf(),
        ensures
            final(task)@.ids.no_duplicates(),
            final(task)@.ids.to_set() == self@.channels.dom(),
            final(task)@ == (LoopView {
                stage: LoopStage::Poll,
                ids: final(task)@.ids,
                entries: entries_of(self@.channels, final(task)@.ids),
                ..old(task)@
            }),
            final(task)@.inv(self@.channels),
    {
        let ids = channel_ids(&self.channels);
        assert(self@.channels.dom() == self.channels@.dom());
        assert forall|i: int| 0 <= i < ids@.len() implies self@.channels.contains_key(
            #[trigger] ids@[i],
        ) by {
            assert(ids@.to_set().contains(ids@[i]));
        }
        let mut entries: Vec<PollEntry> = Vec::new();
        let mut i: usize = 0;
        while i < ids.len()
            invariant
                i <= ids@.len(),
                self@.wf(),
                forall|k: int| 0 <= k < ids@.len() ==> self@.channels.contains_key(#[trigger] ids@[k]),
                entries@ == entries_of(self@.channels, ids@.take(i as int)),
            decreases ids@.len() - i,
        {
            let id: ChannelId = ids[i];
            assert(self@.channels.contains_key(id));
            match self.channels.get(&id) {
                Some(info) => {
                    assert(info@ == self@.channels[id]);
                    push_entries(info, &mut entries);
                },
                None => {
                    assert(false);
                },
            }
            assert(ids@.take(i as int + 1).drop_last() == ids@.take(i as int));
            i += 1;
        }
        assert(ids@.take(i as int) == ids@);
        proof {
            lemma_entries_of(self@.channels, ids@);
        }
        task.stage = LoopStage::Poll;
        task.ids = ids;
        task.entries = entries;
    }

    /// Goes on to the next stream that is ready.
    fn ready_seek(&mut self, task: LoopTask) -> (r: (LoopTask, LoopAction<Vec<u8>, Failure>))
        requires
            old(self)@.wf(),
            task.stage == LoopStage::Ready,
            task@.revents.len() == task@.entries.len() + 2,
            task@.at <= task@.revents.len(),
            entries_distinct(task@.entries),
            entries_open(old(self)@.channels, task@.entries, task@.at - 2),
        ensures
            (final(self)@.channels, r.0@, r.1@) == ready_from(old(self)@.channels, task@),
            r.0@.ids == task@.ids,
            r.0@.stage != LoopStage::Poll,
            r.0@.inv(final(self)@.channels),
            final(self)@ == (SessionView { channels: final(self)@.channels, ..old(self)@ }),
            final(self)@.wf(),
    {
        let mut work = task;
        while work.at < work.revents.len()
            invariant
                self@.wf(),
                self@ == (SessionView { channels: self@.channels, ..old(self)@ }),
                work.stage == LoopStage::Ready,
                work@.revents.len() == work@.entries.len() + 2,
                work@.at <= work@.revents.len(),
                work@.ids == task@.ids,
                entries_distinct(work@.entries),
                entries_open(self@.channels, work@.entries, work@.at - 2),
                ready_from(self@.channels, work@) == ready_from(old(self)@.channels, task@),
            decreases work@.revents.len() - work.at,
        {
            if work.at >= 2 && work.revents[work.at] != 0 {
                let entry = work.entries[work.at - 2];
                let id: ChannelId = entry.channel_id;
                let n: usize = entry.fd_num;
                assert(entry_open(self@.channels, entry));
                let info = match self.channels.get(&id) {
                    Some(info) => info,
                    None => {
                        assert(false);
                        return (work, LoopAction::Keepalive);
                    },
                };
                assert(info@ == self@.channels[id]);
                assert(info@.descriptors[n as int].buf.len() <= info@.descriptors[n as int].capacity);
                if n == 0 {
                    let free: usize = room(&info.descriptors[0].buf);
                    return (work, LoopAction::ReadDescriptor(id, free));
                }
                if !info.exited || info.descriptors[n].buf.len() > 0 {
                    let bytes = pending(&info.descriptors[n].buf);
                    return (work, LoopAction::WriteDescriptor(id, n, bytes));
                }
                proof {
                    let d = self@.channels[id].descriptors[n as int];
                    lemma_rest_stays_open(
                        self@.channels,
                        work@.entries,
                        work@.at - 2,
                        DescriptorView { fd: None, ..d },
                    );
                }
                self.use_stream(entry, LoopEvent::Done);
            }
            work.at = work.at + 1;
        }
        work.stage = LoopStage::Keepalive;
        (work, LoopAction::Keepalive)
    }
}

/// Tells whether something happened to anything that was waited for.
fn something_ready(revents: &Vec<i16>) -> (yes: bool)
    ensures
        yes == any_ready(revents@),
{
    let mut i: usize = 0;
    while i < revents.len()
        invariant
            i <= revents@.len(),
            forall|k: int| 0 <= k < i ==> revents@[k] == 0,
        decreases revents@.len() - i,
    {
        if revents[i] != 0 {
            return true;
        }
        i += 1;
    }
    false
}

/// Adds the entries for the open streams of a channel.
fn push_entries<R: Resources>(info: &ChannelInfo<R>, entries: &mut Vec<PollEntry>)
    requires
        info@.wf(),
    ensures
        final(entries)@ == old(entries)@ + stream_entries(info@, 3),
{
    let mut n: usize = 0;
    while n < 3
        invariant
            n <= 3,
            info@.wf(),
            entries@ == old(entries)@ + stream_entries(info@, n as int),
        decreases 3 - n,
    {
        if info.descriptors[n].fd.is_some() {
            let write = n != 0 && (info.descriptors[n].buf.len() > 0 || info.exited);
            entries.push(
                PollEntry {
                    channel_id: info.channel_id,
                    fd_num: n,
                    interest: Interest { read: n == 0, write },
                },
            );
        }
        assert(info@.descriptors[n as int] == info.descriptors@[n as int]@);
        assert(entries@ == old(entries)@ + stream_entries(info@, n as int + 1));
        n += 1;
    }
}

/// The loop ends well if and only if, at the end of its work for a turn, no channel is left and the
/// owner of the session is gone. It ends badly if and only if serving requests or waiting fails, and
/// says so.
pub proof fn law_loop_ends_when_idle<R: Resources>(
    session: SessionView<R>,
    task: LoopView,
    ev: LoopEvent,
    ids: Seq<ChannelId>,
)
    requires
        session.wf(),
        task.inv(session.channels),
        task.accepts(session.channels, ev),
    ensures
        ({
            let action = loop_next(session, task, ev, ids).2;
            &&& action == LoopActionView::Finished(Ok(())) <==> {
                &&& task.stage == LoopStage::Agents
                &&& session.channels.is_empty()
                &&& session.session_was_dropped
            }
            &&& action matches LoopAction::Finished(Err(chain)) ==> match ev {
                LoopEvent::Dispatched(Err(failure)) => chain == failure@,
                LoopEvent::Polled(Err(failure)) => chain == seq!["poll"@] + failure@,
                _ => false,
            }
            &&& (ev matches LoopEvent::Dispatched(Err(_))) || (ev matches LoopEvent::Polled(Err(_)))
                ==> (action matches LoopAction::Finished(Err(_)))
        }),
{
    lemma_seek_keeps_the_turn(session.channels, after_wait(task, ev));
    lemma_seek_keeps_the_turn(used(session.channels, task, ev), after_use(task));
}

/// The turn, once the wait is over.
spec fn after_wait(task: LoopView, ev: LoopEvent) -> LoopView {
    match ev {
        LoopEvent::Polled(Ok(revents)) => LoopView {
            stage: LoopStage::Ready,
            delay: if any_ready(revents@) {
                FIRST_DELAY
            } else {
                (task.delay + task.delay) as u128
            },
            revents: revents@,
            at: 0,
            ..task
        },
        _ => task,
    }
}

/// The turn, once a stream is dealt with.
spec fn after_use(task: LoopView) -> LoopView {
    LoopView { stage: LoopStage::Ready, at: task.at + 1, ..task }
}

proof fn lemma_seek_keeps_the_turn<R: Resources>(
    channels: Map<ChannelId, ChannelView<R>>,
    task: LoopView,
)
    ensures
        ({
            let (_, next, action) = ready_from(channels, task);
            &&& next.delay == task.delay
            &&& next.ids == task.ids
            &&& next.entries == task.entries
            &&& next.revents == task.revents
            &&& next.at >= task.at
            &&& next.stage == if next.at < task.revents.len() {
                LoopStage::Ready
            } else {
                LoopStage::Keepalive
            }
            &&& !(action is Finished) && !(action is Poll)
        }),
    decreases task.revents.len() - task.at,
{
    if task.at < task.revents.len() {
        let id = task.entry().channel_id;
        let n = task.entry().fd_num;
        let on = LoopView { at: task.at + 1, ..task };
        lemma_seek_keeps_the_turn(channels, on);
        lemma_seek_keeps_the_turn(close_stream(channels, id, n as int), on);
    }
}

/// Requests are served until none has come in: the turn goes on to the agent connections if and
/// only if there was none.
pub proof fn law_requests_are_served_first<R: Resources>(
    session: SessionView<R>,
    task: LoopView,
    served: Result<bool, Failure>,
    ids: Seq<ChannelId>,
)
    requires
        task.stage == LoopStage::Dispatch,
    ensures
        ({
            let (_, next, action) = loop_next(session, task, LoopEvent::Dispatched(served), ids);
            &&& action is ConnectAgents <==> served == Ok::<bool, Failure>(false)
            &&& served == Ok::<bool, Failure>(true) ==> next == task && action is DispatchOne
        }),
{
}

/// A wait takes as long as the turn says. After one in which nothing happened the next one takes
/// twice as long, and after one in which something happened it takes as long as the first.
pub proof fn law_wait_doubles_until_something_happens<R: Resources>(
    session: SessionView<R>,
    task: LoopView,
    ev: LoopEvent,
    ids: Seq<ChannelId>,
)
    requires
        session.wf(),
        task.inv(session.channels),
        task.accepts(session.channels, ev),
    ensures
        ({
            let (_, next, action) = loop_next(session, task, ev, ids);
            &&& action matches LoopAction::Poll(delay) ==> delay == task.delay
            &&& next.delay == match ev {
                LoopEvent::Polled(Ok(revents)) => if any_ready(revents@) {
                    FIRST_DELAY
                } else {
                    (2 * task.delay) as u128
                },
                _ => task.delay,
            }
        }),
{
    lemma_seek_keeps_the_turn(session.channels, after_wait(task, ev));
    lemma_seek_keeps_the_turn(used(session.channels, task, ev), after_use(task));
}

proof fn lemma_stream_is_listed<R: Resources>(channel: ChannelView<R>, n: int, k: int)
    requires
        0 <= k < n <= 3,
        channel.descriptors.len() == 3,
        channel.descriptors[k].fd is Some,
    ensures
        exists|i: int|
            0 <= i < stream_entries(channel, n).len() && #[trigger] stream_entries(channel, n)[i]
                == stream_entry(channel, k)[0],
    decreases n,
{
    if k == n - 1 {
        let i = stream_entries(channel, n - 1).len() as int;
        assert(stream_entries(channel, n)[i] == stream_entry(channel, k)[0]);
    } else {
        lemma_stream_is_listed(channel, n - 1, k);
        let i = choose|i: int|
            0 <= i < stream_entries(channel, n - 1).len() && #[trigger] stream_entries(
                channel,
                n - 1,
            )[i] == stream_entry(channel, k)[0];
        assert(stream_entries(channel, n)[i] == stream_entries(channel, n - 1)[i]);
    }
}

/// Every stream that is open is waited for, once, and no other is: for input on standard input, and
/// for output on the others where there is some or the process has ended.
pub proof fn law_open_streams_are_waited_for<R: Resources>(
    session: SessionView<R>,
    ids: Seq<ChannelId>,
)
    requires
        session.wf(),
        ids.no_duplicates(),
        ids.to_set() == session.channels.dom(),
    ensures
        entries_distinct(entries_of(session.channels, ids)),
        entries_open(session.channels, entries_of(session.channels, ids), 0),
        forall|id: ChannelId, n: int|
            #![trigger session.channels[id].descriptors[n]]
            session.channels.contains_key(id) && 0 <= n < 3
                && session.channels[id].descriptors[n].fd is Some ==> entries_of(
                session.channels,
                ids,
            ).contains(
                PollEntry {
                    channel_id: id,
                    fd_num: n as usize,
                    interest: interest(session.channels[id], n),
                },
            ),
{
    assert forall|i: int| 0 <= i < ids.len() implies session.channels.contains_key(
        #[trigger] ids[i],
    ) by {
        assert(ids.to_set().contains(ids[i]));
    }
    lemma_entries_of(session.channels, ids);
    assert forall|id: ChannelId, n: int|
        #![trigger session.channels[id].descriptors[n]]
        session.channels.contains_key(id) && 0 <= n < 3
            && session.channels[id].descriptors[n].fd is Some implies entries_of(
        session.channels,
        ids,
    ).contains(
        PollEntry {
            channel_id: id,
            fd_num: n as usize,
            interest: interest(session.channels[id], n),
        },
    ) by {
        assert(ids.to_set().contains(id));
        lemma_channel_is_listed(session.channels, ids, id, n);
        assert(session.channels[id].channel_id == id);
    }
}

/// A wait is for the wake-up pipe, so that requests are seen, for the session, as that asks, and for
/// the listed streams; what a wait says happened is in the same order, and what happened at the place
/// that is dealt with is of the stream that is dealt with.
pub proof fn law_wait_covers_all<R: Resources>(
    session: SessionView<R>,
    task: LoopView,
    ev: LoopEvent,
    ids: Seq<ChannelId>,
)
    requires
        session.wf(),
        task.inv(session.channels),
        task.accepts(session.channels, ev),
    ensures
        ({
            let list = wait_list(task.entries);
            &&& list[0] == (Waiting {
                source: Source::RequestPipe,
                wanted: Wanted::This(Interest { read: true, write: false }),
            })
            &&& list[1] == (Waiting { source: Source::Session, wanted: Wanted::Own })
            &&& list.len() == task.entries.len() + 2
            &&& forall|i: int|
                0 <= i < task.entries.len() ==> list[i + 2] == waiting_for(
                    #[trigger] task.entries[i],
                )
            &&& ev matches LoopEvent::Polled(Ok(revents)) ==> revents@.len() == list.len()
            &&& task.stage == LoopStage::Ready || task.stage == LoopStage::Closing ==> {
                &&& task.revents.len() == list.len()
                &&& list[task.at as int] == waiting_for(task.entry())
            }
        }),
        task.stage == LoopStage::Agents && loop_next(session, task, ev, ids).2 is Poll ==> loop_next(
            session,
            task,
            ev,
            ids,
        ).1.entries == entries_of(session.channels, ids),
{
    assert forall|i: int| 0 <= i < task.entries.len() implies wait_list(task.entries)[i + 2]
        == waiting_for(#[trigger] task.entries[i]) by {}
    if task.stage == LoopStage::Ready || task.stage == LoopStage::Closing {
        assert(task.entries[task.at - 2] == task.entry());
    }
}

proof fn lemma_channel_is_listed<R: Resources>(
    channels: Map<ChannelId, ChannelView<R>>,
    ids: Seq<ChannelId>,
    id: ChannelId,
    n: int,
)
    requires
        ids.contains(id),
        0 <= n < 3,
        channels[id].descriptors.len() == 3,
        channels[id].descriptors[n].fd is Some,
    ensures
        entries_of(channels, ids).contains(stream_entry(channels[id], n)[0]),
    decreases ids.len(),
{
    let rest = entries_of(channels, ids.drop_last());
    let all = entries_of(channels, ids);
    if ids.last() == id {
        lemma_stream_is_listed(channels[id], 3, n);
        let own = stream_entries(channels[id], 3);
        let i = choose|i: int|
            0 <= i < own.len() && #[trigger] own[i] == stream_entry(channels[id], n)[0];
        assert(all[rest.len() + i] == own[i]);
    } else {
        let k = choose|k: int| 0 <= k < ids.len() && ids[k] == id;
        assert(ids.drop_last()[k] == id);
        lemma_channel_is_listed(channels, ids.drop_last(), id, n);
        let i = choose|i: int| 0 <= i < rest.len() && rest[i] == stream_entry(channels[id], n)[0];
        assert(all[i] == rest[i]);
    }
}

/// Whether the streams of a channel after a step are what they were, or were changed in one of the
/// ways in which the loop changes them: something was read into standard input or taken from the
/// front of an output stream, or the stream was closed. An output stream keeps no less than what
/// is not yet written, and none is opened.
pub open spec fn stream_moves(before: DescriptorView, after: DescriptorView, n: int) -> bool {
    &&& after.fd == before.fd || after.fd is None
    &&& after.capacity == before.capacity
    &&& if n == 0 {
        before.buf.is_prefix_of(after.buf)
    } else {
        after.buf.is_suffix_of(before.buf)
    }
}

/// Whether the two states of a channel differ only in how far its streams have moved.
pub open spec fn channel_moves<R: Resources>(before: ChannelView<R>, after: ChannelView<R>) -> bool {
    &&& after.channel_id == before.channel_id
    &&& after.channel == before.channel
    &&& after.exit == before.exit
    &&& after.exited == before.exited
    &&& after.descriptors.len() == 3
    &&& forall|n: int|
        0 <= n < 3 ==> stream_moves(before.descriptors[n], #[trigger] after.descriptors[n], n)
}

/// Whether the two maps hold the same channels, which differ only in how far their streams have
/// moved.
pub open spec fn channels_move<R: Resources>(
    before: Map<ChannelId, ChannelView<R>>,
    after: Map<ChannelId, ChannelView<R>>,
) -> bool {
    &&& after.dom() == before.dom()
    &&& forall|id: ChannelId| #[trigger]
        after.contains_key(id) ==> channel_moves(before[id], after[id])
}

proof fn lemma_suffix_of_suffix(a: Seq<u8>, b: Seq<u8>, c: Seq<u8>)
    requires
        a.is_suffix_of(b),
        b.is_suffix_of(c),
    ensures
        a.is_suffix_of(c),
{
    assert(c.subrange(c.len() - a.len(), c.len() as int) =~= b.subrange(
        b.len() - a.len(),
        b.len() as int,
    ));
}

proof fn lemma_moves_add_up<R: Resources>(
    a: Map<ChannelId, ChannelView<R>>,
    b: Map<ChannelId, ChannelView<R>>,
    c: Map<ChannelId, ChannelView<R>>,
)
    requires
        channels_move(a, b),
        channels_move(b, c),
    ensures
        channels_move(a, c),
{
    assert forall|id: ChannelId| #[trigger] c.contains_key(id) implies channel_moves(a[id], c[id]) by {
        assert(b.contains_key(id));
        assert forall|n: int| 0 <= n < 3 implies stream_moves(
            a[id].descriptors[n],
            #[trigger] c[id].descriptors[n],
            n,
        ) by {
            let (x, y, z) = (a[id].descriptors[n], b[id].descriptors[n], c[id].descriptors[n]);
            assert(stream_moves(x, y, n) && stream_moves(y, z, n));
            if n != 0 {
                lemma_suffix_of_suffix(z.buf, y.buf, x.buf);
            }
        }
    }
}

proof fn lemma_one_stream_moves<R: Resources>(
    channels: Map<ChannelId, ChannelView<R>>,
    id: ChannelId,
    k: int,
    d: DescriptorView,
)
    requires
        channels.contains_key(id),
        forall|i: ChannelId| #[trigger] channels.contains_key(i) ==> channels[i].wf(),
        0 <= k < 3,
        stream_moves(channels[id].descriptors[k], d, k),
    ensures
        channels_move(channels, channels.insert(id, channels[id].with_descriptor(k, d))),
{
    let after = channels.insert(id, channels[id].with_descriptor(k, d));
    assert(after.dom() =~= channels.dom());
    assert forall|i: ChannelId| #[trigger] after.contains_key(i) implies channel_moves(
        channels[i],
        after[i],
    ) by {
        assert(channels[i].wf());
        assert forall|n: int| 0 <= n < 3 implies stream_moves(
            channels[i].descriptors[n],
            #[trigger] after[i].descriptors[n],
            n,
        ) by {
            lemma_still(channels[i].descriptors[n].buf);
        }
    }
}

proof fn lemma_still(s: Seq<u8>)
    ensures
        s.is_suffix_of(s),
        s.is_prefix_of(s),
{
    assert(s.subrange(0, s.len() as int) =~= s);
}

proof fn lemma_nothing_moves<R: Resources>(channels: Map<ChannelId, ChannelView<R>>)
    requires
        forall|i: ChannelId| #[trigger] channels.contains_key(i) ==> channels[i].wf(),
    ensures
        channels_move(channels, channels),
{
    assert forall|i: ChannelId| #[trigger] channels.contains_key(i) implies channel_moves(
        channels[i],
        channels[i],
    ) by {
        assert(channels[i].wf());
        assert forall|n: int| 0 <= n < 3 implies stream_moves(
            channels[i].descriptors[n],
            #[trigger] channels[i].descriptors[n],
            n,
        ) by {
            lemma_still(channels[i].descriptors[n].buf);
        }
    }
}

proof fn lemma_seek_moves<R: Resources>(channels: Map<ChannelId, ChannelView<R>>, task: LoopView)
    requires
        forall|i: ChannelId| #[trigger] channels.contains_key(i) ==> channels[i].wf(),
        task.revents.len() == task.entries.len() + 2,
        entries_distinct(task.entries),
        entries_open(channels, task.entries, task.at - 2),
    ensures
        channels_move(channels, ready_from(channels, task).0),
    decreases task.revents.len() - task.at,
{
    lemma_nothing_moves(channels);
    if task.at < task.revents.len() {
        let on = LoopView { at: task.at + 1, ..task };
        if task.at < 2 || task.revents[task.at as int] == 0 {
            lemma_seek_moves(channels, on);
        } else {
            let id = task.entry().channel_id;
            let n = task.entry().fd_num as int;
            assert(entry_open(channels, task.entries[task.at - 2]));
            let d = channels[id].descriptors[n];
            if n != 0 && channels[id].exited && d.buf.len() == 0 {
                let closed = DescriptorView { fd: None, ..d };
                lemma_still(d.buf);
                lemma_one_stream_moves(channels, id, n, closed);
                lemma_rest_stays_open(channels, task.entries, task.at - 2, closed);
                let after = close_stream(channels, id, n);
                assert forall|i: ChannelId| #[trigger] after.contains_key(i) implies after[i].wf() by {
                    assert(channels[i].wf());
                }
                lemma_seek_moves(after, on);
                lemma_moves_add_up(channels, after, ready_from(after, on).0);
            }
        }
    }
}

/// A step of the loop loses no channel and no byte on its way: what is queued for the process only
/// grows at its end, what is queued from the process only shrinks at its front, and no stream is
/// opened.
pub proof fn law_loop_only_moves_streams<R: Resources>(
    session: SessionView<R>,
    task: LoopView,
    ev: LoopEvent,
    ids: Seq<ChannelId>,
)
    requires
        session.wf(),
        task.inv(session.channels),
        task.accepts(session.channels, ev),
    ensures
        channels_move(session.channels, loop_next(session, task, ev, ids).0),
{
    let channels = session.channels;
    lemma_nothing_moves(channels);
    match (task.stage, ev) {
        (LoopStage::Poll, LoopEvent::Polled(Ok(_))) => {
            lemma_seek_moves(channels, after_wait(task, ev));
        },
        (LoopStage::Ready, _) | (LoopStage::Closing, _) => {
            let entry = task.entry();
            let n = entry.fd_num as int;
            assert(entry_open(channels, task.entries[task.at - 2]));
            let d = channels[entry.channel_id].descriptors[n];
            let after = stream_after(d, ev);
            lemma_still(d.buf);
            assert(stream_moves(d, after, n)) by {
                match ev {
                    LoopEvent::Wrote(Ok(len)) => {
                        assert(after.buf == d.buf.skip(len as int));
                        assert(d.buf.subrange(
                            d.buf.len() - after.buf.len(),
                            d.buf.len() as int,
                        ) =~= after.buf);
                    },
                    _ => {},
                }
            }
            lemma_one_stream_moves(channels, entry.channel_id, n, after);
            lemma_rest_stays_open(channels, task.entries, task.at - 2, after);
            let moved = used(channels, task, ev);
            assert forall|i: ChannelId| #[trigger] moved.contains_key(i) implies moved[i].wf() by {
                assert(channels[i].wf());
            }
            lemma_seek_moves(moved, after_use(task));
            lemma_moves_add_up(channels, moved, ready_from(moved, after_use(task)).0);
        },
        _ => {},
    }
}

/// Whether the stream of an entry is closed without a word: nothing is left to be written to it and
/// the process has ended.
pub open spec fn is_spent<R: Resources>(
    channels: Map<ChannelId, ChannelView<R>>,
    entry: PollEntry,
) -> bool {
    let channel = channels[entry.channel_id];
    entry.fd_num != 0 && channel.exited && channel.descriptors[entry.fd_num as int].buf.len() == 0
}

/// After a wait, the streams to which something happened are dealt with in order, and none is
/// passed over: standard input is read, output that is there is written, and an output stream that
/// is spent is closed.
pub proof fn law_ready_streams_are_served<R: Resources>(
    channels: Map<ChannelId, ChannelView<R>>,
    task: LoopView,
)
    requires
        forall|i: ChannelId| #[trigger] channels.contains_key(i) ==> channels[i].wf(),
        task.revents.len() == task.entries.len() + 2,
        task.at <= task.revents.len(),
        entries_distinct(task.entries),
        entries_open(channels, task.entries, task.at - 2),
    ensures
        ({
            let (after, next, action) = ready_from(channels, task);
            &&& task.at <= next.at <= task.revents.len()
            &&& forall|i: int|
                task.at <= i < next.at && 2 <= i && task.revents[i] != 0 ==> {
                    &&& is_spent(channels, #[trigger] task.entries[i - 2])
                    &&& after[task.entries[i - 2].channel_id].descriptors[task.entries[i
                        - 2].fd_num as int].fd is None
                }
            &&& if next.at < task.revents.len() {
                let entry = task.entries[next.at - 2];
                let channel = channels[entry.channel_id];
                let d = channel.descriptors[entry.fd_num as int];
                &&& next.at >= 2
                &&& task.revents[next.at as int] != 0
                &&& !is_spent(channels, entry)
                &&& action == if entry.fd_num == 0 {
                    LoopActionView::ReadDescriptor(
                        entry.channel_id,
                        (d.capacity - d.buf.len()) as usize,
                    )
                } else {
                    LoopActionView::WriteDescriptor(entry.channel_id, entry.fd_num, d.buf)
                }
            } else {
                action == LoopActionView::Keepalive
            }
        }),
    decreases task.revents.len() - task.at,
{
    if task.at < task.revents.len() {
        let on = LoopView { at: task.at + 1, ..task };
        if task.at < 2 || task.revents[task.at as int] == 0 {
            law_ready_streams_are_served(channels, on);
        } else {
            let entry = task.entry();
            let id = entry.channel_id;
            let n = entry.fd_num as int;
            assert(entry_open(channels, task.entries[task.at - 2]));
            let d = channels[id].descriptors[n];
            if is_spent(channels, entry) {
                let closed = DescriptorView { fd: None, ..d };
                lemma_rest_stays_open(channels, task.entries, task.at - 2, closed);
                let after = close_stream(channels, id, n);
                assert forall|i: ChannelId| #[trigger] after.contains_key(i) implies after[i].wf() by {
                    assert(channels[i].wf());
                }
                law_ready_streams_are_served(after, on);
                lemma_seek_moves(after, on);
                lemma_seek_keeps_the_turn(after, on);
                let (last, next, action) = ready_from(channels, task);
                assert(ready_from(after, on) == ready_from(channels, task));
                assert(last.contains_key(id));
                assert(channel_moves(after[id], last[id]));
                assert(stream_moves(after[id].descriptors[n], last[id].descriptors[n], n));
                assert forall|i: int| task.at < i <= next.at && i < task.revents.len() implies {
                    let e = #[trigger] task.entries[i - 2];
                    &&& is_spent(after, e) == is_spent(channels, e)
                    &&& after[e.channel_id].descriptors[e.fd_num as int].buf
                        == channels[e.channel_id].descriptors[e.fd_num as int].buf
                } by {
                    assert(entry_open(channels, task.entries[i - 2]));
                    assert(channels[id].wf());
                }
                assert forall|i: int|
                    task.at <= i < next.at && 2 <= i && task.revents[i] != 0 implies {
                    &&& is_spent(channels, #[trigger] task.entries[i - 2])
                    &&& last[task.entries[i - 2].channel_id].descriptors[task.entries[i
                        - 2].fd_num as int].fd is None
                } by {
                    if i > task.at {
                        assert(is_spent(after, on.entries[i - 2]));
                    }
                }
            }
        }
    }
}

proof fn lemma_seek_closes_the_spent<R: Resources>(
    channels: Map<ChannelId, ChannelView<R>>,
    task: LoopView,
    id: ChannelId,
    n: int,
)
    requires
        forall|i: ChannelId| #[trigger] channels.contains_key(i) ==> channels[i].wf(),
        task.revents.len() == task.entries.len() + 2,
        entries_distinct(task.entries),
        entries_open(channels, task.entries, task.at - 2),
        channels.contains_key(id),
        0 <= n < 3,
    ensures
        ({
            let after = ready_from(channels, task).0;
            let d = channels[id].descriptors[n];
            &&& after.contains_key(id)
            &&& after[id].exited == channels[id].exited
            &&& after[id].descriptors[n].buf == d.buf
            &&& after[id].descriptors[n].capacity == d.capacity
            &&& after[id].descriptors[n].fd == d.fd || (n != 0 && channels[id].exited
                && d.buf.len() == 0)
        }),
    decreases task.revents.len() - task.at,
{
    if task.at < task.revents.len() {
        let on = LoopView { at: task.at + 1, ..task };
        if task.at < 2 || task.revents[task.at as int] == 0 {
            lemma_seek_closes_the_spent(channels, on, id, n);
        } else {
            let entry = task.entry();
            let k = entry.fd_num as int;
            assert(entry_open(channels, task.entries[task.at - 2]));
            let d = channels[entry.channel_id].descriptors[k];
            if is_spent(channels, entry) {
                let closed = DescriptorView { fd: None, ..d };
                lemma_rest_stays_open(channels, task.entries, task.at - 2, closed);
                let after = close_stream(channels, entry.channel_id, k);
                assert forall|i: ChannelId| #[trigger] after.contains_key(i) implies after[i].wf() by {
                    assert(channels[i].wf());
                }
                assert(channels[id].wf());
                lemma_seek_closes_the_spent(after, on, id, n);
            }
        }
    }
}

/// What has passed through stream `n` of channel `id`, after the outcome of the awaited action.
pub open spec fn trace_after_loop<R: Resources>(
    channels: Map<ChannelId, ChannelView<R>>,
    task: LoopView,
    ev: LoopEvent,
    id: ChannelId,
    n: int,
    trace: StreamTrace,
) -> StreamTrace {
    if task.stage == LoopStage::Ready && task.entry().channel_id == id && task.entry().fd_num == n {
        match ev {
            LoopEvent::Read(read) => trace.read(read),
            LoopEvent::Wrote(written) => trace.wrote(channels[id].descriptors[n].buf, written),
            _ => trace,
        }
    } else {
        trace
    }
}

/// The loop keeps every stream faithful: what was written from it, followed by what it holds, stays
/// what was read into it. It closes an output stream only where a write to it has failed, or where
/// the process has ended and all that was read from it has been written.
pub proof fn law_loop_keeps_streams_faithful<R: Resources>(
    session: SessionView<R>,
    task: LoopView,
    ev: LoopEvent,
    ids: Seq<ChannelId>,
    id: ChannelId,
    n: int,
    trace: StreamTrace,
)
    requires
        session.wf(),
        task.inv(session.channels),
        task.accepts(session.channels, ev),
        session.channels.contains_key(id),
        0 <= n < 3,
        trace.faithful(session.channels[id].descriptors[n].buf),
    ensures
        ({
            let before = session.channels[id];
            let after = loop_next(session, task, ev, ids).0[id];
            &&& loop_next(session, task, ev, ids).0.contains_key(id)
            &&& trace_after_loop(session.channels, task, ev, id, n, trace).faithful(
                after.descriptors[n].buf,
            )
            &&& n != 0 && before.descriptors[n].fd is Some && after.descriptors[n].fd is None ==> {
                ||| ev matches LoopEvent::Wrote(written) && failed(written)
                    && task.entry().channel_id == id && task.entry().fd_num == n
                ||| before.exited && after.descriptors[n].buf.len() == 0
            }
        }),
{
    let channels = session.channels;
    let buf = channels[id].descriptors[n].buf;
    match (task.stage, ev) {
        (LoopStage::Poll, LoopEvent::Polled(Ok(_))) => {
            lemma_seek_closes_the_spent(channels, after_wait(task, ev), id, n);
        },
        (LoopStage::Ready, _) | (LoopStage::Closing, _) => {
            let entry = task.entry();
            let k = entry.fd_num as int;
            assert(entry_open(channels, task.entries[task.at - 2]));
            let d = channels[entry.channel_id].descriptors[k];
            let after = stream_after(d, ev);
            lemma_rest_stays_open(channels, task.entries, task.at - 2, after);
            let moved = used(channels, task, ev);
            assert(channels[id].wf());
            assert forall|i: ChannelId| #[trigger] moved.contains_key(i) implies moved[i].wf() by {
                assert(channels[i].wf());
            }
            lemma_seek_closes_the_spent(moved, after_use(task), id, n);
            if entry.channel_id == id && k == n {
                match ev {
                    LoopEvent::Read(read) => law_read_keeps_the_queue_faithful(trace, buf, read),
                    LoopEvent::Wrote(written) => law_write_keeps_the_queue_faithful(
                        trace,
                        buf,
                        written,
                    ),
                    _ => {},
                }
            }
        },
        _ => {},
    }
}

/// A turn of the loop does its work in this order: a sign of life, moving data, emptying the wake-up
/// pipe, serving requests until there is none, connecting to agents; then it waits, or ends.
pub proof fn law_turn_goes_in_order<R: Resources>(
    session: SessionView<R>,
    task: LoopView,
    ev: LoopEvent,
    ids: Seq<ChannelId>,
)
    requires
        task.accepts(session.channels, ev),
    ensures
        ({
            let (after, next, action) = loop_next(session, task, ev, ids);
            &&& task.stage == LoopStage::Keepalive ==> action == LoopActionView::TickIo
                && next.stage == LoopStage::TickIo
            &&& task.stage == LoopStage::TickIo ==> action == LoopActionView::DrainRequestPipe(16)
                && next.stage == LoopStage::Drain
            &&& task.stage == LoopStage::Drain ==> action == LoopActionView::DispatchOne
                && next.stage == LoopStage::Dispatch
            &&& task.stage == LoopStage::Dispatch ==> match ev {
                LoopEvent::Dispatched(Ok(served)) => if served {
                    action == LoopActionView::DispatchOne && next.stage == LoopStage::Dispatch
                } else {
                    action == LoopActionView::ConnectAgents && next.stage == LoopStage::Agents
                },
                LoopEvent::Dispatched(Err(failure)) => action == LoopActionView::Finished(
                    Err(failure@),
                ),
                _ => false,
            }
            &&& task.stage == LoopStage::Agents ==> if session.channels.dom() =~= Set::empty()
                && session.session_was_dropped {
                action == LoopActionView::Finished(Ok(()))
            } else {
                action == LoopActionView::Poll(task.delay) && next.stage == LoopStage::Poll
            }
            &&& task.stage == LoopStage::Keepalive || task.stage == LoopStage::TickIo || task.stage
                == LoopStage::Drain || task.stage == LoopStage::Dispatch || task.stage
                == LoopStage::Agents ==> after == session.channels && next.delay == task.delay
        }),
{
}

/// After a wait in which something happened to anything that was waited for, the next one takes 100
/// milliseconds, as does the first one; after one in which nothing happened, twice as long. Nothing
/// else changes the delay. The first turn begins at its beginning.
pub proof fn law_delay_depends_on_the_wait<R: Resources>(
    session: SessionView<R>,
    task: LoopView,
    ev: LoopEvent,
    ids: Seq<ChannelId>,
)
    requires
        session.wf(),
        task.inv(session.channels),
        task.accepts(session.channels, ev),
    ensures
        LoopView::start().delay == 100,
        LoopView::start().stage == LoopStage::Keepalive,
        ({
            let next = loop_next(session, task, ev, ids).1;
            match ev {
                LoopEvent::Polled(Ok(revents)) => {
                    &&& forall|i: int|
                        0 <= i < revents@.len() && #[trigger] revents@[i] != 0 ==> next.delay
                            == 100
                    &&& (forall|i: int| 0 <= i < revents@.len() ==> #[trigger] revents@[i] == 0)
                        ==> next.delay == task.delay + task.delay
                },
                _ => next.delay == task.delay,
            }
        }),
{
    law_wait_doubles_until_something_happens(session, task, ev, ids);
}

proof fn lemma_stream_entries_interest<R: Resources>(channel: ChannelView<R>, n: int)
    requires
        0 <= n <= 3,
    ensures
        forall|i: int|
            0 <= i < stream_entries(channel, n).len() ==> {
                let e = #[trigger] stream_entries(channel, n)[i];
                &&& e.fd_num < n
                &&& e.channel_id == channel.channel_id
                &&& e.interest.read == (e.fd_num == 0)
                &&& e.interest.write == (e.fd_num != 0 && (
                channel.descriptors[e.fd_num as int].buf.len() > 0 || channel.exited))
            },
    decreases n,
{
    if n > 0 {
        lemma_stream_entries_interest(channel, n - 1);
    }
}

proof fn lemma_entries_interest<R: Resources>(
    channels: Map<ChannelId, ChannelView<R>>,
    ids: Seq<ChannelId>,
)
    requires
        forall|i: int| 0 <= i < ids.len() ==> channels[#[trigger] ids[i]].channel_id == ids[i],
    ensures
        forall|i: int|
            0 <= i < entries_of(channels, ids).len() ==> {
                let e = #[trigger] entries_of(channels, ids)[i];
                &&& e.interest.read == (e.fd_num == 0)
                &&& e.interest.write == (e.fd_num != 0 && (
                channels[e.channel_id].descriptors[e.fd_num as int].buf.len() > 0
                    || channels[e.channel_id].exited))
            },
    decreases ids.len(),
{
    if ids.len() > 0 {
        let rest = ids.drop_last();
        assert(forall|i: int| 0 <= i < rest.len() ==> rest[i] == ids[i]);
        lemma_entries_interest(channels, rest);
        assert(ids[ids.len() - 1] == ids.last());
        lemma_stream_entries_interest(channels[ids.last()], 3);
        let a = entries_of(channels, rest);
        let b = stream_entries(channels[ids.last()], 3);
        let all = entries_of(channels, ids);
        assert forall|i: int| 0 <= i < all.len() implies ({
            let e = #[trigger] all[i];
            &&& e.interest.read == (e.fd_num == 0)
            &&& e.interest.write == (e.fd_num != 0 && (
            channels[e.channel_id].descriptors[e.fd_num as int].buf.len() > 0
                || channels[e.channel_id].exited))
        }) by {
            if i < a.len() {
                assert(all[i] == a[i]);
            } else {
                assert(all[i] == b[i - a.len()]);
            }
        }
    }
}

/// What is waited for on an open stream: on standard input, for input; on the others, for output
/// exactly where there is some or the process has ended. Every open stream has a place in the list,
/// and nothing but open streams has.
pub proof fn law_streams_are_waited_for_by_need<R: Resources>(
    session: SessionView<R>,
    task: LoopView,
    ev: LoopEvent,
    ids: Seq<ChannelId>,
)
    requires
        session.wf(),
        task.stage == LoopStage::Agents,
        task.accepts(session.channels, ev),
        ids.no_duplicates(),
        ids.to_set() == session.channels.dom(),
        !(session.channels.is_empty() && session.session_was_dropped),
    ensures
        ({
            let entries = loop_next(session, task, ev, ids).1.entries;
            &&& forall|i: int|
                0 <= i < entries.len() ==> {
                    let e = #[trigger] entries[i];
                    let c = session.channels[e.channel_id];
                    &&& session.channels.contains_key(e.channel_id)
                    &&& e.fd_num < 3
                    &&& c.descriptors[e.fd_num as int].fd is Some
                    &&& e.interest.read == (e.fd_num == 0)
                    &&& e.interest.write == (e.fd_num != 0 && (
                    c.descriptors[e.fd_num as int].buf.len() > 0 || c.exited))
                }
            &&& forall|id: ChannelId, n: int|
                #![trigger session.channels[id].descriptors[n]]
                session.channels.contains_key(id) && 0 <= n < 3
                    && session.channels[id].descriptors[n].fd is Some ==> exists|i: int|
                    0 <= i < entries.len() && (#[trigger] entries[i]).channel_id == id
                        && entries[i].fd_num == n
            &&& forall|i: int, j: int|
                0 <= i < j < entries.len() ==> (#[trigger] entries[i]).channel_id != (
                #[trigger] entries[j]).channel_id || entries[i].fd_num != entries[j].fd_num
        }),
{
    law_open_streams_are_waited_for(session, ids);
    let entries = entries_of(session.channels, ids);
    assert forall|i: int| 0 <= i < ids.len() implies session.channels[#[trigger] ids[i]].channel_id
        == ids[i] by {
        assert(ids.to_set().contains(ids[i]));
        assert(session.channels.contains_key(ids[i]));
    }
    lemma_entries_interest(session.channels, ids);
    assert forall|i: int| 0 <= i < entries.len() implies entry_open(
        session.channels,
        #[trigger] entries[i],
    ) by {}
    assert forall|id: ChannelId, n: int|
        #![trigger session.channels[id].descriptors[n]]
        session.channels.contains_key(id) && 0 <= n < 3
            && session.channels[id].descriptors[n].fd is Some implies exists|i: int|
        0 <= i < entries.len() && (#[trigger] entries[i]).channel_id == id && entries[i].fd_num
            == n by {
        let e = PollEntry {
            channel_id: id,
            fd_num: n as usize,
            interest: interest(session.channels[id], n),
        };
        assert(entries.contains(e));
        let i = choose|i: int| 0 <= i < entries.len() && entries[i] == e;
        assert(entries[i].channel_id == id);
    }
}

/// Whether the stream `n` of channel `id` is listed at or after `from`, and something happened to it.
pub open spec fn is_ready_from(task: LoopView, from: int, id: ChannelId, n: int) -> bool {
    exists|i: int|
        from <= i < task.revents.len() && 2 <= i && #[trigger] task.revents[i] != 0 && task.entries[i
            - 2].channel_id == id && task.entries[i - 2].fd_num == n
}

proof fn lemma_seek_touches_only_the_ready<R: Resources>(
    channels: Map<ChannelId, ChannelView<R>>,
    task: LoopView,
    id: ChannelId,
    n: int,
)
    requires
        forall|i: ChannelId| #[trigger] channels.contains_key(i) ==> channels[i].wf(),
        task.revents.len() == task.entries.len() + 2,
        entries_distinct(task.entries),
        entries_open(channels, task.entries, task.at - 2),
        channels.contains_key(id),
        0 <= n < 3,
        !is_ready_from(task, task.at as int, id, n),
    ensures
        ready_from(channels, task).0[id].descriptors[n] == channels[id].descriptors[n],
    decreases task.revents.len() - task.at,
{
    if task.at < task.revents.len() {
        let on = LoopView { at: task.at + 1, ..task };
        assert(!is_ready_from(on, on.at as int, id, n)) by {
            if is_ready_from(on, on.at as int, id, n) {
                let i = choose|i: int|
                    on.at <= i < on.revents.len() && 2 <= i && #[trigger] on.revents[i] != 0
                        && on.entries[i - 2].channel_id == id && on.entries[i - 2].fd_num == n;
                assert(task.revents[i] != 0);
            }
        }
        if task.at < 2 || task.revents[task.at as int] == 0 {
            lemma_seek_touches_only_the_ready(channels, on, id, n);
        } else {
            let entry = task.entry();
            let k = entry.fd_num as int;
            assert(entry_open(channels, task.entries[task.at - 2]));
            let d = channels[entry.channel_id].descriptors[k];
            assert(entry.channel_id != id || k != n) by {
                assert(task.revents[task.at as int] != 0);
            }
            if is_spent(channels, entry) {
                let closed = DescriptorView { fd: None, ..d };
                lemma_rest_stays_open(channels, task.entries, task.at - 2, closed);
                let after = close_stream(channels, entry.channel_id, k);
                assert forall|i: ChannelId| #[trigger] after.contains_key(i) implies after[i].wf() by {
                    assert(channels[i].wf());
                }
                assert(channels[id].wf());
                lemma_seek_touches_only_the_ready(after, on, id, n);
            }
        }
    }
}

/// The place in the list from which a step of the loop looks for streams to serve: the first one
/// after a wait, and else the one behind the stream that was dealt with.
pub open spec fn served_from(task: LoopView, ev: LoopEvent) -> int {
    if ev is Polled {
        2
    } else {
        task.at as int + 1
    }
}

/// What the outcome of the use of a stream does. Bytes that were read from standard input join its
/// queue at the end, bytes that an output stream took leave its queue at the front. Where standard
/// input has ended or cannot be read, its channel is closed and then the stream; else it stays open.
/// An output stream is closed where a write to it failed, and else stays open.
pub proof fn law_loop_outcomes<R: Resources>(
    session: SessionView<R>,
    task: LoopView,
    ev: LoopEvent,
    ids: Seq<ChannelId>,
)
    requires
        session.wf(),
        task.inv(session.channels),
        task.accepts(session.channels, ev),
        task.stage == LoopStage::Ready || task.stage == LoopStage::Closing,
    ensures
        ({
            let (channels, next, action) = loop_next(session, task, ev, ids);
            let id = task.entries[task.at - 2].channel_id;
            let n = task.entries[task.at - 2].fd_num as int;
            let before = session.channels[id].descriptors[n];
            let after = channels[id].descriptors[n];
            let read_ended = (ev matches LoopEvent::Read(Ok(data)) && data@.len() == 0) || (
            ev matches LoopEvent::Read(Err(err)) && !err.would_block());
            let write_failed = ev matches LoopEvent::Wrote(Err(err)) && !err.would_block();
            &&& after.buf == match ev {
                LoopEvent::Read(Ok(data)) => before.buf + data@,
                LoopEvent::Wrote(Ok(len)) => before.buf.skip(len as int),
                _ => before.buf,
            }
            &&& after.capacity == before.capacity
            &&& after.fd == if write_failed || task.stage == LoopStage::Closing {
                None
            } else {
                before.fd
            }
            &&& read_ended ==> {
                &&& action == LoopActionView::CloseChannel(id)
                &&& next == LoopView { stage: LoopStage::Closing, ..task }
                &&& n == 0
            }
            &&& !read_ended ==> !(action is CloseChannel)
        }),
{
    let channels = session.channels;
    let entry = task.entry();
    let n = entry.fd_num as int;
    assert(entry_open(channels, task.entries[task.at - 2]));
    let d = channels[entry.channel_id].descriptors[n];
    let after = stream_after(d, ev);
    lemma_rest_stays_open(channels, task.entries, task.at - 2, after);
    let moved = used(channels, task, ev);
    assert(channels[entry.channel_id].wf());
    assert forall|i: ChannelId| #[trigger] moved.contains_key(i) implies moved[i].wf() by {
        assert(channels[i].wf());
    }
    let on = after_use(task);
    assert(!is_ready_from(on, on.at as int, entry.channel_id, n)) by {
        if is_ready_from(on, on.at as int, entry.channel_id, n) {
            let i = choose|i: int|
                on.at <= i < on.revents.len() && 2 <= i && #[trigger] on.revents[i] != 0
                    && on.entries[i - 2].channel_id == entry.channel_id && on.entries[i - 2].fd_num
                    == n;
            assert(task.entries[task.at - 2].channel_id != task.entries[i - 2].channel_id
                || task.entries[task.at - 2].fd_num != task.entries[i - 2].fd_num);
        }
    }
    lemma_seek_touches_only_the_ready(moved, on, entry.channel_id, n);
    law_ready_streams_are_served(moved, on);
}

/// A step of the loop changes no stream but the one that was used and those that something happened
/// to, and no channel is added, dropped or changed otherwise.
pub proof fn law_loop_leaves_the_rest<R: Resources>(
    session: SessionView<R>,
    task: LoopView,
    ev: LoopEvent,
    ids: Seq<ChannelId>,
    id: ChannelId,
    n: int,
)
    requires
        session.wf(),
        task.inv(session.channels),
        task.accepts(session.channels, ev),
        session.channels.contains_key(id),
        0 <= n < 3,
        ev matches LoopEvent::Polled(Ok(revents)) ==> forall|i: int|
            2 <= i < revents@.len() && task.entries[i - 2].channel_id == id && task.entries[i
                - 2].fd_num == n ==> #[trigger] revents@[i] == 0,
        task.stage == LoopStage::Ready || task.stage == LoopStage::Closing ==> {
            &&& task.entries[task.at - 2].channel_id != id || task.entries[task.at - 2].fd_num != n
            &&& forall|i: int|
                task.at < i < task.revents.len() && task.entries[i - 2].channel_id == id
                    && task.entries[i - 2].fd_num == n ==> #[trigger] task.revents[i] == 0
        },
    ensures
        ({
            let after = loop_next(session, task, ev, ids).0;
            &&& after.dom() == session.channels.dom()
            &&& after[id].channel == session.channels[id].channel
            &&& after[id].channel_id == session.channels[id].channel_id
            &&& after[id].exit == session.channels[id].exit
            &&& after[id].exited == session.channels[id].exited
            &&& after[id].descriptors[n] == session.channels[id].descriptors[n]
        }),
{
    let channels = session.channels;
    law_loop_only_moves_streams(session, task, ev, ids);
    let after = loop_next(session, task, ev, ids).0;
    assert(after.contains_key(id));
    assert(channel_moves(channels[id], after[id]));
    match (task.stage, ev) {
        (LoopStage::Poll, LoopEvent::Polled(Ok(revents))) => {
            let on = after_wait(task, ev);
            assert(!is_ready_from(on, 0, id, n)) by {
                if is_ready_from(on, 0, id, n) {
                    let i = choose|i: int|
                        0 <= i < on.revents.len() && 2 <= i && #[trigger] on.revents[i] != 0
                            && on.entries[i - 2].channel_id == id && on.entries[i - 2].fd_num == n;
                    assert(revents@[i] == 0);
                }
            }
            lemma_seek_touches_only_the_ready(channels, on, id, n);
        },
        (LoopStage::Ready, _) | (LoopStage::Closing, _) => {
            let entry = task.entry();
            let k = entry.fd_num as int;
            assert(entry_open(channels, task.entries[task.at - 2]));
            assert(entry.channel_id != id || k != n);
            let d = channels[entry.channel_id].descriptors[k];
            lemma_rest_stays_open(channels, task.entries, task.at - 2, stream_after(d, ev));
            let moved = used(channels, task, ev);
            assert(channels[id].wf() && channels[entry.channel_id].wf());
            assert forall|i: ChannelId| #[trigger] moved.contains_key(i) implies moved[i].wf() by {
                assert(channels[i].wf());
            }
            let on = after_use(task);
            assert(!is_ready_from(on, on.at as int, id, n)) by {
                if is_ready_from(on, on.at as int, id, n) {
                    let i = choose|i: int|
                        on.at <= i < on.revents.len() && 2 <= i && #[trigger] on.revents[i] != 0
                            && on.entries[i - 2].channel_id == id && on.entries[i - 2].fd_num == n;
                    assert(task.revents[i] == 0);
                }
            }
            lemma_seek_touches_only_the_ready(moved, on, id, n);
        },
        _ => {},
    }
}

/// No stream that something happened to is passed over. Between the place from which a step of the
/// loop looks on and the place that it comes to, there is nothing that happened but to output
/// streams of processes that have ended with nothing left to write, and those are closed. At the
/// place that it comes to something happened, and the stream there is used: standard input is read,
/// for as much as there is room, and output is written, all that waits. Where it comes to the end of
/// the list, the next turn begins.
pub proof fn law_nothing_ready_is_passed_over<R: Resources>(
    session: SessionView<R>,
    task: LoopView,
    ev: LoopEvent,
    ids: Seq<ChannelId>,
)
    requires
        session.wf(),
        task.inv(session.channels),
        task.accepts(session.channels, ev),
        task.stage == LoopStage::Ready || task.stage == LoopStage::Closing || (ev
            matches LoopEvent::Polled(Ok(_))),
        !(loop_next(session, task, ev, ids).2 is CloseChannel),
    ensures
        ({
            let (after, next, action) = loop_next(session, task, ev, ids);
            let revents = match ev {
                LoopEvent::Polled(Ok(revents)) => revents@,
                _ => task.revents,
            };
            &&& next.entries == task.entries
            &&& next.revents == revents
            &&& served_from(task, ev) <= next.at <= revents.len()
            &&& forall|i: int|
                served_from(task, ev) <= i < next.at && revents[i] != 0 ==> {
                    let e = #[trigger] task.entries[i - 2];
                    let d = after[e.channel_id].descriptors[e.fd_num as int];
                    &&& e.fd_num != 0
                    &&& after[e.channel_id].exited
                    &&& d.buf.len() == 0
                    &&& d.fd is None
                }
            &&& if next.at < revents.len() {
                let e = task.entries[next.at - 2];
                let d = after[e.channel_id].descriptors[e.fd_num as int];
                &&& revents[next.at as int] != 0
                &&& d.fd is Some
                &&& next.stage == LoopStage::Ready
                &&& if e.fd_num == 0 {
                    action == LoopActionView::ReadDescriptor(
                        e.channel_id,
                        (d.capacity - d.buf.len()) as usize,
                    )
                } else {
                    &&& action == LoopActionView::WriteDescriptor(e.channel_id, e.fd_num, d.buf)
                    &&& !(after[e.channel_id].exited && d.buf.len() == 0)
                }
            } else {
                action == LoopActionView::Keepalive && next.stage == LoopStage::Keepalive
            }
        }),
{
    let channels = session.channels;
    let (base, on) = match (task.stage, ev) {
        (LoopStage::Poll, LoopEvent::Polled(Ok(_))) => (channels, after_wait(task, ev)),
        _ => (used(channels, task, ev), after_use(task)),
    };
    if task.stage != LoopStage::Poll {
        let entry = task.entry();
        assert(entry_open(channels, task.entries[task.at - 2]));
        let d = channels[entry.channel_id].descriptors[entry.fd_num as int];
        lemma_rest_stays_open(channels, task.entries, task.at - 2, stream_after(d, ev));
        assert(channels[entry.channel_id].wf());
    }
    assert forall|i: ChannelId| #[trigger] base.contains_key(i) implies base[i].wf() by {
        assert(channels.contains_key(i));
        assert(channels[i].wf());
    }
    assert(loop_next(session, task, ev, ids) == ready_from(base, on));
    law_ready_streams_are_served(base, on);
    lemma_seek_keeps_the_turn(base, on);
    if task.stage == LoopStage::Poll {
        lemma_first_two_are_passed(base, on);
    }
    let (after, next, action) = ready_from(base, on);
    assert forall|i: int|
        served_from(task, ev) <= i < next.at && on.revents[i] != 0 implies ({
        let e = #[trigger] task.entries[i - 2];
        let d = after[e.channel_id].descriptors[e.fd_num as int];
        &&& e.fd_num != 0
        &&& after[e.channel_id].exited
        &&& d.buf.len() == 0
        &&& d.fd is None
    }) by {
        let e = on.entries[i - 2];
        assert(entry_open(base, on.entries[i - 2]));
        assert(is_spent(base, on.entries[i - 2]));
        lemma_seek_closes_the_spent(base, on, e.channel_id, e.fd_num as int);
    }
    if next.at < on.revents.len() {
        let e = on.entries[next.at - 2];
        assert(entry_open(base, on.entries[next.at - 2]));
        lemma_seek_closes_the_spent(base, on, e.channel_id, e.fd_num as int);
    }
}

proof fn lemma_first_two_are_passed<R: Resources>(
    channels: Map<ChannelId, ChannelView<R>>,
    task: LoopView,
)
    requires
        task.revents.len() >= 2,
        task.at <= 2,
    ensures
        ready_from(channels, task).1.at >= 2,
    decreases task.revents.len() - task.at,
{
    if task.at < 2 {
        lemma_first_two_are_passed(channels, LoopView { at: task.at + 1, ..task });
    } else {
        lemma_seek_keeps_the_turn(channels, task);
    }
}

/// An outcome can be taken in if it is of the awaited action: any result of a wait, any failure, any
/// number of bytes up to those offered, and any data for which there is room.
pub proof fn law_loop_takes_any_outcome<R: Resources>(
    session: SessionView<R>,
    task: LoopView,
    served: Result<bool, Failure>,
    polled: Result<Vec<i16>, Failure>,
    written: Result<usize, IoError>,
    read: Result<Vec<u8>, IoError>,
)
    requires
        session.wf(),
        task.inv(session.channels),
    ensures
        ({
            let channels = session.channels;
            let e = task.entries[task.at - 2];
            let d = channels[e.channel_id].descriptors[e.fd_num as int];
            &&& task.stage == LoopStage::Keepalive || task.stage == LoopStage::TickIo || task.stage
                == LoopStage::Drain || task.stage == LoopStage::Agents || task.stage
                == LoopStage::Closing ==> task.accepts(channels, LoopEvent::Done)
            &&& task.stage == LoopStage::Dispatch ==> task.accepts(
                channels,
                LoopEvent::Dispatched(served),
            )
            &&& task.stage == LoopStage::Poll && (polled matches Ok(revents) ==> revents@.len()
                == task.entries.len() + 2 && 2 * task.delay <= 18446744073709551615999)
                ==> task.accepts(channels, LoopEvent::Polled(polled))
            &&& task.stage == LoopStage::Ready && e.fd_num == 0 && (read matches Ok(data)
                ==> d.buf.len() + data@.len() <= d.capacity) ==> task.accepts(
                channels,
                LoopEvent::Read(read),
            )
            &&& task.stage == LoopStage::Ready && e.fd_num != 0 && (written matches Ok(len) ==> len
                <= d.buf.len()) ==> task.accepts(channels, LoopEvent::Wrote(written))
        }),
{
}

} // verus!
