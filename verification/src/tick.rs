//! The round in which a session moves data between its channels and their streams.
//!
//! The channels are visited one after the other. For each, the exit status is asked for and passed
//! on, queued input is written to the channel, output is read into the queues, and a channel whose
//! streams are all closed is dropped at the end of the round.

use crate::failure::IoError;
use crate::iobuf::{
    after_read, after_write, ended, failed, law_read_keeps_the_queue_faithful,
    law_write_keeps_the_queue_faithful, pending, read_into_buf, room, write_from_buf, StreamTrace,
};
use crate::resources::Resources;
use crate::session::{
    channel_ids, channel_mut, channels_view, ChannelId, ChannelView, DescriptorView, SessionInner,
    SessionView,
};
use portable_pty::ExitStatus;
use smol::channel::Sender;
use vstd::prelude::*;

verus! {

broadcast use vstd::std_specs::hash::group_hash_axioms;

/// What is done next to the channel that is visited.
#[derive(Clone, Copy, PartialEq, Eq, Structural)]
pub enum TickStage {
    /// Ask for the exit status.
    Exit,
    /// Wait until the exit status is passed on.
    SendExit,
    /// Write queued input to the channel.
    Stdin,
    /// Read standard output from the channel.
    Stdout,
    /// Read standard error from the channel.
    Stderr,
    /// See whether the channel is to be dropped.
    Reap,
}

/// What the driver of a round is to do next.
pub enum TickAction<B> {
    /// Ask the channel for the exit status.
    AskExit(ChannelId),
    /// Pass the exit status on.
    SendExit(Sender<ExitStatus>, ExitStatus),
    /// Write these bytes to the channel, as many as it takes.
    WriteChannel(ChannelId, B),
    /// Read at most that many bytes from that stream of the channel.
    ReadChannel(ChannelId, usize, usize),
    /// The round is over.
    Finished,
}

impl View for TickAction<Vec<u8>> {
    type V = TickAction<Seq<u8>>;

    open spec fn view(&self) -> TickAction<Seq<u8>> {
        match *self {
            TickAction::AskExit(id) => TickAction::AskExit(id),
            TickAction::SendExit(to, status) => TickAction::SendExit(to, status),
            TickAction::WriteChannel(id, bytes) => TickAction::WriteChannel(id, bytes@),
            TickAction::ReadChannel(id, stream, max) => TickAction::ReadChannel(id, stream, max),
            TickAction::Finished => TickAction::Finished,
        }
    }
}

/// How the action that was given last came out.
pub enum TickEvent {
    /// The exit status, if there is one.
    Exited(Option<ExitStatus>),
    /// The exit status is passed on, or nobody waits for it any more.
    Sent,
    /// What the write returned.
    Wrote(Result<usize, IoError>),
    /// What the read returned.
    Read(Result<Vec<u8>, IoError>),
}

/// How far a round has come.
pub struct TickTask {
    /// The channels, in the order of the visits.
    ids: Vec<ChannelId>,
    /// Which of them is visited.
    at: usize,
    /// What is done to it next.
    stage: TickStage,
    /// The channels that are dropped at the end.
    dead: Vec<ChannelId>,
}

/// How far a round has come, with sequences for its lists.
pub struct TickView {
    pub ids: Seq<ChannelId>,
    pub at: nat,
    pub stage: TickStage,
    pub dead: Seq<ChannelId>,
}

impl View for TickTask {
    type V = TickView;

    closed spec fn view(&self) -> TickView {
        TickView { ids: self.ids@, at: self.at as nat, stage: self.stage, dead: self.dead@ }
    }
}

/// How many stages of a visit are still to come.
pub open spec fn stages_left(stage: TickStage) -> nat {
    match stage {
        TickStage::Exit => 5,
        TickStage::SendExit => 4,
        TickStage::Stdin => 3,
        TickStage::Stdout => 2,
        TickStage::Stderr => 1,
        TickStage::Reap => 0,
    }
}

/// What holds of a round: no channel is visited twice, every one that is listed is there, and of
/// those already visited exactly the ones without an open stream are to be dropped.
pub open spec fn round_inv<R: Resources>(
    channels: Map<ChannelId, ChannelView<R>>,
    ids: Seq<ChannelId>,
    at: nat,
    dead: Seq<ChannelId>,
) -> bool {
    &&& at <= ids.len()
    &&& ids.no_duplicates()
    &&& ids.to_set() == channels.dom()
    &&& forall|i: int|
        0 <= i < at ==> (dead.contains(#[trigger] ids[i]) <==> channels[ids[i]].all_closed())
    &&& forall|id: ChannelId| #[trigger]
        dead.contains(id) ==> exists|i: int| 0 <= i < at && ids[i] == id
}

impl TickView {
    /// The start of a round that visits `ids`.
    pub open spec fn start(ids: Seq<ChannelId>) -> TickView {
        TickView { ids, at: 0, stage: TickStage::Exit, dead: Seq::empty() }
    }

    /// The channel that is visited.
    pub open spec fn id(self) -> ChannelId {
        self.ids[self.at as int]
    }

    /// The same visit at another stage.
    pub open spec fn at_stage(self, stage: TickStage) -> TickView {
        TickView { stage, ..self }
    }

    /// The next visit, after a channel with these streams.
    pub open spec fn next_visit<R: Resources>(self, channel: ChannelView<R>) -> TickView {
        TickView {
            at: self.at + 1,
            stage: TickStage::Exit,
            dead: if channel.all_closed() {
                self.dead.push(self.id())
            } else {
                self.dead
            },
            ..self
        }
    }

    /// What holds of a round.
    pub open spec fn inv<R: Resources>(self, channels: Map<ChannelId, ChannelView<R>>) -> bool {
        round_inv(channels, self.ids, self.at, self.dead)
    }

    /// Whether `ev` can be the outcome of the awaited action.
    pub open spec fn accepts<R: Resources>(
        self,
        channels: Map<ChannelId, ChannelView<R>>,
        ev: TickEvent,
    ) -> bool {
        let channel = channels[self.id()];
        &&& self.at < self.ids.len()
        &&& match (self.stage, ev) {
            (TickStage::Exit, TickEvent::Exited(status)) => status is Some ==> channel.exit is Some,
            (TickStage::SendExit, TickEvent::Sent) => true,
            (TickStage::Stdin, TickEvent::Wrote(written)) => written matches Ok(len) ==> len
                <= channel.descriptors[0].buf.len(),
            (TickStage::Stdout, TickEvent::Read(read)) => read matches Ok(data)
                ==> channel.descriptors[1].buf.len() + data@.len()
                <= channel.descriptors[1].capacity,
            (TickStage::Stderr, TickEvent::Read(read)) => read matches Ok(data)
                ==> channel.descriptors[2].buf.len() + data@.len()
                <= channel.descriptors[2].capacity,
            _ => false,
        }
    }
}

/// The first thing to do from `task` on, and where in the round that is.
pub open spec fn seek<R: Resources>(
    channels: Map<ChannelId, ChannelView<R>>,
    task: TickView,
) -> (TickView, TickAction<Seq<u8>>)
    decreases task.ids.len() - task.at, stages_left(task.stage),
{
    let id = task.id();
    let channel = channels[id];
    if task.at >= task.ids.len() {
        (task, TickAction::Finished)
    } else {
        match task.stage {
            TickStage::Exit => if channel.exit is Some {
                (task, TickAction::AskExit(id))
            } else {
                seek(channels, task.at_stage(TickStage::Stdin))
            },
            TickStage::SendExit => seek(channels, task.at_stage(TickStage::Stdin)),
            TickStage::Stdin => {
                let d = channel.descriptors[0];
                if d.fd is Some && d.buf.len() > 0 {
                    (task, TickAction::WriteChannel(id, d.buf))
                } else {
                    seek(channels, task.at_stage(TickStage::Stdout))
                }
            },
            TickStage::Stdout => {
                let d = channel.descriptors[1];
                if d.fd is Some && d.buf.len() < d.capacity {
                    (task, TickAction::ReadChannel(id, 0, (d.capacity - d.buf.len()) as usize))
                } else {
                    seek(channels, task.at_stage(TickStage::Stderr))
                }
            },
            TickStage::Stderr => {
                let d = channel.descriptors[2];
                if d.fd is Some && d.buf.len() < d.capacity {
                    (task, TickAction::ReadChannel(id, 1, (d.capacity - d.buf.len()) as usize))
                } else {
                    seek(channels, task.at_stage(TickStage::Reap))
                }
            },
            TickStage::Reap => seek(channels, task.next_visit(channel)),
        }
    }
}

/// A stream into which output is read, after the read gave `read`. A stream that has ended is
/// closed, unless bytes still wait in it.
pub open spec fn output_after(d: DescriptorView, read: Result<Vec<u8>, IoError>) -> DescriptorView {
    let buf = after_read(d.buf, read);
    DescriptorView {
        fd: if ended(read) && buf.len() == 0 {
            None
        } else {
            d.fd
        },
        buf,
        ..d
    }
}

/// The stream for input, after the write of its bytes to the channel gave `written`.
pub open spec fn input_after(d: DescriptorView, written: Result<usize, IoError>) -> DescriptorView {
    DescriptorView {
        fd: if failed(written) {
            None
        } else {
            d.fd
        },
        buf: after_write(d.buf, written),
        ..d
    }
}

/// The visited channel, once the outcome of the awaited action is taken in.
pub open spec fn channel_after<R: Resources>(
    channel: ChannelView<R>,
    stage: TickStage,
    ev: TickEvent,
) -> ChannelView<R> {
    match (stage, ev) {
        (TickStage::Exit, TickEvent::Exited(Some(_))) => ChannelView {
            exit: None,
            exited: true,
            ..channel
        },
        (TickStage::Stdin, TickEvent::Wrote(written)) => channel.with_descriptor(
            0,
            input_after(channel.descriptors[0], written),
        ),
        (TickStage::Stdout, TickEvent::Read(read)) => channel.with_descriptor(
            1,
            output_after(channel.descriptors[1], read),
        ),
        (TickStage::Stderr, TickEvent::Read(read)) => channel.with_descriptor(
            2,
            output_after(channel.descriptors[2], read),
        ),
        _ => channel,
    }
}

/// The stage that follows.
pub open spec fn stage_after(stage: TickStage, ev: TickEvent) -> TickStage {
    match stage {
        TickStage::Exit => if ev matches TickEvent::Exited(Some(_)) {
            TickStage::SendExit
        } else {
            TickStage::Stdin
        },
        TickStage::SendExit => TickStage::Stdin,
        TickStage::Stdin => TickStage::Stdout,
        TickStage::Stdout => TickStage::Stderr,
        TickStage::Stderr => TickStage::Reap,
        TickStage::Reap => TickStage::Exit,
    }
}

/// The channels, once the outcome of the awaited action is taken in.
pub open spec fn channels_after<R: Resources>(
    channels: Map<ChannelId, ChannelView<R>>,
    task: TickView,
    ev: TickEvent,
) -> Map<ChannelId, ChannelView<R>> {
    channels.insert(task.id(), channel_after(channels[task.id()], task.stage, ev))
}

/// Where the round stands after the outcome of the awaited action, and the next action.
pub open spec fn tick_next<R: Resources>(
    channels: Map<ChannelId, ChannelView<R>>,
    task: TickView,
    ev: TickEvent,
) -> (TickView, TickAction<Seq<u8>>) {
    let task2 = task.at_stage(stage_after(task.stage, ev));
    match (task.stage, ev) {
        (TickStage::Exit, TickEvent::Exited(Some(status))) => (
            task2,
            TickAction::SendExit(channels[task.id()].exit->0, status),
        ),
        _ => seek(channels_after(channels, task, ev), task2),
    }
}

/// The channels that are left, given where a round stands: at its end those to be dropped are gone.
pub open spec fn kept<R: Resources>(
    channels: Map<ChannelId, ChannelView<R>>,
    task: TickView,
) -> Map<ChannelId, ChannelView<R>> {
    if task.at >= task.ids.len() {
        channels.remove_keys(task.dead.to_set())
    } else {
        channels
    }
}

/// Going on to the next thing to do goes forward, keeps what holds of a round, sends no exit status
/// and ends the round once all channels were visited.
proof fn lemma_seek<R: Resources>(channels: Map<ChannelId, ChannelView<R>>, task: TickView)
    requires
        task.at <= task.ids.len(),
    ensures
        ({
            let (next, action) = seek(channels, task);
            &&& task.inv(channels) ==> next.inv(channels)
            &&& next.ids == task.ids
            &&& task.at <= next.at <= task.ids.len()
            &&& next.at == task.at ==> stages_left(next.stage) <= stages_left(task.stage)
            &&& action is Finished <==> next.at == task.ids.len()
            &&& !(action is SendExit)
        }),
    decreases task.ids.len() - task.at, stages_left(task.stage),
{
    if task.at < task.ids.len() {
        match task.stage {
            TickStage::Exit | TickStage::SendExit => {
                lemma_seek(channels, task.at_stage(TickStage::Stdin));
            },
            TickStage::Stdin => {
                lemma_seek(channels, task.at_stage(TickStage::Stdout));
            },
            TickStage::Stdout => {
                lemma_seek(channels, task.at_stage(TickStage::Stderr));
            },
            TickStage::Stderr => {
                lemma_seek(channels, task.at_stage(TickStage::Reap));
            },
            TickStage::Reap => {
                if task.inv(channels) {
                    lemma_next_visit_inv(channels, task);
                }
                lemma_seek(channels, task.next_visit(channels[task.id()]));
            },
        }
    }
}

proof fn lemma_next_visit_inv<R: Resources>(
    channels: Map<ChannelId, ChannelView<R>>,
    task: TickView,
)
    requires
        task.inv(channels),
        task.at < task.ids.len(),
    ensures
        task.next_visit(channels[task.id()]).inv(channels),
{
    let n = task.next_visit(channels[task.id()]);
    let id = task.id();
    if channels[id].all_closed() {
        assert(n.dead[task.dead.len() as int] == id);
        assert forall|x: ChannelId| x != id implies n.dead.contains(x) == task.dead.contains(x) by {
            if task.dead.contains(x) {
                let k = choose|k: int| 0 <= k < task.dead.len() && task.dead[k] == x;
                assert(n.dead[k] == x);
            }
        }
    } else {
        if task.dead.contains(id) {
            let i = choose|i: int| 0 <= i < task.at && task.ids[i] == id;
            assert(task.ids[task.at as int] == id);
        }
    }
    assert forall|i: int| 0 <= i < n.at implies (n.dead.contains(#[trigger] n.ids[i])
        <==> channels[n.ids[i]].all_closed()) by {
        if i < task.at {
            assert(n.ids[i] != n.ids[task.at as int]);
        }
    }
    assert forall|x: ChannelId| #[trigger] n.dead.contains(x) implies exists|i: int|
        0 <= i < n.at && n.ids[i] == x by {
        if x == id {
            assert(n.ids[task.at as int] == x);
        } else {
            let i = choose|i: int| 0 <= i < task.at && task.ids[i] == x;
            assert(n.ids[i] == x);
        }
    }
}

proof fn lemma_update_inv<R: Resources>(
    channels: Map<ChannelId, ChannelView<R>>,
    task: TickView,
    stage: TickStage,
    channel: ChannelView<R>,
)
    requires
        task.inv(channels),
        task.at < task.ids.len(),
    ensures
        task.at_stage(stage).inv(channels.insert(task.id(), channel)),
        channels.contains_key(task.id()),
{
    let id = task.id();
    assert(task.ids.to_set().contains(id)) by {
        assert(task.ids.contains(id));
    }
    let c2 = channels.insert(id, channel);
    assert(c2.dom() == channels.dom());
    assert forall|i: int| 0 <= i < task.at implies c2[task.ids[i]] == channels[#[trigger] task.ids[i]] by {
        assert(task.ids[i] != task.ids[task.at as int]);
    }
}

impl<R: Resources> SessionInner<R> {
    /// Starts a round: gives its first action.
    pub fn tick_io(&mut self) -> (r: (TickTask, TickAction<Vec<u8>>))
        requires
            old(self)@.wf(),
        ensures
            (r.0@, r.1@) == seek(old(self)@.channels, TickView::start(r.0@.ids)),
            r.0@.inv(old(self)@.channels),
            r.1 is Finished <==> r.0@.at == r.0@.ids.len(),
            final(self)@ == (SessionView {
                channels: kept(old(self)@.channels, r.0@),
                ..old(self)@
            }),
            final(self)@.wf(),
    {
        let ids = channel_ids(&self.channels);
        let task = TickTask { ids, at: 0, stage: TickStage::Exit, dead: Vec::new() };
        assert(task@ == TickView::start(ids@));
        assert(self@.channels.dom() == self.channels@.dom());
        self.tick_seek(task)
    }

    /// Takes in the outcome of the action of a round that was given last, and gives the next one.
    pub fn tick_step(&mut self, task: TickTask, ev: TickEvent) -> (r: (
        TickTask,
        TickAction<Vec<u8>>,
    ))
        requires
            old(self)@.wf(),
            task@.inv(old(self)@.channels),
            task@.accepts(old(self)@.channels, ev),
        ensures
            (r.0@, r.1@) == tick_next(old(self)@.channels, task@, ev),
            r.0@.inv(channels_after(old(self)@.channels, task@, ev)),
            r.1 is Finished <==> r.0@.at == r.0@.ids.len(),
            final(self)@ == (SessionView {
                channels: kept(channels_after(old(self)@.channels, task@, ev), r.0@),
                ..old(self)@
            }),
            final(self)@.wf(),
    {
        let mut task = task;
        let ghost before = task@;
        let id: ChannelId = task.ids[task.at];
        let ghost after = channel_after(old(self)@.channels[id], before.stage, ev);
        proof {
            lemma_update_inv(old(self)@.channels, before, stage_after(before.stage, ev), after);
        }
        let ghost chans = self.channels@;
        match channel_mut(&mut self.channels, id) {
            Some(info) => match (task.stage, ev) {
                (TickStage::Exit, TickEvent::Exited(Some(status))) => {
                    info.exited = true;
                    task.stage = TickStage::SendExit;
                    match info.exit.take() {
                        Some(exit) => {
                            proof {
                                assert(info@ == after);
                            }
                            let ghost done = *info;
                            assert(channels_view(chans.insert(id, done)) == old(
                                self,
                            )@.channels.insert(id, after));
                            return (task, TickAction::SendExit(exit, status));
                        },
                        None => {},
                    }
                },
                (TickStage::Stdin, TickEvent::Wrote(written)) => {
                    if write_from_buf(written, &mut info.descriptors[0].buf).is_err() {
                        info.descriptors[0].fd = None;
                    }
                    task.stage = TickStage::Stdout;
                    assert(info@.descriptors == after.descriptors);
                },
                (TickStage::Stdout, TickEvent::Read(read)) => {
                    if read_into_buf(read, &mut info.descriptors[1].buf).is_err()
                        && info.descriptors[1].buf.len() == 0 {
                        info.descriptors[1].fd = None;
                    }
                    task.stage = TickStage::Stderr;
                    assert(info@.descriptors == after.descriptors);
                },
                (TickStage::Stderr, TickEvent::Read(read)) => {
                    if read_into_buf(read, &mut info.descriptors[2].buf).is_err()
                        && info.descriptors[2].buf.len() == 0 {
                        info.descriptors[2].fd = None;
                    }
                    task.stage = TickStage::Reap;
                    assert(info@.descriptors == after.descriptors);
                },
                _ => {
                    task.stage = TickStage::Stdin;
                },
            },
            None => {},
        }
        assert(self@.channels == old(self)@.channels.insert(id, after));
        self.tick_seek(task)
    }

    /// Goes on with a round up to the next thing to do.
    fn tick_seek(&mut self, task: TickTask) -> (r: (TickTask, TickAction<Vec<u8>>))
        requires
            old(self)@.wf(),
            task@.inv(old(self)@.channels),
        ensures
            (r.0@, r.1@) == seek(old(self)@.channels, task@),
            r.0@.inv(old(self)@.channels),
            r.0@.ids == task@.ids,
            r.1 is Finished <==> r.0@.at == r.0@.ids.len(),
            final(self)@ == (SessionView {
                channels: kept(old(self)@.channels, r.0@),
                ..old(self)@
            }),
            final(self)@.wf(),
    {
        let mut work = task;
        proof {
            lemma_seek(old(self)@.channels, work@);
        }
        while work.at < work.ids.len()
            invariant
                *self == *old(self),
                self@.wf(),
                work@.inv(self@.channels),
                work@.ids == task@.ids,
                seek(self@.channels, work@) == seek(self@.channels, task@),
                seek(self@.channels, task@).0.inv(self@.channels),
                seek(self@.channels, task@).1 is Finished <==> seek(self@.channels, task@).0.at
                    == task@.ids.len(),
            decreases work.ids@.len() - work.at, stages_left(work.stage),
        {
            let ghost visit = work@;
            let id: ChannelId = work.ids[work.at];
            assert(self@.channels.contains_key(id)) by {
                assert(work@.ids.contains(id));
                assert(work@.ids.to_set().contains(id));
            }
            let found = self.channels.get(&id);
            let info = match found {
                Some(info) => info,
                None => {
                    assert(false);
                    return (work, TickAction::Finished);
                },
            };
            assert(info@ == self@.channels[id]);
            match work.stage {
                TickStage::Exit => {
                    if info.exit.is_some() {
                        return (work, TickAction::AskExit(id));
                    }
                    work.stage = TickStage::Stdin;
                },
                TickStage::SendExit => {
                    work.stage = TickStage::Stdin;
                },
                TickStage::Stdin => {
                    if info.descriptors[0].fd.is_some() && info.descriptors[0].buf.len() > 0 {
                        return (
                            work,
                            TickAction::WriteChannel(id, pending(&info.descriptors[0].buf)),
                        );
                    }
                    work.stage = TickStage::Stdout;
                },
                TickStage::Stdout => {
                    assert(info@.descriptors[1].buf.len() <= info@.descriptors[1].capacity);
                    let free: usize = room(&info.descriptors[1].buf);
                    if info.descriptors[1].fd.is_some() && free > 0 {
                        return (work, TickAction::ReadChannel(id, 0, free));
                    }
                    work.stage = TickStage::Stderr;
                },
                TickStage::Stderr => {
                    assert(info@.descriptors[2].buf.len() <= info@.descriptors[2].capacity);
                    let free: usize = room(&info.descriptors[2].buf);
                    if info.descriptors[2].fd.is_some() && free > 0 {
                        return (work, TickAction::ReadChannel(id, 1, free));
                    }
                    work.stage = TickStage::Reap;
                },
                TickStage::Reap => {
                    proof {
                        lemma_next_visit_inv(self@.channels, visit);
                    }
                    assert(info@.all_closed() <==> info@.descriptors[0].fd is None
                        && info@.descriptors[1].fd is None && info@.descriptors[2].fd is None);
                    if info.descriptors[0].fd.is_none() && info.descriptors[1].fd.is_none()
                        && info.descriptors[2].fd.is_none() {
                        work.dead.push(id);
                    }
                    work.at = work.at + 1;
                    work.stage = TickStage::Exit;
                    assert(work@ == visit.next_visit(self@.channels[id]));
                },
            }
        }
        self.drop_channels(&work.dead);
        (work, TickAction::Finished)
    }

    /// Drops these channels.
    fn drop_channels(&mut self, dead: &Vec<ChannelId>)
        requires
            old(self)@.wf(),
        ensures
            final(self)@ == (SessionView {
                channels: old(self)@.channels.remove_keys(dead@.to_set()),
                ..old(self)@
            }),
            final(self)@.wf(),
    {
        let mut i: usize = 0;
        assert(self@.channels == old(self)@.channels.remove_keys(dead@.take(0).to_set()));
        while i < dead.len()
            invariant
                i <= dead@.len(),
                self@ == (SessionView {
                    channels: old(self)@.channels.remove_keys(dead@.take(i as int).to_set()),
                    ..old(self)@
                }),
            decreases dead@.len() - i,
        {
            let ghost before = self@.channels;
            self.channels.remove(&dead[i]);
            assert(self@.channels == before.remove(dead@[i as int]));
            assert(dead@.take(i as int + 1) == dead@.take(i as int).push(dead@[i as int]));
            assert forall|id: ChannelId| dead@.take(i as int + 1).to_set().contains(id) <==> (
            dead@.take(i as int).to_set().contains(id) || id == dead@[i as int]) by {
                if dead@.take(i as int).contains(id) {
                    let k = choose|k: int| 0 <= k < i && dead@.take(i as int)[k] == id;
                    assert(dead@.take(i as int + 1)[k] == id);
                }
                assert(dead@.take(i as int + 1)[i as int] == dead@[i as int]);
            }
            assert(self@.channels == old(self)@.channels.remove_keys(
                dead@.take(i as int + 1).to_set(),
            ));
            i += 1;
        }
        assert(dead@.take(i as int) == dead@);
    }
}

/// At the end of a round exactly the channels without an open stream are gone, and the others are
/// as they were left.
pub proof fn law_round_drops_the_closed<R: Resources>(
    channels: Map<ChannelId, ChannelView<R>>,
    task: TickView,
)
    requires
        task.inv(channels),
        task.at == task.ids.len(),
    ensures
        forall|id: ChannelId| #[trigger]
            kept(channels, task).contains_key(id) <==> channels.contains_key(id)
                && !channels[id].all_closed(),
        forall|id: ChannelId| #[trigger]
            kept(channels, task).contains_key(id) ==> kept(channels, task)[id] == channels[id],
{
    assert forall|id: ChannelId| channels.contains_key(id) implies (task.dead.contains(id)
        <==> channels[id].all_closed()) by {
        assert(task.ids.to_set().contains(id));
        let i = choose|i: int| 0 <= i < task.ids.len() && task.ids[i] == id;
        assert(task.dead.contains(task.ids[i]) <==> channels[task.ids[i]].all_closed());
    }
}

/// The exit status of a channel is passed on at most once: it goes to the one who waits for it,
/// nobody waits after that, and a channel that has exited stays so.
pub proof fn law_exit_is_reported_once<R: Resources>(
    channels: Map<ChannelId, ChannelView<R>>,
    task: TickView,
    ev: TickEvent,
)
    requires
        task.accepts(channels, ev),
    ensures
        ({
            let before = channels[task.id()];
            let after = channels_after(channels, task, ev)[task.id()];
            &&& before.exit is None ==> after.exit is None
            &&& before.exited ==> after.exited
            &&& tick_next(channels, task, ev).1 matches TickAction::SendExit(to, status) ==> {
                &&& before.exit == Some(to)
                &&& after.exit is None
                &&& after.exited
                &&& ev == TickEvent::Exited(Some(status))
            }
        }),
{
    lemma_seek(
        channels_after(channels, task, ev),
        task.at_stage(stage_after(task.stage, ev)),
    );
}

/// Output that was read is not lost: a stream for output stays open while bytes wait in it.
pub proof fn law_round_keeps_unread_output<R: Resources>(
    channel: ChannelView<R>,
    stage: TickStage,
    ev: TickEvent,
    n: int,
)
    requires
        channel.wf(),
        1 <= n < 3,
        channel.descriptors[n].fd is Some,
        channel_after(channel, stage, ev).descriptors[n].buf.len() > 0,
    ensures
        channel_after(channel, stage, ev).descriptors[n].fd == channel.descriptors[n].fd,
{
}

/// A step of a round changes no channel but the one that is visited, and of that neither the
/// channel itself nor its number; and it opens no stream.
pub proof fn law_round_changes_only_the_visited<R: Resources>(
    channels: Map<ChannelId, ChannelView<R>>,
    task: TickView,
    ev: TickEvent,
)
    requires
        task.accepts(channels, ev),
        channels.contains_key(task.id()),
        channels[task.id()].wf(),
    ensures
        ({
            let before = channels[task.id()];
            let after = channels_after(channels, task, ev)[task.id()];
            &&& channels_after(channels, task, ev).dom() == channels.dom()
            &&& forall|id: ChannelId| id != task.id() ==> #[trigger] channels_after(
                channels,
                task,
                ev,
            )[id] == channels[id]
            &&& after.channel == before.channel
            &&& after.channel_id == before.channel_id
            &&& forall|n: int|
                0 <= n < 3 ==> ((#[trigger] after.descriptors[n]).fd is None
                    || after.descriptors[n].fd == before.descriptors[n].fd)
        }),
{
    assert(channels_after(channels, task, ev).dom() == channels.dom());
}

/// A round ends: each step brings the visit of a channel closer to its end or goes on to the next
/// channel, no channel is visited again, and the round is over once all were visited.
pub proof fn law_round_ends<R: Resources>(
    channels: Map<ChannelId, ChannelView<R>>,
    task: TickView,
    ev: TickEvent,
)
    requires
        task.accepts(channels, ev),
    ensures
        ({
            let (next, action) = tick_next(channels, task, ev);
            &&& next.ids == task.ids
            &&& next.at > task.at || (next.at == task.at && stages_left(next.stage) < stages_left(
                task.stage,
            ))
            &&& action is Finished <==> next.at == next.ids.len()
        }),
{
    lemma_seek(
        channels_after(channels, task, ev),
        task.at_stage(stage_after(task.stage, ev)),
    );
}

/// What has passed through stream `n` of channel `id`, after the outcome of the awaited action.
pub open spec fn trace_after_tick<R: Resources>(
    channels: Map<ChannelId, ChannelView<R>>,
    task: TickView,
    ev: TickEvent,
    id: ChannelId,
    n: int,
    trace: StreamTrace,
) -> StreamTrace {
    if id != task.id() {
        trace
    } else {
        match (task.stage, ev) {
            (TickStage::Stdin, TickEvent::Wrote(written)) => if n == 0 {
                trace.wrote(channels[id].descriptors[0].buf, written)
            } else {
                trace
            },
            (TickStage::Stdout, TickEvent::Read(read)) => if n == 1 {
                trace.read(read)
            } else {
                trace
            },
            (TickStage::Stderr, TickEvent::Read(read)) => if n == 2 {
                trace.read(read)
            } else {
                trace
            },
            _ => trace,
        }
    }
}

/// A round keeps every stream faithful: what was written from it, followed by what it holds, stays
/// what was read into it, for as long as its channel is there.
pub proof fn law_round_keeps_streams_faithful<R: Resources>(
    channels: Map<ChannelId, ChannelView<R>>,
    task: TickView,
    ev: TickEvent,
    id: ChannelId,
    n: int,
    trace: StreamTrace,
)
    requires
        task.accepts(channels, ev),
        channels.contains_key(id),
        channels[id].wf(),
        0 <= n < 3,
        trace.faithful(channels[id].descriptors[n].buf),
    ensures
        ({
            let left = kept(channels_after(channels, task, ev), tick_next(channels, task, ev).0);
            left.contains_key(id) ==> trace_after_tick(channels, task, ev, id, n, trace).faithful(
                left[id].descriptors[n].buf,
            )
        }),
{
    let buf = channels[id].descriptors[n].buf;
    if id == task.id() {
        match ev {
            TickEvent::Read(read) => law_read_keeps_the_queue_faithful(trace, buf, read),
            TickEvent::Wrote(written) => {
                if n == 0 {
                    law_write_keeps_the_queue_faithful(trace, buf, written);
                }
            },
            _ => {},
        }
    }
}

/// The order of what is done in a visit: the exit status is asked for, then input is written, then
/// standard output is read, then standard error.
pub open spec fn place_in_visit(stage: TickStage) -> int {
    match stage {
        TickStage::Exit => 0,
        TickStage::SendExit => 1,
        TickStage::Stdin => 1,
        TickStage::Stdout => 2,
        TickStage::Stderr => 3,
        TickStage::Reap => 4,
    }
}

/// Whether nothing is to be done from the place `from` in the visit `at` up to, and without, the
/// place `to` in the visit `until`: nobody waits for an exit status that is not asked for, no input
/// waits for an open stream, and no open output stream has room.
pub open spec fn nothing_between<R: Resources>(
    channels: Map<ChannelId, ChannelView<R>>,
    ids: Seq<ChannelId>,
    at: int,
    from: int,
    until: int,
    to: int,
) -> bool {
    forall|j: int|
        at <= j <= until && 0 <= j < ids.len() ==> {
            let c = channels[#[trigger] ids[j]];
            let low = if j == at {
                from
            } else {
                0
            };
            let high = if j == until {
                to
            } else {
                4
            };
            &&& low <= 0 < high ==> c.exit is None
            &&& low <= 1 < high ==> c.descriptors[0].fd is None || c.descriptors[0].buf.len() == 0
            &&& low <= 2 < high ==> c.descriptors[1].fd is None || c.descriptors[1].buf.len()
                >= c.descriptors[1].capacity
            &&& low <= 3 < high ==> c.descriptors[2].fd is None || c.descriptors[2].buf.len()
                >= c.descriptors[2].capacity
        }
}

/// Whether `action`, at this place of a round, is one that the visited channel calls for.
pub open spec fn called_for<R: Resources>(
    channels: Map<ChannelId, ChannelView<R>>,
    next: TickView,
    action: TickAction<Seq<u8>>,
) -> bool {
    let id = next.ids[next.at as int];
    let c = channels[id];
    match action {
        TickAction::AskExit(of) => {
            &&& next.at < next.ids.len() && next.stage == TickStage::Exit
            &&& of == id && c.exit is Some
        },
        TickAction::WriteChannel(of, bytes) => {
            &&& next.at < next.ids.len() && next.stage == TickStage::Stdin
            &&& of == id && c.descriptors[0].fd is Some
            &&& bytes == c.descriptors[0].buf && bytes.len() > 0
        },
        TickAction::ReadChannel(of, stream, max) => {
            &&& next.at < next.ids.len()
            &&& of == id
            &&& (stream == 0 && next.stage == TickStage::Stdout) || (stream == 1 && next.stage
                == TickStage::Stderr)
            &&& c.descriptors[stream + 1].fd is Some
            &&& max > 0 && max == c.descriptors[stream + 1].capacity - c.descriptors[stream
                + 1].buf.len()
        },
        TickAction::SendExit(_, _) => false,
        TickAction::Finished => next.at == next.ids.len(),
    }
}

proof fn lemma_seek_passes_over_nothing<R: Resources>(
    channels: Map<ChannelId, ChannelView<R>>,
    task: TickView,
)
    requires
        task.at <= task.ids.len(),
    ensures
        ({
            let (next, action) = seek(channels, task);
            &&& called_for(channels, next, action)
            &&& nothing_between(
                channels,
                task.ids,
                task.at as int,
                place_in_visit(task.stage),
                next.at as int,
                place_in_visit(next.stage),
            )
        }),
    decreases task.ids.len() - task.at, stages_left(task.stage),
{
    if task.at < task.ids.len() {
        lemma_seek(channels, task);
        let on = match task.stage {
            TickStage::Exit | TickStage::SendExit => task.at_stage(TickStage::Stdin),
            TickStage::Stdin => task.at_stage(TickStage::Stdout),
            TickStage::Stdout => task.at_stage(TickStage::Stderr),
            TickStage::Stderr => task.at_stage(TickStage::Reap),
            TickStage::Reap => task.next_visit(channels[task.id()]),
        };
        lemma_seek(channels, on);
        lemma_seek_passes_over_nothing(channels, on);
        let (next, action) = seek(channels, task);
        if seek(channels, on) == (next, action) {
            assert(nothing_between(
                channels,
                task.ids,
                task.at as int,
                place_in_visit(task.stage),
                next.at as int,
                place_in_visit(next.stage),
            )) by {
                assert forall|j: int|
                    task.at <= j <= next.at && 0 <= j < task.ids.len() implies ({
                    let c = channels[#[trigger] task.ids[j]];
                    let low = if j == task.at {
                        place_in_visit(task.stage)
                    } else {
                        0
                    };
                    let high = if j == next.at {
                        place_in_visit(next.stage)
                    } else {
                        4
                    };
                    &&& low <= 0 < high ==> c.exit is None
                    &&& low <= 1 < high ==> c.descriptors[0].fd is None
                        || c.descriptors[0].buf.len() == 0
                    &&& low <= 2 < high ==> c.descriptors[1].fd is None
                        || c.descriptors[1].buf.len() >= c.descriptors[1].capacity
                    &&& low <= 3 < high ==> c.descriptors[2].fd is None
                        || c.descriptors[2].buf.len() >= c.descriptors[2].capacity
                }) by {
                    assert(on.ids[j] == task.ids[j]);
                    assert(task.ids[task.at as int] == task.id());
                }
            }
        }
    }
}

/// A round leaves nothing out. It begins with the first of its channels, and every visit with the
/// question for the exit status where someone waits for it, whatever streams are open. From its
/// beginning, and from the outcome of every action, it goes on to the next thing that is to be done,
/// and to nothing that is not: asking for an exit status that someone waits for, writing all the
/// input that waits, or reading as much output as there is room for.
pub proof fn law_round_leaves_nothing_out<R: Resources>(
    channels: Map<ChannelId, ChannelView<R>>,
    ids: Seq<ChannelId>,
    task: TickView,
    ev: TickEvent,
)
    requires
        task.accepts(channels, ev),
    ensures
        ({
            let (first, action) = seek(channels, TickView::start(ids));
            &&& first.ids == ids
            &&& called_for(channels, first, action)
            &&& nothing_between(
                channels,
                ids,
                0,
                0,
                first.at as int,
                place_in_visit(first.stage),
            )
        }),
        ({
            let after = channels_after(channels, task, ev);
            let (next, action) = tick_next(channels, task, ev);
            let done = match task.stage {
                TickStage::Exit => 1int,
                TickStage::SendExit => 1,
                TickStage::Stdin => 2,
                TickStage::Stdout => 3,
                _ => 4,
            };
            &&& next.ids == task.ids
            &&& match ev {
                TickEvent::Exited(Some(status)) => {
                    &&& channels[task.id()].exit matches Some(to) && action
                        == TickAction::<Seq<u8>>::SendExit(to, status)
                    &&& next.at == task.at && next.stage == TickStage::SendExit
                },
                _ => {
                    &&& called_for(after, next, action)
                    &&& nothing_between(
                        after,
                        task.ids,
                        task.at as int,
                        done,
                        next.at as int,
                        place_in_visit(next.stage),
                    )
                },
            }
        }),
{
    lemma_seek_passes_over_nothing(channels, TickView::start(ids));
    lemma_seek(channels, TickView::start(ids));
    let after = channels_after(channels, task, ev);
    let on = task.at_stage(stage_after(task.stage, ev));
    lemma_seek_passes_over_nothing(after, on);
    lemma_seek(after, on);
}

/// A channel that someone waits for is asked for its exit status at the beginning of its visit,
/// whatever its streams are.
pub proof fn law_exit_is_asked_for<R: Resources>(
    channels: Map<ChannelId, ChannelView<R>>,
    task: TickView,
)
    requires
        task.at < task.ids.len(),
        task.stage == TickStage::Exit,
        channels[task.ids[task.at as int]].exit is Some,
    ensures
        seek(channels, task) == (
            task,
            TickAction::<Seq<u8>>::AskExit(task.ids[task.at as int]),
        ),
{
}

/// What the outcome of an action does to the visited channel. An exit status marks the channel as
/// exited and ends the wait for it. Input that was taken leaves its queue at the front, output that
/// was read joins its queue at the end, and nothing else moves. The input stream is closed exactly
/// where a write failed, and an output stream exactly where its data has ended and none waits.
pub proof fn law_round_outcomes<R: Resources>(
    channels: Map<ChannelId, ChannelView<R>>,
    task: TickView,
    ev: TickEvent,
)
    requires
        task.accepts(channels, ev),
        channels[task.id()].wf(),
    ensures
        ({
            let before = channels[task.ids[task.at as int]];
            let after = channels_after(channels, task, ev)[task.ids[task.at as int]];
            let has_exited = ev matches TickEvent::Exited(Some(_));
            let write_failed = ev matches TickEvent::Wrote(Err(err)) && !err.would_block();
            let read_ended = (ev matches TickEvent::Read(Ok(data)) && data@.len() == 0) || (
            ev matches TickEvent::Read(Err(err)) && !err.would_block());
            &&& after.exited == (before.exited || has_exited)
            &&& after.exit == if has_exited {
                None
            } else {
                before.exit
            }
            &&& after.descriptors.len() == 3
            &&& after.descriptors[0].buf == match ev {
                TickEvent::Wrote(Ok(len)) => before.descriptors[0].buf.skip(len as int),
                _ => before.descriptors[0].buf,
            }
            &&& after.descriptors[0].fd == if write_failed {
                None
            } else {
                before.descriptors[0].fd
            }
            &&& forall|n: int|
                1 <= n < 3 ==> {
                    let read = task.stage == (if n == 1 {
                        TickStage::Stdout
                    } else {
                        TickStage::Stderr
                    });
                    let a = #[trigger] after.descriptors[n];
                    let b = before.descriptors[n];
                    &&& a.buf == match ev {
                        TickEvent::Read(Ok(data)) => if read {
                            b.buf + data@
                        } else {
                            b.buf
                        },
                        _ => b.buf,
                    }
                    &&& a.fd == if read && read_ended && a.buf.len() == 0 {
                        None
                    } else {
                        b.fd
                    }
                }
            &&& forall|n: int|
                0 <= n < 3 ==> (#[trigger] after.descriptors[n]).capacity
                    == before.descriptors[n].capacity
        }),
{
}

/// A round ends with exactly the channels that still have an open stream, as they are.
pub proof fn law_round_keeps_the_open<R: Resources>(
    channels: Map<ChannelId, ChannelView<R>>,
    task: TickView,
)
    requires
        task.inv(channels),
        forall|id: ChannelId| #[trigger] channels.contains_key(id) ==> channels[id].wf(),
    ensures
        task.at < task.ids.len() ==> kept(channels, task) == channels,
        task.at == task.ids.len() ==> forall|id: ChannelId| #[trigger]
            kept(channels, task).contains_key(id) <==> channels.contains_key(id) && !(
            channels[id].descriptors[0].fd is None && channels[id].descriptors[1].fd is None
                && channels[id].descriptors[2].fd is None),
        forall|id: ChannelId| #[trigger]
            kept(channels, task).contains_key(id) ==> kept(channels, task)[id] == channels[id],
{
    if task.at == task.ids.len() {
        law_round_drops_the_closed(channels, task);
        assert forall|id: ChannelId| channels.contains_key(id) implies (channels[id].all_closed()
            <==> (channels[id].descriptors[0].fd is None && channels[id].descriptors[1].fd is None
            && channels[id].descriptors[2].fd is None)) by {
            assert(channels[id].wf());
        }
    }
}

/// An outcome can be taken in if it is of the awaited action: any exit status where someone waits
/// for it, any failure, any number of bytes up to those offered, and any data for which there is
/// room.
pub proof fn law_round_takes_any_outcome<R: Resources>(
    channels: Map<ChannelId, ChannelView<R>>,
    task: TickView,
    status: Option<ExitStatus>,
    written: Result<usize, IoError>,
    read: Result<Vec<u8>, IoError>,
)
    requires
        task.at < task.ids.len(),
    ensures
        ({
            let c = channels[task.ids[task.at as int]];
            &&& task.stage == TickStage::Exit && c.exit is Some ==> task.accepts(
                channels,
                TickEvent::Exited(status),
            )
            &&& task.stage == TickStage::SendExit ==> task.accepts(channels, TickEvent::Sent)
            &&& task.stage == TickStage::Stdin && (written matches Ok(len) ==> len
                <= c.descriptors[0].buf.len()) ==> task.accepts(
                channels,
                TickEvent::Wrote(written),
            )
            &&& task.stage == TickStage::Stdout && (read matches Ok(data)
                ==> c.descriptors[1].buf.len() + data@.len() <= c.descriptors[1].capacity)
                ==> task.accepts(channels, TickEvent::Read(read))
            &&& task.stage == TickStage::Stderr && (read matches Ok(data)
                ==> c.descriptors[2].buf.len() + data@.len() <= c.descriptors[2].capacity)
                ==> task.accepts(channels, TickEvent::Read(read))
        }),
{
}

} // verus!
