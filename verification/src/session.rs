//! The state of a session: its channels, its remote files and directories, and their numbers.

use crate::config::{option, ConfigMap};
use crate::failure::Failure;
use crate::iobuf::{new_buf, ByteQueue, BUF_CAPACITY};
use crate::requests::SignalChannel;
use crate::resources::{Backend, Resources};
use crate::text::{decimal, decimal_text};
use filedescriptor::FileDescriptor;
use portable_pty::ExitStatus;
use smol::channel::Sender;
use std::collections::hash_map::Entry;
use std::collections::HashMap;
use vstd::prelude::*;

verus! {

broadcast use vstd::std_specs::hash::group_hash_axioms;

/// The number of a channel.
pub type ChannelId = usize;

/// The number of an open remote file.
pub type FileId = usize;

/// The number of an open remote directory.
pub type DirId = usize;

/// One of the three streams of a channel, on the local side.
#[derive(Debug)]
pub struct DescriptorState {
    /// The local descriptor, while it is open.
    pub fd: Option<FileDescriptor>,
    /// The bytes on their way through the stream.
    pub buf: ByteQueue,
}

/// A stream of a channel, with its queue as a sequence.
pub struct DescriptorView {
    pub fd: Option<FileDescriptor>,
    pub buf: Seq<u8>,
    pub capacity: usize,
}

impl View for DescriptorState {
    type V = DescriptorView;

    open spec fn view(&self) -> DescriptorView {
        DescriptorView { fd: self.fd, buf: self.buf@.bytes, capacity: self.buf@.capacity }
    }
}

/// A channel and what is connected to it.
pub struct ChannelInfo<R: Resources> {
    /// Its number.
    pub channel_id: ChannelId,
    /// The channel itself.
    pub channel: R::Channel,
    /// Who waits for the exit status of the process behind the channel.
    pub exit: Option<Sender<ExitStatus>>,
    /// Whether that process has ended.
    pub exited: bool,
    /// The streams for standard input, output and error.
    pub descriptors: [DescriptorState; 3],
}

/// A channel, with its streams as a sequence.
#[verifier::ext_equal]
pub struct ChannelView<R: Resources> {
    pub channel_id: ChannelId,
    pub channel: R::Channel,
    pub exit: Option<Sender<ExitStatus>>,
    pub exited: bool,
    pub descriptors: Seq<DescriptorView>,
}

impl<R: Resources> View for ChannelInfo<R> {
    type V = ChannelView<R>;

    open spec fn view(&self) -> ChannelView<R> {
        ChannelView {
            channel_id: self.channel_id,
            channel: self.channel,
            exit: self.exit,
            exited: self.exited,
            descriptors: self.descriptors@.map_values(|d: DescriptorState| d@),
        }
    }
}

impl<R: Resources> ChannelView<R> {
    /// A channel has three streams, and none holds more than it may.
    pub open spec fn wf(self) -> bool {
        &&& self.descriptors.len() == 3
        &&& forall|n: int|
            0 <= n < 3 ==> (#[trigger] self.descriptors[n]).buf.len()
                <= self.descriptors[n].capacity
    }

    /// Whether all streams are closed.
    pub open spec fn all_closed(self) -> bool {
        forall|n: int| 0 <= n < self.descriptors.len() ==> (#[trigger] self.descriptors[n]).fd is None
    }

    /// The channel with `d` in the place of its stream `n`.
    pub open spec fn with_descriptor(self, n: int, d: DescriptorView) -> ChannelView<R> {
        ChannelView { descriptors: self.descriptors.update(n, d), ..self }
    }

    /// The channel with its stream `n` closed.
    pub open spec fn with_closed(self, n: int) -> ChannelView<R> {
        self.with_descriptor(n, DescriptorView { fd: None, ..self.descriptors[n] })
    }

    /// A new channel over `channel`, with these descriptors and nothing queued.
    pub open spec fn fresh(
        id: ChannelId,
        channel: R::Channel,
        exit: Option<Sender<ExitStatus>>,
        fds: Seq<Option<FileDescriptor>>,
    ) -> ChannelView<R> {
        ChannelView {
            channel_id: id,
            channel,
            exit,
            exited: false,
            descriptors: fds.map_values(
                |fd: Option<FileDescriptor>| DescriptorView { fd, buf: Seq::empty(), capacity: BUF_CAPACITY },
            ),
        }
    }
}

/// The hosts to pass on the way to the target, in order.
pub struct ResolvedSshRoute {
    jumps: Vec<ConfigMap>,
}

impl View for ResolvedSshRoute {
    type V = Seq<Map<Seq<char>, Seq<char>>>;

    closed spec fn view(&self) -> Seq<Map<Seq<char>, Seq<char>>> {
        self.jumps@.map_values(|c: ConfigMap| c@)
    }
}

impl ResolvedSshRoute {
    /// The way through these hosts.
    pub fn new(jumps: Vec<ConfigMap>) -> (route: ResolvedSshRoute)
        ensures
            route@ == jumps@.map_values(|c: ConfigMap| c@),
    {
        ResolvedSshRoute { jumps }
    }

    /// The hosts to pass.
    pub fn jumps(&self) -> (jumps: &Vec<ConfigMap>)
        ensures
            jumps@.map_values(|c: ConfigMap| c@) == self@,
            jumps@.len() == self@.len(),
            forall|i: int| 0 <= i < jumps@.len() ==> (#[trigger] jumps@[i])@ == self@[i],
    {
        &self.jumps
    }
}

/// A session.
pub struct SessionInner<R: Resources> {
    /// The options of the target.
    pub config: ConfigMap,
    /// The way to the target.
    pub route: ResolvedSshRoute,
    /// The channels, by number.
    pub channels: HashMap<ChannelId, ChannelInfo<R>>,
    /// The open remote files, by number.
    pub files: HashMap<FileId, R::File>,
    /// The open remote directories, by number.
    pub dirs: HashMap<DirId, R::Dir>,
    /// The number that the next channel gets.
    pub next_channel_id: ChannelId,
    /// The number that the next file or directory gets.
    pub next_file_id: FileId,
    /// Whether the owner of the session is gone.
    pub session_was_dropped: bool,
    /// Whether a refusal to set an environment variable was already shown.
    pub shown_accept_env_error: bool,
    /// When the last sign of life was sent, in nanoseconds.
    pub last_keep_alive: u128,
    /// After how many nanoseconds a sign of life is due, if at all.
    pub keep_alive: Option<u128>,
}

/// A session, with maps and sequences for what it holds.
#[verifier::ext_equal]
pub struct SessionView<R: Resources> {
    pub config: Map<Seq<char>, Seq<char>>,
    pub jumps: Seq<Map<Seq<char>, Seq<char>>>,
    pub channels: Map<ChannelId, ChannelView<R>>,
    pub files: Map<FileId, R::File>,
    pub dirs: Map<DirId, R::Dir>,
    pub next_channel_id: ChannelId,
    pub next_file_id: FileId,
    pub session_was_dropped: bool,
    pub shown_accept_env_error: bool,
    pub last_keep_alive: u128,
    pub keep_alive: Option<u128>,
}

/// The channels that a map holds.
pub open spec fn channels_view<R: Resources>(channels: Map<ChannelId, ChannelInfo<R>>) -> Map<
    ChannelId,
    ChannelView<R>,
> {
    channels.map_values(|c: ChannelInfo<R>| c@)
}

impl<R: Resources> View for SessionInner<R> {
    type V = SessionView<R>;

    open spec fn view(&self) -> SessionView<R> {
        SessionView {
            config: self.config@,
            jumps: self.route@,
            channels: channels_view(self.channels@),
            files: self.files@,
            dirs: self.dirs@,
            next_channel_id: self.next_channel_id,
            next_file_id: self.next_file_id,
            session_was_dropped: self.session_was_dropped,
            shown_accept_env_error: self.shown_accept_env_error,
            last_keep_alive: self.last_keep_alive,
            keep_alive: self.keep_alive,
        }
    }
}

impl<R: Resources> SessionView<R> {
    /// Every channel is well formed and filed under its own number; every number in use was given
    /// out; and no number stands for both a file and a directory.
    pub open spec fn wf(self) -> bool {
        &&& forall|id: ChannelId| #[trigger]
            self.channels.contains_key(id) ==> self.channels[id].wf()
                && self.channels[id].channel_id == id && id < self.next_channel_id
        &&& forall|id: FileId| #[trigger] self.files.contains_key(id) ==> id < self.next_file_id
        &&& forall|id: DirId| #[trigger] self.dirs.contains_key(id) ==> id < self.next_file_id
        &&& self.files.dom().disjoint(self.dirs.dom())
    }

    /// The session with `channel` filed under `id`.
    pub open spec fn with_channel(self, id: ChannelId, channel: ChannelView<R>) -> SessionView<R> {
        SessionView { channels: self.channels.insert(id, channel), ..self }
    }
}

/// The channel `id`, to be changed in place.
pub fn channel_mut<'a, R: Resources>(
    channels: &'a mut HashMap<ChannelId, ChannelInfo<R>>,
    id: ChannelId,
) -> (info: Option<&'a mut ChannelInfo<R>>)
    ensures
        match info {
            Some(info) => {
                &&& old(channels)@.contains_key(id)
                &&& *info == old(channels)@[id]
                &&& final(channels)@ == old(channels)@.insert(id, *final(info))
            },
            None => !old(channels)@.contains_key(id) && final(channels)@ == old(channels)@,
        },
{
    match channels.entry(id) {
        Entry::Occupied(entry) => Some(entry.into_mut()),
        Entry::Vacant(_) => None,
    }
}

/// The numbers of the channels, each once, in some order.
pub fn channel_ids<R: Resources>(channels: &HashMap<ChannelId, ChannelInfo<R>>) -> (ids: Vec<
    ChannelId,
>)
    ensures
        ids@.no_duplicates(),
        ids@.to_set() == channels@.dom(),
{
    let mut ids: Vec<ChannelId> = Vec::new();
    for id in it: channels.keys()
        invariant
            it.seq().no_duplicates(),
            it.seq().unref().to_set() == channels@.dom(),
            ids@.no_duplicates(),
            ids@ == it.seq().unref().take(it.index() as int),
            it.index() == it.seq().len() ==> ids@.to_set() == channels@.dom(),
    {
        ids.push(*id);
        assert(ids@ == it.seq().unref().take(it.index() as int + 1));
        assert(it.index() + 1 == it.seq().len() ==> ids@ == it.seq().unref());
    }
    ids
}

/// The bytes of a sign of life: they are ignored by the other side.
pub open spec fn ignored_bytes() -> Seq<u8> {
    Seq::new(128, |i: int| 0x42u8)
}

/// The bytes of a sign of life.
fn ignored() -> (bytes: Vec<u8>)
    ensures
        bytes@ == ignored_bytes(),
{
    let mut bytes: Vec<u8> = Vec::new();
    while bytes.len() < 128
        invariant
            bytes@.len() <= 128,
            forall|k: int| 0 <= k < bytes@.len() ==> bytes@[k] == 0x42,
        decreases 128 - bytes@.len(),
    {
        bytes.push(0x42);
    }
    assert(bytes@ == ignored_bytes());
    bytes
}

/// Whether a sign of life is due, `elapsed` nanoseconds after the last one.
pub open spec fn sign_is_due(backend: Backend, interval: Option<u128>, elapsed: u128) -> bool {
    match interval {
        Some(interval) => backend == Backend::LibSsh && elapsed >= interval,
        None => false,
    }
}

/// The socket of the identity agent: as configured, else as the environment has it.
pub open spec fn agent_of(config: Map<Seq<char>, Seq<char>>, env: Option<Seq<char>>) -> Option<
    Seq<char>,
> {
    match option(config, "identityagent"@) {
        Some(path) => Some(path),
        None => env,
    }
}

/// The text that an optional string holds.
pub open spec fn optional_text(value: Option<String>) -> Option<Seq<char>> {
    match value {
        Some(s) => Some(s@),
        None => None,
    }
}

/// How a channel that is not there is reported.
pub open spec fn invalid_channel(id: ChannelId) -> Seq<Seq<char>> {
    seq!["invalid channel id "@ + decimal(id as nat)]
}

impl<R: Resources> SessionInner<R> {
    /// A session with nothing open.
    pub fn new(
        config: ConfigMap,
        route: ResolvedSshRoute,
        keep_alive: Option<u128>,
        now: u128,
    ) -> (session: SessionInner<R>)
        ensures
            session@ == (SessionView::<R> {
                config: config@,
                jumps: route@,
                channels: Map::empty(),
                files: Map::empty(),
                dirs: Map::empty(),
                next_channel_id: 1,
                next_file_id: 1,
                session_was_dropped: false,
                shown_accept_env_error: false,
                last_keep_alive: now,
                keep_alive,
            }),
            session@.wf(),
    {
        let session = SessionInner {
            config,
            route,
            channels: HashMap::new(),
            files: HashMap::new(),
            dirs: HashMap::new(),
            next_channel_id: 1,
            next_file_id: 1,
            session_was_dropped: false,
            shown_accept_env_error: false,
            last_keep_alive: now,
            keep_alive,
        };
        assert(session@.channels == Map::<ChannelId, ChannelView<R>>::empty());
        session
    }

    /// Decides whether a sign of life is due: `elapsed` nanoseconds have passed since the last
    /// one, and it is `now`. Gives the bytes to send if so. Only libssh can send them.
    pub fn do_keepalive(&mut self, backend: Backend, elapsed: u128, now: u128) -> (send: Option<
        Vec<u8>,
    >)
        ensures
            send is Some <==> backend == Backend::LibSsh && (old(self)@.keep_alive matches Some(
                interval,
            ) && elapsed >= interval),
            send is Some <==> sign_is_due(backend, old(self)@.keep_alive, elapsed),
            send matches Some(bytes) ==> bytes@ == ignored_bytes(),
            final(self)@ == (SessionView {
                last_keep_alive: if send is Some {
                    now
                } else {
                    old(self)@.last_keep_alive
                },
                ..old(self)@
            }),
    {
        if let Some(interval) = self.keep_alive {
            if backend == Backend::LibSsh && elapsed >= interval {
                self.last_keep_alive = now;
                return Some(ignored());
            }
        }
        None
    }

    /// The socket of the identity agent for the target, where `env` is what the environment says.
    pub fn identity_agent(&self, env: Option<String>) -> (agent: Option<String>)
        ensures
            optional_text(agent) == agent_of(self@.config, optional_text(env)),
    {
        self.identity_agent_for_config(&self.config, env)
    }

    /// The socket of the identity agent for a host, where `env` is what the environment says.
    pub fn identity_agent_for_config(&self, config: &ConfigMap, env: Option<String>) -> (agent:
        Option<String>)
        ensures
            optional_text(agent) == agent_of(config@, optional_text(env)),
    {
        match config.get("identityagent") {
            Some(path) => Some(path.clone()),
            None => env,
        }
    }

    /// Finds the channel that a signal is for. The signal is to be sent to it.
    pub fn signal_channel(&self, info: &SignalChannel) -> (r: Result<ChannelId, Failure>)
        ensures
            r is Ok <==> self@.channels.contains_key(info.channel),
            r matches Ok(id) ==> id == info.channel,
            r matches Err(failure) ==> failure@ == invalid_channel(info.channel),
    {
        if self.channels.contains_key(&info.channel) {
            Ok(info.channel)
        } else {
            Err(
                Failure::message(
                    "invalid channel id ".to_owned().concat(
                        decimal_text(info.channel as u64).as_str(),
                    ),
                ),
            )
        }
    }

    /// Gives out the next channel number.
    pub fn allocate_channel_id(&mut self) -> (id: ChannelId)
        requires
            old(self)@.wf(),
            old(self)@.next_channel_id < usize::MAX,
        ensures
            id == old(self)@.next_channel_id,
            !final(self)@.channels.contains_key(id),
            final(self)@ == (SessionView {
                next_channel_id: (id + 1) as usize,
                ..old(self)@
            }),
            final(self)@.wf(),
    {
        let id: ChannelId = self.next_channel_id;
        self.next_channel_id = id + 1;
        id
    }

    /// Files a new channel under a number that was given out for it.
    pub fn insert_channel(
        &mut self,
        id: ChannelId,
        channel: R::Channel,
        exit: Option<Sender<ExitStatus>>,
        stdin: Option<FileDescriptor>,
        stdout: Option<FileDescriptor>,
        stderr: Option<FileDescriptor>,
    )
        requires
            old(self)@.wf(),
            id < old(self)@.next_channel_id,
        ensures
            final(self)@ == old(self)@.with_channel(
                id,
                ChannelView::fresh(id, channel, exit, seq![stdin, stdout, stderr]),
            ),
            final(self)@.wf(),
    {
        let info = ChannelInfo {
            channel_id: id,
            channel,
            exit,
            exited: false,
            descriptors: [
                DescriptorState { fd: stdin, buf: new_buf() },
                DescriptorState { fd: stdout, buf: new_buf() },
                DescriptorState { fd: stderr, buf: new_buf() },
            ],
        };
        let ghost fresh = ChannelView::<R>::fresh(id, channel, exit, seq![stdin, stdout, stderr]);
        assert(info@.descriptors == fresh.descriptors);
        self.channels.insert(id, info);
        assert(self@.channels == old(self)@.channels.insert(id, fresh));
    }

    /// Files a remote file that was opened, and gives its number. `opened` is what opening it
    /// returned.
    pub fn open_with_mode(&mut self, opened: Result<R::File, Failure>) -> (r: Result<
        FileId,
        Failure,
    >)
        requires
            old(self)@.wf(),
            opened is Ok ==> old(self)@.next_file_id < usize::MAX,
        ensures
            match opened {
                Ok(file) => {
                    &&& r == Ok::<FileId, Failure>(old(self)@.next_file_id)
                    &&& final(self)@ == (SessionView {
                        files: old(self)@.files.insert(old(self)@.next_file_id, file),
                        next_file_id: (old(self)@.next_file_id + 1) as usize,
                        ..old(self)@
                    })
                },
                Err(failure) => r == Err::<FileId, Failure>(failure) && final(self)@ == old(self)@,
            },
            final(self)@.wf(),
    {
        match opened {
            Ok(file) => {
                let id: FileId = self.next_file_id;
                self.next_file_id = id + 1;
                self.files.insert(id, file);
                assert(self@.files.dom().disjoint(self@.dirs.dom()));
                Ok(id)
            },
            Err(failure) => Err(failure),
        }
    }

    /// Files a remote directory that was opened, and gives its number. `opened` is what opening it
    /// returned.
    pub fn open_dir(&mut self, opened: Result<R::Dir, Failure>) -> (r: Result<DirId, Failure>)
        requires
            old(self)@.wf(),
            opened is Ok ==> old(self)@.next_file_id < usize::MAX,
        ensures
            match opened {
                Ok(dir) => {
                    &&& r == Ok::<DirId, Failure>(old(self)@.next_file_id)
                    &&& final(self)@ == (SessionView {
                        dirs: old(self)@.dirs.insert(old(self)@.next_file_id, dir),
                        next_file_id: (old(self)@.next_file_id + 1) as usize,
                        ..old(self)@
                    })
                },
                Err(failure) => r == Err::<DirId, Failure>(failure) && final(self)@ == old(self)@,
            },
            final(self)@.wf(),
    {
        match opened {
            Ok(dir) => {
                let id: DirId = self.next_file_id;
                self.next_file_id = id + 1;
                self.dirs.insert(id, dir);
                assert(self@.files.dom().disjoint(self@.dirs.dom()));
                Ok(id)
            },
            Err(failure) => Err(failure),
        }
    }
}

/// A new channel has the number, the channel and the descriptors that it was given, in their order,
/// and is otherwise empty: nothing is queued, there is room for 8192 bytes in each stream, and the
/// process has not ended. Filing it leaves all else as it is.
pub proof fn law_new_channel_is_as_given<R: Resources>(
    session: SessionView<R>,
    id: ChannelId,
    channel: R::Channel,
    exit: Option<Sender<ExitStatus>>,
    stdin: Option<FileDescriptor>,
    stdout: Option<FileDescriptor>,
    stderr: Option<FileDescriptor>,
)
    ensures
        ({
            let c = ChannelView::<R>::fresh(id, channel, exit, seq![stdin, stdout, stderr]);
            let after = session.with_channel(id, c);
            &&& c.channel_id == id && c.channel == channel && c.exit == exit && !c.exited
            &&& c.descriptors.len() == 3
            &&& c.descriptors[0].fd == stdin
            &&& c.descriptors[1].fd == stdout
            &&& c.descriptors[2].fd == stderr
            &&& forall|n: int|
                0 <= n < 3 ==> (#[trigger] c.descriptors[n]).buf.len() == 0
                    && c.descriptors[n].capacity == 8192
            &&& after.channels == session.channels.insert(id, c)
            &&& after.config == session.config && after.jumps == session.jumps
            &&& after.files == session.files && after.dirs == session.dirs
            &&& after.next_channel_id == session.next_channel_id
            &&& after.next_file_id == session.next_file_id
            &&& after.session_was_dropped == session.session_was_dropped
            &&& after.shown_accept_env_error == session.shown_accept_env_error
            &&& after.last_keep_alive == session.last_keep_alive
            &&& after.keep_alive == session.keep_alive
        }),
{
}

/// The identity agent is the one that is configured, whatever the environment says; where none is,
/// it is the one that the environment names, if any.
pub proof fn law_configured_agent_comes_first(
    config: Map<Seq<char>, Seq<char>>,
    path: Seq<char>,
    env: Option<Seq<char>>,
)
    ensures
        agent_of(config.insert("identityagent"@, path), env) == Some(path),
        agent_of(config.remove("identityagent"@), env) == env,
{
}

/// A sign of life is 128 bytes, all the same, that the other side ignores.
pub proof fn law_sign_of_life()
    ensures
        ignored_bytes().len() == 128,
        forall|i: int| 0 <= i < 128 ==> #[trigger] ignored_bytes()[i] == 0x42,
{
}

/// A sign of life falls due when the interval is over, not before, and stays due from then on; without
/// an interval, and with a library that cannot send one, it never does.
pub proof fn law_sign_falls_due(backend: Backend, interval: u128, elapsed: u128, later: u128)
    ensures
        sign_is_due(Backend::LibSsh, Some(interval), interval),
        elapsed < interval ==> !sign_is_due(backend, Some(interval), elapsed),
        elapsed <= later && sign_is_due(backend, Some(interval), elapsed) ==> sign_is_due(
            backend,
            Some(interval),
            later,
        ),
        !sign_is_due(backend, None, elapsed),
        !sign_is_due(Backend::Ssh2, Some(interval), elapsed),
{
}

/// A channel that is not there is reported with its number in decimal.
pub proof fn law_invalid_channel_is_named(id: ChannelId)
    ensures
        invalid_channel(id) == seq!["invalid channel id "@ + decimal(id as nat)],
{
}

/// A session is sound exactly where every channel is filed under its own number, with three streams
/// that hold no more than they can; no number is in use that was not given out; and no number stands
/// for both a file and a directory.
pub proof fn law_sound_session<R: Resources>(session: SessionView<R>)
    ensures
        session.wf() <==> {
            &&& forall|id: ChannelId| #[trigger]
                session.channels.contains_key(id) ==> {
                    let c = session.channels[id];
                    &&& id < session.next_channel_id
                    &&& c.channel_id == id
                    &&& c.descriptors.len() == 3
                    &&& c.descriptors[0].buf.len() <= c.descriptors[0].capacity
                    &&& c.descriptors[1].buf.len() <= c.descriptors[1].capacity
                    &&& c.descriptors[2].buf.len() <= c.descriptors[2].capacity
                }
            &&& forall|id: FileId| #[trigger]
                session.files.contains_key(id) ==> id < session.next_file_id
                    && !session.dirs.contains_key(id)
            &&& forall|id: DirId| #[trigger]
                session.dirs.contains_key(id) ==> id < session.next_file_id
        },
{
    if session.wf() {
        assert forall|id: FileId| #[trigger] session.files.contains_key(id) implies id
            < session.next_file_id && !session.dirs.contains_key(id) by {
            assert(session.files.dom().contains(id));
            if session.dirs.contains_key(id) {
                assert(session.dirs.dom().contains(id));
            }
        }
    }
}

} // verus!
