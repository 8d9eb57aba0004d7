//! The values that the session code moves about and never looks into.

use vstd::prelude::*;

verus! {

/// An open descriptor of the operating system.
#[verifier::external_type_specification]
#[verifier::external_body]
pub struct ExFileDescriptor(filedescriptor::FileDescriptor);

/// A connected socket.
#[verifier::external_type_specification]
#[verifier::external_body]
pub struct ExSocket(socket2::Socket);

/// The sending end of a channel between tasks.
#[verifier::external_type_specification]
#[verifier::external_body]
#[verifier::reject_recursive_types(T)]
pub struct ExSender<T>(smol::channel::Sender<T>);

/// How a process ended.
#[verifier::external_type_specification]
#[verifier::external_body]
pub struct ExExitStatus(portable_pty::ExitStatus);

/// A path on the remote side.
#[verifier::external_type_specification]
#[verifier::external_body]
pub struct ExUtf8PathBuf(camino::Utf8PathBuf);

/// The types that an SSH backend and the users of a session bring. A session owns values of them,
/// hands them to its driver and takes them back.
pub trait Resources: Sized {
    /// A connection to a server.
    type Session;

    /// A channel of a connection.
    type Channel;

    /// The file transfer subsystem of a connection.
    type Sftp;

    /// An open remote file.
    type File;

    /// An open remote directory.
    type Dir;

    /// A running bridge to a jump host.
    type Bridge;

    /// Where the answer to a request goes.
    type Reply;

    /// What an operation of the backend gives.
    type Value;

    /// The metadata of a remote file.
    type Metadata;

    /// How a remote file is to be opened.
    type OpenOptions;

    /// How a remote file is to be renamed.
    type RenameOptions;

    /// The terminal that is asked for.
    type NewPty;

    /// The size that a terminal is to take.
    type ResizePty;
}

/// The SSH library below a connection.
#[derive(Clone, Copy, Debug, PartialEq, Eq, Structural)]
pub enum Backend {
    /// libssh.
    LibSsh,
    /// libssh2.
    Ssh2,
}

/// A connection, with its file transfer subsystem once that is open.
pub struct SessionWrap<R: Resources> {
    /// The library below.
    pub backend: Backend,
    /// The connection itself.
    pub session: R::Session,
    /// The file transfer subsystem.
    pub sftp: Option<R::Sftp>,
}

} // verus!
