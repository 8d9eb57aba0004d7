//! What can be asked of a session.

use crate::resources::Resources;
use crate::session::{ChannelId, DirId, FileId};
use camino::Utf8PathBuf;
use vstd::prelude::*;

verus! {

/// A request to a session. One that is answered says where the answer goes.
pub enum SessionRequest<R: Resources> {
    /// The owner of the session is gone.
    SessionDropped,
    /// Open a channel with a terminal.
    NewPty(R::NewPty, R::Reply),
    /// Resize a terminal. The answer may be waived.
    ResizePty(R::ResizePty, Option<R::Reply>),
    /// Run a command.
    Exec(Exec, R::Reply),
    /// Send a signal.
    SignalChannel(SignalChannel),
    /// Work on remote files.
    Sftp(SftpRequest<R>),
}

/// A command to run.
pub struct Exec {
    /// The command.
    pub command_line: String,
    /// The variables to set for it, in the order in which they are set.
    pub env: Option<Vec<(String, String)>>,
}

/// A signal for the process behind a channel.
#[derive(Debug)]
pub struct SignalChannel {
    /// The channel.
    pub channel: ChannelId,
    /// The name of the signal, without its prefix.
    pub signame: &'static str,
}

/// A request to work on remote files.
pub enum SftpRequest<R: Resources> {
    /// Open a file.
    OpenWithMode(OpenWithMode<R>, R::Reply),
    /// Open a directory.
    OpenDir(Utf8PathBuf, R::Reply),
    /// Work on an open file.
    File(FileRequest<R>),
    /// Work on an open directory.
    Dir(DirRequest<R>),
    /// List a directory.
    ReadDir(Utf8PathBuf, R::Reply),
    /// Make a directory.
    CreateDir(CreateDir, R::Reply),
    /// Remove a directory.
    RemoveDir(Utf8PathBuf, R::Reply),
    /// Get metadata.
    Metadata(Utf8PathBuf, R::Reply),
    /// Get metadata, of a link itself where there is one.
    SymlinkMetadata(Utf8PathBuf, R::Reply),
    /// Set metadata.
    SetMetadata(SetMetadata<R>, R::Reply),
    /// Make a link.
    Symlink(Symlink, R::Reply),
    /// Read a link.
    ReadLink(Utf8PathBuf, R::Reply),
    /// Resolve a path.
    Canonicalize(Utf8PathBuf, R::Reply),
    /// Rename a file.
    Rename(Rename<R>, R::Reply),
    /// Remove a file.
    RemoveFile(Utf8PathBuf, R::Reply),
}

/// A file to open.
pub struct OpenWithMode<R: Resources> {
    /// Its path.
    pub filename: Utf8PathBuf,
    /// How to open it.
    pub opts: R::OpenOptions,
}

/// A directory to make.
pub struct CreateDir {
    /// Its path.
    pub filename: Utf8PathBuf,
    /// Its permissions.
    pub mode: i32,
}

/// Metadata to set.
pub struct SetMetadata<R: Resources> {
    /// The path of the file.
    pub filename: Utf8PathBuf,
    /// Its new metadata.
    pub metadata: R::Metadata,
}

/// A link to make.
pub struct Symlink {
    /// Its path.
    pub path: Utf8PathBuf,
    /// What it points to.
    pub target: Utf8PathBuf,
}

/// A file to rename.
pub struct Rename<R: Resources> {
    /// Its path.
    pub src: Utf8PathBuf,
    /// Its new path.
    pub dst: Utf8PathBuf,
    /// How to go about it.
    pub opts: R::RenameOptions,
}

/// A request to work on an open file.
pub enum FileRequest<R: Resources> {
    /// Write data.
    Write(WriteFile, R::Reply),
    /// Read data.
    Read(ReadFile, R::Reply),
    /// Close the file.
    Close(FileId, R::Reply),
    /// Send off what is buffered.
    Flush(FileId, R::Reply),
    /// Set metadata.
    SetMetadata(SetMetadataFile<R>, R::Reply),
    /// Get metadata.
    Metadata(FileId, R::Reply),
    /// Have the data stored.
    Fsync(FileId, R::Reply),
}

/// Data to write to a file.
pub struct WriteFile {
    /// The file.
    pub file_id: FileId,
    /// The data.
    pub data: Vec<u8>,
}

/// Data to read from a file.
pub struct ReadFile {
    /// The file.
    pub file_id: FileId,
    /// How many bytes to read at most.
    pub max_bytes: usize,
}

/// Metadata to set on an open file.
pub struct SetMetadataFile<R: Resources> {
    /// The file.
    pub file_id: FileId,
    /// Its new metadata.
    pub metadata: R::Metadata,
}

/// A request to work on an open directory.
pub enum DirRequest<R: Resources> {
    /// Close the directory.
    Close(DirId, R::Reply),
    /// Read the next entry.
    ReadDir(DirId, R::Reply),
}

} // verus!
