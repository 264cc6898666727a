//! The filesystem table: what a file is, how it is opened, and which
//! operations a table hands on to the host or refuses.

use vstd::prelude::*;
use crate::vsys::error::{VsysError, VsysResult};

verus! {

/// What kind of thing a path names.
#[derive(Debug, Clone, Copy, PartialEq, Eq)]
pub enum FileType {
    File,
    Directory,
    Symlink,
    Other,
}

/// What is known of a file, on every platform.
#[derive(Debug, Clone)]
pub struct FileStat {
    pub file_type: FileType,
    pub size: u64,
    pub readonly: bool,
    /// Times in milliseconds since the epoch, where the platform has them.
    pub modified: Option<u64>,
    pub accessed: Option<u64>,
    pub created: Option<u64>,
    /// Unix mode (0 on Windows)
    pub mode: u32,
    /// Unix uid (0 on Windows)
    pub uid: u32,
    /// Unix gid (0 on Windows)
    pub gid: u32,
}

impl FileType {
    /// The kind of a file from what the host says of it: a regular file
    /// before a directory, a directory before a link.
    pub fn classify(is_file: bool, is_dir: bool, is_symlink: bool) -> (r: FileType)
        ensures
            r == (if is_file {
                FileType::File
            } else if is_dir {
                FileType::Directory
            } else if is_symlink {
                FileType::Symlink
            } else {
                FileType::Other
            }),
    {
        if is_file {
            FileType::File
        } else if is_dir {
            FileType::Directory
        } else if is_symlink {
            FileType::Symlink
        } else {
            FileType::Other
        }
    }
}

impl FileStat {
    /// Whether this is a regular file.
    pub fn is_file(&self) -> (r: bool)
        ensures
            r == (self.file_type is File),
    {
        match self.file_type {
            FileType::File => true,
            _ => false,
        }
    }

    /// Whether this is a directory.
    pub fn is_dir(&self) -> (r: bool)
        ensures
            r == (self.file_type is Directory),
    {
        match self.file_type {
            FileType::Directory => true,
            _ => false,
        }
    }

    /// Whether this is a symbolic link.
    pub fn is_symlink(&self) -> (r: bool)
        ensures
            r == (self.file_type is Symlink),
    {
        match self.file_type {
            FileType::Symlink => true,
            _ => false,
        }
    }
}

/// An entry of a directory.
#[derive(Debug, Clone)]
pub struct DirEntry {
    pub name: String,
    pub file_type: FileType,
}

/// How a file is to be opened.
#[derive(Debug, Clone)]
pub struct OpenOptions {
    pub read: bool,
    pub write: bool,
    pub append: bool,
    pub truncate: bool,
    pub create: bool,
    pub create_new: bool,
    /// The Unix mode for a file that is created; 0 leaves it to the host.
    pub mode: u32,
}

impl Default for OpenOptions {
    /// Nothing is asked for.
    fn default() -> (r: Self)
        ensures
            r == (OpenOptions {
                read: false,
                write: false,
                append: false,
                truncate: false,
                create: false,
                create_new: false,
                mode: 0,
            }),
    {
        OpenOptions {
            read: false,
            write: false,
            append: false,
            truncate: false,
            create: false,
            create_new: false,
            mode: 0,
        }
    }
}

impl OpenOptions {
    /// Options that ask for nothing.
    pub fn new() -> (r: Self)
        ensures
            r == (OpenOptions {
                read: false,
                write: false,
                append: false,
                truncate: false,
                create: false,
                create_new: false,
                mode: 0,
            }),
    {
        OpenOptions {
            read: false,
            write: false,
            append: false,
            truncate: false,
            create: false,
            create_new: false,
            mode: 0,
        }
    }

    /// Whether the file is opened for reading.
    pub fn read(self, read: bool) -> (r: Self)
        ensures
            r == (OpenOptions { read, ..self }),
    {
        let mut out = self;
        out.read = read;
        out
    }

    /// Whether the file is opened for writing.
    pub fn write(self, write: bool) -> (r: Self)
        ensures
            r == (OpenOptions { write, ..self }),
    {
        let mut out = self;
        out.write = write;
        out
    }

    /// Whether writes go to the end of the file.
    pub fn append(self, append: bool) -> (r: Self)
        ensures
            r == (OpenOptions { append, ..self }),
    {
        let mut out = self;
        out.append = append;
        out
    }

    /// Whether an existing file is emptied.
    pub fn truncate(self, truncate: bool) -> (r: Self)
        ensures
            r == (OpenOptions { truncate, ..self }),
    {
        let mut out = self;
        out.truncate = truncate;
        out
    }

    /// Whether a missing file is created.
    pub fn create(self, create: bool) -> (r: Self)
        ensures
            r == (OpenOptions { create, ..self }),
    {
        let mut out = self;
        out.create = create;
        out
    }

    /// Whether the file must not exist yet.
    pub fn create_new(self, create_new: bool) -> (r: Self)
        ensures
            r == (OpenOptions { create_new, ..self }),
    {
        let mut out = self;
        out.create_new = create_new;
        out
    }

    /// The Unix mode of a file that is created.
    pub fn mode(self, mode: u32) -> (r: Self)
        ensures
            r == (OpenOptions { mode, ..self }),
    {
        let mut out = self;
        out.mode = mode;
        out
    }
}

/// Where a handle is to be positioned.
#[derive(Debug, Clone, Copy)]
pub enum SeekFrom {
    Start(u64),
    End(i64),
    Current(i64),
}

/// What is asked of an open file.
pub enum HandleCall {
    /// To read into a buffer that holds these bytes.
    Read(Seq<u8>),
    /// To write these bytes.
    Write(Seq<u8>),
    Seek(SeekFrom),
    SyncAll,
    SyncData,
    Stat,
    SetLen(u64),
    SetPermissions(bool),
    SetMode(u32),
}

/// What an open file answers.
pub enum HandleAnswer {
    /// What the buffer holds after a read, and how many bytes were read.
    Read(Seq<u8>, VsysResult<usize>),
    /// How many bytes were written.
    Written(VsysResult<usize>),
    /// The new position.
    Position(VsysResult<u64>),
    Stat(VsysResult<FileStat>),
    Done(VsysResult<()>),
}

/// What an open file can do. Implemented by whoever provides files: the
/// host, or a sandbox of its own making.
///
/// Nothing is promised of the answers here. `answers` says which answer
/// may follow which call; every implementation says for itself what it
/// promises of its answers, and one that promises nothing lets any answer
/// follow any call.
pub trait FsHandleOps: Send + Sync {
    /// Whether `answer` may follow `call` on this file. Any answer may,
    /// unless the implementation says otherwise.
    open spec fn answers(&self, call: HandleCall, answer: HandleAnswer) -> bool {
        true
    }

    fn read(&mut self, buf: &mut [u8]) -> (r: VsysResult<usize>)
        ensures
            old(self).answers(HandleCall::Read(old(buf)@), HandleAnswer::Read(final(buf)@, r)),
    ;

    fn write(&mut self, buf: &[u8]) -> (r: VsysResult<usize>)
        ensures
            old(self).answers(HandleCall::Write(buf@), HandleAnswer::Written(r)),
    ;

    fn seek(&mut self, pos: SeekFrom) -> (r: VsysResult<u64>)
        ensures
            old(self).answers(HandleCall::Seek(pos), HandleAnswer::Position(r)),
    ;

    fn sync_all(&self) -> (r: VsysResult<()>)
        ensures
            self.answers(HandleCall::SyncAll, HandleAnswer::Done(r)),
    ;

    fn sync_data(&self) -> (r: VsysResult<()>)
        ensures
            self.answers(HandleCall::SyncData, HandleAnswer::Done(r)),
    ;

    fn stat(&self) -> (r: VsysResult<FileStat>)
        ensures
            self.answers(HandleCall::Stat, HandleAnswer::Stat(r)),
    ;

    fn set_len(&self, size: u64) -> (r: VsysResult<()>)
        ensures
            self.answers(HandleCall::SetLen(size), HandleAnswer::Done(r)),
    ;

    fn set_permissions(&self, readonly: bool) -> (r: VsysResult<()>)
        ensures
            self.answers(HandleCall::SetPermissions(readonly), HandleAnswer::Done(r)),
    ;

    fn set_mode(&self, mode: u32) -> (r: VsysResult<()>)
        ensures
            self.answers(HandleCall::SetMode(mode), HandleAnswer::Done(r)),
    ;
}

/// An open file, whoever provides it.
pub struct FsHandle<T: FsHandleOps> {
    inner: T,
}

impl<T: FsHandleOps> FsHandle<T> {
    /// Whether `answer` may follow `call` on the file that the handle
    /// holds.
    pub closed spec fn answers(&self, call: HandleCall, answer: HandleAnswer) -> bool {
        self.inner.answers(call, answer)
    }

    /// A handle on what `inner` provides: it answers every call as `inner`
    /// does.
    pub fn new(inner: T) -> (r: Self)
        ensures
            forall|call: HandleCall, answer: HandleAnswer|
                #[trigger] r.answers(call, answer) == inner.answers(call, answer),
    {
        FsHandle { inner }
    }

    /// Reads into `buf`; gives the number of bytes read. The call is
    /// handed on to the file that the handle holds, and the answer is that
    /// file's.
    pub fn read(&mut self, buf: &mut [u8]) -> (r: VsysResult<usize>)
        ensures
            old(self).answers(HandleCall::Read(old(buf)@), HandleAnswer::Read(final(buf)@, r)),
    {
        self.inner.read(buf)
    }

    /// Writes from `buf`; gives the number of bytes written. The answer is
    /// that of the file that the handle holds.
    pub fn write(&mut self, buf: &[u8]) -> (r: VsysResult<usize>)
        ensures
            old(self).answers(HandleCall::Write(buf@), HandleAnswer::Written(r)),
    {
        self.inner.write(buf)
    }

    /// Positions the handle; gives the new position. The answer is that of
    /// the file that the handle holds.
    pub fn seek(&mut self, pos: SeekFrom) -> (r: VsysResult<u64>)
        ensures
            old(self).answers(HandleCall::Seek(pos), HandleAnswer::Position(r)),
    {
        self.inner.seek(pos)
    }

    /// Writes data and metadata through to the disk. The answer is that of
    /// the file that the handle holds.
    pub fn sync_all(&self) -> (r: VsysResult<()>)
        ensures
            self.answers(HandleCall::SyncAll, HandleAnswer::Done(r)),
    {
        self.inner.sync_all()
    }

    /// Writes the data through to the disk. The answer is that of the file
    /// that the handle holds.
    pub fn sync_data(&self) -> (r: VsysResult<()>)
        ensures
            self.answers(HandleCall::SyncData, HandleAnswer::Done(r)),
    {
        self.inner.sync_data()
    }

    /// What is known of the open file. The answer is that of the file that
    /// the handle holds.
    pub fn stat(&self) -> (r: VsysResult<FileStat>)
        ensures
            self.answers(HandleCall::Stat, HandleAnswer::Stat(r)),
    {
        self.inner.stat()
    }

    /// Cuts or extends the file to `size` bytes. The answer is that of the
    /// file that the handle holds.
    pub fn set_len(&self, size: u64) -> (r: VsysResult<()>)
        ensures
            self.answers(HandleCall::SetLen(size), HandleAnswer::Done(r)),
    {
        self.inner.set_len(size)
    }

    /// Makes the file read-only, or writable again. The answer is that of
    /// the file that the handle holds.
    pub fn set_permissions(&self, readonly: bool) -> (r: VsysResult<()>)
        ensures
            self.answers(HandleCall::SetPermissions(readonly), HandleAnswer::Done(r)),
    {
        self.inner.set_permissions(readonly)
    }

    /// Sets the Unix mode of the file. The answer is that of the file that
    /// the handle holds.
    pub fn set_mode(&self, mode: u32) -> (r: VsysResult<()>)
        ensures
            self.answers(HandleCall::SetMode(mode), HandleAnswer::Done(r)),
    {
        self.inner.set_mode(mode)
    }
}

/// What a table does with one operation.
#[derive(Debug, Clone, PartialEq, Eq)]
pub enum FsEntry {
    /// The operation is handed on to the host.
    Host,
    /// The operation is refused, with this text.
    Deny(String),
}

impl FsEntry {
    /// Whether the entry refuses with the text `message`.
    pub open spec fn denies(self, message: Seq<char>) -> bool {
        self matches FsEntry::Deny(m) && m@ == message
    }

    /// Whether the operation goes ahead.
    pub fn allows(&self) -> (r: bool)
        ensures
            r == (self is Host),
    {
        match self {
            FsEntry::Host => true,
            FsEntry::Deny(_) => false,
        }
    }
}

/// The filesystem table: for every operation, whether it is handed on to
/// the host or refused. The three questions `exists`, `is_file` and `is_dir`
/// are answered with "no" where they are refused.
#[derive(Debug, Clone, PartialEq, Eq)]
pub struct FsVTable {
    pub read: FsEntry,
    pub read_to_string: FsEntry,
    pub stat: FsEntry,
    pub lstat: FsEntry,
    pub read_dir: FsEntry,
    pub read_link: FsEntry,
    pub exists: FsEntry,
    pub is_file: FsEntry,
    pub is_dir: FsEntry,
    pub write: FsEntry,
    pub append: FsEntry,
    pub create_dir: FsEntry,
    pub create_dir_all: FsEntry,
    pub remove_file: FsEntry,
    pub remove_dir: FsEntry,
    pub remove_dir_all: FsEntry,
    pub rename: FsEntry,
    pub copy: FsEntry,
    pub symlink: FsEntry,
    pub truncate: FsEntry,
    pub access: FsEntry,
    pub mkdtemp: FsEntry,
    pub set_permissions: FsEntry,
    pub set_mode: FsEntry,
    pub chown: FsEntry,
    pub canonicalize: FsEntry,
    pub open: FsEntry,
}

/// An entry that refuses with `message`.
fn deny(message: &str) -> (r: FsEntry)
    ensures
        r.denies(message@),
{
    FsEntry::Deny(String::from_str(message))
}

impl FsVTable {
    /// Whether every operation that reads is handed on to the host.
    pub open spec fn reads_from_host(&self) -> bool {
        &&& self.read is Host
        &&& self.read_to_string is Host
        &&& self.stat is Host
        &&& self.lstat is Host
        &&& self.read_dir is Host
        &&& self.read_link is Host
        &&& self.exists is Host
        &&& self.is_file is Host
        &&& self.is_dir is Host
        &&& self.access is Host
        &&& self.canonicalize is Host
        &&& self.open is Host
    }

    /// Whether every operation that changes something refuses with
    /// `message`.
    pub open spec fn writes_denied(&self, message: Seq<char>) -> bool {
        &&& self.write.denies(message)
        &&& self.append.denies(message)
        &&& self.create_dir.denies(message)
        &&& self.create_dir_all.denies(message)
        &&& self.remove_file.denies(message)
        &&& self.remove_dir.denies(message)
        &&& self.remove_dir_all.denies(message)
        &&& self.rename.denies(message)
        &&& self.copy.denies(message)
        &&& self.symlink.denies(message)
        &&& self.truncate.denies(message)
        &&& self.mkdtemp.denies(message)
        &&& self.set_permissions.denies(message)
        &&& self.set_mode.denies(message)
        &&& self.chown.denies(message)
    }

    /// The table that refuses every operation, each with a text that names
    /// it.
    pub fn deny_all() -> (r: Self)
        ensures
            r.read.denies("fs read denied"@),
            r.read_to_string.denies("fs read denied"@),
            r.stat.denies("fs stat denied"@),
            r.lstat.denies("fs lstat denied"@),
            r.read_dir.denies("fs readdir denied"@),
            r.read_link.denies("fs readlink denied"@),
            r.exists is Deny,
            r.is_file is Deny,
            r.is_dir is Deny,
            r.write.denies("fs write denied"@),
            r.append.denies("fs append denied"@),
            r.create_dir.denies("fs mkdir denied"@),
            r.create_dir_all.denies("fs mkdir denied"@),
            r.remove_file.denies("fs remove denied"@),
            r.remove_dir.denies("fs rmdir denied"@),
            r.remove_dir_all.denies("fs rmdir denied"@),
            r.rename.denies("fs rename denied"@),
            r.copy.denies("fs copy denied"@),
            r.symlink.denies("fs symlink denied"@),
            r.truncate.denies("fs truncate denied"@),
            r.access.denies("fs access denied"@),
            r.mkdtemp.denies("fs mkdtemp denied"@),
            r.set_permissions.denies("fs chmod denied"@),
            r.set_mode.denies("fs chmod denied"@),
            r.chown.denies("fs chown denied"@),
            r.canonicalize.denies("fs canonicalize denied"@),
            r.open.denies("fs open denied"@),
    {
        FsVTable {
            read: deny("fs read denied"),
            read_to_string: deny("fs read denied"),
            stat: deny("fs stat denied"),
            lstat: deny("fs lstat denied"),
            read_dir: deny("fs readdir denied"),
            read_link: deny("fs readlink denied"),
            exists: deny(""),
            is_file: deny(""),
            is_dir: deny(""),
            write: deny("fs write denied"),
            append: deny("fs append denied"),
            create_dir: deny("fs mkdir denied"),
            create_dir_all: deny("fs mkdir denied"),
            remove_file: deny("fs remove denied"),
            remove_dir: deny("fs rmdir denied"),
            remove_dir_all: deny("fs rmdir denied"),
            rename: deny("fs rename denied"),
            copy: deny("fs copy denied"),
            symlink: deny("fs symlink denied"),
            truncate: deny("fs truncate denied"),
            access: deny("fs access denied"),
            mkdtemp: deny("fs mkdtemp denied"),
            set_permissions: deny("fs chmod denied"),
            set_mode: deny("fs chmod denied"),
            chown: deny("fs chown denied"),
            canonicalize: deny("fs canonicalize denied"),
            open: deny("fs open denied"),
        }
    }

    /// The table that hands every operation that reads on to the host and
    /// refuses every operation that changes something.
    pub fn read_only() -> (r: Self)
        ensures
            r.reads_from_host(),
            r.writes_denied("fs is read-only"@),
    {
        FsVTable {
            read: FsEntry::Host,
            read_to_string: FsEntry::Host,
            stat: FsEntry::Host,
            lstat: FsEntry::Host,
            read_dir: FsEntry::Host,
            read_link: FsEntry::Host,
            exists: FsEntry::Host,
            is_file: FsEntry::Host,
            is_dir: FsEntry::Host,
            write: deny("fs is read-only"),
            append: deny("fs is read-only"),
            create_dir: deny("fs is read-only"),
            create_dir_all: deny("fs is read-only"),
            remove_file: deny("fs is read-only"),
            remove_dir: deny("fs is read-only"),
            remove_dir_all: deny("fs is read-only"),
            rename: deny("fs is read-only"),
            copy: deny("fs is read-only"),
            symlink: deny("fs is read-only"),
            truncate: deny("fs is read-only"),
            access: FsEntry::Host,
            mkdtemp: deny("fs is read-only"),
            set_permissions: deny("fs is read-only"),
            set_mode: deny("fs is read-only"),
            chown: deny("fs is read-only"),
            canonicalize: FsEntry::Host,
            open: FsEntry::Host,
        }
    }
}

impl Default for FsVTable {
    /// The table that hands every operation on to the host.
    fn default() -> (r: Self)
        ensures
            r.reads_from_host(),
            r.write is Host && r.append is Host && r.create_dir is Host && r.create_dir_all
                is Host && r.remove_file is Host && r.remove_dir is Host && r.remove_dir_all
                is Host && r.rename is Host && r.copy is Host && r.symlink is Host && r.truncate
                is Host && r.mkdtemp is Host && r.set_permissions is Host && r.set_mode is Host
                && r.chown is Host,
    {
        FsVTable {
            read: FsEntry::Host,
            read_to_string: FsEntry::Host,
            stat: FsEntry::Host,
            lstat: FsEntry::Host,
            read_dir: FsEntry::Host,
            read_link: FsEntry::Host,
            exists: FsEntry::Host,
            is_file: FsEntry::Host,
            is_dir: FsEntry::Host,
            write: FsEntry::Host,
            append: FsEntry::Host,
            create_dir: FsEntry::Host,
            create_dir_all: FsEntry::Host,
            remove_file: FsEntry::Host,
            remove_dir: FsEntry::Host,
            remove_dir_all: FsEntry::Host,
            rename: FsEntry::Host,
            copy: FsEntry::Host,
            symlink: FsEntry::Host,
            truncate: FsEntry::Host,
            access: FsEntry::Host,
            mkdtemp: FsEntry::Host,
            set_permissions: FsEntry::Host,
            set_mode: FsEntry::Host,
            chown: FsEntry::Host,
            canonicalize: FsEntry::Host,
            open: FsEntry::Host,
        }
    }
}

/// The permission bits that count for a caller: the owner's where the
/// caller owns the file, else the group's where the caller is in the file's
/// group, else those of everyone.
pub open spec fn class_bits(file_mode: u32, uid: u32, gid: u32, file_uid: u32, file_gid: u32)
    -> u32 {
    if uid == file_uid {
        file_mode >> 6u32
    } else if gid == file_gid {
        file_mode >> 3u32
    } else {
        file_mode
    }
}

/// The text with which the access `requested` (4 to read, 2 to write, 1
/// to execute, taken together) is refused on permission bits `bits`; none
/// where it is granted. Reading is looked at first, then writing, then
/// executing.
pub open spec fn access_refusal(requested: u32, bits: u32) -> Option<Seq<char>> {
    if requested == 0 {
        None
    } else if requested & 4 != 0 && bits & 4 == 0 {
        Some("read permission denied"@)
    } else if requested & 2 != 0 && bits & 2 == 0 {
        Some("write permission denied"@)
    } else if requested & 1 != 0 && bits & 1 == 0 {
        Some("execute permission denied"@)
    } else {
        None
    }
}

/// Decides the access `requested` to an existing file from its mode and
/// owners and from the caller's user and group.
pub fn check_access(
    requested: u32,
    file_mode: u32,
    uid: u32,
    gid: u32,
    file_uid: u32,
    file_gid: u32,
) -> (r: VsysResult<()>)
    ensures
        match access_refusal(requested, class_bits(file_mode, uid, gid, file_uid, file_gid)) {
            None => r is Ok,
            Some(text) => r matches Err(VsysError::PermissionDenied(m)) && m@ == text,
        },
{
    if requested == 0 {
        return Ok(());
    }
    let bits: u32 = if uid == file_uid {
        file_mode >> 6u32
    } else if gid == file_gid {
        file_mode >> 3u32
    } else {
        file_mode
    };
    if requested & 4 != 0 && bits & 4 == 0 {
        return Err(VsysError::PermissionDenied(String::from_str("read permission denied")));
    }
    if requested & 2 != 0 && bits & 2 == 0 {
        return Err(VsysError::PermissionDenied(String::from_str("write permission denied")));
    }
    if requested & 1 != 0 && bits & 1 == 0 {
        return Err(VsysError::PermissionDenied(String::from_str("execute permission denied")));
    }
    Ok(())
}

/// What is asked of a host where the library has to say on which answers
/// a result of its own rests.
pub enum HostQuestion {
    /// The bytes of the file at this path.
    Read(Seq<char>),
    /// Whether this path exists.
    Exists(Seq<char>),
    /// Whether this path is a regular file.
    IsFile(Seq<char>),
    /// Whether this path is a directory.
    IsDir(Seq<char>),
}

/// What a host answers to such a question.
pub enum HostAnswer {
    Bytes(VsysResult<Vec<u8>>),
    Flag(bool),
}

/// The filesystem of the host, or of whoever stands in for it. A table
/// hands the operations that it does not refuse on to one of these.
///
/// Nothing is promised of what a host answers: what is on a disk can
/// change between two questions, so the same question may get two answers.
/// `answers` says which answer a host may give to which question; every host
/// says for itself what it promises, and one that promises nothing lets any
/// answer follow any question.
pub trait HostFs {
    /// The open files of this host.
    type Handle: FsHandleOps;

    /// Whether the host may give `answer` to `question`. It may give any,
    /// unless the implementation says otherwise.
    open spec fn answers(&self, question: HostQuestion, answer: HostAnswer) -> bool {
        true
    }

    fn read(&self, path: &str) -> (r: VsysResult<Vec<u8>>)
        ensures
            self.answers(HostQuestion::Read(path@), HostAnswer::Bytes(r)),
    ;

    fn read_to_string(&self, path: &str) -> VsysResult<String>;

    fn stat(&self, path: &str) -> VsysResult<FileStat>;

    fn lstat(&self, path: &str) -> VsysResult<FileStat>;

    fn read_dir(&self, path: &str) -> VsysResult<Vec<DirEntry>>;

    fn read_link(&self, path: &str) -> VsysResult<String>;

    fn path_exists(&self, path: &str) -> (r: bool)
        ensures
            self.answers(HostQuestion::Exists(path@), HostAnswer::Flag(r)),
    ;

    fn is_file(&self, path: &str) -> (r: bool)
        ensures
            self.answers(HostQuestion::IsFile(path@), HostAnswer::Flag(r)),
    ;

    fn is_dir(&self, path: &str) -> (r: bool)
        ensures
            self.answers(HostQuestion::IsDir(path@), HostAnswer::Flag(r)),
    ;

    fn write(&self, path: &str, data: &[u8]) -> VsysResult<()>;

    fn append(&self, path: &str, data: &[u8]) -> VsysResult<()>;

    fn create_dir(&self, path: &str) -> VsysResult<()>;

    fn create_dir_all(&self, path: &str) -> VsysResult<()>;

    fn remove_file(&self, path: &str) -> VsysResult<()>;

    fn remove_dir(&self, path: &str) -> VsysResult<()>;

    fn remove_dir_all(&self, path: &str) -> VsysResult<()>;

    fn rename(&self, from: &str, to: &str) -> VsysResult<()>;

    fn copy(&self, from: &str, to: &str) -> VsysResult<u64>;

    fn symlink(&self, target: &str, link: &str) -> VsysResult<()>;

    fn truncate(&self, path: &str, size: u64) -> VsysResult<()>;

    fn access(&self, path: &str, mode: u32) -> VsysResult<()>;

    fn mkdtemp(&self, prefix: &str) -> VsysResult<String>;

    fn set_permissions(&self, path: &str, readonly: bool) -> VsysResult<()>;

    fn set_mode(&self, path: &str, mode: u32) -> VsysResult<()>;

    fn chown(&self, path: &str, uid: u32, gid: u32) -> VsysResult<()>;

    fn canonicalize(&self, path: &str) -> VsysResult<String>;

    fn open(&self, path: &str, options: &OpenOptions) -> VsysResult<FsHandle<Self::Handle>>;
}

/// Whether `r` is what a table with this entry answers when the host is
/// asked `question`: "no" where the entry refuses, else what the host said.
pub open spec fn flag_through<H: HostFs>(
    entry: FsEntry,
    host: &H,
    question: HostQuestion,
    r: bool,
) -> bool {
    match entry {
        FsEntry::Deny(_) => !r,
        FsEntry::Host => host.answers(question, HostAnswer::Flag(r)),
    }
}

/// Whether `r` is what a table with this entry gives when the file at
/// `path` is read: the entry's refusal, else what the host gave.
pub open spec fn read_through<H: HostFs>(
    entry: FsEntry,
    host: &H,
    path: Seq<char>,
    r: VsysResult<Vec<u8>>,
) -> bool {
    match entry {
        FsEntry::Deny(m) => r matches Err(VsysError::PermissionDenied(text)) && text@ == m@,
        FsEntry::Host => host.answers(HostQuestion::Read(path), HostAnswer::Bytes(r)),
    }
}

/// Whether `r` is the refusal of an entry that refuses.
pub open spec fn refused<T>(entry: FsEntry, r: VsysResult<T>) -> bool {
    entry matches FsEntry::Deny(m) ==> (r matches Err(VsysError::PermissionDenied(text)) && text@
        == m@)
}

impl FsEntry {
    /// The error with which the entry refuses; none where it hands on.
    pub fn refusal(&self) -> (r: Option<VsysError>)
        ensures
            match self {
                FsEntry::Host => r is None,
                FsEntry::Deny(m) => r matches Some(VsysError::PermissionDenied(text)) && text@
                    == m@,
            },
    {
        match self {
            FsEntry::Host => None,
            FsEntry::Deny(m) => Some(VsysError::PermissionDenied(m.clone())),
        }
    }
}

/// The operations of the table, each on a host: an operation that the table
/// refuses ends with the entry's text as a denied permission (a question
/// with "no") and never reaches the host; any other is the host's to
/// answer.
impl FsVTable {
    /// The bytes of the file at `path`.
    pub fn call_read<H: HostFs>(&self, host: &H, path: &str) -> (r: VsysResult<Vec<u8>>)
        ensures
            refused(self.read, r),
            read_through(self.read, host, path@, r),
    {
        match self.read.refusal() {
            Some(e) => Err(e),
            None => host.read(path),
        }
    }

    /// The text of the file at `path`.
    pub fn call_read_to_string<H: HostFs>(&self, host: &H, path: &str) -> (r: VsysResult<String>)
        ensures
            refused(self.read_to_string, r),
    {
        match self.read_to_string.refusal() {
            Some(e) => Err(e),
            None => host.read_to_string(path),
        }
    }

    /// What is known of `path`, links followed.
    pub fn call_stat<H: HostFs>(&self, host: &H, path: &str) -> (r: VsysResult<FileStat>)
        ensures
            refused(self.stat, r),
    {
        match self.stat.refusal() {
            Some(e) => Err(e),
            None => host.stat(path),
        }
    }

    /// What is known of `path` itself, links not followed.
    pub fn call_lstat<H: HostFs>(&self, host: &H, path: &str) -> (r: VsysResult<FileStat>)
        ensures
            refused(self.lstat, r),
    {
        match self.lstat.refusal() {
            Some(e) => Err(e),
            None => host.lstat(path),
        }
    }

    /// The entries of the directory at `path`.
    pub fn call_read_dir<H: HostFs>(&self, host: &H, path: &str) -> (r: VsysResult<Vec<DirEntry>>)
        ensures
            refused(self.read_dir, r),
    {
        match self.read_dir.refusal() {
            Some(e) => Err(e),
            None => host.read_dir(path),
        }
    }

    /// Where the link at `path` points.
    pub fn call_read_link<H: HostFs>(&self, host: &H, path: &str) -> (r: VsysResult<String>)
        ensures
            refused(self.read_link, r),
    {
        match self.read_link.refusal() {
            Some(e) => Err(e),
            None => host.read_link(path),
        }
    }

    /// Whether `path` exists: "no" where the table refuses the question,
    /// else what the host says.
    pub fn call_exists<H: HostFs>(&self, host: &H, path: &str) -> (r: bool)
        ensures
            self.exists is Deny ==> !r,
            flag_through(self.exists, host, HostQuestion::Exists(path@), r),
    {
        self.exists.allows() && host.path_exists(path)
    }

    /// Whether `path` is a regular file: "no" where the table refuses the
    /// question, else what the host says.
    pub fn call_is_file<H: HostFs>(&self, host: &H, path: &str) -> (r: bool)
        ensures
            self.is_file is Deny ==> !r,
            flag_through(self.is_file, host, HostQuestion::IsFile(path@), r),
    {
        self.is_file.allows() && host.is_file(path)
    }

    /// Whether `path` is a directory: "no" where the table refuses the
    /// question, else what the host says.
    pub fn call_is_dir<H: HostFs>(&self, host: &H, path: &str) -> (r: bool)
        ensures
            self.is_dir is Deny ==> !r,
            flag_through(self.is_dir, host, HostQuestion::IsDir(path@), r),
    {
        self.is_dir.allows() && host.is_dir(path)
    }

    /// Writes `data` as the file at `path`.
    pub fn call_write<H: HostFs>(&self, host: &H, path: &str, data: &[u8]) -> (r: VsysResult<()>)
        ensures
            refused(self.write, r),
    {
        match self.write.refusal() {
            Some(e) => Err(e),
            None => host.write(path, data),
        }
    }

    /// Appends `data` to the file at `path`.
    pub fn call_append<H: HostFs>(&self, host: &H, path: &str, data: &[u8]) -> (r: VsysResult<()>)
        ensures
            refused(self.append, r),
    {
        match self.append.refusal() {
            Some(e) => Err(e),
            None => host.append(path, data),
        }
    }

    /// Makes the directory `path`.
    pub fn call_create_dir<H: HostFs>(&self, host: &H, path: &str) -> (r: VsysResult<()>)
        ensures
            refused(self.create_dir, r),
    {
        match self.create_dir.refusal() {
            Some(e) => Err(e),
            None => host.create_dir(path),
        }
    }

    /// Makes the directory `path` and those above it.
    pub fn call_create_dir_all<H: HostFs>(&self, host: &H, path: &str) -> (r: VsysResult<()>)
        ensures
            refused(self.create_dir_all, r),
    {
        match self.create_dir_all.refusal() {
            Some(e) => Err(e),
            None => host.create_dir_all(path),
        }
    }

    /// Removes the file at `path`.
    pub fn call_remove_file<H: HostFs>(&self, host: &H, path: &str) -> (r: VsysResult<()>)
        ensures
            refused(self.remove_file, r),
    {
        match self.remove_file.refusal() {
            Some(e) => Err(e),
            None => host.remove_file(path),
        }
    }

    /// Removes the empty directory at `path`.
    pub fn call_remove_dir<H: HostFs>(&self, host: &H, path: &str) -> (r: VsysResult<()>)
        ensures
            refused(self.remove_dir, r),
    {
        match self.remove_dir.refusal() {
            Some(e) => Err(e),
            None => host.remove_dir(path),
        }
    }

    /// Removes the directory at `path` with what it holds.
    pub fn call_remove_dir_all<H: HostFs>(&self, host: &H, path: &str) -> (r: VsysResult<()>)
        ensures
            refused(self.remove_dir_all, r),
    {
        match self.remove_dir_all.refusal() {
            Some(e) => Err(e),
            None => host.remove_dir_all(path),
        }
    }

    /// Renames `from` to `to`.
    pub fn call_rename<H: HostFs>(&self, host: &H, from: &str, to: &str) -> (r: VsysResult<()>)
        ensures
            refused(self.rename, r),
    {
        match self.rename.refusal() {
            Some(e) => Err(e),
            None => host.rename(from, to),
        }
    }

    /// Copies the file `from` to `to`; gives the number of bytes.
    pub fn call_copy<H: HostFs>(&self, host: &H, from: &str, to: &str) -> (r: VsysResult<u64>)
        ensures
            refused(self.copy, r),
    {
        match self.copy.refusal() {
            Some(e) => Err(e),
            None => host.copy(from, to),
        }
    }

    /// Makes `link` a symbolic link to `target`.
    pub fn call_symlink<H: HostFs>(&self, host: &H, target: &str, link: &str) -> (r: VsysResult<
        (),
    >)
        ensures
            refused(self.symlink, r),
    {
        match self.symlink.refusal() {
            Some(e) => Err(e),
            None => host.symlink(target, link),
        }
    }

    /// Cuts or extends the file at `path` to `size` bytes.
    pub fn call_truncate<H: HostFs>(&self, host: &H, path: &str, size: u64) -> (r: VsysResult<()>)
        ensures
            refused(self.truncate, r),
    {
        match self.truncate.refusal() {
            Some(e) => Err(e),
            None => host.truncate(path, size),
        }
    }

    /// Checks the access `mode` to `path`.
    pub fn call_access<H: HostFs>(&self, host: &H, path: &str, mode: u32) -> (r: VsysResult<()>)
        ensures
            refused(self.access, r),
    {
        match self.access.refusal() {
            Some(e) => Err(e),
            None => host.access(path, mode),
        }
    }

    /// Makes a temporary directory whose name starts with `prefix`.
    pub fn call_mkdtemp<H: HostFs>(&self, host: &H, prefix: &str) -> (r: VsysResult<String>)
        ensures
            refused(self.mkdtemp, r),
    {
        match self.mkdtemp.refusal() {
            Some(e) => Err(e),
            None => host.mkdtemp(prefix),
        }
    }

    /// Makes `path` read-only, or writable again.
    pub fn call_set_permissions<H: HostFs>(&self, host: &H, path: &str, readonly: bool) -> (r:
        VsysResult<()>)
        ensures
            refused(self.set_permissions, r),
    {
        match self.set_permissions.refusal() {
            Some(e) => Err(e),
            None => host.set_permissions(path, readonly),
        }
    }

    /// Sets the Unix mode of `path`.
    pub fn call_set_mode<H: HostFs>(&self, host: &H, path: &str, mode: u32) -> (r: VsysResult<()>)
        ensures
            refused(self.set_mode, r),
    {
        match self.set_mode.refusal() {
            Some(e) => Err(e),
            None => host.set_mode(path, mode),
        }
    }

    /// Sets the owner and the group of `path`.
    pub fn call_chown<H: HostFs>(&self, host: &H, path: &str, uid: u32, gid: u32) -> (r:
        VsysResult<()>)
        ensures
            refused(self.chown, r),
    {
        match self.chown.refusal() {
            Some(e) => Err(e),
            None => host.chown(path, uid, gid),
        }
    }

    /// The canonical form of `path`.
    pub fn call_canonicalize<H: HostFs>(&self, host: &H, path: &str) -> (r: VsysResult<String>)
        ensures
            refused(self.canonicalize, r),
    {
        match self.canonicalize.refusal() {
            Some(e) => Err(e),
            None => host.canonicalize(path),
        }
    }

    /// Opens the file at `path`.
    pub fn call_open<H: HostFs>(&self, host: &H, path: &str, options: &OpenOptions) -> (r:
        VsysResult<FsHandle<H::Handle>>)
        ensures
            refused(self.open, r),
    {
        match self.open.refusal() {
            Some(e) => Err(e),
            None => host.open(path, options),
        }
    }
}

} // verus!
