//! The crash-consistent write protocol.
//!
//! A writer never touches the target path directly: it exclusively creates a
//! sibling temporary file, streams its bytes there, and on close renames the
//! temporary file over the target in one atomic step.  The temporary file's
//! name is derived deterministically from the target path, so two concurrent
//! writers for the same path collide on creation and the loser is told a
//! conflicting write is in progress.
//!
//! The protocol is stated and proved over [`FileStore`], an in-memory stand-in
//! for the backing directory whose view is a map from path to content; the
//! process boundary performs the same steps against the real filesystem.

use vstd::prelude::*;

verus! {

/// The classification of a failed filesystem call, carried by errors so that
/// callers can react to each condition in its own way.
#[derive(Debug, Copy, Clone, PartialEq, Eq, Structural)]
pub enum IoErrorKind {
    /// The path does not exist.
    NotFound,
    /// The path already exists.
    AlreadyExists,
    /// The path names a directory.
    IsADirectory,
    /// The path or another argument is malformed.
    InvalidInput,
    /// The file name is not valid on this filesystem.
    InvalidFilename,
    /// Any other condition.
    Other,
}

/// The name of the temporary sibling of `path`: the path with a fixed
/// extension appended.  It is deterministic, so writers for one path collide
/// across processes and process restarts.
pub open spec fn tmp_path_of(path: Seq<char>) -> Seq<char> {
    path + ".tmp"@
}

/// A path is never its own temporary sibling.
pub proof fn lemma_tmp_path_distinct(path: Seq<char>)
    ensures
        tmp_path_of(path) != path,
{
    reveal_strlit(".tmp");
    assert(tmp_path_of(path).len() == path.len() + 4);
}

/// The map left behind by a log of writes (`Some`) and removals (`None`),
/// applied in order.
spec fn log_map(s: Seq<(String, Option<String>)>) -> Map<Seq<char>, Seq<char>>
    decreases s.len(),
{
    if s.len() == 0 {
        Map::empty()
    } else {
        let m = log_map(s.drop_last());
        match s.last().1 {
            Some(c) => m.insert(s.last().0@, c@),
            None => m.remove(s.last().0@),
        }
    }
}

/// The latest log entry for `p`, scanned from the end.
spec fn log_lookup(s: Seq<(String, Option<String>)>, p: Seq<char>) -> Option<Seq<char>>
    decreases s.len(),
{
    if s.len() == 0 {
        None
    } else if s.last().0@ == p {
        match s.last().1 {
            Some(c) => Some(c@),
            None => None,
        }
    } else {
        log_lookup(s.drop_last(), p)
    }
}

/// The latest log entry for a path decides its binding in the log's map.
proof fn lemma_log_lookup(s: Seq<(String, Option<String>)>, p: Seq<char>)
    ensures
        match log_lookup(s, p) {
            Some(c) => log_map(s).contains_key(p) && log_map(s)[p] == c,
            None => !log_map(s).contains_key(p),
        },
    decreases s.len(),
{
    if s.len() > 0 {
        lemma_log_lookup(s.drop_last(), p);
    }
}

/// An in-memory stand-in for the directory that backs the store.  It records
/// every write and removal; its view is the resulting map from path to
/// content.  Directories are not modelled: the map admits any path, and the
/// process boundary creates parent directories before it writes.
pub struct FileStore {
    log: Vec<(String, Option<String>)>,
}

impl View for FileStore {
    type V = Map<Seq<char>, Seq<char>>;

    closed spec fn view(&self) -> Map<Seq<char>, Seq<char>> {
        log_map(self.log@)
    }
}

impl FileStore {
    /// An empty store.
    pub fn new() -> (r: FileStore)
        ensures
            r@ == Map::<Seq<char>, Seq<char>>::empty(),
    {
        FileStore { log: Vec::new() }
    }

    /// The content of the file at `path`, if one exists.
    pub fn read(&self, path: &str) -> (r: Option<String>)
        ensures
            match r {
                Some(c) => self@.contains_key(path@) && c@ == self@[path@],
                None => !self@.contains_key(path@),
            },
    {
        proof {
            lemma_log_lookup(self.log@, path@);
            assert(self.log@.take(self.log@.len() as int) =~= self.log@);
        }
        let mut i: usize = self.log.len();
        while i > 0
            invariant
                i <= self.log@.len(),
                log_lookup(self.log@, path@) == log_lookup(self.log@.take(i as int), path@),
            decreases i,
        {
            i = i - 1;
            proof {
                lemma_log_lookup(self.log@, path@);
                assert(self.log@.take(i + 1).drop_last() =~= self.log@.take(i as int));
                assert(self.log@.take(i + 1).last() == self.log@[i as int]);
            }
            if crate::codec::str_eq(self.log[i].0.as_str(), path) {
                match &self.log[i].1 {
                    Some(c) => {
                        return Some(c.clone());
                    },
                    None => {
                        return None;
                    },
                }
            }
        }
        proof {
            assert(self.log@.take(0) =~= Seq::<(String, Option<String>)>::empty());
        }
        None
    }

    /// Whether a file exists at `path`.
    pub fn contains(&self, path: &str) -> (b: bool)
        ensures
            b == self@.contains_key(path@),
    {
        self.read(path).is_some()
    }

    /// Creates or replaces the file at `path` with `content`.
    pub fn write(&mut self, path: &str, content: String)
        ensures
            final (self)@ == old(self)@.insert(path@, content@),
    {
        let ghost pre = self.log@;
        let entry = (String::from_str(path), Some(content));
        let ghost gentry = entry;
        self.log.push(entry);
        proof {
            assert(self.log@.drop_last() =~= pre);
            assert(self.log@.last() == gentry);
        }
    }

    /// Removes the file at `path`, if one exists.
    pub fn remove(&mut self, path: &str)
        ensures
            final (self)@ == old(self)@.remove(path@),
    {
        let ghost pre = self.log@;
        let entry = (String::from_str(path), None::<String>);
        let ghost gentry = entry;
        self.log.push(entry);
        proof {
            assert(self.log@.drop_last() =~= pre);
            assert(self.log@.last() == gentry);
        }
    }

    /// Atomically moves the file at `from` over `to`: afterwards `to` holds
    /// exactly the old content of `from`, and `from` is gone.
    pub fn rename(&mut self, from: &str, to: &str)
        requires
            old(self)@.contains_key(from@),
            from@ != to@,
        ensures
            final (self)@ == old(self)@.remove(from@).insert(to@, old(self)@[from@]),
    {
        let content = match self.read(from) {
            Some(c) => c,
            None => {
                proof {
                    assert(false);
                }
                String::new()
            },
        };
        self.remove(from);
        self.write(to, content);
    }
}

/// How a write failed.
#[derive(Debug, Clone)]
pub enum FileWriteError {
    /// Another writer for the same path is mid-flight: its temporary file
    /// already exists.  This is not a filesystem fault; the correct response
    /// is to surface it and let the caller retry later.
    ConflictingWriteInProgress { filepath: String, tmp_path: String },
    /// An unhandlable error occurred when writing to the file.
    UnhandlableWriteError { kind: IoErrorKind, message: String, filepath: String },
}

impl FileWriteError {
    /// Classifies a failure to create the temporary file: an already-existing
    /// temporary file means a conflicting write is in progress; anything else
    /// is an unhandlable write error.
    pub fn from_io_error_tmp(path: &str, kind: IoErrorKind, message: String, tmp_path: &str) -> (r:
        FileWriteError)
        ensures
            kind == IoErrorKind::AlreadyExists ==> (r matches
                FileWriteError::ConflictingWriteInProgress {
                filepath,
                tmp_path: t,
            } && filepath@ == path@ && t@ == tmp_path@),
            kind != IoErrorKind::AlreadyExists ==> (r matches FileWriteError::UnhandlableWriteError {
                kind: k,
                message: m,
                filepath,
            } && k == kind && m@ == message@ && filepath@ == path@),
    {
        match kind {
            IoErrorKind::AlreadyExists => FileWriteError::ConflictingWriteInProgress {
                filepath: String::from_str(path),
                tmp_path: String::from_str(tmp_path),
            },
            _ => FileWriteError::UnhandlableWriteError {
                kind,
                message,
                filepath: String::from_str(path),
            },
        }
    }
}

/// The store after a writer for `path` is opened: its temporary file exists
/// and is empty.
pub open spec fn spec_opened(m: Map<Seq<char>, Seq<char>>, path: Seq<char>) -> Map<
    Seq<char>,
    Seq<char>,
> {
    m.insert(tmp_path_of(path), Seq::empty())
}

/// The store after a pending write of `content` to `path` commits: the
/// temporary file is gone and `path` holds the new content.
pub open spec fn spec_committed(
    m: Map<Seq<char>, Seq<char>>,
    path: Seq<char>,
    content: Seq<char>,
) -> Map<Seq<char>, Seq<char>> {
    m.remove(tmp_path_of(path)).insert(path, content)
}

/// The store after a pending write to `path` is abandoned: only the
/// temporary file is gone.
pub open spec fn spec_abandoned(m: Map<Seq<char>, Seq<char>>, path: Seq<char>) -> Map<
    Seq<char>,
    Seq<char>,
> {
    m.remove(tmp_path_of(path))
}

/// A file opened for writing.  Bytes are buffered against the temporary
/// file; nothing is visible at the target path until [`WritableFile::close`]
/// renames the temporary file over it.
pub struct WritableFile {
    /// The target path.
    pub path: String,
    /// The temporary sibling this writer exclusively holds.
    pub tmp_path: String,
    /// What has been streamed so far, still unflushed.
    pub buffer: String,
}

impl WritableFile {
    /// The temporary path this writer holds.
    pub open spec fn tmp(&self) -> Seq<char> {
        self.tmp_path@
    }

    /// What has been streamed to this writer so far.
    pub open spec fn buffered(&self) -> Seq<char> {
        self.buffer@
    }

    /// The temporary path is the one derived from the target path.
    pub open spec fn wf(&self) -> bool {
        self.tmp() == tmp_path_of(self.path@)
    }

    /// Opens a writer for `path` by exclusively creating its temporary file.
    /// Fails with `ConflictingWriteInProgress` exactly when the temporary
    /// file already exists, in which case the store is untouched.
    pub fn open(fs: &mut FileStore, path: &str) -> (r: Result<WritableFile, FileWriteError>)
        ensures
            match r {
                Ok(w) => !old(fs)@.contains_key(tmp_path_of(path@)) && final (fs)@ == spec_opened(
                    old(fs)@,
                    path@,
                ) && w.wf() && w.path@ == path@ && w.buffered() == Seq::<char>::empty(),
                Err(e) => old(fs)@.contains_key(tmp_path_of(path@)) && final (fs)@ == old(fs)@ && (
                e matches FileWriteError::ConflictingWriteInProgress { filepath, tmp_path } && filepath@
                    == path@ && tmp_path@ == tmp_path_of(path@)),
            },
    {
        let mut tmp = String::from_str(path);
        tmp.append(".tmp");
        if fs.contains(tmp.as_str()) {
            Err(
                FileWriteError::ConflictingWriteInProgress {
                    filepath: String::from_str(path),
                    tmp_path: tmp,
                },
            )
        } else {
            fs.write(tmp.as_str(), String::new());
            Ok(WritableFile { path: String::from_str(path), tmp_path: tmp, buffer: String::new() })
        }
    }

    /// Streams more bytes to this writer.
    pub fn write(&mut self, data: &str)
        ensures
            final (self).path@ == old(self).path@,
            final (self).tmp() == old(self).tmp(),
            final (self).buffered() == old(self).buffered() + data@,
    {
        self.buffer.append(data);
    }

    /// Flushes the buffered bytes to the temporary file, then atomically
    /// renames it over the target path.  Afterwards the target holds exactly
    /// what was streamed, and the temporary file no longer exists.
    pub fn close(self, fs: &mut FileStore) -> (r: Result<(), FileWriteError>)
        requires
            self.wf(),
        ensures
            r is Ok,
            final (fs)@ == spec_committed(old(fs)@, self.path@, self.buffered()),
    {
        proof {
            lemma_tmp_path_distinct(self.path@);
        }
        fs.write(self.tmp_path.as_str(), self.buffer);
        fs.rename(self.tmp_path.as_str(), self.path.as_str());
        proof {
            assert(fs@ =~= spec_committed(old(fs)@, self.path@, self.buffered()));
        }
        Ok(())
    }

    /// Abandons this writer without closing it: the temporary file is
    /// removed and the target path is never touched.  This is the cleanup a
    /// discarded writer owes, so that a later open does not report a false
    /// conflict.
    pub fn abandon(self, fs: &mut FileStore)
        requires
            self.wf(),
        ensures
            final (fs)@ == spec_abandoned(old(fs)@, self.path@),
    {
        fs.remove(self.tmp_path.as_str());
    }
}

/// A file opened for reading.
pub struct ReadableFile {
    content: String,
}

impl ReadableFile {
    /// The characters this handle will yield.
    pub closed spec fn contents(&self) -> Seq<char> {
        self.content@
    }

    /// Opens the file at `path`, classifying a missing file as `NotFound`.
    pub fn open(fs: &FileStore, path: &str) -> (r: Result<ReadableFile, IoErrorKind>)
        ensures
            match r {
                Ok(f) => fs@.contains_key(path@) && f.contents() == fs@[path@],
                Err(k) => !fs@.contains_key(path@) && k == IoErrorKind::NotFound,
            },
    {
        match fs.read(path) {
            Some(content) => Ok(ReadableFile { content }),
            None => Err(IoErrorKind::NotFound),
        }
    }

    /// Reads the whole file.
    pub fn read_to_string(self) -> (r: String)
        ensures
            r@ == self.contents(),
    {
        self.content
    }
}

// ---------------------------------------------------------------------------
// What the protocol guarantees.
// ---------------------------------------------------------------------------
/// Atomicity of a committed write: the target path holds exactly the new
/// content, the temporary file is gone, and every other path is untouched.
pub proof fn lemma_commit_atomic(m: Map<Seq<char>, Seq<char>>, path: Seq<char>, content: Seq<char>)
    ensures
        spec_committed(m, path, content).contains_key(path),
        spec_committed(m, path, content)[path] == content,
        !spec_committed(m, path, content).contains_key(tmp_path_of(path)),
        forall|p: Seq<char>|
            #![auto]
            p != path && p != tmp_path_of(path) ==> spec_committed(m, path, content).contains_key(p)
                == m.contains_key(p),
        forall|p: Seq<char>|
            #![auto]
            p != path && p != tmp_path_of(path) && m.contains_key(p) ==> spec_committed(
                m,
                path,
                content,
            )[p] == m[p],
{
    lemma_tmp_path_distinct(path);
}

/// Atomicity of an abandoned write: the target path's binding is exactly
/// what it was, and no temporary file is left behind.
pub proof fn lemma_abandon_clean(m: Map<Seq<char>, Seq<char>>, path: Seq<char>)
    ensures
        !spec_abandoned(m, path).contains_key(tmp_path_of(path)),
        spec_abandoned(m, path).contains_key(path) == m.contains_key(path),
        m.contains_key(path) ==> spec_abandoned(m, path)[path] == m[path],
        forall|p: Seq<char>|
            #![auto]
            p != tmp_path_of(path) ==> spec_abandoned(m, path).contains_key(p) == m.contains_key(p),
        forall|p: Seq<char>|
            #![auto]
            p != tmp_path_of(path) && m.contains_key(p) ==> spec_abandoned(m, path)[p] == m[p],
{
    lemma_tmp_path_distinct(path);
}

/// Conflict detection: while a writer for `path` is pending its temporary
/// file exists, so a second open for `path` reports a conflict; once the
/// first writer commits or is abandoned the temporary file is gone, so a new
/// open succeeds.
pub proof fn lemma_conflict_detection(
    m: Map<Seq<char>, Seq<char>>,
    path: Seq<char>,
    content: Seq<char>,
)
    ensures
        spec_opened(m, path).contains_key(tmp_path_of(path)),
        !spec_committed(spec_opened(m, path), path, content).contains_key(tmp_path_of(path)),
        !spec_abandoned(spec_opened(m, path), path).contains_key(tmp_path_of(path)),
{
    lemma_tmp_path_distinct(path);
}

} // verus!
