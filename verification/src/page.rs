//! A stored page: metadata plus a verbatim markdown body, loaded and saved
//! through the crash-consistent write protocol.

use vstd::prelude::*;

use crate::codec::{
    document_text, metadata_block_of, nl, parse_document, serialize_document, valid_metadata,
    ParsedDoc, ParseError,
};
use crate::filesystem::{
    spec_committed, tmp_path_of, FileStore, IoErrorKind, ReadableFile, WritableFile,
};
use crate::metadata::{Metadata, MetadataView};

verus! {

/// The in-memory form of a stored page.
#[derive(Debug, Clone)]
pub struct RawPage {
    pub metadata: Metadata,
    pub markdown: String,
}

/// The mathematical shape of a page: its metadata and its body.
pub struct PageView {
    pub metadata: MetadataView,
    pub markdown: Seq<char>,
}

impl View for RawPage {
    type V = PageView;

    open spec fn view(&self) -> PageView {
        PageView { metadata: self.metadata@, markdown: self.markdown@ }
    }
}

/// How loading a page failed.
#[derive(Debug)]
pub enum PageReadError {
    /// The requested page's path is invalid or doesn't exist.
    NotFound,
    /// An error occurred reading the file.
    IoError { kind: IoErrorKind, message: String },
    /// The start of the metadata section could not be found.
    MissingMetadataStart,
    /// The end of the metadata section could not be found.
    MissingMetadataEnd,
    /// The metadata does not follow the key/value grammar; carries the
    /// block that failed.
    InvalidMetadata { detail: String },
}

impl PageReadError {
    /// Classifies a failed read: conditions that mean the page cannot exist
    /// at this path collapse to `NotFound`, everything else stays an I/O
    /// error carrying its detail.
    pub fn from_io_kind(kind: IoErrorKind, message: String) -> (r: PageReadError)
        ensures
            match kind {
                IoErrorKind::NotFound
                | IoErrorKind::IsADirectory
                | IoErrorKind::InvalidInput
                | IoErrorKind::InvalidFilename => r == PageReadError::NotFound,
                _ => r matches PageReadError::IoError { kind: k, message: m } && k == kind && m@
                    == message@,
            },
    {
        match kind {
            IoErrorKind::NotFound
            | IoErrorKind::IsADirectory
            | IoErrorKind::InvalidInput
            | IoErrorKind::InvalidFilename => PageReadError::NotFound,
            _ => PageReadError::IoError { kind, message },
        }
    }
}

/// How saving a page failed.
#[derive(Debug)]
pub enum PageWriteError {
    /// A conflicting write to the same page is in progress: its temporary
    /// file already exists.
    ConflictingWriteInProgress { path: String },
    /// The requested page's path is invalid.
    InvalidPath,
    /// An error occurred writing the file.
    IoError { kind: IoErrorKind, message: String },
}

impl PageWriteError {
    /// Classifies a failed write: conditions that mean the path itself is
    /// unusable collapse to `InvalidPath`, everything else stays an I/O
    /// error carrying its detail.
    pub fn from_io_kind(kind: IoErrorKind, message: String) -> (r: PageWriteError)
        ensures
            match kind {
                IoErrorKind::IsADirectory | IoErrorKind::InvalidInput
                | IoErrorKind::InvalidFilename => r == PageWriteError::InvalidPath,
                _ => r matches PageWriteError::IoError { kind: k, message: m } && k == kind && m@
                    == message@,
            },
    {
        match kind {
            IoErrorKind::IsADirectory | IoErrorKind::InvalidInput | IoErrorKind::InvalidFilename => {
                PageWriteError::InvalidPath
            },
            _ => PageWriteError::IoError { kind, message },
        }
    }
}

impl RawPage {
    /// Parses a whole character stream as a page.
    pub fn from_reader(content: &str) -> (r: Result<RawPage, PageReadError>)
        ensures
            match r {
                Ok(p) => parse_document(content@) == (ParsedDoc::Parsed {
                    metadata: p.metadata@,
                    body: p.markdown@,
                }),
                Err(e) => match e {
                    PageReadError::MissingMetadataStart => parse_document(content@)
                        == ParsedDoc::MissingMetadataStart,
                    PageReadError::MissingMetadataEnd => parse_document(content@)
                        == ParsedDoc::MissingMetadataEnd,
                    PageReadError::InvalidMetadata { detail } => parse_document(content@)
                        == ParsedDoc::InvalidMetadata && detail@ == metadata_block_of(content@),
                    _ => false,
                },
            },
    {
        match crate::codec::parse_document_str(content) {
            Ok((metadata, markdown)) => Ok(RawPage { metadata, markdown }),
            Err(ParseError::MissingMetadataStart) => Err(PageReadError::MissingMetadataStart),
            Err(ParseError::MissingMetadataEnd) => Err(PageReadError::MissingMetadataEnd),
            Err(ParseError::InvalidMetadata { metadata }) => Err(
                PageReadError::InvalidMetadata { detail: metadata },
            ),
        }
    }

    /// Serializes this page in the canonical on-disk form.
    pub fn write(&self) -> (out: String)
        requires
            valid_metadata(self.metadata@),
        ensures
            out@ == document_text(self.metadata@, self.markdown@, nl()),
    {
        serialize_document(&self.metadata, self.markdown.as_str())
    }

    /// Loads the page stored at `path`.
    pub fn read_from_path(fs: &FileStore, path: &str) -> (r: Result<RawPage, PageReadError>)
        ensures
            match r {
                Ok(p) => fs@.contains_key(path@) && parse_document(fs@[path@])
                    == (ParsedDoc::Parsed { metadata: p.metadata@, body: p.markdown@ }),
                Err(e) => match e {
                    PageReadError::NotFound => !fs@.contains_key(path@),
                    PageReadError::MissingMetadataStart => fs@.contains_key(path@)
                        && parse_document(fs@[path@]) == ParsedDoc::MissingMetadataStart,
                    PageReadError::MissingMetadataEnd => fs@.contains_key(path@)
                        && parse_document(fs@[path@]) == ParsedDoc::MissingMetadataEnd,
                    PageReadError::InvalidMetadata { detail } => fs@.contains_key(path@)
                        && parse_document(fs@[path@]) == ParsedDoc::InvalidMetadata && detail@
                        == metadata_block_of(fs@[path@]),
                    PageReadError::IoError { .. } => false,
                },
            },
    {
        let file = match ReadableFile::open(fs, path) {
            Ok(f) => f,
            Err(kind) => {
                return Err(
                    PageReadError::from_io_kind(kind, String::from_str("could not open the file")),
                );
            },
        };
        let content = file.read_to_string();
        RawPage::from_reader(content.as_str())
    }

    /// Saves this page at `path` through the atomic write protocol.
    /// Succeeds exactly when no conflicting write is in progress, and then
    /// commits the serialized page in one atomic step; the loser of a
    /// conflict leaves the store untouched.
    pub fn write_to_path(&self, fs: &mut FileStore, path: &str) -> (r: Result<(), PageWriteError>)
        requires
            valid_metadata(self.metadata@),
        ensures
            match r {
                Ok(_) => !old(fs)@.contains_key(tmp_path_of(path@)) && final (fs)@
                    == spec_committed(
                    old(fs)@,
                    path@,
                    document_text(self.metadata@, self.markdown@, nl()),
                ),
                Err(e) => old(fs)@.contains_key(tmp_path_of(path@)) && final (fs)@ == old(fs)@ && (
                e matches PageWriteError::ConflictingWriteInProgress { path: p } && p@ == path@),
            },
    {
        let mut file = match WritableFile::open(fs, path) {
            Ok(f) => f,
            Err(_) => {
                return Err(
                    PageWriteError::ConflictingWriteInProgress { path: String::from_str(path) },
                );
            },
        };
        let content = self.write();
        file.write(content.as_str());
        proof {
            assert(Seq::<char>::empty() + content@ =~= content@);
        }
        match file.close(fs) {
            Ok(_) => Ok(()),
            Err(_) => Err(
                PageWriteError::ConflictingWriteInProgress { path: String::from_str(path) },
            ),
        }
    }
}

impl Default for RawPage {
    fn default() -> (r: RawPage)
        ensures
            r@.metadata.title == Seq::<char>::empty(),
            r@.metadata.edit_access == crate::auth::AccessView::Authenticated,
            r@.metadata.view_access == crate::auth::AccessView::Anonymous,
            r@.markdown == Seq::<char>::empty(),
    {
        RawPage { metadata: Metadata::default(), markdown: String::new() }
    }
}

} // verus!
