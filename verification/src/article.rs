//! A stored article: metadata plus a verbatim markdown body, loaded and
//! saved through the crash-consistent write protocol.  Errors carry the
//! article's request path for diagnostics.

use vstd::prelude::*;

use crate::codec::{
    document_text, line_len_of, metadata_block_of, nl, parse_document, serialize_document,
    valid_metadata, ParsedDoc, ParseError,
};
use crate::filesystem::{
    spec_committed, tmp_path_of, FileStore, FileWriteError, IoErrorKind, ReadableFile,
    WritableFile,
};
use crate::metadata::{Metadata, MetadataView};

verus! {

/// The in-memory form of a stored article.
#[derive(Debug, Clone)]
pub struct RawArticle {
    pub metadata: Metadata,
    pub markdown: String,
}

/// The mathematical shape of an article: its metadata and its body.
pub struct ArticleView {
    pub metadata: MetadataView,
    pub markdown: Seq<char>,
}

impl View for RawArticle {
    type V = ArticleView;

    open spec fn view(&self) -> ArticleView {
        ArticleView { metadata: self.metadata@, markdown: self.markdown@ }
    }
}

/// How loading an article failed.
#[derive(Debug)]
pub enum ArticleReadError {
    /// The requested article's path is invalid or doesn't exist.
    NotFound { path: String },
    /// An error occurred reading the file.
    IoError { kind: IoErrorKind, message: String, path: String },
    /// The start of the article metadata was not found; carries the
    /// offending first line.
    MissingMetadataStart { path: String, first_line: String },
    /// The end of the article metadata was not found.
    MissingMetadataEnd { path: String },
    /// The metadata does not follow the key/value grammar; carries the
    /// block that failed.
    InvalidMetadata { path: String, detail: String },
}

impl ArticleReadError {
    /// Classifies a failed open: conditions that mean the article cannot
    /// exist at this path collapse to `NotFound`, everything else stays an
    /// I/O error carrying its detail.
    pub fn from_io_kind(kind: IoErrorKind, message: String, path: String) -> (r: ArticleReadError)
        ensures
            match kind {
                IoErrorKind::NotFound
                | IoErrorKind::IsADirectory
                | IoErrorKind::InvalidInput
                | IoErrorKind::InvalidFilename => r matches ArticleReadError::NotFound {
                    path: p,
                } && p@ == path@,
                _ => r matches ArticleReadError::IoError { kind: k, message: m, path: p } && k
                    == kind && m@ == message@ && p@ == path@,
            },
    {
        match kind {
            IoErrorKind::NotFound
            | IoErrorKind::IsADirectory
            | IoErrorKind::InvalidInput
            | IoErrorKind::InvalidFilename => ArticleReadError::NotFound { path },
            _ => ArticleReadError::IoError { kind, message, path },
        }
    }
}

/// How saving an article failed.
#[derive(Debug)]
pub enum ArticleWriteError {
    /// A conflicting write to the same article is in progress.
    ConflictingWriteInProgress { path: String },
    /// The article's path is invalid.
    InvalidPath { source: FileWriteError, path: String },
    /// An unhandlable error occurred writing the file.
    UnhandlableWriteError { source: FileWriteError, path: String },
}

impl ArticleWriteError {
    /// Lifts a file-level write error to the article level: a conflict stays
    /// a conflict, and an unhandlable error is split by whether its
    /// classification says the path itself is unusable.
    pub fn from_file_write_error(err: FileWriteError, path: String) -> (r: ArticleWriteError)
        ensures
            match err {
                FileWriteError::ConflictingWriteInProgress { .. } => r matches
                    ArticleWriteError::ConflictingWriteInProgress { path: p } && p@ == path@,
                FileWriteError::UnhandlableWriteError { kind, .. } => match kind {
                    IoErrorKind::NotFound
                    | IoErrorKind::IsADirectory
                    | IoErrorKind::InvalidInput
                    | IoErrorKind::InvalidFilename => r matches ArticleWriteError::InvalidPath {
                        source: _,
                        path: p,
                    } && p@ == path@,
                    _ => r matches ArticleWriteError::UnhandlableWriteError { source: _, path: p }
                        && p@ == path@,
                },
            },
    {
        match &err {
            FileWriteError::ConflictingWriteInProgress { .. } => {
                ArticleWriteError::ConflictingWriteInProgress { path }
            },
            FileWriteError::UnhandlableWriteError { kind, .. } => match kind {
                IoErrorKind::NotFound
                | IoErrorKind::IsADirectory
                | IoErrorKind::InvalidInput
                | IoErrorKind::InvalidFilename => ArticleWriteError::InvalidPath {
                    source: err,
                    path,
                },
                _ => ArticleWriteError::UnhandlableWriteError { source: err, path },
            },
        }
    }
}

impl RawArticle {
    /// Parses a whole character stream as an article; `path` only labels the
    /// errors.
    pub fn from_reader(content: &str, path: &str) -> (r: Result<RawArticle, ArticleReadError>)
        ensures
            match r {
                Ok(a) => parse_document(content@) == (ParsedDoc::Parsed {
                    metadata: a.metadata@,
                    body: a.markdown@,
                }),
                Err(e) => match e {
                    ArticleReadError::MissingMetadataStart { path: p, first_line } => parse_document(
                        content@,
                    ) == ParsedDoc::MissingMetadataStart && p@ == path@ && first_line@
                        == content@.take(line_len_of(content@)),
                    ArticleReadError::MissingMetadataEnd { path: p } => parse_document(content@)
                        == ParsedDoc::MissingMetadataEnd && p@ == path@,
                    ArticleReadError::InvalidMetadata { path: p, detail } => parse_document(
                        content@,
                    ) == ParsedDoc::InvalidMetadata && p@ == path@ && detail@ == metadata_block_of(
                        content@,
                    ),
                    _ => false,
                },
            },
    {
        match crate::codec::parse_document_str(content) {
            Ok((metadata, markdown)) => Ok(RawArticle { metadata, markdown }),
            Err(ParseError::MissingMetadataStart) => Err(
                ArticleReadError::MissingMetadataStart {
                    path: String::from_str(path),
                    first_line: crate::codec::first_line_of(content),
                },
            ),
            Err(ParseError::MissingMetadataEnd) => Err(
                ArticleReadError::MissingMetadataEnd { path: String::from_str(path) },
            ),
            Err(ParseError::InvalidMetadata { metadata }) => Err(
                ArticleReadError::InvalidMetadata { path: String::from_str(path), detail: metadata },
            ),
        }
    }

    /// Serializes this article in the canonical on-disk form.
    pub fn write(&self) -> (out: String)
        requires
            valid_metadata(self.metadata@),
        ensures
            out@ == document_text(self.metadata@, self.markdown@, nl()),
    {
        serialize_document(&self.metadata, self.markdown.as_str())
    }

    /// Loads the article stored at `filepath`; `path` only labels the errors.
    pub fn read_from_path(fs: &FileStore, filepath: &str, path: &str) -> (r: Result<
        RawArticle,
        ArticleReadError,
    >)
        ensures
            match r {
                Ok(a) => fs@.contains_key(filepath@) && parse_document(fs@[filepath@])
                    == (ParsedDoc::Parsed { metadata: a.metadata@, body: a.markdown@ }),
                Err(e) => match e {
                    ArticleReadError::NotFound { path: p } => !fs@.contains_key(filepath@) && p@
                        == path@,
                    ArticleReadError::MissingMetadataStart { path: p, .. } => fs@.contains_key(
                        filepath@,
                    ) && parse_document(fs@[filepath@]) == ParsedDoc::MissingMetadataStart && p@
                        == path@,
                    ArticleReadError::MissingMetadataEnd { path: p } => fs@.contains_key(filepath@)
                        && parse_document(fs@[filepath@]) == ParsedDoc::MissingMetadataEnd && p@
                        == path@,
                    ArticleReadError::InvalidMetadata { path: p, detail } => fs@.contains_key(
                        filepath@,
                    ) && parse_document(fs@[filepath@]) == ParsedDoc::InvalidMetadata && p@
                        == path@ && detail@ == metadata_block_of(fs@[filepath@]),
                    ArticleReadError::IoError { .. } => false,
                },
            },
    {
        let file = match ReadableFile::open(fs, filepath) {
            Ok(f) => f,
            Err(kind) => {
                return Err(
                    ArticleReadError::from_io_kind(
                        kind,
                        String::from_str("could not open the file"),
                        String::from_str(path),
                    ),
                );
            },
        };
        let content = file.read_to_string();
        RawArticle::from_reader(content.as_str(), path)
    }

    /// Saves this article at `filepath` through the atomic write protocol;
    /// `url_path` only labels the errors.  Succeeds exactly when no
    /// conflicting write is in progress, and then commits the serialized
    /// article in one atomic step.
    pub fn write_to_path(&self, fs: &mut FileStore, filepath: &str, url_path: &str) -> (r: Result<
        (),
        ArticleWriteError,
    >)
        requires
            valid_metadata(self.metadata@),
        ensures
            match r {
                Ok(_) => !old(fs)@.contains_key(tmp_path_of(filepath@)) && final (fs)@
                    == spec_committed(
                    old(fs)@,
                    filepath@,
                    document_text(self.metadata@, self.markdown@, nl()),
                ),
                Err(e) => old(fs)@.contains_key(tmp_path_of(filepath@)) && final (fs)@ == old(fs)@
                    && (e matches ArticleWriteError::ConflictingWriteInProgress { path: p } && p@
                    == url_path@),
            },
    {
        let mut file = match WritableFile::open(fs, filepath) {
            Ok(f) => f,
            Err(e) => {
                return Err(
                    ArticleWriteError::from_file_write_error(e, String::from_str(url_path)),
                );
            },
        };
        let content = self.write();
        file.write(content.as_str());
        proof {
            assert(Seq::<char>::empty() + content@ =~= content@);
        }
        match file.close(fs) {
            Ok(_) => Ok(()),
            Err(e) => Err(ArticleWriteError::from_file_write_error(e, String::from_str(url_path))),
        }
    }
}

impl Default for RawArticle {
    fn default() -> (r: RawArticle)
        ensures
            r@.metadata.title == Seq::<char>::empty(),
            r@.metadata.edit_access == crate::auth::AccessView::Authenticated,
            r@.metadata.view_access == crate::auth::AccessView::Anonymous,
            r@.markdown == Seq::<char>::empty(),
    {
        RawArticle { metadata: Metadata::default(), markdown: String::new() }
    }
}

/// A saved article loads back: committing a serialized article to a path
/// leaves content there that parses to exactly that article.
pub proof fn lemma_save_then_load(
    m: Map<Seq<char>, Seq<char>>,
    path: Seq<char>,
    meta: MetadataView,
    body: Seq<char>,
)
    requires
        valid_metadata(meta),
    ensures
        spec_committed(m, path, document_text(meta, body, nl())).contains_key(path),
        parse_document(spec_committed(m, path, document_text(meta, body, nl()))[path])
            == (ParsedDoc::Parsed { metadata: meta, body: body }),
{
    crate::filesystem::lemma_commit_atomic(m, path, document_text(meta, body, nl()));
    crate::codec::lemma_roundtrip(meta, body, nl());
}

} // verus!
