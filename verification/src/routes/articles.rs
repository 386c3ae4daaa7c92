//! Resolving a request path to the article file it names: validation of the
//! caller-supplied path and derivation of the markdown file path and the
//! canonical URL.

use vstd::prelude::*;

use crate::article::{ArticleReadError, ArticleWriteError, RawArticle};
use crate::auth::{spec_authorization, Access, Authorization, User};
use crate::codec::{document_text, metadata_is_valid, nl, parse_document, valid_metadata, ParsedDoc};
use crate::config::Config;
use crate::filesystem::{spec_committed, tmp_path_of, FileStore};
use crate::metadata::{Metadata, MetadataView};

verus! {

/// Where an article lives: its canonical URL and its markdown file path.
#[derive(Debug, Clone, Eq)]
pub struct ArticlePaths {
    pub url: String,
    pub md: String,
}

impl PartialEq for ArticlePaths {
    fn eq(&self, other: &ArticlePaths) -> (r: bool) {
        self.url == other.url && self.md == other.md
    }
}

impl vstd::std_specs::cmp::PartialEqSpecImpl for ArticlePaths {
    open spec fn obeys_eq_spec() -> bool {
        true
    }

    open spec fn eq_spec(&self, other: &ArticlePaths) -> bool {
        self.url@ == other.url@ && self.md@ == other.md@
    }
}

/// `s` with every leading slash removed.
pub open spec fn trim_leading_slashes(s: Seq<char>) -> Seq<char>
    decreases s.len(),
{
    if s.len() > 0 && s[0] == '/' {
        trim_leading_slashes(s.drop_first())
    } else {
        s
    }
}

/// The number of characters before the first slash, or all of `s` if it has
/// none.
pub open spec fn slash_free_len(s: Seq<char>) -> int
    decreases s.len(),
{
    if s.len() == 0 {
        0
    } else if s[0] == '/' {
        0
    } else {
        1 + slash_free_len(s.drop_first())
    }
}

/// Whether every slash-separated segment of `s` is harmless: no segment is
/// the parent-directory token, and the first is not the current-directory
/// token.
pub open spec fn segments_ok(s: Seq<char>, first: bool) -> bool
    decreases s.len()
        via segments_ok_dec
{
    if s.len() == 0 {
        true
    } else {
        let l = slash_free_len(s);
        let seg = s.take(l);
        if seg == ".."@ {
            false
        } else if first && seg == "."@ {
            false
        } else if l >= s.len() {
            true
        } else {
            segments_ok(s.skip(l + 1), false)
        }
    }
}

#[via_fn]
proof fn segments_ok_dec(s: Seq<char>, first: bool) {
    if s.len() > 0 {
        lemma_slash_free_len_bounds(s);
    }
}

/// The first segment spans at least zero characters and at most all of `s`.
proof fn lemma_slash_free_len_bounds(s: Seq<char>)
    ensures
        0 <= slash_free_len(s) <= s.len(),
    decreases s.len(),
{
    if s.len() > 0 && s[0] != '/' {
        lemma_slash_free_len_bounds(s.drop_first());
    }
}

/// A caller-supplied path is accepted exactly when, after trimming leading
/// slashes, it does not claim a reserved route and walks only downward: no
/// parent-directory segment anywhere and no current-directory segment at the
/// front.
pub open spec fn spec_valid_path(s: Seq<char>) -> bool {
    let t = trim_leading_slashes(s);
    &&& !"special:"@.is_prefix_of(t)
    &&& segments_ok(t, true)
}

/// If the characters of `t` before index `j` are all ordinary and `t[j]`, if
/// it exists, is a slash, then the first segment of `t` runs to `j`.
proof fn lemma_slash_free_len_at(t: Seq<char>, j: int)
    requires
        0 <= j <= t.len(),
        forall|k: int| 0 <= k < j ==> t[k] != '/',
        j < t.len() ==> t[j] == '/',
    ensures
        slash_free_len(t) == j,
    decreases t.len(),
{
    if t.len() > 0 && t[0] != '/' {
        lemma_slash_free_len_at(t.drop_first(), j - 1);
    }
}

/// The index of the first non-slash character, or `chars`' length.
fn skip_slashes(chars: &Vec<char>) -> (r: usize)
    ensures
        r <= chars@.len(),
        forall|k: int| 0 <= k < r ==> chars@[k] == '/',
        r < chars@.len() ==> chars@[r as int] != '/',
{
    let mut i: usize = 0;
    while i < chars.len()
        invariant
            i <= chars@.len(),
            forall|k: int| 0 <= k < i ==> chars@[k] == '/',
        decreases chars@.len() - i,
    {
        if chars[i] != '/' {
            return i;
        }
        i += 1;
    }
    i
}

/// Trimming leading slashes is skipping to the first non-slash character.
proof fn lemma_trim_is_skip(s: Seq<char>, j: int)
    requires
        0 <= j <= s.len(),
        forall|k: int| 0 <= k < j ==> s[k] == '/',
        j < s.len() ==> s[j] != '/',
    ensures
        trim_leading_slashes(s) == s.skip(j),
    decreases s.len(),
{
    if j > 0 {
        lemma_trim_is_skip(s.drop_first(), j - 1);
        assert(s.drop_first().skip(j - 1) =~= s.skip(j));
    } else {
        assert(s.skip(0) =~= s);
    }
}

/// The index of the first slash in `[from, to)`, or `to` if there is none.
fn find_slash_in(chars: &Vec<char>, from: usize, to: usize) -> (r: usize)
    requires
        from <= to <= chars@.len(),
    ensures
        from <= r <= to,
        forall|k: int| from <= k < r ==> chars@[k] != '/',
        r < to ==> chars@[r as int] == '/',
{
    let mut i: usize = from;
    while i < to
        invariant
            from <= i <= to <= chars@.len(),
            forall|k: int| from <= k < i ==> chars@[k] != '/',
        decreases to - i,
    {
        if chars[i] == '/' {
            return i;
        }
        i += 1;
    }
    to
}

/// Validates a caller-supplied article path.  Accepts exactly the paths of
/// [`spec_valid_path`] and hands back the path with its leading slashes
/// trimmed; rejects everything that could climb out of the article root or
/// shadow a reserved route.
pub fn validate_path(path: &str) -> (r: Option<String>)
    ensures
        match r {
            Some(t) => spec_valid_path(path@) && t@ == trim_leading_slashes(path@),
            None => !spec_valid_path(path@),
        },
{
    let chars = crate::codec::char_vec_of(path);
    let n = chars.len();
    let start = skip_slashes(&chars);
    proof {
        lemma_trim_is_skip(path@, start as int);
    }
    let ghost t = trim_leading_slashes(path@);
    // A path under the reserved route prefix is refused.
    if n - start >= 8 && crate::codec::range_eq_str(&chars, start, start + 8, "special:") {
        proof {
            reveal_strlit("special:");
            assert(t.subrange(0, 8) =~= chars@.subrange(start as int, start + 8));
        }
        return None;
    }
    proof {
        reveal_strlit("special:");
        if n - start >= 8 {
            assert(t.subrange(0, 8) =~= chars@.subrange(start as int, start + 8));
        }
        assert(!"special:"@.is_prefix_of(t));
    }
    // Walk the slash-separated segments.
    let mut pos = start;
    let mut first = true;
    while pos < n
        invariant
            start <= pos <= n,
            n == chars@.len(),
            chars@ == path@,
            t == trim_leading_slashes(path@),
            t == path@.skip(start as int),
            !"special:"@.is_prefix_of(t),
            segments_ok(t, true) == segments_ok(path@.skip(pos as int), first),
            first ==> pos == start,
        decreases n - pos,
    {
        let ghost rem = path@.skip(pos as int);
        let j = find_slash_in(&chars, pos, n);
        proof {
            reveal_strlit("..");
            reveal_strlit(".");
            assert forall|k: int| 0 <= k < j - pos implies rem[k] != '/' by {
                assert(rem[k] == chars@[pos + k]);
            }
            if j < n {
                assert(rem[j - pos] == chars@[j as int]);
            }
            lemma_slash_free_len_at(rem, j - pos);
            assert(rem.take(j - pos) =~= chars@.subrange(pos as int, j as int));
        }
        let ghost seg = rem.take(j - pos);
        if j - pos == 2 && chars[pos] == '.' && chars[pos + 1] == '.' {
            proof {
                assert(seg =~= ".."@);
            }
            return None;
        }
        if first && j - pos == 1 && chars[pos] == '.' {
            proof {
                assert(seg =~= "."@);
            }
            return None;
        }
        proof {
            assert(seg != ".."@) by {
                if seg == ".."@ {
                    assert(seg[0] == '.' && seg[1] == '.');
                    assert(chars@[pos as int] == seg[0]);
                    assert(chars@[pos + 1] == seg[1]);
                }
            }
            if first {
                assert(seg != "."@) by {
                    if seg == "."@ {
                        assert(seg[0] == '.');
                        assert(chars@[pos as int] == seg[0]);
                    }
                }
            }
            if j < n {
                assert(rem.skip(j - pos + 1) =~= path@.skip(j + 1));
            }
        }
        if j >= n {
            proof {
                assert(segments_ok(rem, first));
                assert(path@.subrange(start as int, n as int) =~= t);
            }
            return Some(String::from_str(path.substring_char(start, n)));
        }
        pos = j + 1;
        first = false;
    }
    proof {
        assert(path@.skip(pos as int) =~= Seq::<char>::empty());
        assert(path@.subrange(start as int, n as int) =~= t);
    }
    Some(String::from_str(path.substring_char(start, n)))
}

/// The start of the final slash-separated name of `s`.
pub open spec fn name_start_of(s: Seq<char>) -> int
    decreases s.len(),
{
    if s.len() == 0 {
        0
    } else if s.last() == '/' {
        s.len() as int
    } else {
        name_start_of(s.drop_last())
    }
}

/// The index of the last dot of `name`, or zero if it has none or only
/// leads with one; a positive index marks an extension.
pub open spec fn last_dot_of(name: Seq<char>) -> int
    decreases name.len(),
{
    if name.len() == 0 {
        0
    } else if name.last() == '.' {
        name.len() - 1
    } else {
        last_dot_of(name.drop_last())
    }
}

/// `base` extended with one more path segment, with exactly one slash
/// between them.
pub open spec fn pushed(base: Seq<char>, name: Seq<char>) -> Seq<char> {
    if base.len() == 0 {
        name
    } else if base.last() == '/' {
        base + name
    } else {
        base + "/"@ + name
    }
}

/// `s` with its extension, if its final name has one, replaced by the
/// markdown extension; else with the markdown extension appended.
pub open spec fn with_md_extension(s: Seq<char>) -> Seq<char> {
    let ns = name_start_of(s);
    let d = last_dot_of(s.skip(ns));
    if d > 0 {
        s.take(ns + d) + ".md"@
    } else {
        s + ".md"@
    }
}

/// The markdown path and URL an accepted request path resolves to: after
/// validation, a path naming a directory (or written with a trailing slash)
/// is sent to the directory's index document, and the file carries the
/// markdown extension.  `treat_as_dir` says whether the resolved stem names
/// a directory, which only the backing filesystem can answer.
pub open spec fn spec_article_paths(s: Seq<char>, articles: Seq<char>, treat_as_dir: bool) -> (
    Seq<char>,
    Seq<char>,
) {
    let rel = trim_leading_slashes(s);
    let rel2 = if (rel.len() > 0 && rel.last() == '/') || treat_as_dir {
        pushed(rel, "index"@)
    } else {
        rel
    };
    ("/"@ + rel2, with_md_extension(pushed(articles, rel2)))
}

/// Splitting a final name off at `ns` pins down where the name starts.
proof fn lemma_name_start_at(s: Seq<char>, ns: int)
    requires
        0 <= ns <= s.len(),
        ns > 0 ==> s[ns - 1] == '/',
        forall|k: int| ns <= k < s.len() ==> s[k] != '/',
    ensures
        name_start_of(s) == ns,
    decreases s.len(),
{
    if s.len() > 0 && s.last() != '/' {
        lemma_name_start_at(s.drop_last(), ns);
    }
}

/// A dot with no dot after it is the last dot.
proof fn lemma_last_dot_found(name: Seq<char>, j: int)
    requires
        0 <= j < name.len(),
        name[j] == '.',
        forall|m: int| j < m < name.len() ==> name[m] != '.',
    ensures
        last_dot_of(name) == j,
    decreases name.len(),
{
    if name.last() != '.' {
        lemma_last_dot_found(name.drop_last(), j);
    }
}

/// A name without any dot has no extension dot.
proof fn lemma_last_dot_none(name: Seq<char>)
    requires
        forall|m: int| 0 <= m < name.len() ==> name[m] != '.',
    ensures
        last_dot_of(name) == 0,
    decreases name.len(),
{
    if name.len() > 0 {
        lemma_last_dot_none(name.drop_last());
    }
}

/// The index of the last occurrence of `c` in `[lo, hi)`, if any.
fn rscan(chars: &Vec<char>, lo: usize, hi: usize, c: char) -> (r: Option<usize>)
    requires
        lo <= hi <= chars@.len(),
    ensures
        match r {
            Some(k) => lo <= k < hi && chars@[k as int] == c && (forall|m: int|
                k < m < hi ==> chars@[m] != c),
            None => forall|m: int| lo <= m < hi ==> chars@[m] != c,
        },
{
    let mut i: usize = hi;
    while i > lo
        invariant
            lo <= i <= hi <= chars@.len(),
            forall|m: int| i <= m < hi ==> chars@[m] != c,
        decreases i,
    {
        i = i - 1;
        if chars[i] == c {
            return Some(i);
        }
    }
    None
}

/// `base` extended with one more path segment, with exactly one slash
/// between them.
fn push_segment(base: &str, name: &str) -> (r: String)
    ensures
        r@ == pushed(base@, name@),
{
    let chars = crate::codec::char_vec_of(base);
    let n = chars.len();
    if n == 0 {
        return name.to_owned();
    }
    let mut out = base.to_owned();
    if chars[n - 1] != '/' {
        out.append("/");
        proof {
            assert(out@ == base@ + "/"@);
        }
    }
    out.append(name);
    out
}

/// `s` with its final name's extension replaced by (or, absent one, extended
/// with) the markdown extension.
fn set_md_extension(s: &str) -> (r: String)
    ensures
        r@ == with_md_extension(s@),
{
    let chars = crate::codec::char_vec_of(s);
    let n = chars.len();
    let ns = match rscan(&chars, 0, n, '/') {
        Some(k) => k + 1,
        None => 0,
    };
    proof {
        lemma_name_start_at(s@, ns as int);
    }
    let ghost name = s@.skip(ns as int);
    let d: usize = match rscan(&chars, ns, n, '.') {
        Some(k) => {
            proof {
                assert forall|m: int| k - ns < m < name.len() implies name[m] != '.' by {
                    assert(name[m] == chars@[ns + m]);
                }
                assert(name[k - ns] == chars@[k as int]);
                lemma_last_dot_found(name, k - ns as int);
            }
            k - ns
        },
        None => {
            proof {
                assert forall|m: int| 0 <= m < name.len() implies name[m] != '.' by {
                    assert(name[m] == chars@[ns + m]);
                }
                lemma_last_dot_none(name);
            }
            0
        },
    };
    if d > 0 {
        let mut out = String::from_str(s.substring_char(0, ns + d));
        out.append(".md");
        out
    } else {
        let mut out = s.to_owned();
        out.append(".md");
        out
    }
}

/// Resolves an accepted request path against the configured article root:
/// the markdown file to read or write and the canonical URL to show.  A path
/// with a trailing slash, or one whose stem names a directory (which only
/// the backing filesystem can answer, through `treat_as_dir`), is sent to
/// the directory's index document.
pub fn get_paths(config: &Config, path: &str, treat_as_dir: bool) -> (r: Option<ArticlePaths>)
    ensures
        match r {
            Some(p) => spec_valid_path(path@) && (p.url@, p.md@) == spec_article_paths(
                path@,
                config.articles@,
                treat_as_dir,
            ),
            None => !spec_valid_path(path@),
        },
{
    let relative = match validate_path(path) {
        Some(x) => x,
        None => {
            return None;
        },
    };
    let rchars = crate::codec::char_vec_of(relative.as_str());
    let ends_slash = rchars.len() > 0 && rchars[rchars.len() - 1] == '/';
    let rel2: String = if ends_slash || treat_as_dir {
        push_segment(relative.as_str(), "index")
    } else {
        relative
    };
    let mut url = String::from_str("/");
    url.append(rel2.as_str());
    let md = set_md_extension(push_segment(config.articles.as_str(), rel2.as_str()).as_str());
    Some(ArticlePaths { url, md })
}

/// Why a request against an article was turned away.
#[derive(Debug)]
pub enum RouteError {
    /// The request path is not a valid article path; rendered as not-found
    /// or bad-request depending on the route.
    InvalidPath,
    /// The article could not be loaded.
    Read(ArticleReadError),
    /// The caller may not perform this operation; carries the failing
    /// verdict.
    Denied(Authorization),
    /// The submitted title or account names hold a quote or a line break,
    /// which the document grammar cannot carry; committing such a document
    /// would leave it unreadable, so it is rejected instead.
    UnencodableMetadata,
    /// The article could not be saved.
    Write(ArticleWriteError),
}

/// The body of an article edit request.
pub struct EditForm {
    pub title: String,
    pub view_access: Access,
    pub edit_access: Access,
    pub cmark: String,
}

/// The body of an article creation request.
pub struct CreateForm {
    pub path: String,
    pub title: String,
    pub view_access: Access,
    pub edit_access: Access,
    pub cmark: String,
}

/// Serves a read of the article at `path`: resolves the path, loads the
/// article, checks the caller against its view rule (or its edit rule, for
/// the editing view), and hands back the article with the template that
/// renders it.
pub fn get_handler(
    fs: &FileStore,
    config: &Config,
    path: &str,
    user: &User,
    edit: bool,
    treat_as_dir: bool,
) -> (r: Result<(RawArticle, &'static str), RouteError>)
    ensures
        ({
            let ap = spec_article_paths(path@, config.articles@, treat_as_dir);
            if !spec_valid_path(path@) {
                r matches Err(RouteError::InvalidPath)
            } else if !fs@.contains_key(ap.1) {
                r matches Err(RouteError::Read(ArticleReadError::NotFound { .. }))
            } else {
                match parse_document(fs@[ap.1]) {
                    ParsedDoc::Parsed { metadata, body } => {
                        let rule = if edit {
                            metadata.edit_access
                        } else {
                            metadata.view_access
                        };
                        match spec_authorization(user@, rule) {
                            Authorization::Authorized => r matches Ok((a, t)) && a.metadata@
                                == metadata && a.markdown@ == body && t@ == (if edit {
                                "article_edit.tera"@
                            } else {
                                "article.tera"@
                            }),
                            v => r matches Err(RouteError::Denied(d)) && d == v,
                        }
                    },
                    ParsedDoc::MissingMetadataStart => r matches Err(
                        RouteError::Read(ArticleReadError::MissingMetadataStart { .. }),
                    ),
                    ParsedDoc::MissingMetadataEnd => r matches Err(
                        RouteError::Read(ArticleReadError::MissingMetadataEnd { .. }),
                    ),
                    ParsedDoc::InvalidMetadata => r matches Err(
                        RouteError::Read(ArticleReadError::InvalidMetadata { .. }),
                    ),
                }
            }
        }),
{
    let paths = match get_paths(config, path, treat_as_dir) {
        Some(p) => p,
        None => {
            return Err(RouteError::InvalidPath);
        },
    };
    let raw = match RawArticle::read_from_path(fs, paths.md.as_str(), path) {
        Ok(raw) => raw,
        Err(e) => {
            return Err(RouteError::Read(e));
        },
    };
    let required = if edit {
        &raw.metadata.edit_access
    } else {
        &raw.metadata.view_access
    };
    match crate::check_access(user, required) {
        Ok(_) => {},
        Err(v) => {
            return Err(RouteError::Denied(v));
        },
    }
    let template = if edit {
        "article_edit.tera"
    } else {
        "article.tera"
    };
    Ok((raw, template))
}

/// Serves an edit of the article at `path`: resolves the path, loads the
/// stored article, checks the caller against its edit rule, and atomically
/// saves the submitted replacement.  Succeeds with the URL to redirect to;
/// every failure leaves the store untouched.
pub fn post_handler(
    fs: &mut FileStore,
    config: &Config,
    path: &str,
    user: &User,
    form: EditForm,
    treat_as_dir: bool,
) -> (r: Result<String, RouteError>)
    ensures
        ({
            let ap = spec_article_paths(path@, config.articles@, treat_as_dir);
            let submitted = MetadataView {
                title: form.title@,
                view_access: form.view_access@,
                edit_access: form.edit_access@,
            };
            match r {
                Ok(url) => {
                    &&& spec_valid_path(path@)
                    &&& url@ == ap.0
                    &&& (parse_document(old(fs)@[ap.1]) matches ParsedDoc::Parsed {
                        metadata,
                        ..
                    } && spec_authorization(user@, metadata.edit_access)
                        == Authorization::Authorized)
                    &&& valid_metadata(submitted)
                    &&& !old(fs)@.contains_key(tmp_path_of(ap.1))
                    &&& final (fs)@ == spec_committed(
                        old(fs)@,
                        ap.1,
                        document_text(submitted, form.cmark@, nl()),
                    )
                },
                Err(e) => {
                    &&& final (fs)@ == old(fs)@
                    &&& match e {
                        RouteError::InvalidPath => !spec_valid_path(path@),
                        RouteError::Read(_) => spec_valid_path(path@) && !(old(
                            fs,
                        )@.contains_key(ap.1) && parse_document(old(fs)@[ap.1]) matches
                            ParsedDoc::Parsed { .. }),
                        RouteError::Denied(v) => spec_valid_path(path@) && (parse_document(
                            old(fs)@[ap.1],
                        ) matches ParsedDoc::Parsed { metadata, .. } && spec_authorization(
                            user@,
                            metadata.edit_access,
                        ) == v && v != Authorization::Authorized),
                        RouteError::UnencodableMetadata => spec_valid_path(path@)
                            && !valid_metadata(submitted),
                        RouteError::Write(_) => spec_valid_path(path@) && valid_metadata(
                            submitted,
                        ) && old(fs)@.contains_key(tmp_path_of(ap.1)),
                    }
                },
            }
        }),
{
    let paths = match get_paths(config, path, treat_as_dir) {
        Some(p) => p,
        None => {
            return Err(RouteError::InvalidPath);
        },
    };
    let raw = match RawArticle::read_from_path(fs, paths.md.as_str(), path) {
        Ok(raw) => raw,
        Err(e) => {
            return Err(RouteError::Read(e));
        },
    };
    match crate::check_access(user, &raw.metadata.edit_access) {
        Ok(_) => {},
        Err(v) => {
            return Err(RouteError::Denied(v));
        },
    }
    let metadata = Metadata {
        title: form.title,
        view_access: form.view_access,
        edit_access: form.edit_access,
    };
    if !metadata_is_valid(&metadata) {
        return Err(RouteError::UnencodableMetadata);
    }
    let article = RawArticle { metadata, markdown: form.cmark };
    match article.write_to_path(fs, paths.md.as_str(), path) {
        Ok(_) => Ok(paths.url),
        Err(e) => Err(RouteError::Write(e)),
    }
}

/// Serves the creation of a fresh article: resolves the submitted path,
/// checks the caller against the store's creation rule, and atomically
/// saves the article.  Succeeds with the URL to redirect to; every failure
/// leaves the store untouched.
pub fn create_post_handler(
    fs: &mut FileStore,
    config: &Config,
    user: &User,
    form: CreateForm,
    treat_as_dir: bool,
) -> (r: Result<String, RouteError>)
    ensures
        ({
            let ap = spec_article_paths(form.path@, config.articles@, treat_as_dir);
            let submitted = MetadataView {
                title: form.title@,
                view_access: form.view_access@,
                edit_access: form.edit_access@,
            };
            match r {
                Ok(url) => {
                    &&& spec_valid_path(form.path@)
                    &&& url@ == ap.0
                    &&& spec_authorization(user@, config.create_access@)
                        == Authorization::Authorized
                    &&& valid_metadata(submitted)
                    &&& !old(fs)@.contains_key(tmp_path_of(ap.1))
                    &&& final (fs)@ == spec_committed(
                        old(fs)@,
                        ap.1,
                        document_text(submitted, form.cmark@, nl()),
                    )
                },
                Err(e) => {
                    &&& final (fs)@ == old(fs)@
                    &&& match e {
                        RouteError::InvalidPath => !spec_valid_path(form.path@),
                        RouteError::Denied(v) => spec_valid_path(form.path@)
                            && spec_authorization(user@, config.create_access@) == v && v
                            != Authorization::Authorized,
                        RouteError::UnencodableMetadata => spec_valid_path(form.path@)
                            && !valid_metadata(submitted),
                        RouteError::Write(_) => spec_valid_path(form.path@) && valid_metadata(
                            submitted,
                        ) && old(fs)@.contains_key(tmp_path_of(ap.1)) && spec_authorization(
                            user@,
                            config.create_access@,
                        ) == Authorization::Authorized,
                        RouteError::Read(_) => false,
                    }
                },
            }
        }),
{
    let paths = match get_paths(config, form.path.as_str(), treat_as_dir) {
        Some(p) => p,
        None => {
            return Err(RouteError::InvalidPath);
        },
    };
    match crate::check_access(user, &config.create_access) {
        Ok(_) => {},
        Err(v) => {
            return Err(RouteError::Denied(v));
        },
    }
    let metadata = Metadata {
        title: form.title,
        view_access: form.view_access,
        edit_access: form.edit_access,
    };
    if !metadata_is_valid(&metadata) {
        return Err(RouteError::UnencodableMetadata);
    }
    let article = RawArticle { metadata, markdown: form.cmark };
    match article.write_to_path(fs, paths.md.as_str(), form.path.as_str()) {
        Ok(_) => Ok(paths.url),
        Err(e) => Err(RouteError::Write(e)),
    }
}

} // verus!
