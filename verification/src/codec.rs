//! The document codec: the on-disk framing of a document (delimiter line,
//! metadata block, delimiter line, verbatim body) and the key/value grammar of
//! the metadata block itself.
//!
//! The framing accepts both a bare line feed and a carriage-return/line-feed
//! pair as the line terminator of the two delimiter lines; the writer always
//! emits the bare line feed.  The metadata block holds exactly three lines:
//! the document title and the two access rules, in that order.

use vstd::prelude::*;

use crate::auth::AccessView;
use crate::metadata::{Metadata, MetadataView};

verus! {

use vstd::std_specs::iter::IteratorSpec;

// ---------------------------------------------------------------------------
// The tokens of the grammar.
// ---------------------------------------------------------------------------
/// The canonical line terminator.
pub open spec fn nl() -> Seq<char> {
    "\n"@
}

/// The alternate, also accepted, line terminator.
pub open spec fn crlf() -> Seq<char> {
    "\r\n"@
}

/// Either of the two accepted line terminators.
pub open spec fn valid_term(term: Seq<char>) -> bool {
    term == nl() || term == crlf()
}

/// A delimiter line: the three-character marker followed by a terminator.
pub open spec fn delim_line(term: Seq<char>) -> Seq<char> {
    "+++"@ + term
}

/// The key and opening quote introducing the title line.
pub open spec fn title_prefix() -> Seq<char> {
    "title = \""@
}

/// The key introducing the view rule line.
pub open spec fn view_rule_key() -> Seq<char> {
    "view_rule = "@
}

/// The key introducing the edit rule line.
pub open spec fn edit_rule_key() -> Seq<char> {
    "edit_rule = "@
}

/// The encoding of the rule admitting anyone.
pub open spec fn anonymous_rule() -> Seq<char> {
    "\"Anonymous\""@
}

/// The encoding of the rule admitting any authenticated user.
pub open spec fn authenticated_rule() -> Seq<char> {
    "\"Authenticated\""@
}

/// The opening of an account-list rule.
pub open spec fn accounts_open() -> Seq<char> {
    "{ Accounts = ["@
}

/// The closing of an account-list rule.
pub open spec fn accounts_close() -> Seq<char> {
    "] }"@
}

/// The separator between quoted account names.
pub open spec fn name_sep() -> Seq<char> {
    ", "@
}

// ---------------------------------------------------------------------------
// Which values the grammar can carry.
// ---------------------------------------------------------------------------
/// Text that can sit inside the quotes of the metadata block: free of the
/// quote character and of both line-break characters.
pub open spec fn valid_text(s: Seq<char>) -> bool {
    forall|i: int| 0 <= i < s.len() ==> s[i] != '"' && s[i] != '\n' && s[i] != '\r'
}

/// A list of account names that can all be written down.
pub open spec fn all_names_valid(names: Seq<Seq<char>>) -> bool {
    forall|i: int| 0 <= i < names.len() ==> valid_text(#[trigger] names[i])
}

/// An access rule whose account names can all be written down.
pub open spec fn valid_access(a: AccessView) -> bool {
    match a {
        AccessView::Accounts(names) => all_names_valid(names),
        _ => true,
    }
}

/// Metadata that the serializer can represent and the parser hands back
/// unchanged.
pub open spec fn valid_metadata(m: MetadataView) -> bool {
    valid_text(m.title) && valid_access(m.view_access) && valid_access(m.edit_access)
}

// ---------------------------------------------------------------------------
// Serialization, as a mathematical function of the document.
// ---------------------------------------------------------------------------
/// `s` wrapped in quotes.
pub open spec fn quoted(s: Seq<char>) -> Seq<char> {
    "\""@ + s + "\""@
}

/// The comma-separated quoted account names.
pub open spec fn names_text(names: Seq<Seq<char>>) -> Seq<char>
    decreases names.len(),
{
    if names.len() == 0 {
        Seq::empty()
    } else if names.len() == 1 {
        quoted(names[0])
    } else {
        quoted(names[0]) + name_sep() + names_text(names.drop_first())
    }
}

/// The encoding of one access rule.
pub open spec fn rule_text(a: AccessView) -> Seq<char> {
    match a {
        AccessView::Anonymous => anonymous_rule(),
        AccessView::Authenticated => authenticated_rule(),
        AccessView::Accounts(names) => accounts_open() + names_text(names) + accounts_close(),
    }
}

/// The metadata block: three key/value lines, each closed by `term`.
pub open spec fn metadata_text(m: MetadataView, term: Seq<char>) -> Seq<char> {
    title_prefix() + m.title + "\""@ + term + view_rule_key() + rule_text(m.view_access) + term
        + edit_rule_key() + rule_text(m.edit_access) + term
}

/// The whole document: delimiter line, metadata block, delimiter line, body.
pub open spec fn document_text(m: MetadataView, body: Seq<char>, term: Seq<char>) -> Seq<char> {
    delim_line(term) + metadata_text(m, term) + delim_line(term) + body
}

// ---------------------------------------------------------------------------
// Parsing, as a mathematical function of the character stream.
// ---------------------------------------------------------------------------
/// The outcome of parsing a character stream as a document.
pub enum ParsedDoc {
    /// The stream does not begin with a delimiter line.
    MissingMetadataStart,
    /// The stream ends before a second delimiter line is found.
    MissingMetadataEnd,
    /// The metadata block does not follow the key/value grammar.
    InvalidMetadata,
    /// A well-formed document.
    Parsed { metadata: MetadataView, body: Seq<char> },
}

/// The number of characters in the first line of `s`: everything up to and
/// including the first line feed, or all of `s` if it has none.
pub open spec fn line_len_of(s: Seq<char>) -> int
    decreases s.len(),
{
    if s.len() == 0 {
        0
    } else if s[0] == '\n' {
        1
    } else {
        1 + line_len_of(s.drop_first())
    }
}

/// The first line of `s` spans at least one character and at most all of `s`.
pub proof fn lemma_line_len_of_bounds(s: Seq<char>)
    requires
        s.len() > 0,
    ensures
        1 <= line_len_of(s) <= s.len(),
    decreases s.len(),
{
    if s.len() > 1 && s[0] != '\n' {
        lemma_line_len_of_bounds(s.drop_first());
    } else if s[0] != '\n' {
        assert(line_len_of(s.drop_first()) == 0);
    }
}

/// Scans `s` line by line for the first line that is exactly a delimiter
/// line, returning its offset and its length.
pub open spec fn find_delim_line(s: Seq<char>) -> Option<(int, int)>
    decreases s.len()
        via find_delim_line_dec
{
    if s.len() == 0 {
        None
    } else if delim_line(nl()).is_prefix_of(s) {
        Some((0, delim_line(nl()).len() as int))
    } else if delim_line(crlf()).is_prefix_of(s) {
        Some((0, delim_line(crlf()).len() as int))
    } else {
        match find_delim_line(s.skip(line_len_of(s))) {
            None => None,
            Some((off, dl)) => Some((off + line_len_of(s), dl)),
        }
    }
}

#[via_fn]
proof fn find_delim_line_dec(s: Seq<char>) {
    if s.len() > 0 {
        lemma_line_len_of_bounds(s);
    }
}

/// Splits off the first line of `s`: the line's content with its terminator
/// (either kind) removed, and the rest of `s` after the terminator.  `None`
/// if `s` has no line feed at all.
pub open spec fn split_line(s: Seq<char>) -> Option<(Seq<char>, Seq<char>)> {
    let l = line_len_of(s);
    if l == 0 || s[l - 1] != '\n' {
        None
    } else {
        let content = if l >= 2 && s[l - 2] == '\r' {
            s.subrange(0, l - 2)
        } else {
            s.subrange(0, l - 1)
        };
        Some((content, s.skip(l)))
    }
}

/// The title carried by a well-formed title line.
pub open spec fn parse_title_line(line: Seq<char>) -> Option<Seq<char>> {
    if title_prefix().is_prefix_of(line) && line.len() >= title_prefix().len() + 1 && line.last()
        == '"' && valid_text(line.subrange(title_prefix().len() as int, line.len() - 1)) {
        Some(line.subrange(title_prefix().len() as int, line.len() - 1))
    } else {
        None
    }
}

/// The index of the first quote character in `u`, or `u.len()` if none.
pub open spec fn first_quote(u: Seq<char>) -> int
    decreases u.len(),
{
    if u.len() == 0 {
        0
    } else if u[0] == '"' {
        0
    } else {
        1 + first_quote(u.drop_first())
    }
}

/// The first quote of `u` lies at an index between 0 and `u.len()`.
pub proof fn lemma_first_quote_bounds(u: Seq<char>)
    ensures
        0 <= first_quote(u) <= u.len(),
    decreases u.len(),
{
    if u.len() > 0 && u[0] != '"' {
        lemma_first_quote_bounds(u.drop_first());
    }
}

/// The non-empty comma-separated list of quoted account names.
pub open spec fn parse_names(u: Seq<char>) -> Option<Seq<Seq<char>>>
    decreases u.len()
        via parse_names_dec
{
    if u.len() < 2 || u[0] != '"' {
        None
    } else {
        let i = 1 + first_quote(u.skip(1));
        if i >= u.len() {
            None
        } else {
            let name = u.subrange(1, i);
            if !valid_text(name) {
                None
            } else if i == u.len() - 1 {
                Some(seq![name])
            } else if i + 3 <= u.len() && u[i + 1] == ',' && u[i + 2] == ' ' {
                match parse_names(u.skip(i + 3)) {
                    None => None,
                    Some(rest) => Some(seq![name] + rest),
                }
            } else {
                None
            }
        }
    }
}

#[via_fn]
proof fn parse_names_dec(u: Seq<char>) {
    if u.len() >= 2 && u[0] == '"' {
        lemma_first_quote_bounds(u.skip(1));
    }
}

/// The access rule encoded by `r`.
pub open spec fn parse_rule(r: Seq<char>) -> Option<AccessView> {
    if r == anonymous_rule() {
        Some(AccessView::Anonymous)
    } else if r == authenticated_rule() {
        Some(AccessView::Authenticated)
    } else if accounts_open().is_prefix_of(r) && accounts_close().is_suffix_of(r) && r.len()
        >= accounts_open().len() + accounts_close().len() {
        let inner = r.subrange(accounts_open().len() as int, r.len() - accounts_close().len());
        if inner.len() == 0 {
            Some(AccessView::Accounts(Seq::empty()))
        } else {
            match parse_names(inner) {
                None => None,
                Some(ns) => Some(AccessView::Accounts(ns)),
            }
        }
    } else {
        None
    }
}

/// The rule carried by a line introduced by `key`.
pub open spec fn parse_rule_line(line: Seq<char>, key: Seq<char>) -> Option<AccessView> {
    if key.is_prefix_of(line) {
        parse_rule(line.skip(key.len() as int))
    } else {
        None
    }
}

/// The metadata carried by a metadata block: exactly a title line, a view
/// rule line and an edit rule line.
pub open spec fn parse_metadata(s: Seq<char>) -> Option<MetadataView> {
    match split_line(s) {
        None => None,
        Some((l1, r1)) => match split_line(r1) {
            None => None,
            Some((l2, r2)) => match split_line(r2) {
                None => None,
                Some((l3, r3)) => if r3.len() != 0 {
                    None
                } else {
                    match parse_title_line(l1) {
                        None => None,
                        Some(title) => match parse_rule_line(l2, view_rule_key()) {
                            None => None,
                            Some(view_access) => match parse_rule_line(l3, edit_rule_key()) {
                                None => None,
                                Some(edit_access) => Some(
                                    MetadataView { title, edit_access, view_access },
                                ),
                            },
                        },
                    }
                },
            },
        },
    }
}

/// Parses what follows the opening delimiter line: scans for the closing
/// delimiter line, reads the metadata block before it, and takes everything
/// after it, verbatim, as the body.
pub open spec fn parse_framed(s: Seq<char>) -> ParsedDoc {
    match find_delim_line(s) {
        None => ParsedDoc::MissingMetadataEnd,
        Some((off, dl)) => match parse_metadata(s.take(off)) {
            None => ParsedDoc::InvalidMetadata,
            Some(m) => ParsedDoc::Parsed { metadata: m, body: s.skip(off + dl) },
        },
    }
}

/// Parses a whole character stream as a document.
pub open spec fn parse_document(s: Seq<char>) -> ParsedDoc {
    if delim_line(nl()).is_prefix_of(s) {
        parse_framed(s.skip(delim_line(nl()).len() as int))
    } else if delim_line(crlf()).is_prefix_of(s) {
        parse_framed(s.skip(delim_line(crlf()).len() as int))
    } else {
        ParsedDoc::MissingMetadataStart
    }
}

// ---------------------------------------------------------------------------
// Facts about the grammar's tokens, and scan characterizations.
// ---------------------------------------------------------------------------
/// Text free of both line-break characters, so that it stays within one line.
pub open spec fn line_clean(s: Seq<char>) -> bool {
    forall|i: int| 0 <= i < s.len() ==> s[i] != '\n' && s[i] != '\r'
}

/// Spells out the two delimiter lines and the lengths of the other tokens.
pub proof fn lemma_token_chars()
    ensures
        delim_line(nl()) == "+++\n"@,
        delim_line(crlf()) == "+++\r\n"@,
        delim_line(nl()) == seq!['+', '+', '+', '\n'],
        delim_line(crlf()) == seq!['+', '+', '+', '\r', '\n'],
        delim_line(nl()).len() == 4,
        delim_line(crlf()).len() == 5,
        nl().len() == 1,
        crlf().len() == 2,
        title_prefix().len() == 9,
        view_rule_key().len() == 12,
        edit_rule_key().len() == 12,
        anonymous_rule().len() == 11,
        authenticated_rule().len() == 15,
        accounts_open().len() == 14,
        accounts_close().len() == 3,
        name_sep().len() == 2,
        ("\""@).len() == 1,
        ("\""@)[0] == '"',
        name_sep()[0] == ',',
        name_sep()[1] == ' ',
        anonymous_rule()[0] == '"',
        authenticated_rule()[0] == '"',
        accounts_open()[0] == '{',
        title_prefix()[0] == 't',
        view_rule_key()[0] == 'v',
        edit_rule_key()[0] == 'e',
        title_prefix().last() == '"',
        line_clean(title_prefix()),
        line_clean(view_rule_key()),
        line_clean(edit_rule_key()),
        line_clean(anonymous_rule()),
        line_clean(authenticated_rule()),
        line_clean(accounts_open()),
        line_clean(accounts_close()),
        line_clean(name_sep()),
        line_clean("\""@),
{
    reveal_strlit("+++\n");
    reveal_strlit("+++\r\n");
    reveal_strlit("+++");
    reveal_strlit("\n");
    reveal_strlit("\r\n");
    reveal_strlit("title = \"");
    reveal_strlit("view_rule = ");
    reveal_strlit("edit_rule = ");
    reveal_strlit("\"Anonymous\"");
    reveal_strlit("\"Authenticated\"");
    reveal_strlit("{ Accounts = [");
    reveal_strlit("] }");
    reveal_strlit(", ");
    assert(delim_line(nl()) =~= "+++\n"@);
    assert(delim_line(crlf()) =~= "+++\r\n"@);
    assert(delim_line(nl()) =~= seq!['+', '+', '+', '\n']);
    assert(delim_line(crlf()) =~= seq!['+', '+', '+', '\r', '\n']);
    reveal_strlit("\"");
    assert(line_clean(title_prefix()));
    assert(line_clean(view_rule_key()));
    assert(line_clean(edit_rule_key()));
    assert(line_clean(anonymous_rule()));
    assert(line_clean(authenticated_rule()));
    assert(line_clean(accounts_open()));
    assert(line_clean(accounts_close()));
    assert(line_clean(name_sep()));
    assert(line_clean("\""@));
}

/// If the characters of `t` before index `j` are all ordinary and `t[j]`, if
/// it exists, is a line feed, then the first line of `t` runs to `j`.
pub proof fn lemma_line_len_at(t: Seq<char>, j: int)
    requires
        0 <= j <= t.len(),
        forall|k: int| 0 <= k < j ==> t[k] != '\n',
        j < t.len() ==> t[j] == '\n',
    ensures
        line_len_of(t) == if j < t.len() {
            j + 1
        } else {
            t.len() as int
        },
    decreases t.len(),
{
    if t.len() > 0 && t[0] != '\n' {
        lemma_line_len_at(t.drop_first(), j - 1);
    }
}

/// If the characters of `t` before index `j` are all not quotes and `t[j]`,
/// if it exists, is a quote, then the first quote of `t` sits at `j`.
pub proof fn lemma_first_quote_at(t: Seq<char>, j: int)
    requires
        0 <= j <= t.len(),
        forall|k: int| 0 <= k < j ==> t[k] != '"',
        j < t.len() ==> t[j] == '"',
    ensures
        first_quote(t) == if j < t.len() {
            j
        } else {
            t.len() as int
        },
    decreases t.len(),
{
    if t.len() > 0 && t[0] != '"' {
        lemma_first_quote_at(t.drop_first(), j - 1);
    }
}

// ---------------------------------------------------------------------------
// Executable helpers.
// ---------------------------------------------------------------------------
/// Collects the characters of `s` into a vector, for constant-time indexing.
pub(crate) fn char_vec_of(s: &str) -> (r: Vec<char>)
    ensures
        r@ == s@,
{
    let mut it = s.chars();
    let mut v: Vec<char> = Vec::new();
    loop
        invariant
            it.obeys_prophetic_iter_laws(),
            it.decrease() is Some,
            v@ + it.remaining() == s@,
        ensures
            it.remaining().len() == 0,
            v@ + it.remaining() == s@,
        decreases it.decrease()->0,
    {
        match it.next() {
            Some(c) => {
                v.push(c);
                proof {
                    assert(v@ + it.remaining() =~= s@);
                }
            },
            None => {
                break ;
            },
        }
    }
    proof {
        assert(v@ =~= s@);
    }
    v
}

/// True iff `a` and `b` hold the same characters.
pub(crate) fn str_eq(a: &str, b: &str) -> (r: bool)
    ensures
        r == (a@ == b@),
{
    let x = a.to_owned();
    let y = b.to_owned();
    x == y
}

/// True iff the characters of `chars` in `[lo, hi)` spell out `lit`.
pub(crate) fn range_eq_str(chars: &Vec<char>, lo: usize, hi: usize, lit: &str) -> (r: bool)
    requires
        lo <= hi <= chars@.len(),
    ensures
        r == (chars@.subrange(lo as int, hi as int) == lit@),
{
    let n = lit.unicode_len();
    if hi - lo != n {
        proof {
            assert(chars@.subrange(lo as int, hi as int).len() != lit@.len());
        }
        return false;
    }
    let mut i: usize = 0;
    while i < n
        invariant
            lo <= hi <= chars@.len(),
            hi - lo == n == lit@.len(),
            i <= n,
            forall|j: int| 0 <= j < i ==> chars@.subrange(lo as int, hi as int)[j] == lit@[j],
        decreases n - i,
    {
        let c = chars[lo + i];
        let d = lit.get_char(i);
        if c != d {
            proof {
                assert(chars@.subrange(lo as int, hi as int)[i as int] != lit@[i as int]);
            }
            return false;
        }
        i += 1;
    }
    proof {
        assert(chars@.subrange(lo as int, hi as int) =~= lit@);
    }
    true
}

/// The index of the first line feed in `[from, to)`, or `to` if there is none.
fn find_nl_in(chars: &Vec<char>, from: usize, to: usize) -> (r: usize)
    requires
        from <= to <= chars@.len(),
    ensures
        from <= r <= to,
        forall|k: int| from <= k < r ==> chars@[k] != '\n',
        r < to ==> chars@[r as int] == '\n',
{
    let mut i: usize = from;
    while i < to
        invariant
            from <= i <= to <= chars@.len(),
            forall|k: int| from <= k < i ==> chars@[k] != '\n',
        decreases to - i,
    {
        if chars[i] == '\n' {
            return i;
        }
        i += 1;
    }
    to
}

/// The index of the first quote in `[from, to)`, or `to` if there is none.
fn find_quote_in(chars: &Vec<char>, from: usize, to: usize) -> (r: usize)
    requires
        from <= to <= chars@.len(),
    ensures
        from <= r <= to,
        forall|k: int| from <= k < r ==> chars@[k] != '"',
        r < to ==> chars@[r as int] == '"',
{
    let mut i: usize = from;
    while i < to
        invariant
            from <= i <= to <= chars@.len(),
            forall|k: int| from <= k < i ==> chars@[k] != '"',
        decreases to - i,
    {
        if chars[i] == '"' {
            return i;
        }
        i += 1;
    }
    to
}

// ---------------------------------------------------------------------------
// The serializer.
// ---------------------------------------------------------------------------
/// Appends the quoted, comma-separated names from `start` on.
fn append_names(out: &mut String, names: &Vec<crate::auth::Username>, start: usize)
    requires
        start <= names@.len(),
    ensures
        final (out)@ == old(out)@ + names_text(names.deep_view().skip(start as int)),
    decreases names@.len() - start,
{
    let ghost pre = out@;
    let ghost ns = names.deep_view().skip(start as int);
    if start < names.len() {
        out.append("\"");
        out.append(names[start].as_str());
        out.append("\"");
        proof {
            broadcast use crate::auth::lemma_username_deep_view;

            assert(ns[0] == names.deep_view()[start as int]);
            assert(out@ =~= pre + quoted(ns[0]));
        }
        if start + 1 < names.len() {
            out.append(", ");
            append_names(out, names, start + 1);
            proof {
                assert(ns.drop_first() =~= names.deep_view().skip(start + 1));
                assert(out@ =~= pre + (quoted(ns[0]) + name_sep() + names_text(ns.drop_first())));
            }
        }
    } else {
        proof {
            assert(ns =~= Seq::<Seq<char>>::empty());
            assert(out@ =~= pre + names_text(ns));
        }
    }
}

/// Appends the encoding of one access rule.
fn append_rule(out: &mut String, rule: &crate::auth::Access)
    ensures
        final (out)@ == old(out)@ + rule_text(rule@),
{
    let ghost pre = out@;
    match rule {
        crate::auth::Access::Anonymous => {
            out.append("\"Anonymous\"");
        },
        crate::auth::Access::Authenticated => {
            out.append("\"Authenticated\"");
        },
        crate::auth::Access::Accounts(names) => {
            out.append("{ Accounts = [");
            append_names(out, names, 0);
            out.append("] }");
            proof {
                assert(names.deep_view().skip(0) =~= names.deep_view());
                assert(out@ =~= pre + rule_text(rule@));
            }
        },
    }
}

/// Serializes a document: delimiter line, the three metadata lines, delimiter
/// line, then the body verbatim, all with the canonical line terminator.
/// Only valid metadata may be serialized: the grammar cannot carry a quote
/// or a line break inside a title or an account name, and committing such a
/// document would leave it unreadable.
pub fn serialize_document(metadata: &Metadata, body: &str) -> (out: String)
    requires
        valid_metadata(metadata@),
    ensures
        out@ == document_text(metadata@, body@, nl()),
{
    let mut out = String::new();
    out.append("+++");
    out.append("\n");
    out.append("title = \"");
    out.append(metadata.title.as_str());
    out.append("\"");
    out.append("\n");
    out.append("view_rule = ");
    append_rule(&mut out, &metadata.view_access);
    out.append("\n");
    out.append("edit_rule = ");
    append_rule(&mut out, &metadata.edit_access);
    out.append("\n");
    out.append("+++");
    out.append("\n");
    out.append(body);
    proof {
        assert(out@ =~= document_text(metadata@, body@, nl()));
    }
    out
}

/// True iff the characters in `[lo, hi)` are all ordinary text characters.
fn range_valid_text(chars: &Vec<char>, lo: usize, hi: usize) -> (r: bool)
    requires
        lo <= hi <= chars@.len(),
    ensures
        r == valid_text(chars@.subrange(lo as int, hi as int)),
{
    let mut i: usize = lo;
    while i < hi
        invariant
            lo <= i <= hi <= chars@.len(),
            forall|k: int| lo <= k < i ==> chars@[k] != '"' && chars@[k] != '\n' && chars@[k]
                != '\r',
        decreases hi - i,
    {
        let c = chars[i];
        if c == '"' || c == '\n' || c == '\r' {
            proof {
                assert(chars@.subrange(lo as int, hi as int)[i - lo] == chars@[i as int]);
            }
            return false;
        }
        i += 1;
    }
    proof {
        assert forall|j: int| 0 <= j < hi - lo implies chars@.subrange(lo as int, hi as int)[j]
            != '"' && chars@.subrange(lo as int, hi as int)[j] != '\n' && chars@.subrange(
            lo as int,
            hi as int,
        )[j] != '\r' by {
            assert(chars@.subrange(lo as int, hi as int)[j] == chars@[lo + j]);
        }
    }
    true
}

/// True iff every character of `s` is an ordinary text character.
fn str_valid_text(s: &str) -> (r: bool)
    ensures
        r == valid_text(s@),
{
    let chars = char_vec_of(s);
    let n = chars.len();
    let r = range_valid_text(&chars, 0, n);
    proof {
        assert(chars@.subrange(0, n as int) =~= s@);
    }
    r
}

/// True iff every account name of `a` can be written down by the grammar.
fn access_is_valid(a: &crate::auth::Access) -> (r: bool)
    ensures
        r == valid_access(a@),
{
    match a {
        crate::auth::Access::Anonymous => true,
        crate::auth::Access::Authenticated => true,
        crate::auth::Access::Accounts(names) => {
            let mut i: usize = 0;
            while i < names.len()
                invariant
                    i <= names@.len(),
                    a@ == AccessView::Accounts(names.deep_view()),
                    forall|j: int| 0 <= j < i ==> valid_text(#[trigger] names.deep_view()[j]),
                decreases names@.len() - i,
            {
                let ok = str_valid_text(names[i].as_str());
                proof {
                    crate::auth::lemma_username_deep_view(names@[i as int]);
                    assert(names.deep_view()[i as int] == names@[i as int]@);
                }
                if !ok {
                    proof {
                        let ns = names.deep_view();
                        assert(!valid_text(ns[i as int]));
                        assert(!all_names_valid(ns));
                    }
                    return false;
                }
                i += 1;
            }
            true
        },
    }
}

/// True iff `m` can be carried by the document grammar: its title and every
/// account name are free of quotes and line breaks.  The write path consults
/// this before it commits anything, so that no stored document is ever
/// unreadable.
pub fn metadata_is_valid(m: &Metadata) -> (r: bool)
    ensures
        r == valid_metadata(m@),
{
    str_valid_text(m.title.as_str()) && access_is_valid(&m.view_access) && access_is_valid(
        &m.edit_access,
    )
}

// ---------------------------------------------------------------------------
// The parser.
// ---------------------------------------------------------------------------
/// How parsing a stream failed.
#[derive(Debug)]
pub enum ParseError {
    /// The stream does not begin with a delimiter line.
    MissingMetadataStart,
    /// The stream ends before a second delimiter line is found.
    MissingMetadataEnd,
    /// The metadata block does not follow the key/value grammar; carries
    /// the block that failed, so the cause is never discarded.
    InvalidMetadata { metadata: String },
}

/// The metadata block of a framed stream: what sits between the opening
/// delimiter line and the closing one, or everything after the opening one
/// if none closes the block.
pub open spec fn metadata_block_of(s: Seq<char>) -> Seq<char> {
    let f = if delim_line(nl()).is_prefix_of(s) {
        s.skip(delim_line(nl()).len() as int)
    } else {
        s.skip(delim_line(crlf()).len() as int)
    };
    match find_delim_line(f) {
        Some((off, dl)) => f.take(off),
        None => f,
    }
}

/// Scans for the first delimiter line at or after `start`, returning its
/// absolute position and its length.
fn find_delim_pos(chars: &Vec<char>, start: usize) -> (r: Option<(usize, usize)>)
    requires
        start <= chars@.len(),
    ensures
        match r {
            None => find_delim_line(chars@.skip(start as int)) is None,
            Some((p, d)) => start <= p && p + d <= chars@.len() && find_delim_line(
                chars@.skip(start as int),
            ) == Some((p - start as int, d as int)),
        },
{
    let n = chars.len();
    let mut pos = start;
    loop
        invariant
            start <= pos <= n,
            n == chars@.len(),
            (match find_delim_line(chars@.skip(pos as int)) {
                None => find_delim_line(chars@.skip(start as int)) is None,
                Some((o, d)) => find_delim_line(chars@.skip(start as int)) == Some(
                    (o + pos - start, d),
                ),
            }),
        decreases n - pos,
    {
        proof {
            lemma_token_chars();
        }
        if pos >= n {
            proof {
                assert(chars@.skip(pos as int).len() == 0);
            }
            return None;
        }
        let ghost tail = chars@.skip(pos as int);
        if n - pos >= 4 && range_eq_str(chars, pos, pos + 4, "+++\n") {
            proof {
                assert(tail.subrange(0, 4) =~= chars@.subrange(pos as int, pos + 4));
                assert(delim_line(nl()).is_prefix_of(tail));
                assert(find_delim_line(tail) == Some((0int, 4int)));
            }
            return Some((pos, 4));
        }
        if n - pos >= 5 && range_eq_str(chars, pos, pos + 5, "+++\r\n") {
            proof {
                assert(tail.subrange(0, 5) =~= chars@.subrange(pos as int, pos + 5));
                assert(delim_line(crlf()).is_prefix_of(tail));
                // The first delimiter check fails: its fourth character differs.
                assert(tail[3] == '\r');
                assert(delim_line(nl()).is_prefix_of(tail) ==> tail.subrange(0, 4)[3] == '\n');
                assert(find_delim_line(tail) == Some((0int, 5int)));
            }
            return Some((pos, 5));
        }
        // Neither delimiter matches here: skip the whole line.
        proof {
            if n - pos >= 4 {
                assert(tail.subrange(0, 4) =~= chars@.subrange(pos as int, pos + 4));
            }
            assert(!delim_line(nl()).is_prefix_of(tail));
            if n - pos >= 5 {
                assert(tail.subrange(0, 5) =~= chars@.subrange(pos as int, pos + 5));
            }
            assert(!delim_line(crlf()).is_prefix_of(tail));
        }
        let j = find_nl_in(chars, pos, n);
        let l = if j < n {
            j + 1 - pos
        } else {
            n - pos
        };
        proof {
            assert forall|k: int| 0 <= k < j - pos implies tail[k] != '\n' by {
                assert(tail[k] == chars@[pos + k]);
            }
            if j < n {
                assert(tail[j - pos] == chars@[j as int]);
            }
            lemma_line_len_at(tail, j - pos);
            assert(line_len_of(tail) == l);
            lemma_line_len_of_bounds(tail);
            assert(tail.skip(l as int) =~= chars@.skip((pos + l) as int));
        }
        pos = pos + l;
    }
}

/// Parses the characters in `[lo, hi)` as one access rule.
fn parse_rule_range(s: &str, chars: &Vec<char>, lo: usize, hi: usize) -> (r: Option<
    crate::auth::Access,
>)
    requires
        chars@ == s@,
        lo <= hi <= chars@.len(),
    ensures
        match r {
            Some(a) => parse_rule(chars@.subrange(lo as int, hi as int)) == Some(a@),
            None => parse_rule(chars@.subrange(lo as int, hi as int)) is None,
        },
    decreases hi - lo,
{
    let ghost rr = chars@.subrange(lo as int, hi as int);
    proof {
        lemma_token_chars();
    }
    if range_eq_str(chars, lo, hi, "\"Anonymous\"") {
        return Some(crate::auth::Access::Anonymous);
    }
    if range_eq_str(chars, lo, hi, "\"Authenticated\"") {
        return Some(crate::auth::Access::Authenticated);
    }
    if hi - lo >= 17 && range_eq_str(chars, lo, lo + 14, "{ Accounts = [") && range_eq_str(
        chars,
        hi - 3,
        hi,
        "] }",
    ) {
        proof {
            assert(rr.subrange(0, 14) =~= chars@.subrange(lo as int, lo + 14));
            assert(accounts_open().is_prefix_of(rr));
            assert(rr.subrange(rr.len() - 3, rr.len() as int) =~= chars@.subrange(
                hi - 3,
                hi as int,
            ));
            assert(accounts_close().is_suffix_of(rr));
            assert(rr.subrange(14, rr.len() - 3) =~= chars@.subrange(lo + 14, hi - 3));
        }
        if hi - 3 == lo + 14 {
            let names: Vec<crate::auth::Username> = Vec::new();
            proof {
                assert(names.deep_view() =~= Seq::<Seq<char>>::empty());
                assert(chars@.subrange(lo + 14, hi - 3).len() == 0);
            }
            return Some(crate::auth::Access::Accounts(names));
        }
        match parse_names_range(s, chars, lo + 14, hi - 3) {
            Some(names) => {
                proof {
                    assert(parse_rule(rr) == Some(AccessView::Accounts(names.deep_view())));
                }
                Some(crate::auth::Access::Accounts(names))
            },
            None => None,
        }
    } else {
        proof {
            if hi - lo >= 17 {
                assert(rr.subrange(0, 14) =~= chars@.subrange(lo as int, lo + 14));
                assert(rr.subrange(rr.len() - 3, rr.len() as int) =~= chars@.subrange(
                    hi - 3,
                    hi as int,
                ));
            }
        }
        None
    }
}

/// Parses the characters in `[lo, hi)` as a non-empty quoted name list.
fn parse_names_range(s: &str, chars: &Vec<char>, lo: usize, hi: usize) -> (r: Option<
    Vec<crate::auth::Username>,
>)
    requires
        chars@ == s@,
        lo <= hi <= chars@.len(),
    ensures
        match r {
            Some(v) => parse_names(chars@.subrange(lo as int, hi as int)) == Some(v.deep_view()),
            None => parse_names(chars@.subrange(lo as int, hi as int)) is None,
        },
    decreases hi - lo,
{
    broadcast use crate::auth::lemma_username_deep_view;

    let ghost u = chars@.subrange(lo as int, hi as int);
    if hi - lo < 2 || chars[lo] != '"' {
        return None;
    }
    let q = find_quote_in(chars, lo + 1, hi);
    proof {
        assert(u.skip(1) =~= chars@.subrange(lo + 1, hi as int));
        assert forall|k: int| 0 <= k < q - (lo + 1) implies u.skip(1)[k] != '"' by {
            assert(u.skip(1)[k] == chars@[lo + 1 + k]);
        }
        if q < hi {
            assert(u.skip(1)[q - (lo + 1)] == chars@[q as int]);
        }
        lemma_first_quote_at(u.skip(1), q - (lo + 1));
    }
    if q == hi {
        return None;
    }
    let ghost i = q - lo;
    proof {
        assert(1 + first_quote(u.skip(1)) == i);
        assert(u.subrange(1, i) =~= chars@.subrange(lo + 1, q as int));
    }
    if !range_valid_text(chars, lo + 1, q) {
        return None;
    }
    let name = crate::auth::Username::new(String::from_str(s.substring_char(lo + 1, q)));
    if q == hi - 1 {
        let mut v: Vec<crate::auth::Username> = Vec::new();
        v.push(name);
        proof {
            assert(v.deep_view() =~= seq![u.subrange(1, i)]);
        }
        return Some(v);
    }
    if hi - q >= 3 && chars[q + 1] == ',' && chars[q + 2] == ' ' {
        proof {
            assert(u[i + 1] == chars@[q + 1]);
            assert(u[i + 2] == chars@[q + 2]);
            assert(u.skip(i + 3) =~= chars@.subrange(q + 3, hi as int));
        }
        match parse_names_range(s, chars, q + 3, hi) {
            Some(mut rest) => {
                let ghost rd = rest.deep_view();
                let ghost old_rest = rest@;
                let mut v: Vec<crate::auth::Username> = Vec::new();
                v.push(name);
                v.append(&mut rest);
                proof {
                    assert(v@ =~= seq![name] + old_rest);
                    assert forall|k: int| 0 <= k < v.deep_view().len() implies v.deep_view()[k]
                        == (seq![u.subrange(1, i)] + rd)[k] by {
                        if k == 0 {
                            assert(v@[0] == name);
                        } else {
                            assert(v@[k] == old_rest[k - 1]);
                            assert(rd[k - 1] == old_rest[k - 1].deep_view());
                        }
                    }
                    assert(v.deep_view() =~= seq![u.subrange(1, i)] + rd);
                }
                Some(v)
            },
            None => None,
        }
    } else {
        proof {
            if hi - q >= 3 {
                assert(u[i + 1] == chars@[q + 1]);
                assert(u[i + 2] == chars@[q + 2]);
            }
        }
        None
    }
}

/// Parses the characters in `[lo, hi)` as the title line's content.
fn parse_title_range(s: &str, chars: &Vec<char>, lo: usize, hi: usize) -> (r: Option<String>)
    requires
        chars@ == s@,
        lo <= hi <= chars@.len(),
    ensures
        match r {
            Some(t) => parse_title_line(chars@.subrange(lo as int, hi as int)) == Some(t@),
            None => parse_title_line(chars@.subrange(lo as int, hi as int)) is None,
        },
{
    let ghost line = chars@.subrange(lo as int, hi as int);
    proof {
        lemma_token_chars();
    }
    if hi - lo >= 10 && range_eq_str(chars, lo, lo + 9, "title = \"") {
        proof {
            assert(line.subrange(0, 9) =~= chars@.subrange(lo as int, lo + 9));
            assert(title_prefix().is_prefix_of(line));
        }
        if chars[hi - 1] != '"' {
            proof {
                assert(line.last() == chars@[hi - 1]);
            }
            return None;
        }
        proof {
            assert(line.subrange(9, line.len() - 1) =~= chars@.subrange(lo + 9, hi - 1));
        }
        if !range_valid_text(chars, lo + 9, hi - 1) {
            return None;
        }
        Some(String::from_str(s.substring_char(lo + 9, hi - 1)))
    } else {
        proof {
            if hi - lo >= 10 {
                assert(line.subrange(0, 9) =~= chars@.subrange(lo as int, lo + 9));
            } else if hi - lo >= 9 {
                // The prefix may match, but there is no room for the closing quote.
                assert(line.len() < title_prefix().len() + 1);
            }
        }
        None
    }
}

/// Parses the characters in `[lo, hi)` as a rule line introduced by `key`.
fn parse_keyed_rule_range(
    s: &str,
    chars: &Vec<char>,
    lo: usize,
    hi: usize,
    key: &str,
) -> (r: Option<crate::auth::Access>)
    requires
        chars@ == s@,
        lo <= hi <= chars@.len(),
    ensures
        match r {
            Some(a) => parse_rule_line(chars@.subrange(lo as int, hi as int), key@) == Some(a@),
            None => parse_rule_line(chars@.subrange(lo as int, hi as int), key@) is None,
        },
{
    let ghost line = chars@.subrange(lo as int, hi as int);
    let kl = key.unicode_len();
    if hi - lo >= kl && range_eq_str(chars, lo, lo + kl, key) {
        proof {
            assert(line.subrange(0, kl as int) =~= chars@.subrange(lo as int, lo + kl as int));
            assert(key@.is_prefix_of(line));
            assert(line.skip(kl as int) =~= chars@.subrange(lo + kl as int, hi as int));
        }
        parse_rule_range(s, chars, lo + kl, hi)
    } else {
        proof {
            if hi - lo >= kl {
                assert(line.subrange(0, kl as int) =~= chars@.subrange(
                    lo as int,
                    lo + kl as int,
                ));
            }
        }
        None
    }
}

/// Parses the characters in `[lo, hi)` as a whole metadata block.
fn parse_metadata_range(s: &str, chars: &Vec<char>, lo: usize, hi: usize) -> (r: Option<Metadata>)
    requires
        chars@ == s@,
        lo <= hi <= chars@.len(),
    ensures
        match r {
            Some(m) => parse_metadata(chars@.subrange(lo as int, hi as int)) == Some(m@),
            None => parse_metadata(chars@.subrange(lo as int, hi as int)) is None,
        },
{
    let ghost t = chars@.subrange(lo as int, hi as int);
    let (l1_lo, l1_hi, rest1) = match split_line_range(chars, lo, hi) {
        Some(x) => x,
        None => {
            return None;
        },
    };
    let ghost t1 = chars@.subrange(rest1 as int, hi as int);
    let (l2_lo, l2_hi, rest2) = match split_line_range(chars, rest1, hi) {
        Some(x) => x,
        None => {
            return None;
        },
    };
    let ghost t2 = chars@.subrange(rest2 as int, hi as int);
    let (l3_lo, l3_hi, rest3) = match split_line_range(chars, rest2, hi) {
        Some(x) => x,
        None => {
            return None;
        },
    };
    if rest3 != hi {
        proof {
            assert(chars@.subrange(rest3 as int, hi as int).len() != 0);
        }
        return None;
    }
    proof {
        assert(chars@.subrange(rest3 as int, hi as int).len() == 0);
    }
    let title = match parse_title_range(s, chars, l1_lo, l1_hi) {
        Some(x) => x,
        None => {
            return None;
        },
    };
    let view_access = match parse_keyed_rule_range(s, chars, l2_lo, l2_hi, "view_rule = ") {
        Some(x) => x,
        None => {
            return None;
        },
    };
    let edit_access = match parse_keyed_rule_range(s, chars, l3_lo, l3_hi, "edit_rule = ") {
        Some(x) => x,
        None => {
            return None;
        },
    };
    Some(Metadata { title, edit_access, view_access })
}

/// Splits off the first line of the characters in `[lo, hi)`: the content
/// range of the line with its terminator removed, and the start of the rest.
fn split_line_range(chars: &Vec<char>, lo: usize, hi: usize) -> (r: Option<(usize, usize, usize)>)
    requires
        lo <= hi <= chars@.len(),
    ensures
        match r {
            Some((clo, chi, rest)) => {
                &&& lo <= clo <= chi <= hi
                &&& chi <= rest <= hi
                &&& split_line(chars@.subrange(lo as int, hi as int)) == Some(
                    (
                        chars@.subrange(clo as int, chi as int),
                        chars@.subrange(rest as int, hi as int),
                    ),
                )
            },
            None => split_line(chars@.subrange(lo as int, hi as int)) is None,
        },
{
    let ghost t = chars@.subrange(lo as int, hi as int);
    let j = find_nl_in(chars, lo, hi);
    proof {
        assert forall|k: int| 0 <= k < j - lo implies t[k] != '\n' by {
            assert(t[k] == chars@[lo + k]);
        }
        if j < hi {
            assert(t[j - lo] == chars@[j as int]);
        }
        lemma_line_len_at(t, j - lo);
    }
    if j == hi {
        // No line feed: the line runs to the end, so there is nothing to split.
        proof {
            if t.len() > 0 {
                assert(t[t.len() - 1] != '\n');
            }
        }
        return None;
    }
    let content_hi = if j > lo && chars[j - 1] == '\r' {
        j - 1
    } else {
        j
    };
    proof {
        let l = line_len_of(t);
        assert(l == j + 1 - lo);
        assert(t[l - 1] == chars@[j as int]);
        if j > lo {
            assert(t[l - 2] == chars@[j - 1]);
        }
        assert(t.subrange(0, content_hi - lo) =~= chars@.subrange(lo as int, content_hi as int));
        assert(t.skip(l) =~= chars@.subrange(j + 1, hi as int));
    }
    Some((lo, content_hi, j + 1))
}

/// The first line of `s`, including its terminator if it has one.
pub fn first_line_of(s: &str) -> (r: String)
    ensures
        r@ == s@.take(line_len_of(s@)),
{
    let chars = char_vec_of(s);
    let n = chars.len();
    let j = find_nl_in(&chars, 0, n);
    let e = if j < n {
        j + 1
    } else {
        n
    };
    proof {
        lemma_line_len_at(s@, j as int);
    }
    String::from_str(s.substring_char(0, e))
}

/// Parses a whole stream as a document, returning its metadata and body or
/// the specific way it is malformed.
pub fn parse_document_str(s: &str) -> (r: Result<(Metadata, String), ParseError>)
    ensures
        match r {
            Ok(p) => parse_document(s@) == (ParsedDoc::Parsed { metadata: p.0@, body: p.1@ }),
            Err(e) => match e {
                ParseError::MissingMetadataStart => parse_document(s@)
                    == ParsedDoc::MissingMetadataStart,
                ParseError::MissingMetadataEnd => parse_document(s@)
                    == ParsedDoc::MissingMetadataEnd,
                ParseError::InvalidMetadata { metadata } => parse_document(s@)
                    == ParsedDoc::InvalidMetadata && metadata@ == metadata_block_of(s@),
            },
        },
{
    proof {
        lemma_token_chars();
    }
    let chars = char_vec_of(s);
    let n = chars.len();
    let start: usize;
    if n >= 4 && range_eq_str(&chars, 0, 4, "+++\n") {
        proof {
            assert(s@.subrange(0, 4) =~= chars@.subrange(0, 4));
            assert(delim_line(nl()).is_prefix_of(s@));
        }
        start = 4;
    } else if n >= 5 && range_eq_str(&chars, 0, 5, "+++\r\n") {
        proof {
            assert(s@.subrange(0, 5) =~= chars@.subrange(0, 5));
            assert(delim_line(crlf()).is_prefix_of(s@));
            assert(delim_line(nl()).is_prefix_of(s@) ==> s@.subrange(0, 4)[3] == '\n');
            assert(s@.subrange(0, 4)[3] == s@[3]);
        }
        start = 5;
    } else {
        proof {
            if n >= 4 {
                assert(s@.subrange(0, 4) =~= chars@.subrange(0, 4));
            }
            if n >= 5 {
                assert(s@.subrange(0, 5) =~= chars@.subrange(0, 5));
            }
            assert(!delim_line(nl()).is_prefix_of(s@));
            assert(!delim_line(crlf()).is_prefix_of(s@));
        }
        return Err(ParseError::MissingMetadataStart);
    }
    let ghost framed = s@.skip(start as int);
    let (dpos, dlen) = match find_delim_pos(&chars, start) {
        Some(x) => x,
        None => {
            proof {
                assert(framed =~= chars@.skip(start as int));
            }
            return Err(ParseError::MissingMetadataEnd);
        },
    };
    proof {
        assert(framed =~= chars@.skip(start as int));
        assert(framed.take(dpos - start) =~= chars@.subrange(start as int, dpos as int));
    }
    let metadata = match parse_metadata_range(s, &chars, start, dpos) {
        Some(m) => m,
        None => {
            let block = String::from_str(s.substring_char(start, dpos));
            proof {
                assert(block@ == metadata_block_of(s@));
            }
            return Err(ParseError::InvalidMetadata { metadata: block });
        },
    };
    let body = String::from_str(s.substring_char(dpos + dlen, n));
    proof {
        assert(framed.skip(dpos - start + dlen) =~= s@.subrange((dpos + dlen) as int, n as int));
    }
    Ok((metadata, body))
}

// ---------------------------------------------------------------------------
// Round-trip: a serialized document parses back to itself.
// ---------------------------------------------------------------------------
/// A non-empty name list's text is at least a quoted name long.
proof fn lemma_names_text_len(names: Seq<Seq<char>>)
    requires
        names.len() > 0,
    ensures
        names_text(names).len() >= 2,
{
    lemma_token_chars();
}

/// The text of valid names stays within one line and keeps out of quotes'
/// way only where the names do.
proof fn lemma_names_text_clean(names: Seq<Seq<char>>)
    requires
        forall|i: int| 0 <= i < names.len() ==> valid_text(#[trigger] names[i]),
    ensures
        line_clean(names_text(names)),
    decreases names.len(),
{
    lemma_token_chars();
    if names.len() == 0 {
    } else if names.len() == 1 {
        assert(names_text(names) == quoted(names[0]));
    } else {
        lemma_names_text_clean(names.drop_first());
    }
}

/// The text of a valid rule stays within one line.
proof fn lemma_rule_text_clean(a: AccessView)
    requires
        valid_access(a),
    ensures
        line_clean(rule_text(a)),
{
    lemma_token_chars();
    match a {
        AccessView::Accounts(names) => {
            lemma_names_text_clean(names);
        },
        _ => {},
    }
}

/// Splitting a line off `content + term + rest` yields exactly `content`
/// and `rest`, for either terminator.
proof fn lemma_split_line_concat(content: Seq<char>, term: Seq<char>, rest: Seq<char>)
    requires
        line_clean(content),
        valid_term(term),
    ensures
        split_line(content + term + rest) == Some((content, rest)),
{
    lemma_token_chars();
    let s = content + term + rest;
    let j = if term == nl() {
        content.len() as int
    } else {
        content.len() as int + 1
    };
    assert(s[j] == '\n');
    lemma_line_len_at(s, j);
    let l = line_len_of(s);
    assert(l == j + 1);
    if term == nl() {
        if l >= 2 {
            assert(s[l - 2] == content.last());
            assert(s[l - 2] != '\r');
        }
        assert(s.subrange(0, l - 1) =~= content);
    } else {
        assert(s[l - 2] == '\r');
        assert(s.subrange(0, l - 2) =~= content);
    }
    assert(s.skip(l) =~= rest);
}

/// The delimiter scan passes over one whole non-delimiter line.
proof fn lemma_find_delim_over_line(content: Seq<char>, term: Seq<char>, rest: Seq<char>)
    requires
        content.len() > 0,
        content[0] != '+',
        line_clean(content),
        valid_term(term),
    ensures
        find_delim_line(content + term + rest) == match find_delim_line(rest) {
            None => None::<(int, int)>,
            Some((o, d)) => Some((o + content.len() + term.len(), d)),
        },
{
    lemma_token_chars();
    let s = content + term + rest;
    assert(s[0] == content[0]);
    assert(delim_line(nl()).is_prefix_of(s) ==> s.subrange(0, 4)[0] == '+');
    assert(delim_line(crlf()).is_prefix_of(s) ==> s.subrange(0, 5)[0] == '+');
    assert(s.subrange(0, 4)[0] == s[0] || s.len() < 4);
    assert(!delim_line(nl()).is_prefix_of(s)) by {
        if delim_line(nl()).is_prefix_of(s) {
            assert(s.subrange(0, 4)[0] == s[0]);
        }
    }
    assert(!delim_line(crlf()).is_prefix_of(s)) by {
        if delim_line(crlf()).is_prefix_of(s) {
            assert(s.subrange(0, 5)[0] == s[0]);
        }
    }
    let j = if term == nl() {
        content.len() as int
    } else {
        content.len() as int + 1
    };
    assert(s[j] == '\n');
    lemma_line_len_at(s, j);
    let l = line_len_of(s);
    assert(l == content.len() + term.len());
    assert(s.skip(l) =~= rest);
}

/// The delimiter scan stops right away on a delimiter line.
proof fn lemma_find_delim_at_delim(term: Seq<char>, rest: Seq<char>)
    requires
        valid_term(term),
    ensures
        find_delim_line(delim_line(term) + rest) == Some(
            (0int, delim_line(term).len() as int),
        ),
{
    lemma_token_chars();
    let s = delim_line(term) + rest;
    if term == nl() {
        assert(s.subrange(0, 4) =~= delim_line(nl()));
        assert(delim_line(nl()).is_prefix_of(s));
    } else {
        assert(s.subrange(0, 5) =~= delim_line(crlf()));
        assert(delim_line(crlf()).is_prefix_of(s));
        assert(s[3] == '\r');
        assert(!delim_line(nl()).is_prefix_of(s)) by {
            if delim_line(nl()).is_prefix_of(s) {
                assert(s.subrange(0, 4)[3] == s[3]);
            }
        }
    }
}

/// A serialized name list parses back to exactly those names.
proof fn lemma_parse_names_roundtrip(names: Seq<Seq<char>>)
    requires
        names.len() > 0,
        forall|i: int| 0 <= i < names.len() ==> valid_text(#[trigger] names[i]),
    ensures
        parse_names(names_text(names)) == Some(names),
    decreases names.len(),
{
    lemma_token_chars();
    let u = names_text(names);
    let n0 = names[0];
    if names.len() == 1 {
        assert(u == quoted(n0));
        assert(u.len() == n0.len() + 2);
        assert(u[0] == '"');
        assert(u.skip(1) =~= n0 + "\""@);
        assert forall|k: int| 0 <= k < n0.len() implies u.skip(1)[k] != '"' by {
            assert(u.skip(1)[k] == n0[k]);
        }
        assert(u.skip(1)[n0.len() as int] == '"');
        lemma_first_quote_at(u.skip(1), n0.len() as int);
        let i = 1 + first_quote(u.skip(1));
        assert(i == u.len() - 1);
        assert(u.subrange(1, i) =~= n0);
        assert(parse_names(u) == Some(seq![n0]));
        assert(seq![n0] =~= names);
    } else {
        let restnames = names.drop_first();
        let resttext = names_text(restnames);
        lemma_names_text_len(restnames);
        assert(u == quoted(n0) + name_sep() + resttext);
        assert(u[0] == '"');
        assert(u.len() == n0.len() + 4 + resttext.len());
        let i = n0.len() as int + 1;
        assert forall|k: int| 0 <= k < n0.len() implies u.skip(1)[k] != '"' by {
            assert(u.skip(1)[k] == n0[k]);
        }
        assert(u.skip(1)[n0.len() as int] == u[i]);
        assert(u[i] == '"');
        lemma_first_quote_at(u.skip(1), n0.len() as int);
        assert(1 + first_quote(u.skip(1)) == i);
        assert(i < u.len());
        assert(u.subrange(1, i) =~= n0);
        assert(i != u.len() - 1);
        assert(u[i + 1] == ',');
        assert(u[i + 2] == ' ');
        assert(i + 3 <= u.len());
        assert(u.skip(i + 3) =~= resttext);
        lemma_parse_names_roundtrip(restnames);
        assert(parse_names(u) == Some(seq![n0] + restnames));
        assert(seq![n0] + restnames =~= names);
    }
}

/// A serialized rule parses back to exactly that rule.
proof fn lemma_parse_rule_roundtrip(a: AccessView)
    requires
        valid_access(a),
    ensures
        parse_rule(rule_text(a)) == Some(a),
{
    lemma_token_chars();
    let r = rule_text(a);
    match a {
        AccessView::Anonymous => {},
        AccessView::Authenticated => {
            assert(r != anonymous_rule());
        },
        AccessView::Accounts(names) => {
            let nt = names_text(names);
            assert(r == accounts_open() + nt + accounts_close());
            assert(r[0] == '{');
            assert(r != anonymous_rule());
            assert(r != authenticated_rule());
            assert(r.subrange(0, 14) =~= accounts_open());
            assert(accounts_open().is_prefix_of(r));
            assert(r.subrange(r.len() - 3, r.len() as int) =~= accounts_close());
            assert(accounts_close().is_suffix_of(r));
            assert(r.len() >= 17);
            let inner = r.subrange(14, r.len() - 3);
            assert(inner =~= nt);
            if names.len() == 0 {
                assert(inner.len() == 0);
                assert(parse_rule(r) == Some(AccessView::Accounts(Seq::<Seq<char>>::empty())));
                assert(names =~= Seq::<Seq<char>>::empty());
            } else {
                lemma_names_text_len(names);
                lemma_parse_names_roundtrip(names);
            }
        },
    }
}

/// A serialized metadata block parses back to exactly that metadata.
proof fn lemma_parse_metadata_roundtrip(m: MetadataView, term: Seq<char>)
    requires
        valid_metadata(m),
        valid_term(term),
    ensures
        parse_metadata(metadata_text(m, term)) == Some(m),
{
    lemma_token_chars();
    let t = metadata_text(m, term);
    let c1 = title_prefix() + m.title + "\""@;
    let c2 = view_rule_key() + rule_text(m.view_access);
    let c3 = edit_rule_key() + rule_text(m.edit_access);
    let r1 = c2 + term + (c3 + term);
    let r2 = c3 + term;
    assert(t =~= c1 + term + r1);
    assert(line_clean(c1)) by {
        lemma_rule_text_clean(m.view_access);
    }
    assert(line_clean(c2)) by {
        lemma_rule_text_clean(m.view_access);
    }
    assert(line_clean(c3)) by {
        lemma_rule_text_clean(m.edit_access);
    }
    lemma_split_line_concat(c1, term, r1);
    assert(r1 =~= c2 + term + r2);
    lemma_split_line_concat(c2, term, r2);
    assert(r2 =~= c3 + term + Seq::<char>::empty());
    lemma_split_line_concat(c3, term, Seq::<char>::empty());
    // The title line.
    assert(c1.subrange(0, 9) =~= title_prefix());
    assert(title_prefix().is_prefix_of(c1));
    assert(c1.len() >= 10);
    assert(c1.last() == '"');
    assert(c1.subrange(9, c1.len() - 1) =~= m.title);
    assert(parse_title_line(c1) == Some(m.title));
    // The two rule lines.
    assert(c2.subrange(0, 12) =~= view_rule_key());
    assert(view_rule_key().is_prefix_of(c2));
    assert(c2.skip(12) =~= rule_text(m.view_access));
    lemma_parse_rule_roundtrip(m.view_access);
    assert(parse_rule_line(c2, view_rule_key()) == Some(m.view_access));
    assert(c3.subrange(0, 12) =~= edit_rule_key());
    assert(edit_rule_key().is_prefix_of(c3));
    assert(c3.skip(12) =~= rule_text(m.edit_access));
    lemma_parse_rule_roundtrip(m.edit_access);
    assert(parse_rule_line(c3, edit_rule_key()) == Some(m.edit_access));
}

/// Round trip: a document serialized with either accepted terminator parses
/// back to exactly its metadata and its body.
#[verifier::rlimit(100)]
#[verifier::spinoff_prover]
pub proof fn lemma_roundtrip(m: MetadataView, body: Seq<char>, term: Seq<char>)
    requires
        valid_metadata(m),
        valid_term(term),
    ensures
        parse_document(document_text(m, body, term)) == (ParsedDoc::Parsed {
            metadata: m,
            body: body,
        }),
{
    lemma_token_chars();
    let doc = document_text(m, body, term);
    let mt = metadata_text(m, term);
    let tail = mt + (delim_line(term) + body);
    assert(doc =~= delim_line(term) + tail);
    // The opening delimiter line.
    if term == nl() {
        assert(doc.subrange(0, 4) =~= delim_line(nl()));
        assert(delim_line(nl()).is_prefix_of(doc));
        assert(doc.skip(4) =~= tail);
    } else {
        assert(doc.subrange(0, 5) =~= delim_line(crlf()));
        assert(delim_line(crlf()).is_prefix_of(doc));
        assert(doc[3] == '\r');
        assert(!delim_line(nl()).is_prefix_of(doc)) by {
            if delim_line(nl()).is_prefix_of(doc) {
                assert(doc.subrange(0, 4)[3] == doc[3]);
            }
        }
        assert(doc.skip(5) =~= tail);
    }
    // The scan for the closing delimiter walks over the three metadata lines.
    let c1 = title_prefix() + m.title + "\""@;
    let c2 = view_rule_key() + rule_text(m.view_access);
    let c3 = edit_rule_key() + rule_text(m.edit_access);
    assert(line_clean(c1) && line_clean(c2) && line_clean(c3)) by {
        lemma_rule_text_clean(m.view_access);
        lemma_rule_text_clean(m.edit_access);
    }
    let after3 = delim_line(term) + body;
    let rest2 = c3 + term + after3;
    let rest1 = c2 + term + rest2;
    assert(tail =~= c1 + term + rest1);
    assert(rest1 =~= c2 + term + rest2);
    lemma_find_delim_at_delim(term, body);
    lemma_find_delim_over_line(c3, term, after3);
    lemma_find_delim_over_line(c2, term, rest2);
    lemma_find_delim_over_line(c1, term, rest1);
    let off = mt.len() as int;
    assert(find_delim_line(tail) == Some((off, delim_line(term).len() as int)));
    // The metadata block is exactly what sits before the closing delimiter.
    assert(tail.take(off) =~= mt);
    lemma_parse_metadata_roundtrip(m, term);
    // The body is exactly what follows it.
    assert(tail.skip(off + delim_line(term).len()) =~= body);
}

/// Terminator tolerance: the two accepted terminators give documents that
/// parse identically.
pub proof fn lemma_terminator_tolerance(m: MetadataView, body: Seq<char>)
    requires
        valid_metadata(m),
    ensures
        parse_document(document_text(m, body, nl())) == parse_document(
            document_text(m, body, crlf()),
        ),
{
    lemma_roundtrip(m, body, nl());
    lemma_roundtrip(m, body, crlf());
}

/// A truncated scan: cutting a stream anywhere before the end of the first
/// delimiter line it holds (or anywhere, if it holds none) leaves a stream
/// with no delimiter line at all.
proof fn lemma_truncated_scan(u: Seq<char>, p: int)
    requires
        0 <= p <= u.len(),
        match find_delim_line(u) {
            None => true,
            Some((off, dl)) => p < off + dl,
        },
    ensures
        find_delim_line(u.take(p)) is None,
    decreases u.len(),
{
    lemma_token_chars();
    let t = u.take(p);
    if u.len() == 0 {
    } else if delim_line(nl()).is_prefix_of(u) {
        // p < 4: the cut keeps at most "+++", which holds no line feed.
        assert forall|k: int| 0 <= k < t.len() implies t[k] != '\n' by {
            assert(t[k] == u.subrange(0, 4)[k]);
        }
        lemma_no_nl_no_delim(t);
    } else if delim_line(crlf()).is_prefix_of(u) {
        assert forall|k: int| 0 <= k < t.len() implies t[k] != '\n' by {
            assert(t[k] == u.subrange(0, 5)[k]);
        }
        lemma_no_nl_no_delim(t);
    } else {
        let l = line_len_of(u);
        lemma_line_len_of_bounds(u);
        lemma_line_no_nl_before_end(u);
        if p < l {
            assert forall|k: int| 0 <= k < t.len() implies t[k] != '\n' by {
                assert(t[k] == u[k]);
            }
            lemma_no_nl_no_delim(t);
        } else {
            assert(!delim_line(nl()).is_prefix_of(t)) by {
                if delim_line(nl()).is_prefix_of(t) {
                    assert(u.subrange(0, 4) =~= t.subrange(0, 4));
                }
            }
            assert(!delim_line(crlf()).is_prefix_of(t)) by {
                if delim_line(crlf()).is_prefix_of(t) {
                    assert(u.subrange(0, 5) =~= t.subrange(0, 5));
                }
            }
            assert forall|k: int| 0 <= k < l - 1 implies t[k] != '\n' by {
                assert(t[k] == u[k]);
            }
            if l < t.len() {
                assert(t[l - 1] == u[l - 1]);
                assert(u[l - 1] == '\n') by {
                    if l < u.len() {
                        lemma_line_ends_nl(u);
                    }
                }
                lemma_line_len_at(t, l - 1);
            } else {
                // The whole cut is within the first line.
                if t.len() > 0 && t[t.len() - 1] == '\n' {
                    assert(t[t.len() - 1] == u[t.len() - 1]);
                }
                lemma_line_len_at(
                    t,
                    if t.len() > 0 && t[t.len() - 1] == '\n' {
                        t.len() - 1
                    } else {
                        t.len() as int
                    },
                );
            }
            if line_len_of(t) >= t.len() {
                assert(t.skip(line_len_of(t)) =~= Seq::<char>::empty());
                assert(find_delim_line(Seq::<char>::empty()) is None);
            } else {
                assert(line_len_of(t) == l);
                assert(t.skip(l) =~= u.skip(l).take(p - l));
                lemma_truncated_scan(u.skip(l), p - l);
            }
        }
    }
}

/// A stream without a line feed holds no delimiter line.
proof fn lemma_no_nl_no_delim(t: Seq<char>)
    requires
        forall|k: int| 0 <= k < t.len() ==> t[k] != '\n',
    ensures
        find_delim_line(t) is None,
{
    lemma_token_chars();
    if t.len() > 0 {
        assert(!delim_line(nl()).is_prefix_of(t)) by {
            if delim_line(nl()).is_prefix_of(t) {
                assert(t.subrange(0, 4)[3] == t[3]);
            }
        }
        assert(!delim_line(crlf()).is_prefix_of(t)) by {
            if delim_line(crlf()).is_prefix_of(t) {
                assert(t.subrange(0, 5)[4] == t[4]);
            }
        }
        lemma_line_len_at(t, t.len() as int);
        assert(t.skip(t.len() as int) =~= Seq::<char>::empty());
        assert(find_delim_line(Seq::<char>::empty()) is None);
    }
}

/// Within the first line, only the final character can be a line feed.
proof fn lemma_line_no_nl_before_end(u: Seq<char>)
    ensures
        forall|k: int| 0 <= k < line_len_of(u) - 1 ==> u[k] != '\n',
    decreases u.len(),
{
    if u.len() > 0 && u[0] != '\n' {
        lemma_line_len_of_bounds(u);
        lemma_line_no_nl_before_end(u.drop_first());
        assert forall|k: int| 0 <= k < line_len_of(u) - 1 implies u[k] != '\n' by {
            if k > 0 {
                assert(u.drop_first()[k - 1] == u[k]);
            }
        }
    }
}

/// If the first line ends before the stream does, it ends with a line feed.
proof fn lemma_line_ends_nl(u: Seq<char>)
    requires
        line_len_of(u) < u.len(),
    ensures
        u[line_len_of(u) - 1] == '\n',
    decreases u.len(),
{
    if u.len() > 0 && u[0] != '\n' {
        if u.len() > 1 {
            lemma_line_len_of_bounds(u.drop_first());
        } else {
            assert(line_len_of(u.drop_first()) == 0);
        }
        lemma_line_ends_nl(u.drop_first());
        assert(u.drop_first()[line_len_of(u.drop_first()) - 1] == u[line_len_of(u) - 1]);
    }
}

/// Truncation safety: a stream that opens with a delimiter line but is cut
/// before the closing delimiter line is complete parses to
/// `MissingMetadataEnd` -- never to a partial document.
pub proof fn lemma_truncation_safety(s: Seq<char>, p: int)
    requires
        parse_document(s) != ParsedDoc::MissingMetadataStart,
        ({
            let ol = if delim_line(nl()).is_prefix_of(s) {
                delim_line(nl()).len() as int
            } else {
                delim_line(crlf()).len() as int
            };
            &&& ol <= p <= s.len()
            &&& match find_delim_line(s.skip(ol)) {
                None => true,
                Some((off, dl)) => p - ol < off + dl,
            }
        }),
    ensures
        parse_document(s.take(p)) == ParsedDoc::MissingMetadataEnd,
{
    lemma_token_chars();
    let t = s.take(p);
    if delim_line(nl()).is_prefix_of(s) {
        assert(t.subrange(0, 4) =~= s.subrange(0, 4));
        assert(delim_line(nl()).is_prefix_of(t));
        assert(t.skip(4) =~= s.skip(4).take(p - 4));
        lemma_truncated_scan(s.skip(4), p - 4);
    } else {
        assert(delim_line(crlf()).is_prefix_of(s));
        assert(t.subrange(0, 5) =~= s.subrange(0, 5));
        assert(delim_line(crlf()).is_prefix_of(t));
        assert(s[3] == '\r');
        assert(t[3] == '\r');
        assert(!delim_line(nl()).is_prefix_of(t)) by {
            if delim_line(nl()).is_prefix_of(t) {
                assert(t.subrange(0, 4)[3] == t[3]);
            }
        }
        assert(t.skip(5) =~= s.skip(5).take(p - 5));
        lemma_truncated_scan(s.skip(5), p - 5);
    }
}

/// Bad first line: a stream parses to `MissingMetadataStart` exactly when
/// its first line is not a delimiter line.
pub proof fn lemma_bad_first_line(s: Seq<char>)
    ensures
        (parse_document(s) == ParsedDoc::MissingMetadataStart) <==> (s.take(line_len_of(s))
            != delim_line(nl()) && s.take(line_len_of(s)) != delim_line(crlf())),
{
    lemma_token_chars();
    let fl = s.take(line_len_of(s));
    if delim_line(nl()).is_prefix_of(s) {
        assert forall|k: int| 0 <= k < 3 implies s[k] != '\n' by {
            assert(s.subrange(0, 4)[k] == s[k]);
        }
        assert(s.subrange(0, 4)[3] == s[3]);
        lemma_line_len_at(s, 3);
        assert(fl =~= s.subrange(0, 4));
    } else if delim_line(crlf()).is_prefix_of(s) {
        assert forall|k: int| 0 <= k < 4 implies s[k] != '\n' by {
            assert(s.subrange(0, 5)[k] == s[k]);
        }
        assert(s.subrange(0, 5)[4] == s[4]);
        lemma_line_len_at(s, 4);
        assert(fl =~= s.subrange(0, 5));
    } else {
        assert(fl != delim_line(nl())) by {
            if fl == delim_line(nl()) {
                lemma_line_len_of_bounds(s);
                assert(s.subrange(0, 4) =~= fl);
            }
        }
        assert(fl != delim_line(crlf())) by {
            if fl == delim_line(crlf()) {
                lemma_line_len_of_bounds(s);
                assert(s.subrange(0, 5) =~= fl);
            }
        }
    }
}

} // verus!
