//! Virtual paths: `sg://<remote>[@<revision>][/-/[blob/|tree/]<path>[?L<line>[:<col>][-<line>:<col>]]]`.
use vstd::prelude::*;
use crate::decimal::{parse_char_numeral, parse_number};
use crate::entry::{Directory, Entry, File, Position, Repo};
use crate::text::{find_text, find_text_from, is_prefix_of, slice_text, starts_with_text};
use crate::types::{Remote, OID};

verus! {

#[derive(Debug, Clone, Copy, PartialEq, Eq, Structural)]
pub enum ParseError {
    /// The part after `/-/` holds more than one `?`.
    TooManyQuestionMarks,
}

/// A virtual path taken apart. `path` is `None` for the repository form (no
/// `/-/`); the revision is still symbolic.
#[derive(Debug, Clone)]
pub struct VirtualPath {
    pub remote: String,
    pub revision: String,
    pub path: Option<String>,
    pub position: Option<Position>,
}

pub open spec fn strip_text_prefix(s: Seq<char>, p: Seq<char>) -> Seq<char> {
    if is_prefix_of(p, s) {
        s.subrange(p.len() as int, s.len() as int)
    } else {
        s
    }
}

/// Drops the endpoint or the `sg://` scheme, then one leading `/`, and spells
/// the `gh/` alias out as `github.com/`.
pub open spec fn normalize_spec(raw: Seq<char>, endpoint: Seq<char>) -> Seq<char> {
    let a = if endpoint.len() > 0 && is_prefix_of(endpoint, raw) {
        raw.subrange(endpoint.len() as int, raw.len() as int)
    } else {
        strip_text_prefix(raw, "sg://"@)
    };
    let b = strip_text_prefix(a, "/"@);
    if is_prefix_of("gh/"@, b) {
        "github.com/"@ + strip_text_prefix(b, "gh/"@)
    } else {
        b
    }
}

/// `remote@revision` taken apart at the first `@`; the revision is `HEAD`
/// when there is none.
pub open spec fn split_revision_spec(s: Seq<char>) -> (Seq<char>, Seq<char>) {
    match find_text(s, "@"@, 0) {
        Some(i) => (s.subrange(0, i), s.subrange(i + "@"@.len(), s.len() as int)),
        None => (s, "HEAD"@),
    }
}

/// The path without a leading `blob/` or `tree/` hint.
pub open spec fn strip_kind_hint_spec(s: Seq<char>) -> Seq<char> {
    if is_prefix_of("blob/"@, s) {
        strip_text_prefix(s, "blob/"@)
    } else {
        strip_text_prefix(s, "tree/"@)
    }
}

/// `<line>` or `<line>:<col>`.
pub open spec fn parse_point_spec(s: Seq<char>) -> Option<Position> {
    match find_text(s, ":"@, 0) {
        None => match parse_char_numeral(s) {
            Some(l) => Some(Position::Line { line: l }),
            None => None,
        },
        Some(i) => match (parse_char_numeral(s.subrange(0, i)), parse_char_numeral(s.subrange(i + ":"@.len(), s.len() as int))) {
            (Some(l), Some(c)) => Some(Position::LineCol { line: l, col: c }),
            _ => None,
        },
    }
}

/// `L<line>`, `L<line>:<col>` or `L<line>:<col>-<line>:<col>`; anything else
/// gives no position.
pub open spec fn parse_position_spec(suffix: Seq<char>) -> Option<Position> {
    if !is_prefix_of("L"@, suffix) {
        None
    } else {
        let body = strip_text_prefix(suffix, "L"@);
        match find_text(body, "-"@, 0) {
            None => parse_point_spec(body),
            Some(i) => match (parse_point_spec(body.subrange(0, i)), parse_point_spec(body.subrange(i + "-"@.len(), body.len() as int))) {
                (Some(Position::LineCol { line: a, col: b }), Some(Position::LineCol { line: c, col: d })) => Some(
                    Position::Range { start_line: a, start_col: b, end_line: c, end_col: d },
                ),
                _ => None,
            },
        }
    }
}

/// A virtual path taken apart: remote, revision, path (none in the
/// repository form) and position.
pub open spec fn parse_virtual_path_spec(raw: Seq<char>, endpoint: Seq<char>) -> Result<
    (Seq<char>, Seq<char>, Option<Seq<char>>, Option<Position>),
    ParseError,
> {
    let s = normalize_spec(raw, endpoint);
    match find_text(s, "/-/"@, 0) {
        None => {
            let (remote, revision) = split_revision_spec(s);
            Ok((remote, revision, None, None))
        },
        Some(i) => {
            let (remote, revision) = split_revision_spec(s.subrange(0, i));
            let rest = strip_kind_hint_spec(s.subrange(i + "/-/"@.len(), s.len() as int));
            match find_text(rest, "?"@, 0) {
                None => Ok((remote, revision, Some(rest), None)),
                Some(q) => {
                    let suffix = rest.subrange(q + "?"@.len(), rest.len() as int);
                    if find_text(suffix, "?"@, 0) is Some {
                        Err(ParseError::TooManyQuestionMarks)
                    } else {
                        Ok((remote, revision, Some(rest.subrange(0, q)), parse_position_spec(suffix)))
                    }
                },
            }
        },
    }
}

pub open spec fn virtual_path_matches(
    r: Result<VirtualPath, ParseError>,
    d: Result<(Seq<char>, Seq<char>, Option<Seq<char>>, Option<Position>), ParseError>,
) -> bool {
    match d {
        Err(e) => r == Err::<VirtualPath, ParseError>(e),
        Ok((remote, revision, path, position)) => match r {
            Ok(v) => v.remote@ == remote && v.revision@ == revision && v.position == position && match path {
                Some(p) => v.path matches Some(q) && q@ == p,
                None => v.path is None,
            },
            Err(_) => false,
        },
    }
}

pub fn strip_prefix_text(s: &str, p: &str) -> (r: String)
    ensures
        r@ == strip_text_prefix(s@, p@),
{
    if starts_with_text(s, p) {
        slice_text(s, p.unicode_len(), s.unicode_len())
    } else {
        String::from_str(s)
    }
}

/// Normalizes a raw virtual path against the configured endpoint.
pub fn normalize_url(raw: &str, endpoint: &str) -> (r: String)
    ensures
        r@ == normalize_spec(raw@, endpoint@),
{
    let a = if endpoint.unicode_len() > 0 && starts_with_text(raw, endpoint) {
        slice_text(raw, endpoint.unicode_len(), raw.unicode_len())
    } else {
        strip_prefix_text(raw, "sg://")
    };
    let b = strip_prefix_text(a.as_str(), "/");
    if starts_with_text(b.as_str(), "gh/") {
        let mut out = String::from_str("github.com/");
        let tail = strip_prefix_text(b.as_str(), "gh/");
        out.append(tail.as_str());
        out
    } else {
        b
    }
}

fn split_revision(s: &str) -> (r: (String, String))
    ensures
        (r.0@, r.1@) == split_revision_spec(s@),
{
    let at = "@";
    let slen = s.unicode_len();
    let plen = at.unicode_len();
    match find_text_from(s, at, 0) {
        Some(i) => (slice_text(s, 0, i), slice_text(s, i + plen, slen)),
        None => (String::from_str(s), String::from_str("HEAD")),
    }
}

fn parse_point(s: &str) -> (r: Option<Position>)
    ensures
        r == parse_point_spec(s@),
{
    let colon = ":";
    let slen = s.unicode_len();
    let plen = colon.unicode_len();
    match find_text_from(s, colon, 0) {
        None => match parse_number(s) {
            Some(l) => Some(Position::Line { line: l }),
            None => None,
        },
        Some(i) => {
            let a = slice_text(s, 0, i);
            let b = slice_text(s, i + plen, slen);
            match (parse_number(a.as_str()), parse_number(b.as_str())) {
                (Some(l), Some(c)) => Some(Position::LineCol { line: l, col: c }),
                _ => None,
            }
        },
    }
}

/// Reads a position suffix (what follows the `?`); a malformed one gives
/// `None` rather than an error.
pub fn parse_position(suffix: &str) -> (r: Option<Position>)
    ensures
        r == parse_position_spec(suffix@),
{
    if !starts_with_text(suffix, "L") {
        return None;
    }
    let body = strip_prefix_text(suffix, "L");
    let dash = "-";
    let blen = body.unicode_len();
    let plen = dash.unicode_len();
    match find_text_from(body.as_str(), dash, 0) {
        None => parse_point(body.as_str()),
        Some(i) => {
            let a = slice_text(body.as_str(), 0, i);
            let b = slice_text(body.as_str(), i + plen, blen);
            match (parse_point(a.as_str()), parse_point(b.as_str())) {
                (Some(Position::LineCol { line: a, col: b }), Some(Position::LineCol { line: c, col: d })) => Some(
                    Position::Range { start_line: a, start_col: b, end_line: c, end_col: d },
                ),
                _ => None,
            }
        },
    }
}

fn strip_kind_hint(s: &str) -> (r: String)
    ensures
        r@ == strip_kind_hint_spec(s@),
{
    if starts_with_text(s, "blob/") {
        strip_prefix_text(s, "blob/")
    } else {
        strip_prefix_text(s, "tree/")
    }
}

/// Takes a virtual path apart. Fails only when the part after `/-/` holds more
/// than one `?`.
pub fn parse_virtual_path(raw: &str, endpoint: &str) -> (r: Result<VirtualPath, ParseError>)
    ensures
        virtual_path_matches(r, parse_virtual_path_spec(raw@, endpoint@)),
{
    let s = normalize_url(raw, endpoint);
    let sep = "/-/";
    let slen = s.unicode_len();
    let plen = sep.unicode_len();
    match find_text_from(s.as_str(), sep, 0) {
        None => {
            let (remote, revision) = split_revision(s.as_str());
            Ok(VirtualPath { remote, revision, path: None, position: None })
        },
        Some(i) => {
            let head = slice_text(s.as_str(), 0, i);
            let (remote, revision) = split_revision(head.as_str());
            let tail = slice_text(s.as_str(), i + plen, slen);
            let rest = strip_kind_hint(tail.as_str());
            let question = "?";
            let rlen = rest.unicode_len();
            let qlen = question.unicode_len();
            match find_text_from(rest.as_str(), question, 0) {
                None => Ok(VirtualPath { remote, revision, path: Some(rest), position: None }),
                Some(q) => {
                    let suffix = slice_text(rest.as_str(), q + qlen, rlen);
                    if find_text_from(suffix.as_str(), question, 0).is_some() {
                        Err(ParseError::TooManyQuestionMarks)
                    } else {
                        let path = slice_text(rest.as_str(), 0, q);
                        let position = parse_position(suffix.as_str());
                        Ok(VirtualPath { remote, revision, path: Some(path), position })
                    }
                },
            }
        },
    }
}

/// What a virtual path resolves to, once its revision is a commit and the
/// remote service has said whether its path is a directory.
pub open spec fn resolved_entry(remote: Seq<char>, path: Option<Seq<char>>, position: Option<Position>, commit: Seq<char>, is_directory: bool, e: Entry) -> bool {
    match path {
        None => e matches Entry::Repo(r) && r.remote.0@ == remote && r.oid.0@ == commit,
        Some(p) => if is_directory {
            e matches Entry::Directory(d) && d.remote.0@ == remote && d.oid.0@ == commit && d.path@ == p
        } else {
            e matches Entry::File(f) && f.remote.0@ == remote && f.oid.0@ == commit && f.path@ == p
                && f.position == position
        },
    }
}

impl VirtualPath {
    /// The entry this path names at `commit`. `is_directory` (what the remote
    /// service said of the path) decides between a file and a directory; the
    /// repository form ignores it.
    pub fn into_entry(self, commit: String, is_directory: bool) -> (r: Entry)
        ensures
            resolved_entry(
                self.remote@,
                match self.path {
                    Some(p) => Some(p@),
                    None => None,
                },
                self.position,
                commit@,
                is_directory,
                r,
            ),
    {
        let VirtualPath { remote, revision: _, path, position } = self;
        match path {
            None => Entry::Repo(Repo { remote: Remote(remote), oid: OID(commit) }),
            Some(p) => if is_directory {
                Entry::Directory(Directory { remote: Remote(remote), oid: OID(commit), path: p })
            } else {
                Entry::File(File { remote: Remote(remote), oid: OID(commit), path: p, position })
            },
        }
    }
}

} // verus!
