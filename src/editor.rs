//! The editor side: notifications and tasks, and the parts of answering an
//! editor request that are decided here rather than fetched.
use vstd::prelude::*;
use crate::auth::{opt_view, CodyCredentials};
use crate::decimal::{decimal_text_of, push_decimal};
use crate::entry::{bufname_of, Entry, ProtoEntry};
use crate::protocol::{Message, ResponseTypes};
use crate::codec::utf8_text;
use crate::types::{PathInfo, RecipeInfo};
use vstd::string::StringSliceAdditionalSpecFns;
use vstd::utf8::{
    decode_first_scalar, decode_utf8, decode_utf8_encode_utf8, decode_utf8_split, encode_scalar, encode_utf8, encode_utf8_decode_utf8, encode_utf8_valid_utf8,
    is_char_boundary_iff_not_is_continuation_byte, length_of_first_scalar, pop_first_scalar, valid_first_scalar,
    valid_utf8, valid_utf8_split,
};

verus! {

/// A notification to the editor.
#[derive(Debug, Clone)]
pub enum Notification {
    Initialize { endpoint: Option<String>, token: Option<String> },
    DisplayText { message: String },
    UpdateChat { message: String },
    Hack { json: String },
}

/// Work started on behalf of a request that outlives it.
#[derive(Debug, Clone, Copy, PartialEq, Eq, Structural)]
pub enum NeovimTasks {
    /// Wait for the browser login to hand a token to a local listener.
    Authentication { port: usize },
}

/// A secret that is never shown.
#[derive(Clone)]
pub struct SecretString(pub String);

/// The web address of an entry on the service at `endpoint`, with a line
/// range for files: a single point is `?L<line>` (column 0) or
/// `?L<line>:<col>`; a span is `?L<line>:<col>-<line>:<col>`.
pub open spec fn link_of(e: Entry, endpoint: Seq<char>, sl: usize, sc: usize, el: usize, ec: usize) -> Seq<char> {
    match e {
        Entry::File(f) => {
            let prefix = endpoint + "/"@ + f.remote.0@ + "/-/blob/"@ + f.path@ + "?L"@ + decimal_text_of(sl as nat);
            if sl == el && sc == ec {
                if sc == 0 {
                    prefix
                } else {
                    prefix + ":"@ + decimal_text_of(sc as nat)
                }
            } else {
                prefix + ":"@ + decimal_text_of(sc as nat) + "-"@ + decimal_text_of(el as nat) + ":"@
                    + decimal_text_of(ec as nat)
            }
        },
        Entry::Directory(d) => endpoint + "/"@ + d.remote.0@ + "/-/tree/"@ + d.path@,
        Entry::Repo(r) => endpoint + "/"@ + r.remote.0@ + "@"@ + r.oid.0@,
    }
}

pub fn entry_link(
    entry: &Entry,
    endpoint: &str,
    start_line: usize,
    start_col: usize,
    end_line: usize,
    end_col: usize,
) -> (r: String)
    ensures
        r@ == link_of(*entry, endpoint@, start_line, start_col, end_line, end_col),
{
    let mut s = String::from_str(endpoint);
    s.append("/");
    match entry {
        Entry::File(file) => {
            s.append(file.remote.0.as_str());
            s.append("/-/blob/");
            s.append(file.path.as_str());
            s.append("?L");
            push_decimal(&mut s, start_line);
            if start_line == end_line && start_col == end_col {
                if start_col != 0 {
                    s.append(":");
                    push_decimal(&mut s, start_col);
                }
            } else {
                s.append(":");
                push_decimal(&mut s, start_col);
                s.append("-");
                push_decimal(&mut s, end_line);
                s.append(":");
                push_decimal(&mut s, end_col);
            }
        },
        Entry::Directory(dir) => {
            s.append(dir.remote.0.as_str());
            s.append("/-/tree/");
            s.append(dir.path.as_str());
        },
        Entry::Repo(repo) => {
            s.append(repo.remote.0.as_str());
            s.append("@");
            s.append(repo.oid.0.as_str());
        },
    }
    s
}

/// The credentials to store after an authentication request: cleared ones
/// when asked to clear, else the given ones if any is given; `None` leaves
/// the stored credentials alone.
pub fn auth_update(endpoint: Option<String>, token: Option<SecretString>, clear: bool) -> (r: Option<CodyCredentials>)
    ensures
        clear ==> (r matches Some(c) && c.endpoint is None && c.token is None),
        !clear ==> (r is Some <==> endpoint is Some || token is Some),
        !clear ==> (r matches Some(c) ==> opt_view(c.endpoint) == opt_view(endpoint) && opt_view(c.token) == match token {
            Some(t) => Some(t.0@),
            None => None::<Seq<char>>,
        }),
{
    if clear {
        return Some(CodyCredentials { endpoint: None, token: None });
    }
    let token = match token {
        Some(t) => Some(t.0),
        None => None,
    };
    if token.is_some() || endpoint.is_some() {
        Some(CodyCredentials { endpoint, token })
    } else {
        None
    }
}

/// The text that `lines` make when joined with `\n`.
pub open spec fn join_lines(lines: Seq<Seq<char>>) -> Seq<char>
    decreases lines.len(),
{
    if lines.len() == 0 {
        Seq::empty()
    } else if lines.len() == 1 {
        lines[0]
    } else {
        join_lines(lines.drop_last()) + seq!['\n'] + lines.last()
    }
}

pub open spec fn newline_free(l: Seq<char>) -> bool {
    forall|k: int| 0 <= k < l.len() ==> l[k] != '\n'
}

pub open spec fn line_views(v: Seq<String>) -> Seq<Seq<char>> {
    v.map_values(|l: String| l@)
}

proof fn lemma_join_push(lines: Seq<Seq<char>>, x: Seq<char>)
    ensures
        lines.len() == 0 ==> join_lines(lines.push(x)) == x,
        lines.len() > 0 ==> join_lines(lines.push(x)) == join_lines(lines) + seq!['\n'] + x,
{
    assert(lines.push(x).drop_last() =~= lines);
}

/// Text with no newline byte decodes to characters with no newline.
proof fn lemma_no_newline_decoded(z: Seq<u8>)
    requires
        valid_utf8(z),
        forall|k: int| 0 <= k < z.len() ==> z[k] != 10,
    ensures
        newline_free(decode_utf8(z)),
    decreases z.len(),
{
    if z.len() > 0 {
        let rest = pop_first_scalar(z);
        assert(valid_first_scalar(z));
        let first = decode_first_scalar(z);
        assert forall|k: int| 0 <= k < rest.len() implies rest[k] != 10 by {
            assert(rest[k] == z[k + length_of_first_scalar(z)]);
        }
        lemma_no_newline_decoded(rest);
        let d = decode_utf8(z);
        assert(d == seq![first as char] + decode_utf8(rest));
        if d[0] == '\n' {
            decode_utf8_encode_utf8(z);
            assert(('\n' as u32) == 10u32);
            assert(((10u32 & 0x7f) as u8) == 10u8) by (bit_vector);
            assert(encode_scalar(d[0] as u32) =~= seq![10u8]);
            assert(encode_utf8(d) == encode_scalar(d[0] as u32) + encode_utf8(d.drop_first()));
            assert(z[0] == 10);
        }
        assert forall|k: int| 0 <= k < d.len() implies d[k] != '\n' by {
            if k > 0 {
                assert(d[k] == decode_utf8(rest)[k - 1]);
            }
        }
    }
}

/// At a newline byte of valid text: the text before it, the newline, and the
/// (valid) text after it.
proof fn lemma_split_at_newline(x: Seq<u8>, j: int)
    requires
        valid_utf8(x),
        0 <= j < x.len(),
        x[j] == 10,
    ensures
        valid_utf8(x.subrange(0, j)),
        valid_utf8(x.subrange(j + 1, x.len() as int)),
        decode_utf8(x) == decode_utf8(x.subrange(0, j)) + seq!['\n'] + decode_utf8(
            x.subrange(j + 1, x.len() as int),
        ),
{
    is_char_boundary_iff_not_is_continuation_byte(x, j);
    valid_utf8_split(x, j);
    decode_utf8_split(x, j);
    let y = x.subrange(j, x.len() as int);
    assert(y[0] == 10);
    assert(valid_first_scalar(y));
    assert(length_of_first_scalar(y) == 1);
    assert((10u8 & 0x7f) == 10u8) by (bit_vector);
    assert(decode_first_scalar(y) == 10);
    assert(pop_first_scalar(y) =~= x.subrange(j + 1, x.len() as int));
    assert(decode_utf8(y) == seq![decode_first_scalar(y) as char] + decode_utf8(pop_first_scalar(y)));
    assert(seq![decode_first_scalar(y) as char] =~= seq!['\n']);
}

fn copy_bytes(b: &[u8], from: usize, to: usize) -> (r: Vec<u8>)
    requires
        from <= to <= b@.len(),
    ensures
        r@ == b@.subrange(from as int, to as int),
{
    let mut out: Vec<u8> = Vec::new();
    let mut i: usize = from;
    while i < to
        invariant
            from <= i <= to <= b@.len(),
            out@ == b@.subrange(from as int, i as int),
        decreases to - i,
    {
        out.push(b[i]);
        assert(b@.subrange(from as int, i as int + 1) =~= b@.subrange(from as int, i as int).push(b@[i as int]));
        i = i + 1;
    }
    out
}

fn decode_line(b: &[u8], from: usize, to: usize) -> (r: String)
    requires
        from <= to <= b@.len(),
        valid_utf8(b@.subrange(from as int, to as int)),
    ensures
        r@ == decode_utf8(b@.subrange(from as int, to as int)),
{
    match utf8_text(copy_bytes(b, from, to)) {
        Some(t) => t,
        None => String::new(),
    }
}

/// The lines of a file's contents, split at each `\n`: joined with `\n` they
/// give back the contents, and none holds a `\n`.
pub fn file_lines(contents: &str) -> (r: Vec<String>)
    ensures
        r@.len() >= 1,
        join_lines(line_views(r@)) == contents@,
        forall|i: int| 0 <= i < r@.len() ==> newline_free(#[trigger] r@[i]@),
{
    let b = contents.as_bytes();
    let n = b.len();
    proof {
        encode_utf8_valid_utf8(contents@);
        encode_utf8_decode_utf8(contents@);
        assert(b@.subrange(0, n as int) =~= b@);
        lemma_join_push(Seq::empty(), contents@);
        assert(line_views(Seq::<String>::empty()) =~= Seq::empty());
    }
    let mut out: Vec<String> = Vec::new();
    let mut start: usize = 0;
    let mut i: usize = 0;
    while i < n
        invariant
            n == b@.len(),
            b@ == contents.spec_bytes(),
            start <= i <= n,
            valid_utf8(b@.subrange(start as int, n as int)),
            join_lines(line_views(out@).push(decode_utf8(b@.subrange(start as int, n as int)))) == contents@,
            forall|k: int| start <= k < i ==> b@[k] != 10,
            forall|k: int| 0 <= k < out@.len() ==> newline_free(#[trigger] out@[k]@),
        decreases n - i,
    {
        if b[i] == 10 {
            let ghost x = b@.subrange(start as int, n as int);
            let ghost j = i - start;
            proof {
                assert(x[j] == 10);
                lemma_split_at_newline(x, j);
                assert(x.subrange(0, j) =~= b@.subrange(start as int, i as int));
                assert(x.subrange(j + 1, x.len() as int) =~= b@.subrange(i as int + 1, n as int));
                assert forall|k: int| 0 <= k < x.subrange(0, j).len() implies x.subrange(0, j)[k] != 10 by {
                    assert(x.subrange(0, j)[k] == b@[start + k]);
                }
                lemma_no_newline_decoded(x.subrange(0, j));
            }
            let line = decode_line(b, start, i);
            let ghost before = line_views(out@);
            let ghost rest = decode_utf8(b@.subrange(i as int + 1, n as int));
            out.push(line);
            proof {
                assert(line_views(out@) =~= before.push(line@));
                lemma_join_push(before, line@ + seq!['\n'] + rest);
                lemma_join_push(before, line@);
                lemma_join_push(before.push(line@), rest);
                assert(line@ + seq!['\n'] + rest =~= decode_utf8(x));
                assert(before.push(line@ + seq!['\n'] + rest) =~= before.push(decode_utf8(x)));
                assert(join_lines(before.push(line@).push(rest)) =~= join_lines(before.push(decode_utf8(x))));
            }
            start = i + 1;
        }
        i = i + 1;
    }
    proof {
        assert forall|k: int| 0 <= k < b@.subrange(start as int, n as int).len() implies b@.subrange(
            start as int,
            n as int,
        )[k] != 10 by {
            assert(b@.subrange(start as int, n as int)[k] == b@[start + k]);
        }
        lemma_no_newline_decoded(b@.subrange(start as int, n as int));
    }
    let last = decode_line(b, start, n);
    let ghost before = line_views(out@);
    out.push(last);
    assert(line_views(out@) =~= before.push(last@));
    out
}

/// `p` is how the editor sees the entry that `info` describes.
pub open spec fn proto_entry_of_info(info: PathInfo, p: ProtoEntry) -> bool {
    &&& p.bufname@ == bufname_of(info.remote@, info.oid@, Some(info.path@))
    &&& if info.is_directory {
        &&& p.kind@ == "directory"@
        &&& p.data matches Entry::Directory(d) && d.remote.0@ == info.remote@ && d.oid.0@ == info.oid@
            && d.path@ == info.path@
    } else {
        &&& p.kind@ == "file"@
        &&& p.data matches Entry::File(f) && f.remote.0@ == info.remote@ && f.oid.0@ == info.oid@ && f.path@
            == info.path@ && f.position is None
    }
}

/// The entries of a directory listing, in order, as the editor sees them.
pub fn directory_entries(infos: &Vec<PathInfo>) -> (r: Vec<ProtoEntry>)
    ensures
        r@.len() == infos@.len(),
        forall|i: int| 0 <= i < infos@.len() ==> proto_entry_of_info(infos@[i], #[trigger] r@[i]),
{
    let mut out: Vec<ProtoEntry> = Vec::new();
    let mut i: usize = 0;
    while i < infos.len()
        invariant
            0 <= i <= infos@.len(),
            out@.len() == i,
            forall|k: int| 0 <= k < i ==> proto_entry_of_info(infos@[k], #[trigger] out@[k]),
        decreases infos@.len() - i,
    {
        let info = &infos[i];
        let copy = PathInfo {
            remote: String::from_str(info.remote.as_str()),
            oid: String::from_str(info.oid.as_str()),
            path: String::from_str(info.path.as_str()),
            is_directory: info.is_directory,
        };
        let entry = Entry::from_info(copy);
        out.push(ProtoEntry::from_entry(entry));
        i = i + 1;
    }
    out
}

/// The recipes in `msg` if it is the response to request `expected_id` and
/// carries recipes; anything else is not the awaited answer.
pub fn recipes_reply(expected_id: usize, msg: Message) -> (r: Option<Vec<RecipeInfo>>)
    ensures
        match msg {
            Message::Response(resp) => match resp.result {
                ResponseTypes::Recipes(v) => if resp.id == expected_id {
                    r == Some(v)
                } else {
                    r is None
                },
                _ => r is None,
            },
            _ => r is None,
        },
{
    match msg {
        Message::Response(resp) => {
            if resp.id != expected_id {
                return None;
            }
            match resp.result {
                ResponseTypes::Recipes(v) => Some(v),
                _ => None,
            }
        },
        _ => None,
    }
}

} // verus!
