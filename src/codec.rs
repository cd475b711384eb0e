//! Length-prefixed message framing: ASCII header lines ended by CRLF, a blank
//! line, then exactly `Content-Length` bytes of UTF-8 text.
use vstd::prelude::*;
use vstd::utf8::{decode_utf8, encode_utf8, encode_utf8_decode_utf8, encode_utf8_valid_utf8, valid_utf8};
use crate::decimal::{
    byte_digits_value, decimal_bytes, decimal_bytes_of, lemma_decimal_bytes_parse, parse_byte_numeral,
    parse_digits,
};

verus! {

/// Why a frame could not be read.
#[derive(Debug, Clone, Copy, PartialEq, Eq, Structural)]
pub enum FramingError {
    /// A header line does not end in CRLF.
    MissingCrlf,
    /// A non-empty header line has no `": "` separator.
    MissingSeparator,
    /// The blank line came before any `Content-Length` header.
    MissingContentLength,
    /// The `Content-Length` value is not a number that fits.
    InvalidContentLength,
    /// The stream ended inside the headers or before the whole body.
    Truncated,
    /// The body is not UTF-8.
    InvalidUtf8,
}

/// What one header line tells the reader.
#[derive(Debug, Clone, Copy, PartialEq, Eq, Structural)]
pub enum HeaderStep {
    /// More headers follow; the content length known so far.
    Next(Option<usize>),
    /// The blank line: the body of this many bytes follows.
    Body(usize),
}

/// A decoded frame: its text, and how many input bytes it took.
pub struct Frame {
    pub body: String,
    pub consumed: usize,
}

/// `Content-Length`
pub open spec fn content_length_name() -> Seq<u8> {
    seq![67u8, 111u8, 110u8, 116u8, 101u8, 110u8, 116u8, 45u8, 76u8, 101u8, 110u8, 103u8, 116u8, 104u8]
}

pub open spec fn separator_at(s: Seq<u8>, i: int) -> bool {
    0 <= i && i + 1 < s.len() && s[i] == 58 && s[i + 1] == 32
}

/// The first position at or after `i` where `": "` starts.
pub open spec fn find_separator(s: Seq<u8>, i: int) -> Option<int>
    decreases s.len() - i,
{
    if i < 0 || i + 1 >= s.len() {
        None
    } else if separator_at(s, i) {
        Some(i)
    } else {
        find_separator(s, i + 1)
    }
}

/// What a header line (with its line terminator) means, given the content
/// length seen so far.
pub open spec fn header_line_step(line: Seq<u8>, length: Option<usize>) -> Result<HeaderStep, FramingError> {
    let n = line.len();
    if n < 2 || line[n - 2] != 13 || line[n - 1] != 10 {
        Err(FramingError::MissingCrlf)
    } else {
        let content = line.subrange(0, n - 2);
        if content.len() == 0 {
            match length {
                Some(k) => Ok(HeaderStep::Body(k)),
                None => Err(FramingError::MissingContentLength),
            }
        } else {
            match find_separator(content, 0) {
                None => Err(FramingError::MissingSeparator),
                Some(k) => if content.subrange(0, k) == content_length_name() {
                    match parse_byte_numeral(content.subrange(k + 2, content.len() as int)) {
                        Some(v) => Ok(HeaderStep::Next(Some(v))),
                        None => Err(FramingError::InvalidContentLength),
                    }
                } else {
                    Ok(HeaderStep::Next(length))
                },
            }
        }
    }
}

/// The end (one past the `\n`) of the line that starts at `i`; the end of
/// input if no `\n` follows.
pub open spec fn line_end(s: Seq<u8>, i: int) -> int
    decreases s.len() - i,
{
    if i < 0 || i >= s.len() {
        s.len() as int
    } else if s[i] == 10 {
        i + 1
    } else {
        line_end(s, i + 1)
    }
}

/// Reads header lines from `pos` on: where the body starts and its length.
pub open spec fn scan_headers(s: Seq<u8>, pos: int, length: Option<usize>) -> Result<(int, usize), FramingError>
    decreases s.len() - pos,
{
    if pos < 0 || pos >= s.len() {
        Err(FramingError::Truncated)
    } else {
        let e = line_end(s, pos);
        if e <= pos || e > s.len() {
            Err(FramingError::Truncated)
        } else {
            match header_line_step(s.subrange(pos, e), length) {
                Err(x) => Err(x),
                Ok(HeaderStep::Body(n)) => Ok((e, n)),
                Ok(HeaderStep::Next(l)) => scan_headers(s, e, l),
            }
        }
    }
}

/// What reading one frame from the start of `s` gives: `Ok(None)` at end of
/// stream (no bytes at all), else the body text and the bytes consumed.
pub open spec fn decode_frame_spec(s: Seq<u8>) -> Result<Option<(Seq<char>, int)>, FramingError> {
    if s.len() == 0 {
        Ok(None)
    } else {
        match scan_headers(s, 0, None) {
            Err(x) => Err(x),
            Ok((start, n)) => if start + n > s.len() {
                Err(FramingError::Truncated)
            } else if !valid_utf8(s.subrange(start, start + n)) {
                Err(FramingError::InvalidUtf8)
            } else {
                Ok(Some((decode_utf8(s.subrange(start, start + n)), start + n)))
            },
        }
    }
}

/// The header block for a body of `n` bytes.
pub open spec fn frame_header(n: nat) -> Seq<u8> {
    content_length_name() + seq![58u8, 32u8] + decimal_bytes_of(n) + seq![13u8, 10u8, 13u8, 10u8]
}

/// The frame that carries `text`.
pub open spec fn encode_frame_spec(text: Seq<char>) -> Seq<u8> {
    frame_header(encode_utf8(text).len()) + encode_utf8(text)
}

pub open spec fn frame_matches(r: Result<Option<Frame>, FramingError>, d: Result<Option<(Seq<char>, int)>, FramingError>) -> bool {
    match d {
        Err(x) => r == Err::<Option<Frame>, FramingError>(x),
        Ok(None) => r is Ok && r->Ok_0 is None,
        Ok(Some((text, used))) => r is Ok && r->Ok_0 is Some && r->Ok_0->Some_0.body@ == text
            && r->Ok_0->Some_0.consumed == used,
    }
}

fn content_length_bytes() -> (r: Vec<u8>)
    ensures
        r@ == content_length_name(),
{
    let v: Vec<u8> = vec![67, 111, 110, 116, 101, 110, 116, 45, 76, 101, 110, 103, 116, 104];
    assert(v@ =~= content_length_name());
    v
}

fn find_separator_exec(s: &[u8]) -> (r: Option<usize>)
    ensures
        r matches Some(k) ==> find_separator(s@, 0) == Some(k as int) && k + 1 < s@.len(),
        r is None ==> find_separator(s@, 0) is None,
{
    if s.len() < 2 {
        return None;
    }
    let mut i: usize = 0;
    while i < s.len() - 1
        invariant
            s@.len() >= 2,
            i <= s@.len() - 1,
            find_separator(s@, 0) == find_separator(s@, i as int),
        decreases s@.len() - i,
    {
        if s[i] == 58 && s[i + 1] == 32 {
            return Some(i);
        }
        i = i + 1;
    }
    None
}

fn bytes_equal(a: &[u8], b: &[u8]) -> (r: bool)
    ensures
        r == (a@ == b@),
{
    if a.len() != b.len() {
        return false;
    }
    let mut i: usize = 0;
    while i < a.len()
        invariant
            a@.len() == b@.len(),
            0 <= i <= a@.len(),
            a@.subrange(0, i as int) == b@.subrange(0, i as int),
        decreases a@.len() - i,
    {
        if a[i] != b[i] {
            assert(a@[i as int] != b@[i as int]);
            return false;
        }
        assert(a@.subrange(0, i as int + 1) =~= a@.subrange(0, i as int).push(a@[i as int]));
        assert(b@.subrange(0, i as int + 1) =~= b@.subrange(0, i as int).push(b@[i as int]));
        i = i + 1;
    }
    assert(a@.subrange(0, i as int) =~= a@);
    assert(b@.subrange(0, i as int) =~= b@);
    true
}

/// Interprets one header line, terminator included, given the content length
/// seen so far.
pub fn scan_header_line(line: &[u8], length: Option<usize>) -> (r: Result<HeaderStep, FramingError>)
    ensures
        r == header_line_step(line@, length),
{
    let n = line.len();
    if n < 2 || line[n - 2] != 13 || line[n - 1] != 10 {
        return Err(FramingError::MissingCrlf);
    }
    let content = &line[0..n - 2];
    assert(content@ == line@.subrange(0, n - 2));
    if content.len() == 0 {
        return match length {
            Some(k) => Ok(HeaderStep::Body(k)),
            None => Err(FramingError::MissingContentLength),
        };
    }
    match find_separator_exec(content) {
        None => Err(FramingError::MissingSeparator),
        Some(k) => {
            let name = &content[0..k];
            assert(find_separator(content@, 0) == Some(k as int));
            let expected = content_length_bytes();
            if bytes_equal(name, expected.as_slice()) {
                let value = &content[k + 2..content.len()];
                match parse_digits(value) {
                    Some(v) => Ok(HeaderStep::Next(Some(v))),
                    None => Err(FramingError::InvalidContentLength),
                }
            } else {
                Ok(HeaderStep::Next(length))
            }
        }
    }
}

fn line_end_exec(s: &[u8], start: usize) -> (e: usize)
    requires
        start < s@.len(),
    ensures
        e as int == line_end(s@, start as int),
        start < e <= s@.len(),
{
    let mut i: usize = start;
    while i < s.len()
        invariant
            start <= i <= s@.len(),
            line_end(s@, start as int) == line_end(s@, i as int),
        decreases s@.len() - i,
    {
        if s[i] == 10 {
            return i + 1;
        }
        i = i + 1;
    }
    i
}

/// Header state while a frame is read line by line from a stream.
pub struct FrameReader {
    length: Option<usize>,
    started: bool,
}

impl FrameReader {
    /// The content length seen so far in this frame's headers.
    pub closed spec fn length_seen(&self) -> Option<usize> {
        self.length
    }

    /// Whether any line of this frame has been read.
    pub closed spec fn has_started(&self) -> bool {
        self.started
    }

    pub fn new() -> (r: FrameReader)
        ensures
            r.length_seen() is None,
            !r.has_started(),
    {
        FrameReader { length: None, started: false }
    }

    /// Takes the next header line, terminator included.
    pub fn on_line(&mut self, line: &[u8]) -> (r: Result<HeaderStep, FramingError>)
        ensures
            r == header_line_step(line@, old(self).length_seen()),
            final(self).has_started(),
            final(self).length_seen() == match r {
                Ok(HeaderStep::Next(l)) => l,
                _ => old(self).length_seen(),
            },
    {
        self.started = true;
        let r = scan_header_line(line, self.length);
        if let Ok(HeaderStep::Next(l)) = r {
            self.length = l;
        }
        r
    }

    /// The input ended before the blank line: the normal end of the stream
    /// if no line of a new frame was read, else a truncated frame.
    pub fn on_end_of_input(&self) -> (r: Option<FramingError>)
        ensures
            r == (if self.has_started() {
                Some(FramingError::Truncated)
            } else {
                None
            }),
    {
        if self.started {
            Some(FramingError::Truncated)
        } else {
            None
        }
    }
}

/// Relies on `String::from_utf8`: it succeeds exactly on valid UTF-8 and then
/// holds the decoded characters.
#[verifier::external_body]
pub(crate) fn utf8_text(bytes: Vec<u8>) -> (r: Option<String>)
    ensures
        r is Some <==> valid_utf8(bytes@),
        r matches Some(t) ==> t@ == decode_utf8(bytes@),
{
    String::from_utf8(bytes).ok()
}

/// Turns a frame body into text.
pub fn frame_body_text(body: Vec<u8>) -> (r: Result<String, FramingError>)
    ensures
        r is Err <==> !valid_utf8(body@),
        r matches Err(x) ==> x == FramingError::InvalidUtf8,
        r matches Ok(t) ==> t@ == decode_utf8(body@),
{
    match utf8_text(body) {
        Some(t) => Ok(t),
        None => Err(FramingError::InvalidUtf8),
    }
}

/// Reads one frame from the start of `input`.
pub fn decode_frame(input: &[u8]) -> (r: Result<Option<Frame>, FramingError>)
    ensures
        frame_matches(r, decode_frame_spec(input@)),
{
    if input.len() == 0 {
        return Ok(None);
    }
    let mut pos: usize = 0;
    let mut length: Option<usize> = None;
    let mut start: usize = 0;
    let mut size: usize = 0;
    loop
        invariant
            input@.len() > 0,
            pos <= input@.len(),
            scan_headers(input@, 0, None) == scan_headers(input@, pos as int, length),
        ensures
            start <= input@.len(),
            scan_headers(input@, 0, None) == Ok::<(int, usize), FramingError>((start as int, size)),
        decreases input@.len() - pos,
    {
        if pos >= input.len() {
            return Err(FramingError::Truncated);
        }
        let e = line_end_exec(input, pos);
        match scan_header_line(&input[pos..e], length) {
            Err(x) => {
                return Err(x);
            },
            Ok(HeaderStep::Body(n)) => {
                start = e;
                size = n;
                break ;
            },
            Ok(HeaderStep::Next(l)) => {
                length = l;
                pos = e;
            },
        }
    }
    if size > input.len() - start {
        return Err(FramingError::Truncated);
    }
    let mut body: Vec<u8> = Vec::new();
    let mut i: usize = start;
    let end = start + size;
    while i < end
        invariant
            end == start + size,
            start <= i <= end <= input@.len(),
            body@ == input@.subrange(start as int, i as int),
        decreases end - i,
    {
        body.push(input[i]);
        assert(input@.subrange(start as int, i as int + 1) =~= input@.subrange(start as int, i as int).push(input@[i as int]));
        i = i + 1;
    }
    match frame_body_text(body) {
        Ok(text) => Ok(Some(Frame { body: text, consumed: end })),
        Err(x) => Err(x),
    }
}

fn append_bytes(out: &mut Vec<u8>, b: &[u8])
    ensures
        final(out)@ == old(out)@ + b@,
{
    let mut i: usize = 0;
    while i < b.len()
        invariant
            0 <= i <= b@.len(),
            out@ == old(out)@ + b@.subrange(0, i as int),
        decreases b@.len() - i,
    {
        out.push(b[i]);
        assert(b@.subrange(0, i as int + 1) =~= b@.subrange(0, i as int).push(b@[i as int]));
        i = i + 1;
    }
    assert(b@.subrange(0, i as int) =~= b@);
}

/// Frames `body`: one `Content-Length` header, the blank line, the UTF-8 bytes.
pub fn encode_frame(body: &str) -> (r: Vec<u8>)
    ensures
        r@ == encode_frame_spec(body@),
{
    let bytes = body.as_bytes();
    let mut out = content_length_bytes();
    append_bytes(&mut out, &[58u8, 32u8]);
    let digits = decimal_bytes(bytes.len());
    append_bytes(&mut out, digits.as_slice());
    append_bytes(&mut out, &[13u8, 10u8, 13u8, 10u8]);
    append_bytes(&mut out, bytes);
    assert(out@ =~= encode_frame_spec(body@));
    out
}

proof fn lemma_line_end_at(s: Seq<u8>, i: int, j: int)
    requires
        0 <= i <= j < s.len(),
        s[j] == 10,
        forall|k: int| i <= k < j ==> s[k] != 10,
    ensures
        line_end(s, i) == j + 1,
    decreases j - i,
{
    if i < j {
        lemma_line_end_at(s, i + 1, j);
    }
}

proof fn lemma_find_separator_at(s: Seq<u8>, i: int, j: int)
    requires
        0 <= i <= j,
        separator_at(s, j),
        forall|k: int| i <= k < j ==> !separator_at(s, k),
    ensures
        find_separator(s, i) == Some(j),
    decreases j - i,
{
    if i < j {
        lemma_find_separator_at(s, i + 1, j);
    }
}

proof fn lemma_content_length_name_bytes()
    ensures
        content_length_name().len() == 14,
        forall|k: int|
            0 <= k < 14 ==> #[trigger] content_length_name()[k] != 10 && content_length_name()[k] != 58,
{
    let cl = content_length_name();
    assert(cl[0] == 67);
    assert(cl[1] == 111);
    assert(cl[2] == 110);
    assert(cl[3] == 116);
    assert(cl[4] == 101);
    assert(cl[5] == 110);
    assert(cl[6] == 116);
    assert(cl[7] == 45);
    assert(cl[8] == 76);
    assert(cl[9] == 101);
    assert(cl[10] == 110);
    assert(cl[11] == 103);
    assert(cl[12] == 116);
    assert(cl[13] == 104);
}

/// A frame is refused, never cut short, when its first header line lacks the
/// CRLF terminator, when that line is non-empty without a `": "`, when the
/// blank line comes before any `Content-Length`, and when fewer body bytes
/// follow than the header announced.
pub proof fn lemma_framing_rejections(s: Seq<u8>)
    requires
        s.len() > 0,
    ensures
        ({
            let line = s.subrange(0, line_end(s, 0));
            let n = line.len();
            &&& (n < 2 || line[n - 2] != 13 || line[n - 1] != 10) ==> decode_frame_spec(s) == Err::<
                Option<(Seq<char>, int)>,
                FramingError,
            >(FramingError::MissingCrlf)
            &&& (n > 2 && line[n - 2] == 13 && line[n - 1] == 10 && find_separator(line.subrange(0, n - 2), 0) is None)
                ==> decode_frame_spec(s) == Err::<Option<(Seq<char>, int)>, FramingError>(
                FramingError::MissingSeparator,
            )
            &&& (n == 2 && line[0] == 13 && line[1] == 10) ==> decode_frame_spec(s) == Err::<
                Option<(Seq<char>, int)>,
                FramingError,
            >(FramingError::MissingContentLength)
        }),
        scan_headers(s, 0, None) matches Ok((start, size)) && start + size > s.len() ==> decode_frame_spec(s)
            == Err::<Option<(Seq<char>, int)>, FramingError>(FramingError::Truncated),
{
    lemma_line_end_bounds(s, 0);
}

proof fn lemma_line_end_bounds(s: Seq<u8>, i: int)
    requires
        0 <= i < s.len(),
    ensures
        i < line_end(s, i) <= s.len(),
    decreases s.len() - i,
{
    if s[i] != 10 {
        if i + 1 < s.len() {
            lemma_line_end_bounds(s, i + 1);
        } else {
            assert(line_end(s, i + 1) == s.len());
        }
    }
}

/// Decoding the frame of any text, whatever bytes follow it on the stream,
/// gives back that text and consumes exactly the frame.
pub proof fn lemma_frame_round_trip(text: Seq<char>, rest: Seq<u8>)
    requires
        encode_utf8(text).len() <= usize::MAX,
    ensures
        decode_frame_spec(encode_frame_spec(text) + rest) == Ok::<Option<(Seq<char>, int)>, FramingError>(
            Some((text, encode_frame_spec(text).len() as int)),
        ),
{
    let b = encode_utf8(text);
    let n = b.len();
    let digits = decimal_bytes_of(n);
    lemma_decimal_bytes_parse(n);
    lemma_content_length_name_bytes();
    let d = digits.len() as int;
    let cl = content_length_name();
    let s = encode_frame_spec(text) + rest;
    assert(s.len() == 20 + d + n + rest.len());
    assert forall|k: int| 0 <= k < 14 implies s[k] == cl[k] by {}
    assert(s[14] == 58 && s[15] == 32);
    assert forall|k: int| 16 <= k < 16 + d implies s[k] == digits[k - 16] by {}
    assert(s[16 + d] == 13 && s[17 + d] == 10 && s[18 + d] == 13 && s[19 + d] == 10);
    assert forall|k: int| 0 <= k < 17 + d implies s[k] != 10 by {
        if k < 14 {
            assert(s[k] == cl[k]);
        } else if 16 <= k < 16 + d {
            assert(s[k] == digits[k - 16]);
        }
    }
    lemma_line_end_at(s, 0, 17 + d);
    let line1 = s.subrange(0, 18 + d);
    let content = line1.subrange(0, 16 + d);
    assert forall|k: int| 0 <= k < 14 implies !separator_at(content, k) by {
        assert(content[k] == cl[k]);
    }
    assert(separator_at(content, 14));
    lemma_find_separator_at(content, 0, 14);
    assert(content.subrange(0, 14) =~= cl);
    assert(content.subrange(16, content.len() as int) =~= digits);
    assert(digits[0] != 43) by {
        assert(crate::decimal::is_digit_byte(digits[0]));
    }
    assert(header_line_step(line1, None) == Ok::<HeaderStep, FramingError>(HeaderStep::Next(Some(n as usize))));
    lemma_line_end_at(s, 18 + d, 19 + d);
    let line2 = s.subrange(18 + d, 20 + d);
    assert(line2.subrange(0, 0).len() == 0);
    assert(header_line_step(line2, Some(n as usize)) == Ok::<HeaderStep, FramingError>(HeaderStep::Body(n as usize)));
    assert(scan_headers(s, 18 + d, Some(n as usize)) == Ok::<(int, usize), FramingError>((20 + d, n as usize)));
    assert(scan_headers(s, 0, None) == Ok::<(int, usize), FramingError>((20 + d, n as usize)));
    assert(s.subrange(20 + d, 20 + d + n) =~= b);
    encode_utf8_valid_utf8(text);
    encode_utf8_decode_utf8(text);
}

} // verus!
