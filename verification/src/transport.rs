//! The HTTP/1.1 subset on the wire: framing a request out of the chunks
//! read from a connection, reading its head, and printing a response.
//!
//! Nothing here touches a socket. The caller reads chunks and feeds them
//! to a [`RequestReader`] for as long as the reader wants more.

use crate::error::{status_of, EmberError, ErrorView};
use crate::http::{text_response, HttpHandler, HttpResponse, ResponseView};
use crate::number::{decimal, integer_within, push_decimal, read_integer};
use crate::text::{
    chars_of, extend_bytes, extend_chars, first_with_prefix, has_prefix, is_space, is_whitespace,
    slice_of, split, split_chars, string_of, trim, trim_chars, trim_start, views,
};
use vstd::prelude::*;
use vstd::slice::slice_subrange;
use vstd::string::StrSliceExecFns;
use vstd::utf8::encode_utf8;

verus! {

/// The most bytes a request head may take before its end is found.
pub const MAX_HEADER_BYTES: usize = 65536;

/// Whether the four bytes at `i` are CR LF CR LF.
pub open spec fn is_terminator_at(bytes: Seq<u8>, i: int) -> bool {
    &&& 0 <= i
    &&& i + 4 <= bytes.len()
    &&& bytes[i] == 13
    &&& bytes[i + 1] == 10
    &&& bytes[i + 2] == 13
    &&& bytes[i + 3] == 10
}

/// Whether the first CR LF CR LF of `bytes` is at `i`.
pub open spec fn is_header_end(bytes: Seq<u8>, i: int) -> bool {
    is_terminator_at(bytes, i) && forall|j: int| 0 <= j < i ==> !is_terminator_at(bytes, j)
}

/// Where the head of a request ends: the index of the first CR LF CR LF.
pub open spec fn header_end(bytes: Seq<u8>) -> Option<int> {
    if exists|i: int| is_header_end(bytes, i) {
        Some(choose|i: int| is_header_end(bytes, i))
    } else {
        None
    }
}

/// There is at most one first terminator.
pub proof fn lemma_header_end_unique(bytes: Seq<u8>, i: int)
    requires
        is_header_end(bytes, i),
    ensures
        header_end(bytes) == Some(i),
{
    let k = choose|k: int| is_header_end(bytes, k);
    if k < i {
        assert(!is_terminator_at(bytes, k));
    } else if i < k {
        assert(!is_terminator_at(bytes, i));
    }
}

/// Finds the end of the request head in what has been read so far.
pub fn find_header_end(buffer: &[u8]) -> (r: Option<usize>)
    ensures
        match r {
            Some(i) => header_end(buffer@) == Some(i as int) && i + 4 <= buffer@.len(),
            None => header_end(buffer@) is None,
        },
{
    let n = buffer.len();
    if n < 4 {
        assert(forall|k: int| !is_header_end(buffer@, k));
        return None;
    }
    let mut i: usize = 0;
    while i <= n - 4
        invariant
            n == buffer@.len(),
            n >= 4,
            i + 3 <= n,
            forall|j: int| 0 <= j < i ==> !is_terminator_at(buffer@, j),
        decreases n - i,
    {
        if buffer[i] == 13 && buffer[i + 1] == 10 && buffer[i + 2] == 13 && buffer[i + 3] == 10 {
            proof {
                lemma_header_end_unique(buffer@, i as int);
            }
            return Some(i);
        }
        i += 1;
    }
    assert(forall|k: int| !is_header_end(buffer@, k));
    None
}

/// The text that `String::from_utf8_lossy` makes of `bytes`: their UTF-8
/// reading, with U+FFFD in place of what is no UTF-8.
pub uninterp spec fn utf8_lossy(bytes: Seq<u8>) -> Seq<char>;

/// Calls `String::from_utf8_lossy`, whose result depends on the bytes
/// alone, and copies it into a `String`.
#[verifier::external_body]
fn lossy_text(bytes: &[u8]) -> (s: String)
    ensures
        s@ == utf8_lossy(bytes@),
{
    String::from_utf8_lossy(bytes).into_owned()
}

/// `s` without one trailing carriage return.
pub open spec fn strip_cr(s: Seq<char>) -> Seq<char> {
    if s.len() > 0 && s.last() == '\r' {
        s.drop_last()
    } else {
        s
    }
}

/// The lines of `text`: the pieces between line feeds, each without the
/// carriage return that precedes its line feed. What follows the last line
/// feed is a line only if it is not empty.
pub open spec fn lines_of(text: Seq<char>) -> Seq<Seq<char>> {
    let pieces = split(text, '\n');
    let ended = Seq::new((pieces.len() - 1) as nat, |i: int| strip_cr(pieces[i]));
    if pieces.last().len() == 0 {
        ended
    } else {
        ended.push(pieces.last())
    }
}

/// A split has at least one piece.
pub proof fn lemma_split_not_empty(s: Seq<char>, sep: char)
    ensures
        split(s, sep).len() >= 1,
    decreases s.len(),
{
    let i = crate::text::position(s, sep);
    if 0 <= i < s.len() {
        lemma_split_not_empty(s.skip(i + 1), sep);
    }
}

/// The lines of `text`; see [`lines_of`].
pub fn lines(text: &Vec<char>) -> (out: Vec<Vec<char>>)
    ensures
        views(out@) == lines_of(text@),
{
    let pieces = split_chars(text, '\n');
    proof {
        lemma_split_not_empty(text@, '\n');
    }
    let ghost ps = split(text@, '\n');
    let n = pieces.len();
    let mut out: Vec<Vec<char>> = Vec::new();
    let mut i: usize = 0;
    while i + 1 < n
        invariant
            n == pieces@.len(),
            n >= 1,
            i + 1 <= n,
            ps == views(pieces@),
            out@.len() == i,
            forall|j: int| 0 <= j < i ==> (#[trigger] out@[j])@ == strip_cr(ps[j]),
        decreases n - i,
    {
        let piece = &pieces[i];
        assert(ps[i as int] == piece@);
        let m = piece.len();
        let line = if m > 0 && piece[m - 1] == '\r' {
            slice_of(piece, 0, m - 1)
        } else {
            slice_of(piece, 0, m)
        };
        proof {
            assert(piece@.subrange(0, m as int) == piece@);
            assert(piece@.subrange(0, m - 1) == piece@.drop_last());
        }
        out.push(line);
        i += 1;
    }
    let last = &pieces[n - 1];
    assert(ps[n - 1] == last@);
    assert(views(out@) =~= Seq::new((ps.len() - 1) as nat, |k: int| strip_cr(ps[k])));
    if last.len() > 0 {
        let ghost before = views(out@);
        let copy = slice_of(last, 0, last.len());
        assert(last@.subrange(0, last@.len() as int) == last@);
        out.push(copy);
        assert(views(out@) =~= before.push(last@));
    }
    out
}

/// The number of characters before the first white space of `s`.
pub open spec fn word_len(s: Seq<char>) -> int
    decreases s.len(),
{
    if s.len() > 0 && !is_whitespace(s[0]) {
        1 + word_len(s.drop_first())
    } else {
        0
    }
}

/// The first word of `s`: after its leading white space, what stands
/// before the next white space. Empty where `s` is all white space.
pub open spec fn first_word(s: Seq<char>) -> Seq<char> {
    trim_start(s).take(word_len(trim_start(s)))
}

/// What follows the first word of `s`.
pub open spec fn after_first_word(s: Seq<char>) -> Seq<char> {
    trim_start(s).skip(word_len(trim_start(s)))
}

/// The bounds of the first word of `chars[from..]`.
pub fn next_word(chars: &Vec<char>, from: usize) -> (r: (usize, usize))
    requires
        from <= chars@.len(),
    ensures
        from <= r.0 <= r.1 <= chars@.len(),
        chars@.subrange(r.0 as int, r.1 as int) == first_word(chars@.skip(from as int)),
        chars@.skip(r.1 as int) == after_first_word(chars@.skip(from as int)),
{
    let n = chars.len();
    let start = crate::text::skip_spaces(chars, from, n);
    let ghost a = chars@.skip(start as int);
    proof {
        assert(chars@.subrange(from as int, n as int) == chars@.skip(from as int));
        assert(chars@.subrange(start as int, n as int) == a);
        assert(a.skip(0) == a);
    }
    let mut end: usize = start;
    while end < n && !is_space(chars[end])
        invariant
            start <= end <= n,
            n == chars@.len(),
            a == chars@.skip(start as int),
            word_len(a) == (end - start) + word_len(a.skip(end - start)),
        decreases n - end,
    {
        proof {
            let cur = a.skip(end - start);
            assert(cur[0] == chars@[end as int]);
            assert(cur.drop_first() == a.skip(end - start + 1));
        }
        end += 1;
    }
    proof {
        let cur = a.skip(end - start);
        if end < n {
            assert(cur[0] == chars@[end as int]);
        }
        assert(word_len(cur) == 0);
        assert(a.take(end - start) == chars@.subrange(start as int, end as int));
        assert(a.skip(end - start) == chars@.skip(end as int));
    }
    (start, end)
}

/// What the head of a request says: the method, the request target and
/// the length of the body.
pub struct HeadView {
    pub method: Seq<char>,
    pub target: Seq<char>,
    pub content_length: int,
}

/// The body length that the header lines announce: of the lines that
/// start with `Content-Length:`, the first counts; what follows the colon,
/// trimmed, is read as an unsigned decimal number. Without such a line, or
/// where the number cannot be read, the length is 0.
pub open spec fn content_length_of(headers: Seq<Seq<char>>) -> int {
    match first_with_prefix(headers, "Content-Length:"@) {
        Some(line) => match integer_within(
            trim(line.skip("Content-Length:"@.len() as int)),
            false,
            0,
            usize::MAX as int,
        ) {
            Some(n) => n,
            None => 0,
        },
        None => 0,
    }
}

/// Reads the head of a request. The first line holds the method and the
/// request target, separated by white space; what follows them on the line
/// is not read. The other lines are looked through for the body length.
pub open spec fn head_of(text: Seq<char>) -> Result<HeadView, Seq<char>> {
    let all = lines_of(text);
    if all.len() == 0 {
        Err("missing request line"@)
    } else if first_word(all[0]).len() == 0 {
        Err("missing method"@)
    } else if first_word(after_first_word(all[0])).len() == 0 {
        Err("missing path"@)
    } else {
        Ok(
            HeadView {
                method: first_word(all[0]),
                target: first_word(after_first_word(all[0])),
                content_length: content_length_of(all.skip(1)),
            },
        )
    }
}

/// The head of a request as executable code holds it.
#[derive(Debug)]
pub struct RequestHead {
    pub method: String,
    pub target: String,
    pub content_length: usize,
}

impl View for RequestHead {
    type V = HeadView;

    open spec fn view(&self) -> HeadView {
        HeadView {
            method: self.method@,
            target: self.target@,
            content_length: self.content_length as int,
        }
    }
}

/// Looks through the lines from the `from`-th on for the body length;
/// see [`content_length_of`].
pub fn content_length(all: &Vec<Vec<char>>, from: usize) -> (n: usize)
    requires
        from <= all@.len(),
    ensures
        n == content_length_of(views(all@).skip(from as int)),
{
    let target = chars_of("Content-Length:");
    let ghost headers = views(all@).skip(from as int);
    let mut i: usize = from;
    proof {
        assert(headers.skip(0) =~= headers);
    }
    while i < all.len()
        invariant
            from <= i <= all@.len(),
            headers == views(all@).skip(from as int),
            target@ == "Content-Length:"@,
            first_with_prefix(headers.skip(i - from), target@) == first_with_prefix(
                headers,
                target@,
            ),
        decreases all@.len() - i,
    {
        let line = &all[i];
        let ghost rest = headers.skip(i - from);
        proof {
            assert(rest[0] == line@);
            assert(rest.drop_first() =~= headers.skip(i - from + 1));
        }
        if has_prefix(line, &target) {
            let value = trim_chars(&slice_of(line, target.len(), line.len()));
            proof {
                assert(first_with_prefix(rest, target@) == Some(line@));
                assert(line@.subrange(target@.len() as int, line@.len() as int) == line@.skip(
                    target@.len() as int,
                ));
            }
            return match read_integer(&value, false, 0, usize::MAX as u64) {
                Some((_, magnitude)) => magnitude as usize,
                None => 0,
            };
        }
        i += 1;
    }
    proof {
        assert(headers.skip(headers.len() as int) =~= Seq::<Seq<char>>::empty());
    }
    0
}

/// Reads the head of a request from its text; see [`head_of`].
pub fn parse_head_text(text: &str) -> (r: Result<RequestHead, EmberError>)
    ensures
        match r {
            Ok(head) => head_of(text@) == Ok::<HeadView, Seq<char>>(head@),
            Err(e) => head_of(text@) == Err::<HeadView, Seq<char>>(e@),
        },
{
    let all = lines(&chars_of(text));
    if all.len() == 0 {
        return Err(EmberError::msg("missing request line"));
    }
    let line = &all[0];
    assert(views(all@)[0] == line@);
    assert(line@.skip(0) == line@);
    let (a, b) = next_word(line, 0);
    if a == b {
        return Err(EmberError::msg("missing method"));
    }
    let (c, d) = next_word(line, b);
    if c == d {
        return Err(EmberError::msg("missing path"));
    }
    let method = string_of(&slice_of(line, a, b));
    let target = string_of(&slice_of(line, c, d));
    let n = content_length(&all, 1);
    Ok(RequestHead { method, target, content_length: n })
}

/// Reads the head of a request from the bytes before the terminator: the
/// bytes are read as UTF-8, leniently, and the text as [`head_of`] says.
pub fn parse_request_head(head: &[u8]) -> (r: Result<RequestHead, EmberError>)
    ensures
        match r {
            Ok(h) => head_of(utf8_lossy(head@)) == Ok::<HeadView, Seq<char>>(h@),
            Err(e) => head_of(utf8_lossy(head@)) == Err::<HeadView, Seq<char>>(e@),
        },
{
    let text = lossy_text(head);
    parse_head_text(text.as_str())
}

/// A request as it comes off the wire: method, request target and body.
#[derive(Debug)]
pub struct RawRequest {
    pub method: String,
    pub target: String,
    pub body: Vec<u8>,
}

/// A [`RawRequest`] as plain values.
pub struct RawRequestView {
    pub method: Seq<char>,
    pub target: Seq<char>,
    pub body: Seq<u8>,
}

impl View for RawRequest {
    type V = RawRequestView;

    open spec fn view(&self) -> RawRequestView {
        RawRequestView { method: self.method@, target: self.target@, body: self.body@ }
    }
}

/// The state of reading one request from a connection.
#[derive(Debug)]
pub enum RequestReader {
    /// The end of the head has not been seen in what was read so far.
    Head { buffer: Vec<u8> },
    /// The head is read; the body is shorter than the head announced.
    Body { method: String, target: String, content_length: usize, body: Vec<u8> },
    /// The request is complete.
    Done { request: RawRequest },
    /// The request cannot be read.
    Failed { error: EmberError },
}

/// A [`RequestReader`] as plain values.
pub enum ReaderView {
    Head { buffer: Seq<u8> },
    Body { method: Seq<char>, target: Seq<char>, content_length: int, body: Seq<u8> },
    Done { request: RawRequestView },
    Failed { message: Seq<char> },
}

impl View for RequestReader {
    type V = ReaderView;

    open spec fn view(&self) -> ReaderView {
        match self {
            RequestReader::Head { buffer } => ReaderView::Head { buffer: buffer@ },
            RequestReader::Body { method, target, content_length, body } => ReaderView::Body {
                method: method@,
                target: target@,
                content_length: *content_length as int,
                body: body@,
            },
            RequestReader::Done { request } => ReaderView::Done { request: request@ },
            RequestReader::Failed { error } => ReaderView::Failed { message: error@ },
        }
    }
}

/// The state once the head is read and `body` is what has come of the
/// body: complete when the body is as long as announced, or longer.
pub open spec fn with_body(
    method: Seq<char>,
    target: Seq<char>,
    content_length: int,
    body: Seq<u8>,
) -> ReaderView {
    if body.len() < content_length {
        ReaderView::Body { method, target, content_length, body }
    } else {
        ReaderView::Done { request: RawRequestView { method, target, body } }
    }
}

/// The state after `chunk` was read in state `s`; an empty chunk means
/// that the peer closed the connection.
///
/// While the head is read, an empty chunk fails the request. Else the
/// chunk joins what was read; if the end of the head is in it, the head is
/// read and what follows the terminator begins the body; if not, and more
/// than [`MAX_HEADER_BYTES`] bytes were read, the request fails. While the
/// body is read, an empty chunk completes the request with the body as it
/// is; any other chunk joins the body.
pub open spec fn step(s: ReaderView, chunk: Seq<u8>) -> ReaderView {
    match s {
        ReaderView::Head { buffer } => if chunk.len() == 0 {
            ReaderView::Failed { message: "connection closed"@ }
        } else {
            let all = buffer + chunk;
            match header_end(all) {
                Some(end) => match head_of(utf8_lossy(all.take(end))) {
                    Ok(head) => with_body(
                        head.method,
                        head.target,
                        head.content_length,
                        all.skip(end + 4),
                    ),
                    Err(message) => ReaderView::Failed { message },
                },
                None => if all.len() > MAX_HEADER_BYTES {
                    ReaderView::Failed { message: "request headers too large"@ }
                } else {
                    ReaderView::Head { buffer: all }
                },
            }
        },
        ReaderView::Body { method, target, content_length, body } => if chunk.len() == 0 {
            ReaderView::Done { request: RawRequestView { method, target, body } }
        } else {
            with_body(method, target, content_length, body + chunk)
        },
        _ => s,
    }
}

impl RequestReader {
    /// Whether the reader needs another chunk.
    pub open spec fn unfinished(self) -> bool {
        self is Head || self is Body
    }

    /// The reader of a fresh connection.
    pub fn new() -> (r: Self)
        ensures
            r@ == (ReaderView::Head { buffer: Seq::<u8>::empty() }),
    {
        RequestReader::Head { buffer: Vec::new() }
    }

    /// Whether the reader needs another chunk.
    pub fn wants_read(&self) -> (r: bool)
        ensures
            r == self.unfinished(),
    {
        match self {
            RequestReader::Head { .. } => true,
            RequestReader::Body { .. } => true,
            _ => false,
        }
    }

    /// Takes the chunk that was read; see [`step`].
    pub fn feed(self, chunk: &[u8]) -> (next: Self)
        ensures
            next@ == step(self@, chunk@),
    {
        match self {
            RequestReader::Head { buffer } => {
                if chunk.len() == 0 {
                    return RequestReader::Failed { error: EmberError::msg("connection closed") };
                }
                let mut buffer = buffer;
                extend_bytes(&mut buffer, chunk);
                match find_header_end(buffer.as_slice()) {
                    Some(end) => {
                        let head = slice_subrange(buffer.as_slice(), 0, end);
                        assert(head@ == buffer@.take(end as int));
                        match parse_request_head(head) {
                            Ok(h) => {
                                let mut body: Vec<u8> = Vec::new();
                                extend_bytes(
                                    &mut body,
                                    slice_subrange(buffer.as_slice(), end + 4, buffer.len()),
                                );
                                assert(body@ == buffer@.skip(end + 4));
                                Self::entered(h.method, h.target, h.content_length, body)
                            },
                            Err(error) => RequestReader::Failed { error },
                        }
                    },
                    None => {
                        if buffer.len() > MAX_HEADER_BYTES {
                            RequestReader::Failed {
                                error: EmberError::msg("request headers too large"),
                            }
                        } else {
                            RequestReader::Head { buffer }
                        }
                    },
                }
            },
            RequestReader::Body { method, target, content_length, body } => {
                if chunk.len() == 0 {
                    RequestReader::Done { request: RawRequest { method, target, body } }
                } else {
                    let mut body = body;
                    extend_bytes(&mut body, chunk);
                    Self::entered(method, target, content_length, body)
                }
            },
            RequestReader::Done { request } => RequestReader::Done { request },
            RequestReader::Failed { error } => RequestReader::Failed { error },
        }
    }

    /// The state once the head is read; see [`with_body`].
    fn entered(method: String, target: String, content_length: usize, body: Vec<u8>) -> (r: Self)
        ensures
            r@ == with_body(method@, target@, content_length as int, body@),
    {
        if body.len() < content_length {
            RequestReader::Body { method, target, content_length, body }
        } else {
            RequestReader::Done { request: RawRequest { method, target, body } }
        }
    }

    /// The answer to a request that could not be read; see
    /// [`failure_response`].
    pub fn failure(&self) -> (r: Option<HttpResponse>)
        ensures
            match r {
                Some(response) => failure_response(self@) == Some(response@),
                None => failure_response(self@) is None,
            },
    {
        match self {
            RequestReader::Failed { error } => Some(reject(error)),
            _ => None,
        }
    }

    /// The request that was read, or why none could be; nothing while the
    /// reader still wants a chunk.
    pub fn into_request(self) -> (r: Option<Result<RawRequest, EmberError>>)
        ensures
            match self@ {
                ReaderView::Done { request } => r matches Some(Ok(q)) && q@ == request,
                ReaderView::Failed { message } => r matches Some(Err(e)) && e@ == message,
                _ => r is None,
            },
    {
        match self {
            RequestReader::Done { request } => Some(Ok(request)),
            RequestReader::Failed { error } => Some(Err(error)),
            _ => None,
        }
    }
}

/// The answer that a failed reader stands for: 400 with the failure's
/// message as the body.
pub open spec fn failure_response(s: ReaderView) -> Option<ResponseView> {
    match s {
        ReaderView::Failed { message } => Some(text_response(400, message)),
        _ => None,
    }
}

/// The state after the chunks were read one after the other.
pub open spec fn run(s: ReaderView, chunks: Seq<Seq<u8>>) -> ReaderView
    decreases chunks.len(),
{
    if chunks.len() == 0 {
        s
    } else {
        run(step(s, chunks[0]), chunks.drop_first())
    }
}

/// All the bytes of the chunks, in order.
pub open spec fn joined(chunks: Seq<Seq<u8>>) -> Seq<u8>
    decreases chunks.len(),
{
    if chunks.len() == 0 {
        Seq::empty()
    } else {
        chunks[0] + joined(chunks.drop_first())
    }
}

/// A terminator in the beginning of some bytes is a terminator in all of
/// them.
pub proof fn lemma_no_terminator_in_prefix(all: Seq<u8>, k: int)
    requires
        0 <= k <= all.len(),
        header_end(all) is None,
    ensures
        header_end(all.take(k)) is None,
{
    if header_end(all.take(k)) is Some {
        let i = header_end(all.take(k))->0;
        assert(is_terminator_at(all.take(k), i));
        assert(is_terminator_at(all, i));
        lemma_some_terminator_has_first(all, i);
    }
}

/// Where some terminator stands, one of them is the first.
pub proof fn lemma_some_terminator_has_first(bytes: Seq<u8>, i: int)
    requires
        is_terminator_at(bytes, i),
    ensures
        header_end(bytes) is Some,
    decreases i,
{
    if forall|j: int| 0 <= j < i ==> !is_terminator_at(bytes, j) {
        assert(is_header_end(bytes, i));
    } else {
        let j = choose|j: int| 0 <= j < i && is_terminator_at(bytes, j);
        lemma_some_terminator_has_first(bytes, j);
    }
}

/// A reader that has failed stays failed.
pub proof fn lemma_failed_stays(message: Seq<char>, chunks: Seq<Seq<u8>>)
    ensures
        run(ReaderView::Failed { message }, chunks) == (ReaderView::Failed { message }),
    decreases chunks.len(),
{
    if chunks.len() > 0 {
        lemma_failed_stays(message, chunks.drop_first());
    }
}

/// A peer that sends more than [`MAX_HEADER_BYTES`] bytes without the
/// terminator among them gets no further than the head: whatever the
/// chunks in which its bytes arrive, the reader ends up failed with
/// `request headers too large`, and wants no more.
pub proof fn lemma_oversized_head_fails(buffer: Seq<u8>, chunks: Seq<Seq<u8>>)
    requires
        forall|i: int| 0 <= i < chunks.len() ==> (#[trigger] chunks[i]).len() > 0,
        header_end(buffer + joined(chunks)) is None,
        buffer.len() <= MAX_HEADER_BYTES,
        (buffer + joined(chunks)).len() > MAX_HEADER_BYTES,
    ensures
        run(ReaderView::Head { buffer }, chunks) == (ReaderView::Failed {
            message: "request headers too large"@,
        }),
    decreases chunks.len(),
{
    if chunks.len() == 0 {
        assert(buffer + joined(chunks) =~= buffer);
    } else {
        let rest = chunks.drop_first();
        let all = buffer + chunks[0];
        let whole = buffer + joined(chunks);
        assert(whole =~= all + joined(rest));
        assert(whole.take(all.len() as int) =~= all);
        lemma_no_terminator_in_prefix(whole, all.len() as int);
        if all.len() > MAX_HEADER_BYTES {
            lemma_failed_stays("request headers too large"@, rest);
        } else {
            assert forall|i: int| 0 <= i < rest.len() implies (#[trigger] rest[i]).len() > 0 by {
                assert(rest[i] == chunks[i + 1]);
            }
            lemma_oversized_head_fails(all, rest);
        }
    }
}

/// A peer that sends more than [`MAX_HEADER_BYTES`] bytes without the
/// terminator is answered 400, however its bytes arrive.
pub proof fn lemma_oversized_head_is_bad_request(chunks: Seq<Seq<u8>>)
    requires
        forall|i: int| 0 <= i < chunks.len() ==> (#[trigger] chunks[i]).len() > 0,
        header_end(joined(chunks)) is None,
        joined(chunks).len() > MAX_HEADER_BYTES,
    ensures
        failure_response(run(ReaderView::Head { buffer: Seq::<u8>::empty() }, chunks)) == Some(
            text_response(400, "request headers too large"@),
        ),
        text_response(400, "request headers too large"@).status == 400,
{
    assert(Seq::<u8>::empty() + joined(chunks) =~= joined(chunks));
    lemma_oversized_head_fails(Seq::<u8>::empty(), chunks);
}

/// The reason phrase of a status code: a fixed table for 200, 201, 204,
/// 400, 404 and 500; any other code reads `OK`.
pub open spec fn reason(status: u16) -> Seq<char> {
    if status == 201 {
        "Created"@
    } else if status == 204 {
        "No Content"@
    } else if status == 400 {
        "Bad Request"@
    } else if status == 404 {
        "Not Found"@
    } else if status == 500 {
        "Internal Server Error"@
    } else {
        "OK"@
    }
}

/// The reason phrase of a status code; see [`reason`].
pub fn status_text(status: u16) -> (s: &'static str)
    ensures
        s@ == reason(status),
{
    match status {
        200 => "OK",
        201 => "Created",
        204 => "No Content",
        400 => "Bad Request",
        404 => "Not Found",
        500 => "Internal Server Error",
        _ => "OK",
    }
}

/// The head of a response: status line, `Content-Length`, `Content-Type`
/// and the blank line.
pub open spec fn response_head(r: ResponseView) -> Seq<char> {
    "HTTP/1.1 "@ + decimal(r.status as nat) + " "@ + reason(r.status) + "\r\nContent-Length: "@
        + decimal(r.body.len()) + "\r\nContent-Type: "@ + r.content_type + "\r\n\r\n"@
}

/// A response as it goes over the wire: its head in UTF-8, then its body.
pub open spec fn wire_bytes(r: ResponseView) -> Seq<u8> {
    encode_utf8(response_head(r)) + r.body
}

/// Prints a response; see [`wire_bytes`].
pub fn write_http_response(response: &HttpResponse) -> (out: Vec<u8>)
    ensures
        out@ == wire_bytes(response@),
{
    let mut head: Vec<char> = Vec::new();
    extend_chars(&mut head, &chars_of("HTTP/1.1 "));
    push_decimal(&mut head, response.status as u64);
    extend_chars(&mut head, &chars_of(" "));
    extend_chars(&mut head, &chars_of(status_text(response.status)));
    extend_chars(&mut head, &chars_of("\r\nContent-Length: "));
    push_decimal(&mut head, response.body.len() as u64);
    extend_chars(&mut head, &chars_of("\r\nContent-Type: "));
    extend_chars(&mut head, &chars_of(response.content_type));
    extend_chars(&mut head, &chars_of("\r\n\r\n"));
    assert(head@ =~= response_head(response@));
    let text = string_of(&head);
    let mut out = text.as_str().as_bytes_vec();
    extend_bytes(&mut out, response.body.as_slice());
    out
}

/// The answer to a request that could not be read: 400, with the error's
/// message as the body.
pub fn reject(error: &EmberError) -> (r: HttpResponse)
    ensures
        r@ == text_response(400, error@),
{
    HttpResponse::text(400, error.to_string().as_str())
}

/// The answer that a handler's result stands for: the response itself;
/// for a binding error 400, and for a failure 500, with the error's
/// message as the body.
pub open spec fn settled(outcome: Result<ResponseView, ErrorView>) -> ResponseView {
    match outcome {
        Ok(response) => response,
        Err(error) => text_response(status_of(error.kind), error.message),
    }
}

/// Turns a handler's result into the answer; see [`settled`].
pub fn settle(outcome: Result<HttpResponse, EmberError>) -> (r: HttpResponse)
    ensures
        r@ == settled(crate::dispatch::result_view(outcome)),
{
    match outcome {
        Ok(response) => response,
        Err(e) => HttpResponse::text(e.status(), e.to_string().as_str()),
    }
}

/// Answers one connection. A request that could not be read is answered
/// 400 and no handler runs; else the handler runs once on the request, and
/// its result is settled.
pub fn respond<H: HttpHandler>(handler: &H, request: Result<RawRequest, EmberError>) -> (r:
    HttpResponse)
    ensures
        match request {
            Err(e) => r@ == text_response(400, e@),
            Ok(_) => exists|outcome: Result<ResponseView, ErrorView>| r@ == settled(outcome),
        },
{
    match request {
        Err(e) => reject(&e),
        Ok(q) => {
            let outcome = handler.handle(q.method.as_str(), q.target.as_str(), q.body.as_slice());
            let r = settle(outcome);
            assert(r@ == settled(crate::dispatch::result_view(outcome)));
            r
        },
    }
}

} // verus!
