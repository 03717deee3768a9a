//! HTTP/1.x request and response heads, and the framer that reads and
//! writes them.
//!
//! Reading has three outcomes, and a caller can always tell them apart:
//! a message, `Incomplete` (the empty line that ends a head has not arrived:
//! read more bytes and try again on the longer buffer), or `Malformed` (the
//! head is all there and breaks the grammar: give the stream up). As long as
//! the empty line is missing the outcome is `Incomplete`, whatever the bytes
//! so far hold. What follows the empty line is never looked at.
//!
//! Writing puts a message on the wire in the one form that
//! [`request_wire`] and [`response_wire`] give.

use crate::scan::{
    bounds_within, byte_in_class, is_all_in, lines_at, read_header_line, read_request_line,
    read_status_line, split_head,
};
use crate::wire::{
    crlf, decimal_digits, head_lines, header_line_fields, http_slash, is_path, is_text,
    is_token, is_value, join_lines, lemma_join_lines_concat, lemma_join_one_line,
    request_line_fields, status_line_fields, ByteClass, CR, LF, SP,
};
use vstd::prelude::*;
use vstd::slice::slice_subrange;
use vstd::utf8::{decode_utf8, encode_utf8, encode_utf8_valid_utf8};

verus! {

/// Why no message was read.
#[derive(Debug, PartialEq, Eq)]
pub enum FramerError {
    /// The head is not complete yet. More bytes may complete it.
    Incomplete(String),
    /// The head is complete and is not a message. More bytes will not mend it.
    Malformed(String),
}

/// The mathematical value of a [`FramerError`].
pub enum FramerErrorView {
    Incomplete(Seq<char>),
    Malformed(Seq<char>),
}

impl View for FramerError {
    type V = FramerErrorView;

    open spec fn view(&self) -> FramerErrorView {
        match self {
            FramerError::Incomplete(reason) => FramerErrorView::Incomplete(reason@),
            FramerError::Malformed(reason) => FramerErrorView::Malformed(reason@),
        }
    }
}

impl FramerError {
    /// The reason, in words.
    pub fn reason(&self) -> (reason: &String)
        ensures
            self@ == FramerErrorView::Incomplete(reason@) || self@ == FramerErrorView::Malformed(
                reason@,
            ),
    {
        match self {
            FramerError::Incomplete(reason) => reason,
            FramerError::Malformed(reason) => reason,
        }
    }
}

/// What reading gives: `Ok` with a complete message, `Incomplete`, or
/// `Malformed`.
pub type ParseOutcome<M> = Result<M, FramerError>;

/// A message kind that can be read from bytes and written to bytes.
pub trait Framer: Sized {
    /// The bytes that `to_bytes` writes for this message.
    spec fn wire(&self) -> Seq<u8>;

    /// True when `outcome` is what reading `raw` gives.
    spec fn reads(raw: Seq<u8>, outcome: ParseOutcome<Self>) -> bool;

    /// Reads a message from the start of `raw_bytes`. The receiver plays no
    /// part in it.
    fn from_bytes(&self, raw_bytes: &[u8]) -> (outcome: ParseOutcome<Self>)
        ensures
            Self::reads(raw_bytes@, outcome),
    ;

    /// Writes this message.
    fn to_bytes(&self) -> (bytes: Vec<u8>)
        ensures
            bytes@ == self.wire(),
    ;
}

/// One header: a name and a value.
#[derive(Debug, PartialEq, Eq)]
pub struct HttpHeader {
    name: String,
    value: String,
}

/// The mathematical value of an [`HttpHeader`].
pub struct HeaderView {
    pub name: Seq<char>,
    pub value: Seq<char>,
}

impl View for HttpHeader {
    type V = HeaderView;

    closed spec fn view(&self) -> HeaderView {
        HeaderView { name: self.name@, value: self.value@ }
    }
}

impl HttpHeader {
    /// A header with this name and this value.
    pub fn new(name: String, value: String) -> (header: HttpHeader)
        ensures
            header@ == (HeaderView { name: name@, value: value@ }),
    {
        HttpHeader { name, value }
    }

    /// The name.
    pub fn name(&self) -> (name: &String)
        ensures
            name@ == self@.name,
    {
        &self.name
    }

    /// The value.
    pub fn value(&self) -> (value: &String)
        ensures
            value@ == self@.value,
    {
        &self.value
    }

    /// Tells whether the grammar can carry this header.
    pub fn in_grammar(&self) -> (yes: bool)
        ensures
            yes == header_in_grammar(self@),
    {
        let name = self.name.as_str().as_bytes();
        let value = self.value.as_str().as_bytes();
        proof {
            encode_utf8_valid_utf8(self.name@);
            encode_utf8_valid_utf8(self.value@);
        }
        if name.len() == 0 || !is_all_in(name, ByteClass::Token) {
            return false;
        }
        if !is_all_in(value, ByteClass::Text) {
            return false;
        }
        let len: usize = value.len();
        len == 0 || (!byte_in_class(ByteClass::Blank, value[0]) && !byte_in_class(
            ByteClass::Blank,
            value[len - 1],
        ))
    }
}

/// Tells whether the grammar can carry these headers.
fn all_in_grammar(headers: &Vec<HttpHeader>) -> (yes: bool)
    ensures
        yes == headers_in_grammar(headers_view(headers@)),
{
    let count: usize = headers.len();
    let ghost views = headers_view(headers@);
    let mut k: usize = 0;
    while k < count
        invariant
            count == headers@.len(),
            k <= count,
            views == headers_view(headers@),
            forall|i: int| 0 <= i < k ==> header_in_grammar(#[trigger] views[i]),
        decreases count - k,
    {
        if !headers[k].in_grammar() {
            assert(!header_in_grammar(views[k as int]));
            return false;
        }
        k = k + 1;
    }
    true
}

/// The values of a run of headers, in their order.
pub open spec fn headers_view(headers: Seq<HttpHeader>) -> Seq<HeaderView> {
    Seq::new(headers.len(), |i: int| headers[i]@)
}

/// A request head. Its fields are open to read, and its value is made of
/// them and of nothing else.
#[derive(Debug, PartialEq, Eq)]
pub struct HttpRequest {
    pub headers: Vec<HttpHeader>,
    pub method: String,
    pub path: String,
    pub version: u8,
}

/// The mathematical value of an [`HttpRequest`].
pub struct RequestView {
    pub method: Seq<char>,
    pub path: Seq<char>,
    pub version: u8,
    pub headers: Seq<HeaderView>,
}

impl View for HttpRequest {
    type V = RequestView;

    open spec fn view(&self) -> RequestView {
        RequestView {
            method: self.method@,
            path: self.path@,
            version: self.version,
            headers: headers_view(self.headers@),
        }
    }
}

/// A response head.
#[derive(Debug, PartialEq, Eq)]
pub struct HttpResponse {
    headers: Vec<HttpHeader>,
    version: u8,
    code: u16,
    reason: String,
}

/// The mathematical value of an [`HttpResponse`].
pub struct ResponseView {
    pub version: u8,
    pub code: u16,
    pub reason: Seq<char>,
    pub headers: Seq<HeaderView>,
}

impl View for HttpResponse {
    type V = ResponseView;

    closed spec fn view(&self) -> ResponseView {
        ResponseView {
            version: self.version,
            code: self.code,
            reason: self.reason@,
            headers: headers_view(self.headers@),
        }
    }
}

/// A header that the grammar can carry: the name is a token, and the value
/// is text with no blank at either end.
pub open spec fn header_in_grammar(header: HeaderView) -> bool {
    is_token(encode_utf8(header.name)) && is_value(encode_utf8(header.value))
}

/// Headers that the grammar can carry: each of them is in the grammar,
/// however many there are.
pub open spec fn headers_in_grammar(headers: Seq<HeaderView>) -> bool {
    forall|i: int| 0 <= i < headers.len() ==> header_in_grammar(#[trigger] headers[i])
}

/// A request that the grammar can carry: the method is a token, the path
/// has at least one byte and neither space nor control, and the headers are
/// in the grammar. Every version is.
pub open spec fn request_in_grammar(request: RequestView) -> bool {
    &&& is_token(encode_utf8(request.method))
    &&& is_path(encode_utf8(request.path))
    &&& headers_in_grammar(request.headers)
}

/// A response that the grammar can carry: the reason is text and the headers
/// are in the grammar. Every version and every code is.
pub open spec fn response_in_grammar(response: ResponseView) -> bool {
    &&& is_text(encode_utf8(response.reason))
    &&& headers_in_grammar(response.headers)
}

/// The reason given when a request head is not complete.
pub open spec fn incomplete_request() -> Seq<char> {
    "Error: incomplete request"@
}

/// The reason given when a request head breaks the grammar.
pub open spec fn malformed_request() -> Seq<char> {
    "Error parsing request"@
}

/// The reason given when a response head is not complete.
pub open spec fn incomplete_response() -> Seq<char> {
    "Error: incomplete response"@
}

/// The reason given when a response head breaks the grammar.
pub open spec fn malformed_response() -> Seq<char> {
    "Error parsing response"@
}

/// The header that the line `line` writes, if it is a header line.
pub open spec fn header_of(line: Seq<u8>) -> Option<HeaderView> {
    match header_line_fields(line) {
        Some((name, value)) => Some(
            HeaderView { name: decode_utf8(name), value: decode_utf8(value) },
        ),
        None => None,
    }
}

/// The headers that the lines `lines` write, if each is a header line.
pub open spec fn headers_of(lines: Seq<Seq<u8>>) -> Option<Seq<HeaderView>> {
    if forall|i: int| 0 <= i < lines.len() ==> (#[trigger] header_of(lines[i])) is Some {
        Some(Seq::new(lines.len(), |i: int| header_of(lines[i])->0))
    } else {
        None
    }
}

/// The request that the lines `lines` write: a request line, then headers.
pub open spec fn request_of_lines(lines: Seq<Seq<u8>>) -> Option<RequestView> {
    if lines.len() == 0 {
        None
    } else {
        match (request_line_fields(lines[0]), headers_of(lines.skip(1))) {
            (Some((method, path, version)), Some(headers)) => Some(
                RequestView {
                    method: decode_utf8(method),
                    path: decode_utf8(path),
                    version,
                    headers,
                },
            ),
            _ => None,
        }
    }
}

/// The response that the lines `lines` write: a status line, then headers.
pub open spec fn response_of_lines(lines: Seq<Seq<u8>>) -> Option<ResponseView> {
    if lines.len() == 0 {
        None
    } else {
        match (status_line_fields(lines[0]), headers_of(lines.skip(1))) {
            (Some((version, code, reason)), Some(headers)) => Some(
                ResponseView { version, code, reason: decode_utf8(reason), headers },
            ),
            _ => None,
        }
    }
}

/// What reading a request from `raw` gives.
pub open spec fn parse_request(raw: Seq<u8>) -> Result<RequestView, FramerErrorView> {
    match head_lines(raw) {
        None => Err(FramerErrorView::Incomplete(incomplete_request())),
        Some(lines) => match request_of_lines(lines) {
            Some(request) => Ok(request),
            None => Err(FramerErrorView::Malformed(malformed_request())),
        },
    }
}

/// What reading a response from `raw` gives.
pub open spec fn parse_response(raw: Seq<u8>) -> Result<ResponseView, FramerErrorView> {
    match head_lines(raw) {
        None => Err(FramerErrorView::Incomplete(incomplete_response())),
        Some(lines) => match response_of_lines(lines) {
            Some(response) => Ok(response),
            None => Err(FramerErrorView::Malformed(malformed_response())),
        },
    }
}

/// The mathematical value of the outcome of reading a request.
pub open spec fn request_outcome(outcome: ParseOutcome<HttpRequest>) -> Result<
    RequestView,
    FramerErrorView,
> {
    match outcome {
        Ok(request) => Ok(request@),
        Err(e) => Err(e@),
    }
}

/// The mathematical value of the outcome of reading a response.
pub open spec fn response_outcome(outcome: ParseOutcome<HttpResponse>) -> Result<
    ResponseView,
    FramerErrorView,
> {
    match outcome {
        Ok(response) => Ok(response@),
        Err(e) => Err(e@),
    }
}

/// The line that writes the header `header`: name, a space, value.
pub open spec fn header_line(header: HeaderView) -> Seq<u8> {
    encode_utf8(header.name) + seq![SP] + encode_utf8(header.value)
}

/// The lines that write the headers `headers`.
pub open spec fn header_lines(headers: Seq<HeaderView>) -> Seq<Seq<u8>> {
    Seq::new(headers.len(), |i: int| header_line(headers[i]))
}

/// The line that opens the request `request`.
pub open spec fn request_line(request: RequestView) -> Seq<u8> {
    encode_utf8(request.method) + seq![SP] + encode_utf8(request.path) + seq![SP] + http_slash()
        + decimal_digits(request.version as nat)
}

/// The line that opens the response `response`.
pub open spec fn status_line(response: ResponseView) -> Seq<u8> {
    http_slash() + decimal_digits(response.version as nat) + seq![SP] + decimal_digits(
        response.code as nat,
    ) + seq![SP] + encode_utf8(response.reason)
}

/// The bytes that write the request `request`: its lines, each closed by
/// CR LF, and an empty line.
pub open spec fn request_wire(request: RequestView) -> Seq<u8> {
    join_lines(seq![request_line(request)] + header_lines(request.headers)) + crlf()
}

/// The bytes that write the response `response`: its lines, each closed by
/// CR LF, and an empty line.
pub open spec fn response_wire(response: ResponseView) -> Seq<u8> {
    join_lines(seq![status_line(response)] + header_lines(response.headers)) + crlf()
}

/// Reads the header lines of a head: every line that `bounds` cuts out of
/// `raw` but the first.
fn read_headers(raw: &[u8], bounds: &Vec<(usize, usize)>) -> (headers: Option<Vec<HttpHeader>>)
    requires
        bounds@.len() > 0,
        bounds_within(bounds@, raw@.len()),
    ensures
        match headers {
            Some(hs) => headers_of(lines_at(raw@, bounds@).skip(1)) == Some(headers_view(hs@)),
            None => headers_of(lines_at(raw@, bounds@).skip(1)) is None,
        },
{
    let count: usize = bounds.len();
    let ghost lines = lines_at(raw@, bounds@).skip(1);
    let mut headers: Vec<HttpHeader> = Vec::new();
    let mut k: usize = 1;
    while k < count
        invariant
            1 <= k <= count,
            count == bounds@.len(),
            bounds_within(bounds@, raw@.len()),
            lines == lines_at(raw@, bounds@).skip(1),
            headers@.len() == k - 1,
            forall|i: int|
                0 <= i < k - 1 ==> (#[trigger] header_of(lines[i])) == Some(headers@[i]@),
        decreases count - k,
    {
        let bound = bounds[k];
        let line = slice_subrange(raw, bound.0, bound.1);
        match read_header_line(line) {
            Some((name, value)) => {
                headers.push(HttpHeader { name, value });
            },
            None => {
                assert(header_of(lines[k - 1]) is None);
                return None;
            },
        }
        k = k + 1;
    }
    Some(headers)
}

/// Appends `bytes` to `out`.
fn push_bytes(out: &mut Vec<u8>, bytes: &[u8])
    ensures
        final(out)@ == old(out)@ + bytes@,
{
    let len: usize = bytes.len();
    let mut i: usize = 0;
    while i < len
        invariant
            len == bytes@.len(),
            i <= len,
            out@ == old(out)@ + bytes@.take(i as int),
        decreases len - i,
    {
        out.push(bytes[i]);
        i = i + 1;
    }
}

/// Appends the bytes of `text` to `out`.
fn push_text(out: &mut Vec<u8>, text: &String)
    ensures
        final(out)@ == old(out)@ + encode_utf8(text@),
{
    push_bytes(out, text.as_str().as_bytes());
}

/// Appends the digits of `n` to `out`.
fn push_decimal(out: &mut Vec<u8>, n: u16)
    ensures
        final(out)@ == old(out)@ + decimal_digits(n as nat),
    decreases n,
{
    if n >= 10 {
        push_decimal(out, n / 10);
    }
    out.push(0x30 + (n % 10) as u8);
}

/// Appends `HTTP/` to `out`.
fn push_http_slash(out: &mut Vec<u8>)
    ensures
        final(out)@ == old(out)@ + http_slash(),
{
    out.push(0x48);
    out.push(0x54);
    out.push(0x54);
    out.push(0x50);
    out.push(0x2f);
}

/// Appends CR LF to `out`.
fn push_crlf(out: &mut Vec<u8>)
    ensures
        final(out)@ == old(out)@ + crlf(),
{
    out.push(CR);
    out.push(LF);
}

/// Appends the lines of `headers` to `out`, each closed by CR LF.
fn push_headers(out: &mut Vec<u8>, headers: &Vec<HttpHeader>)
    ensures
        final(out)@ == old(out)@ + join_lines(header_lines(headers_view(headers@))),
{
    let count: usize = headers.len();
    let ghost lines = header_lines(headers_view(headers@));
    let mut k: usize = 0;
    while k < count
        invariant
            count == headers@.len(),
            k <= count,
            lines == header_lines(headers_view(headers@)),
            out@ == old(out)@ + join_lines(lines.take(k as int)),
        decreases count - k,
    {
        let header = &headers[k];
        push_text(out, &header.name);
        out.push(SP);
        push_text(out, &header.value);
        push_crlf(out);
        proof {
            let taken = lines.take(k + 1);
            assert(taken.drop_last() =~= lines.take(k as int));
        }
        k = k + 1;
    }
    assert(lines.take(count as int) =~= lines);
}

impl HttpRequest {
    /// Each field of the value is the field of the request: the version
    /// itself, the text of the method and of the path, and the values of the
    /// headers in their order.
    pub proof fn lemma_view_fields(&self)
        ensures
            self@.version == self.version,
            self@.method == self.method@,
            self@.path == self.path@,
            self@.headers == headers_view(self.headers@),
    {
    }

    /// A request with these fields.
    pub fn new(method: String, path: String, version: u8, headers: Vec<HttpHeader>) -> (request:
        HttpRequest)
        ensures
            request@ == (RequestView {
                method: method@,
                path: path@,
                version,
                headers: headers_view(headers@),
            }),
    {
        HttpRequest { headers, method, path, version }
    }

    /// The method.
    pub fn method(&self) -> (method: &String)
        ensures
            method@ == self@.method,
    {
        &self.method
    }

    /// The path.
    pub fn path(&self) -> (path: &String)
        ensures
            path@ == self@.path,
    {
        &self.path
    }

    /// The version.
    pub fn version(&self) -> (version: u8)
        ensures
            version == self@.version,
    {
        self.version
    }

    /// The headers, in their order.
    pub fn headers(&self) -> (headers: &Vec<HttpHeader>)
        ensures
            headers_view(headers@) == self@.headers,
    {
        &self.headers
    }

    /// Tells whether the grammar can carry this request. If it can, reading
    /// what `serialize` writes gives the request back.
    pub fn in_grammar(&self) -> (yes: bool)
        ensures
            yes == request_in_grammar(self@),
    {
        let method = self.method.as_str().as_bytes();
        let path = self.path.as_str().as_bytes();
        proof {
            encode_utf8_valid_utf8(self.method@);
            encode_utf8_valid_utf8(self.path@);
        }
        method.len() > 0 && is_all_in(method, ByteClass::Token) && path.len() > 0 && is_all_in(
            path,
            ByteClass::Path,
        ) && all_in_grammar(&self.headers)
    }

    /// Reads a request from the start of `raw`.
    pub fn parse(raw: &[u8]) -> (outcome: ParseOutcome<HttpRequest>)
        ensures
            request_outcome(outcome) == parse_request(raw@),
    {
        let bounds = match split_head(raw) {
            Some(bounds) => bounds,
            None => {
                return Err(FramerError::Incomplete("Error: incomplete request".to_owned()));
            },
        };
        if bounds.len() == 0 {
            return Err(FramerError::Malformed("Error parsing request".to_owned()));
        }
        let first = bounds[0];
        let line = slice_subrange(raw, first.0, first.1);
        let fields = read_request_line(line);
        let headers = read_headers(raw, &bounds);
        match (fields, headers) {
            (Some((method, path, version)), Some(headers)) => Ok(
                HttpRequest { headers, method, path, version },
            ),
            _ => Err(FramerError::Malformed("Error parsing request".to_owned())),
        }
    }

    /// Writes this request.
    pub fn serialize(&self) -> (bytes: Vec<u8>)
        ensures
            bytes@ == request_wire(self@),
    {
        let mut out: Vec<u8> = Vec::new();
        push_text(&mut out, &self.method);
        out.push(SP);
        push_text(&mut out, &self.path);
        out.push(SP);
        push_http_slash(&mut out);
        push_decimal(&mut out, self.version as u16);
        push_crlf(&mut out);
        push_headers(&mut out, &self.headers);
        push_crlf(&mut out);
        proof {
            lemma_join_one_line(request_line(self@));
            lemma_join_lines_concat(seq![request_line(self@)], header_lines(self@.headers));
        }
        out
    }
}

impl Framer for HttpRequest {
    open spec fn wire(&self) -> Seq<u8> {
        request_wire(self@)
    }

    open spec fn reads(raw: Seq<u8>, outcome: ParseOutcome<Self>) -> bool {
        request_outcome(outcome) == parse_request(raw)
    }

    fn from_bytes(&self, raw_bytes: &[u8]) -> (outcome: ParseOutcome<Self>) {
        HttpRequest::parse(raw_bytes)
    }

    fn to_bytes(&self) -> (bytes: Vec<u8>) {
        self.serialize()
    }
}

impl HttpResponse {
    /// A response with these fields.
    pub fn new(version: u8, code: u16, reason: String, headers: Vec<HttpHeader>) -> (response:
        HttpResponse)
        ensures
            response@ == (ResponseView {
                version,
                code,
                reason: reason@,
                headers: headers_view(headers@),
            }),
    {
        HttpResponse { headers, version, code, reason }
    }

    /// The version.
    pub fn version(&self) -> (version: u8)
        ensures
            version == self@.version,
    {
        self.version
    }

    /// The status code.
    pub fn code(&self) -> (code: u16)
        ensures
            code == self@.code,
    {
        self.code
    }

    /// The reason phrase.
    pub fn reason(&self) -> (reason: &String)
        ensures
            reason@ == self@.reason,
    {
        &self.reason
    }

    /// The headers, in their order.
    pub fn headers(&self) -> (headers: &Vec<HttpHeader>)
        ensures
            headers_view(headers@) == self@.headers,
    {
        &self.headers
    }

    /// Tells whether the grammar can carry this response. If it can, reading
    /// what `serialize` writes gives the response back.
    pub fn in_grammar(&self) -> (yes: bool)
        ensures
            yes == response_in_grammar(self@),
    {
        let reason = self.reason.as_str().as_bytes();
        proof {
            encode_utf8_valid_utf8(self.reason@);
        }
        is_all_in(reason, ByteClass::Text) && all_in_grammar(&self.headers)
    }

    /// Reads a response from the start of `raw`.
    pub fn parse(raw: &[u8]) -> (outcome: ParseOutcome<HttpResponse>)
        ensures
            response_outcome(outcome) == parse_response(raw@),
    {
        let bounds = match split_head(raw) {
            Some(bounds) => bounds,
            None => {
                return Err(FramerError::Incomplete("Error: incomplete response".to_owned()));
            },
        };
        if bounds.len() == 0 {
            return Err(FramerError::Malformed("Error parsing response".to_owned()));
        }
        let first = bounds[0];
        let line = slice_subrange(raw, first.0, first.1);
        let fields = read_status_line(line);
        let headers = read_headers(raw, &bounds);
        match (fields, headers) {
            (Some((version, code, reason)), Some(headers)) => Ok(
                HttpResponse { headers, version, code, reason },
            ),
            _ => Err(FramerError::Malformed("Error parsing response".to_owned())),
        }
    }

    /// Writes this response.
    pub fn serialize(&self) -> (bytes: Vec<u8>)
        ensures
            bytes@ == response_wire(self@),
    {
        let mut out: Vec<u8> = Vec::new();
        push_http_slash(&mut out);
        push_decimal(&mut out, self.version as u16);
        out.push(SP);
        push_decimal(&mut out, self.code);
        out.push(SP);
        push_text(&mut out, &self.reason);
        push_crlf(&mut out);
        push_headers(&mut out, &self.headers);
        push_crlf(&mut out);
        proof {
            lemma_join_one_line(status_line(self@));
            lemma_join_lines_concat(seq![status_line(self@)], header_lines(self@.headers));
        }
        out
    }
}

impl Framer for HttpResponse {
    open spec fn wire(&self) -> Seq<u8> {
        response_wire(self@)
    }

    open spec fn reads(raw: Seq<u8>, outcome: ParseOutcome<Self>) -> bool {
        response_outcome(outcome) == parse_response(raw)
    }

    fn from_bytes(&self, raw_bytes: &[u8]) -> (outcome: ParseOutcome<Self>) {
        HttpResponse::parse(raw_bytes)
    }

    fn to_bytes(&self) -> (bytes: Vec<u8>) {
        self.serialize()
    }
}

} // verus!
