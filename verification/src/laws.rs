//! The laws of the framer: what reading gives on every head that the grammar
//! allows, on every start of such a head, and on what was written.
//!
//! A message can be spelled in more than one way: `HTTP/1.1` and `HTTP/1`
//! both give version 1, a header name may be followed by a colon or by a
//! space, and blanks may stand around a header value. A *spelling* fixes
//! these choices. The laws hold of every spelling; the bytes that the framer
//! writes are one of them.

use crate::framer::{
    header_in_grammar, header_lines, header_of, headers_in_grammar, headers_of,
    incomplete_request, incomplete_response, malformed_request, malformed_response,
    parse_request, parse_response, request_in_grammar, request_of_lines, request_wire,
    response_in_grammar, response_of_lines, response_wire, status_line, FramerErrorView,
    HeaderView, RequestView, ResponseView,
};
use crate::lemmas::{
    header_line_lead, header_line_trail, is_clean_line, lemma_code_digits,
    lemma_head_lines_extend, lemma_head_lines_of_joined, lemma_head_lines_of_prefix,
    lemma_head_lines_rejoin, lemma_header_line_fields, lemma_header_line_parts,
    lemma_request_line_fields, lemma_request_line_parts, lemma_status_line_fields,
    lemma_status_line_parts, lemma_version_digits, request_line_number, status_line_digits,
    status_line_number, status_line_spaced,
};
use crate::wire::{
    all_in, code_of, crlf, decimal_digits, head_lines, header_line_fields, http_slash,
    is_decimal, join_lines, lemma_run_len_is, request_line_fields, run_len, status_line_fields,
    version_number, ByteClass, COLON, SP,
};
use vstd::prelude::*;
use vstd::utf8::{decode_utf8_encode_utf8, encode_utf8, encode_utf8_decode_utf8};

verus! {

/// How one header line is spelled.
pub struct HeaderSpelling {
    /// The byte after the name.
    pub separator: u8,
    /// What stands between the separator and the value.
    pub lead: Seq<u8>,
    /// What stands after the value.
    pub trail: Seq<u8>,
}

/// True when `spelling` is one that the grammar allows: a colon or a space
/// after the name, and nothing but blanks around the value.
pub open spec fn is_header_spelling(spelling: HeaderSpelling) -> bool {
    &&& spelling.separator == COLON || spelling.separator == SP
    &&& all_in(spelling.lead, ByteClass::Blank)
    &&& all_in(spelling.trail, ByteClass::Blank)
}

/// True when each of `spellings` is allowed, and there is one for each of
/// `headers`.
pub open spec fn are_header_spellings(
    headers: Seq<HeaderView>,
    spellings: Seq<HeaderSpelling>,
) -> bool {
    &&& spellings.len() == headers.len()
    &&& forall|i: int| 0 <= i < spellings.len() ==> is_header_spelling(#[trigger] spellings[i])
}

/// The line that writes `header` in the spelling `spelling`.
pub open spec fn spelled_header(header: HeaderView, spelling: HeaderSpelling) -> Seq<u8> {
    encode_utf8(header.name) + seq![spelling.separator] + spelling.lead + encode_utf8(
        header.value,
    ) + spelling.trail
}

/// The lines that write `headers`, each in its spelling.
pub open spec fn spelled_headers(
    headers: Seq<HeaderView>,
    spellings: Seq<HeaderSpelling>,
) -> Seq<Seq<u8>> {
    Seq::new(headers.len(), |i: int| spelled_header(headers[i], spellings[i]))
}

/// The spelling that the framer writes: a space, and no blank.
pub open spec fn plain_header_spelling() -> HeaderSpelling {
    HeaderSpelling { separator: SP, lead: Seq::empty(), trail: Seq::empty() }
}

/// How a request is spelled.
pub struct RequestSpelling {
    /// The version number after `HTTP/`.
    pub number: Seq<u8>,
    /// The spelling of each header.
    pub headers: Seq<HeaderSpelling>,
}

/// True when `spelling` is a spelling of `request` that the grammar allows.
pub open spec fn is_request_spelling(request: RequestView, spelling: RequestSpelling) -> bool {
    &&& version_number(spelling.number) == Some(request.version)
    &&& are_header_spellings(request.headers, spelling.headers)
}

/// The lines of `request` in the spelling `spelling`.
pub open spec fn spelled_request_lines(request: RequestView, spelling: RequestSpelling) -> Seq<
    Seq<u8>,
> {
    seq![
        encode_utf8(request.method) + seq![SP] + encode_utf8(request.path) + seq![SP]
            + http_slash() + spelling.number,
    ] + spelled_headers(request.headers, spelling.headers)
}

/// The head of `request` in the spelling `spelling`: its lines and an empty
/// line.
pub open spec fn spelled_request(request: RequestView, spelling: RequestSpelling) -> Seq<u8> {
    join_lines(spelled_request_lines(request, spelling)) + crlf()
}

/// The spelling of `request` that the framer writes.
pub open spec fn plain_request_spelling(request: RequestView) -> RequestSpelling {
    RequestSpelling {
        number: decimal_digits(request.version as nat),
        headers: Seq::new(request.headers.len(), |i: int| plain_header_spelling()),
    }
}

/// How a response is spelled.
pub struct ResponseSpelling {
    /// The version number after `HTTP/`.
    pub number: Seq<u8>,
    /// The digits of the status code.
    pub digits: Seq<u8>,
    /// Whether a space follows the code. It must, unless the reason is empty.
    pub spaced: bool,
    /// The spelling of each header.
    pub headers: Seq<HeaderSpelling>,
}

/// True when `spelling` is a spelling of `response` that the grammar allows.
pub open spec fn is_response_spelling(response: ResponseView, spelling: ResponseSpelling) -> bool {
    &&& version_number(spelling.number) == Some(response.version)
    &&& code_of(spelling.digits) == Some(response.code)
    &&& spelling.spaced || response.reason.len() == 0
    &&& are_header_spellings(response.headers, spelling.headers)
}

/// The status line of `response` in the spelling `spelling`.
pub open spec fn spelled_status_line(response: ResponseView, spelling: ResponseSpelling) -> Seq<
    u8,
> {
    http_slash() + spelling.number + seq![SP] + spelling.digits + (if spelling.spaced {
        seq![SP] + encode_utf8(response.reason)
    } else {
        Seq::<u8>::empty()
    })
}

/// The lines of `response` in the spelling `spelling`.
pub open spec fn spelled_response_lines(
    response: ResponseView,
    spelling: ResponseSpelling,
) -> Seq<Seq<u8>> {
    seq![spelled_status_line(response, spelling)] + spelled_headers(
        response.headers,
        spelling.headers,
    )
}

/// The head of `response` in the spelling `spelling`: its lines and an empty
/// line.
pub open spec fn spelled_response(response: ResponseView, spelling: ResponseSpelling) -> Seq<
    u8,
> {
    join_lines(spelled_response_lines(response, spelling)) + crlf()
}

/// The spelling of `response` that the framer writes.
pub open spec fn plain_response_spelling(response: ResponseView) -> ResponseSpelling {
    ResponseSpelling {
        number: decimal_digits(response.version as nat),
        digits: decimal_digits(response.code as nat),
        spaced: true,
        headers: Seq::new(response.headers.len(), |i: int| plain_header_spelling()),
    }
}

/// A header line in an allowed spelling is clean, and is read as its header.
proof fn lemma_spelled_header(header: HeaderView, spelling: HeaderSpelling)
    requires
        header_in_grammar(header),
        is_header_spelling(spelling),
    ensures
        is_clean_line(spelled_header(header, spelling)),
        header_of(spelled_header(header, spelling)) == Some(header),
{
    let name = encode_utf8(header.name);
    let value = encode_utf8(header.value);
    lemma_header_line_fields(name, spelling.separator, spelling.lead, value, spelling.trail);
    encode_utf8_decode_utf8(header.name);
    encode_utf8_decode_utf8(header.value);
}

/// Header lines in allowed spellings are clean, and are read as their
/// headers.
proof fn lemma_spelled_headers(headers: Seq<HeaderView>, spellings: Seq<HeaderSpelling>)
    requires
        headers_in_grammar(headers),
        are_header_spellings(headers, spellings),
    ensures
        forall|i: int|
            0 <= i < headers.len() ==> is_clean_line(
                #[trigger] spelled_headers(headers, spellings)[i],
            ),
        headers_of(spelled_headers(headers, spellings)) == Some(headers),
{
    let lines = spelled_headers(headers, spellings);
    assert forall|i: int| 0 <= i < lines.len() implies is_clean_line(#[trigger] lines[i])
        && header_of(lines[i]) == Some(headers[i]) by {
        lemma_spelled_header(headers[i], spellings[i]);
    }
}

/// The lines of a request in an allowed spelling are clean, and are read as
/// the request.
proof fn lemma_spelled_request_lines(request: RequestView, spelling: RequestSpelling)
    requires
        request_in_grammar(request),
        is_request_spelling(request, spelling),
    ensures
        forall|i: int|
            0 <= i < spelled_request_lines(request, spelling).len() ==> is_clean_line(
                #[trigger] spelled_request_lines(request, spelling)[i],
            ),
        request_of_lines(spelled_request_lines(request, spelling)) == Some(request),
{
    let method = encode_utf8(request.method);
    let path = encode_utf8(request.path);
    let first = method + seq![SP] + path + seq![SP] + http_slash() + spelling.number;
    let others = spelled_headers(request.headers, spelling.headers);
    let lines = spelled_request_lines(request, spelling);
    lemma_request_line_fields(method, path, spelling.number, request.version);
    encode_utf8_decode_utf8(request.method);
    encode_utf8_decode_utf8(request.path);
    lemma_spelled_headers(request.headers, spelling.headers);
    assert(lines.skip(1) =~= others);
    assert(is_clean_line(first));
}

/// The lines of a response in an allowed spelling are clean, and are read as
/// the response.
proof fn lemma_spelled_response_lines(response: ResponseView, spelling: ResponseSpelling)
    requires
        response_in_grammar(response),
        is_response_spelling(response, spelling),
    ensures
        forall|i: int|
            0 <= i < spelled_response_lines(response, spelling).len() ==> is_clean_line(
                #[trigger] spelled_response_lines(response, spelling)[i],
            ),
        response_of_lines(spelled_response_lines(response, spelling)) == Some(response),
{
    let reason = encode_utf8(response.reason);
    let first = spelled_status_line(response, spelling);
    let others = spelled_headers(response.headers, spelling.headers);
    let lines = spelled_response_lines(response, spelling);
    lemma_status_line_fields(
        spelling.number,
        response.version,
        spelling.digits,
        response.code,
        reason,
        spelling.spaced,
    );
    encode_utf8_decode_utf8(response.reason);
    lemma_spelled_headers(response.headers, spelling.headers);
    assert(lines.skip(1) =~= others);
    assert(is_clean_line(first));
}

/// Every well-formed request head is read as the request that it writes.
///
/// Take a request in the grammar and any allowed spelling of it. Reading the
/// head gives that request, field for field and with the headers in their
/// order, whatever bytes follow the empty line.
pub proof fn lemma_well_formed_request_is_read(
    request: RequestView,
    spelling: RequestSpelling,
    tail: Seq<u8>,
)
    requires
        request_in_grammar(request),
        is_request_spelling(request, spelling),
    ensures
        parse_request(spelled_request(request, spelling) + tail) == Ok::<
            RequestView,
            FramerErrorView,
        >(request),
{
    lemma_spelled_request_lines(request, spelling);
    lemma_head_lines_of_joined(spelled_request_lines(request, spelling), tail);
}

/// Every well-formed response head is read as the response that it writes.
///
/// Take a response in the grammar and any allowed spelling of it. Reading
/// the head gives that response, field for field and with the headers in
/// their order, whatever bytes follow the empty line.
pub proof fn lemma_well_formed_response_is_read(
    response: ResponseView,
    spelling: ResponseSpelling,
    tail: Seq<u8>,
)
    requires
        response_in_grammar(response),
        is_response_spelling(response, spelling),
    ensures
        parse_response(spelled_response(response, spelling) + tail) == Ok::<
            ResponseView,
            FramerErrorView,
        >(response),
{
    lemma_spelled_response_lines(response, spelling);
    lemma_head_lines_of_joined(spelled_response_lines(response, spelling), tail);
}

/// Every proper start of a well-formed request head is incomplete.
///
/// Take a request in the grammar, any allowed spelling of it, and fewer
/// bytes than the head has, the empty line counted. Reading them gives
/// `Incomplete`.
pub proof fn lemma_request_prefix_is_incomplete(
    request: RequestView,
    spelling: RequestSpelling,
    k: int,
)
    requires
        request_in_grammar(request),
        is_request_spelling(request, spelling),
        0 <= k < spelled_request(request, spelling).len(),
    ensures
        parse_request(spelled_request(request, spelling).take(k)) == Err::<
            RequestView,
            FramerErrorView,
        >(FramerErrorView::Incomplete(incomplete_request())),
{
    lemma_spelled_request_lines(request, spelling);
    lemma_head_lines_of_prefix(spelled_request_lines(request, spelling), k);
}

/// Every proper start of a well-formed response head is incomplete.
///
/// Take a response in the grammar, any allowed spelling of it, and fewer
/// bytes than the head has, the empty line counted. Reading them gives
/// `Incomplete`.
pub proof fn lemma_response_prefix_is_incomplete(
    response: ResponseView,
    spelling: ResponseSpelling,
    k: int,
)
    requires
        response_in_grammar(response),
        is_response_spelling(response, spelling),
        0 <= k < spelled_response(response, spelling).len(),
    ensures
        parse_response(spelled_response(response, spelling).take(k)) == Err::<
            ResponseView,
            FramerErrorView,
        >(FramerErrorView::Incomplete(incomplete_response())),
{
    lemma_spelled_response_lines(response, spelling);
    lemma_head_lines_of_prefix(spelled_response_lines(response, spelling), k);
}

/// What the framer writes for a request is the request in its plain
/// spelling, and that spelling is allowed.
pub proof fn lemma_request_wire_is_plain(request: RequestView)
    ensures
        is_request_spelling(request, plain_request_spelling(request)),
        request_wire(request) == spelled_request(request, plain_request_spelling(request)),
{
    let spelling = plain_request_spelling(request);
    lemma_version_digits(request.version);
    assert(spelled_headers(request.headers, spelling.headers) =~= header_lines(request.headers))
        by {
        assert forall|i: int| 0 <= i < request.headers.len() implies spelled_headers(
            request.headers,
            spelling.headers,
        )[i] == header_lines(request.headers)[i] by {}
    }
}

/// What the framer writes for a response is the response in its plain
/// spelling, and that spelling is allowed.
pub proof fn lemma_response_wire_is_plain(response: ResponseView)
    ensures
        is_response_spelling(response, plain_response_spelling(response)),
        response_wire(response) == spelled_response(response, plain_response_spelling(response)),
{
    let spelling = plain_response_spelling(response);
    lemma_version_digits(response.version);
    lemma_code_digits(response.code);
    assert(spelled_headers(response.headers, spelling.headers) =~= header_lines(
        response.headers,
    )) by {
        assert forall|i: int| 0 <= i < response.headers.len() implies spelled_headers(
            response.headers,
            spelling.headers,
        )[i] == header_lines(response.headers)[i] by {}
    }
    assert(spelled_status_line(response, spelling) =~= status_line(response));
}

/// Round trip: reading what was written for a request in the grammar gives
/// the request back.
pub proof fn lemma_request_round_trip(request: RequestView)
    requires
        request_in_grammar(request),
    ensures
        parse_request(request_wire(request)) == Ok::<RequestView, FramerErrorView>(request),
{
    lemma_request_wire_is_plain(request);
    lemma_well_formed_request_is_read(request, plain_request_spelling(request), Seq::empty());
}

/// Round trip: reading what was written for a response in the grammar gives
/// the response back.
pub proof fn lemma_response_round_trip(response: ResponseView)
    requires
        response_in_grammar(response),
    ensures
        parse_response(response_wire(response)) == Ok::<ResponseView, FramerErrorView>(response),
{
    lemma_response_wire_is_plain(response);
    lemma_well_formed_response_is_read(response, plain_response_spelling(response), Seq::empty());
}

/// Once reading a request has given a message or `Malformed`, more bytes
/// change nothing: a malformed head never becomes a message, and a message
/// stays the same message.
pub proof fn lemma_request_outcome_is_final(raw: Seq<u8>, more: Seq<u8>)
    requires
        !(parse_request(raw) matches Err(FramerErrorView::Incomplete(_))),
    ensures
        parse_request(raw + more) == parse_request(raw),
{
    lemma_head_lines_extend(raw, more);
}

/// Once reading a response has given a message or `Malformed`, more bytes
/// change nothing: a malformed head never becomes a message, and a message
/// stays the same message.
pub proof fn lemma_response_outcome_is_final(raw: Seq<u8>, more: Seq<u8>)
    requires
        !(parse_response(raw) matches Err(FramerErrorView::Incomplete(_))),
    ensures
        parse_response(raw + more) == parse_response(raw),
{
    lemma_head_lines_extend(raw, more);
}

/// A head whose first line starts with a space has no method, and is
/// malformed as a request.
pub proof fn lemma_request_without_method_is_malformed(raw: Seq<u8>)
    requires
        head_lines(raw) matches Some(lines) && lines.len() > 0 && lines[0].len() > 0 && lines[0][0]
            == SP,
    ensures
        parse_request(raw) == Err::<RequestView, FramerErrorView>(
            FramerErrorView::Malformed(malformed_request()),
        ),
{
    assert(request_line_fields(head_lines(raw)->0[0]) is None);
}

/// A head whose first line has nothing between its first space and its
/// second has no path, and is malformed as a request.
pub proof fn lemma_request_without_path_is_malformed(raw: Seq<u8>, method: Seq<u8>, rest: Seq<u8>)
    requires
        head_lines(raw) matches Some(lines) && lines.len() > 0 && lines[0] == method + seq![SP, SP]
            + rest,
        all_in(method, ByteClass::Unspaced),
    ensures
        parse_request(raw) == Err::<RequestView, FramerErrorView>(
            FramerErrorView::Malformed(malformed_request()),
        ),
{
    let line = head_lines(raw)->0[0];
    let i = method.len() as int;
    lemma_run_len_is(line, ByteClass::Unspaced, i);
    assert(run_len(line.skip(i + 1), ByteClass::Unspaced) == 0);
}

/// A head whose first line has, after its first space, anything but digits
/// up to the next space or the end has no status code, and is malformed as a
/// response.
pub proof fn lemma_response_without_code_is_malformed(raw: Seq<u8>)
    requires
        head_lines(raw) matches Some(lines) && lines.len() > 0 && !is_decimal(
            status_line_digits(lines[0]),
        ),
    ensures
        parse_response(raw) == Err::<ResponseView, FramerErrorView>(
            FramerErrorView::Malformed(malformed_response()),
        ),
{
    assert(status_line_fields(head_lines(raw)->0[0]) is None);
}

/// A head with a line after the first that is no header line is malformed,
/// as a request and as a response. A line is no header line when it has no
/// name, when neither a colon nor a space follows the name, and when its
/// value holds a control byte or is not UTF-8.
pub proof fn lemma_bad_header_is_malformed(raw: Seq<u8>, k: int)
    requires
        head_lines(raw) matches Some(lines) && 1 <= k < lines.len() && header_line_fields(lines[k])
            is None,
    ensures
        parse_request(raw) == Err::<RequestView, FramerErrorView>(
            FramerErrorView::Malformed(malformed_request()),
        ),
        parse_response(raw) == Err::<ResponseView, FramerErrorView>(
            FramerErrorView::Malformed(malformed_response()),
        ),
{
    let lines = head_lines(raw)->0;
    let headers = lines.skip(1);
    assert(header_of(headers[k - 1]) is None);
}

/// The spelling in which the header line `line` is written.
pub open spec fn header_spelling_of(line: Seq<u8>) -> HeaderSpelling {
    HeaderSpelling {
        separator: line[run_len(line, ByteClass::Token) as int],
        lead: header_line_lead(line),
        trail: header_line_trail(line),
    }
}

/// The spellings in which the header lines `lines` are written.
pub open spec fn header_spellings_of(lines: Seq<Seq<u8>>) -> Seq<HeaderSpelling> {
    Seq::new(lines.len(), |i: int| header_spelling_of(lines[i]))
}

/// The spelling in which the lines `lines` write a request.
pub open spec fn request_spelling_of(lines: Seq<Seq<u8>>) -> RequestSpelling {
    RequestSpelling {
        number: request_line_number(lines[0]),
        headers: header_spellings_of(lines.skip(1)),
    }
}

/// The spelling in which the lines `lines` write a response.
pub open spec fn response_spelling_of(lines: Seq<Seq<u8>>) -> ResponseSpelling {
    ResponseSpelling {
        number: status_line_number(lines[0]),
        digits: status_line_digits(lines[0]),
        spaced: status_line_spaced(lines[0]),
        headers: header_spellings_of(lines.skip(1)),
    }
}

/// Lines that are read as headers are headers in the grammar, written in an
/// allowed spelling.
proof fn lemma_read_headers(lines: Seq<Seq<u8>>)
    requires
        headers_of(lines) is Some,
    ensures
        headers_in_grammar(headers_of(lines)->0),
        are_header_spellings(headers_of(lines)->0, header_spellings_of(lines)),
        spelled_headers(headers_of(lines)->0, header_spellings_of(lines)) == lines,
{
    let headers = headers_of(lines)->0;
    let spellings = header_spellings_of(lines);
    assert forall|i: int| 0 <= i < lines.len() implies header_in_grammar(#[trigger] headers[i])
        && is_header_spelling(#[trigger] spellings[i]) && spelled_header(headers[i], spellings[i])
        == lines[i] by {
        let line = lines[i];
        assert(header_of(line) is Some);
        let (name, value) = header_line_fields(line)->0;
        lemma_header_line_parts(line);
        decode_utf8_encode_utf8(name);
        decode_utf8_encode_utf8(value);
    }
    assert(spelled_headers(headers, spellings) =~= lines);
}

/// Every head that is read as a request is a well-formed one.
///
/// If reading `raw` gives a request, the request is in the grammar, and `raw`
/// starts with the request in an allowed spelling, closed by an empty line.
/// With [`lemma_well_formed_request_is_read`] this says that the heads that
/// are read as requests are the well-formed ones and no others.
pub proof fn lemma_read_request_is_well_formed(raw: Seq<u8>)
    requires
        parse_request(raw) is Ok,
    ensures
        ({
            let request = parse_request(raw)->Ok_0;
            let spelling = request_spelling_of(head_lines(raw)->0);
            &&& request_in_grammar(request)
            &&& is_request_spelling(request, spelling)
            &&& spelled_request(request, spelling).is_prefix_of(raw)
        }),
{
    let lines = head_lines(raw)->0;
    let request = parse_request(raw)->Ok_0;
    let spelling = request_spelling_of(lines);
    let (method, path, version) = request_line_fields(lines[0])->0;
    lemma_head_lines_rejoin(raw);
    lemma_request_line_parts(lines[0]);
    decode_utf8_encode_utf8(method);
    decode_utf8_encode_utf8(path);
    lemma_read_headers(lines.skip(1));
    assert(spelled_request_lines(request, spelling) =~= lines);
}

/// Every head that is read as a response is a well-formed one.
///
/// If reading `raw` gives a response, the response is in the grammar, and
/// `raw` starts with the response in an allowed spelling, closed by an empty
/// line. With [`lemma_well_formed_response_is_read`] this says that the heads
/// that are read as responses are the well-formed ones and no others.
pub proof fn lemma_read_response_is_well_formed(raw: Seq<u8>)
    requires
        parse_response(raw) is Ok,
    ensures
        ({
            let response = parse_response(raw)->Ok_0;
            let spelling = response_spelling_of(head_lines(raw)->0);
            &&& response_in_grammar(response)
            &&& is_response_spelling(response, spelling)
            &&& spelled_response(response, spelling).is_prefix_of(raw)
        }),
{
    let lines = head_lines(raw)->0;
    let response = parse_response(raw)->Ok_0;
    let spelling = response_spelling_of(lines);
    let (version, code, reason) = status_line_fields(lines[0])->0;
    lemma_head_lines_rejoin(raw);
    lemma_status_line_parts(lines[0]);
    decode_utf8_encode_utf8(reason);
    lemma_read_headers(lines.skip(1));
    assert(spelled_response_lines(response, spelling) =~= lines);
}

/// Reading, writing and reading again gives what the first reading gave:
/// every request that is read has a written form that is read as the same
/// request.
pub proof fn lemma_read_request_round_trips(raw: Seq<u8>)
    requires
        parse_request(raw) is Ok,
    ensures
        parse_request(request_wire(parse_request(raw)->Ok_0)) == parse_request(raw),
{
    lemma_read_request_is_well_formed(raw);
    lemma_request_round_trip(parse_request(raw)->Ok_0);
}

/// Reading, writing and reading again gives what the first reading gave:
/// every response that is read has a written form that is read as the same
/// response.
pub proof fn lemma_read_response_round_trips(raw: Seq<u8>)
    requires
        parse_response(raw) is Ok,
    ensures
        parse_response(response_wire(parse_response(raw)->Ok_0)) == parse_response(raw),
{
    lemma_read_response_is_well_formed(raw);
    lemma_response_round_trip(parse_response(raw)->Ok_0);
}

} // verus!
