use transport_services::framer::{Framer, FramerError, HttpHeader, HttpRequest, HttpResponse};
use transport_services::scan::field_text;

fn header(name: &str, value: &str) -> HttpHeader {
    HttpHeader::new(name.to_string(), value.to_string())
}

fn request(method: &str, path: &str, version: u8, headers: Vec<HttpHeader>) -> HttpRequest {
    HttpRequest::new(method.to_string(), path.to_string(), version, headers)
}

fn response(version: u8, code: u16, reason: &str, headers: Vec<HttpHeader>) -> HttpResponse {
    HttpResponse::new(version, code, reason.to_string(), headers)
}

fn incomplete_request() -> Result<HttpRequest, FramerError> {
    Err(FramerError::Incomplete("Error: incomplete request".to_string()))
}

fn malformed_request() -> Result<HttpRequest, FramerError> {
    Err(FramerError::Malformed("Error parsing request".to_string()))
}

fn incomplete_response() -> Result<HttpResponse, FramerError> {
    Err(FramerError::Incomplete("Error: incomplete response".to_string()))
}

fn malformed_response() -> Result<HttpResponse, FramerError> {
    Err(FramerError::Malformed("Error parsing response".to_string()))
}

#[test]
fn parses_request_with_one_header() {
    let parsed = HttpRequest::parse(b"GET /index.html HTTP/1\r\nHost: example.com\r\n\r\n");
    assert_eq!(parsed, Ok(request("GET", "/index.html", 1, vec![header("Host", "example.com")])));
    let parsed = parsed.unwrap();
    assert_eq!(parsed.method(), "GET");
    assert_eq!(parsed.path(), "/index.html");
    assert_eq!(parsed.version(), 1);
    assert_eq!(parsed.version, 1);
    assert_eq!(parsed.headers().len(), 1);
    assert_eq!(parsed.headers()[0].name(), "Host");
    assert_eq!(parsed.headers()[0].value(), "example.com");
}

#[test]
fn parses_response_with_one_header() {
    let parsed = HttpResponse::parse(b"HTTP/1 200 OK\r\nContent-Length: 0\r\n\r\n");
    assert_eq!(parsed, Ok(response(1, 200, "OK", vec![header("Content-Length", "0")])));
    let parsed = parsed.unwrap();
    assert_eq!(parsed.version(), 1);
    assert_eq!(parsed.code(), 200);
    assert_eq!(parsed.reason(), "OK");
    assert_eq!(parsed.headers()[0].name(), "Content-Length");
    assert_eq!(parsed.headers()[0].value(), "0");
}

#[test]
fn request_line_without_method_is_malformed() {
    assert_eq!(HttpRequest::parse(b" /path HTTP/1.1\r\n\r\n"), malformed_request());
}

#[test]
fn request_line_without_path_is_malformed() {
    assert_eq!(HttpRequest::parse(b"GET  HTTP/1.1\r\n\r\n"), malformed_request());
    assert_eq!(HttpRequest::parse(b"GET HTTP/1.1\r\n\r\n"), malformed_request());
}

#[test]
fn status_code_that_is_no_number_is_malformed() {
    assert_eq!(HttpResponse::parse(b"HTTP/1.1 2x0 OK\r\n\r\n"), malformed_response());
    assert_eq!(HttpResponse::parse(b"HTTP/1.1 OK\r\n\r\n"), malformed_response());
    assert_eq!(HttpResponse::parse(b"HTTP/1.1  200 OK\r\n\r\n"), malformed_response());
    assert_eq!(HttpResponse::parse(b"HTTP/1.1 65536 OK\r\n\r\n"), malformed_response());
}

#[test]
fn header_value_that_is_not_utf8_is_malformed() {
    assert_eq!(HttpRequest::parse(b"GET / HTTP/1.1\r\nX: \xff\xfe\r\n\r\n"), malformed_request());
    assert_eq!(HttpResponse::parse(b"HTTP/1.1 200 OK\r\nX: \xc3\r\n\r\n"), malformed_response());
    assert_eq!(HttpResponse::parse(b"HTTP/1.1 200 \xff\r\n\r\n"), malformed_response());
    assert_eq!(HttpRequest::parse(b"GET /\xff HTTP/1.1\r\n\r\n"), malformed_request());
}

#[test]
fn header_value_may_hold_utf8() {
    let parsed = HttpRequest::parse("GET /caf\u{e9} HTTP/1.1\r\nX-Name: Zo\u{eb}\r\n\r\n".as_bytes());
    assert_eq!(parsed, Ok(request("GET", "/caf\u{e9}", 1, vec![header("X-Name", "Zo\u{eb}")])));
}

#[test]
fn every_proper_prefix_is_incomplete() {
    let whole: &[u8] = b"GET /index.html HTTP/1\r\nHost: example.com\r\nAccept: */*\r\n\r\n";
    for cut in 0..whole.len() {
        assert_eq!(HttpRequest::parse(&whole[..cut]), incomplete_request(), "cut at {}", cut);
    }
    assert!(HttpRequest::parse(whole).is_ok());
    let whole: &[u8] = b"HTTP/1 404 Not Found\r\nServer: x\r\n\r\n";
    for cut in 0..whole.len() {
        assert_eq!(HttpResponse::parse(&whole[..cut]), incomplete_response(), "cut at {}", cut);
    }
    assert!(HttpResponse::parse(whole).is_ok());
}

#[test]
fn broken_bytes_without_blank_line_are_incomplete() {
    assert_eq!(HttpRequest::parse(b""), incomplete_request());
    assert_eq!(HttpRequest::parse(b" /path HTTP/1.1\r\n"), incomplete_request());
    assert_eq!(HttpRequest::parse(b"\x00\x01\x02"), incomplete_request());
    assert_eq!(HttpResponse::parse(b"HTTP/1.1 abc\r\nX"), incomplete_response());
}

#[test]
fn outcome_stays_when_bytes_follow_the_head() {
    let head: &[u8] = b"POST /submit HTTP/1.1\r\nContent-Length: 5\r\n\r\n";
    let mut longer = head.to_vec();
    longer.extend_from_slice(b"hello\r\n\r\nmore");
    assert_eq!(HttpRequest::parse(head), HttpRequest::parse(&longer));
    assert_eq!(
        HttpRequest::parse(&longer),
        Ok(request("POST", "/submit", 1, vec![header("Content-Length", "5")]))
    );
    let bad: &[u8] = b"POST\r\n\r\n";
    let mut longer = bad.to_vec();
    longer.extend_from_slice(b"GET / HTTP/1.1\r\n\r\n");
    assert_eq!(HttpRequest::parse(bad), malformed_request());
    assert_eq!(HttpRequest::parse(&longer), malformed_request());
}

#[test]
fn empty_first_line_is_malformed() {
    assert_eq!(HttpRequest::parse(b"\r\n"), malformed_request());
    assert_eq!(HttpRequest::parse(b"\r\n\r\n"), malformed_request());
    assert_eq!(HttpRequest::parse(b"\r\nGET / HTTP/1.1\r\n\r\n"), malformed_request());
    assert_eq!(HttpResponse::parse(b"\r\nHTTP/1.1 200 OK\r\n\r\n"), malformed_response());
}

#[test]
fn version_forms() {
    assert_eq!(HttpRequest::parse(b"GET / HTTP/1.1\r\n\r\n"), Ok(request("GET", "/", 1, vec![])));
    assert_eq!(HttpRequest::parse(b"GET / HTTP/1.0\r\n\r\n"), Ok(request("GET", "/", 0, vec![])));
    assert_eq!(HttpRequest::parse(b"GET / HTTP/0\r\n\r\n"), Ok(request("GET", "/", 0, vec![])));
    assert_eq!(HttpRequest::parse(b"GET / HTTP/255\r\n\r\n"), Ok(request("GET", "/", 255, vec![])));
    assert_eq!(HttpRequest::parse(b"GET / HTTP/007\r\n\r\n"), Ok(request("GET", "/", 7, vec![])));
    assert_eq!(HttpRequest::parse(b"GET / HTTP/256\r\n\r\n"), malformed_request());
    assert_eq!(HttpRequest::parse(b"GET / HTTP/1.2\r\n\r\n"), malformed_request());
    assert_eq!(HttpRequest::parse(b"GET / HTTP/2.0\r\n\r\n"), malformed_request());
    assert_eq!(HttpRequest::parse(b"GET / HTTP/\r\n\r\n"), malformed_request());
    assert_eq!(HttpRequest::parse(b"GET / http/1.1\r\n\r\n"), malformed_request());
    assert_eq!(HttpRequest::parse(b"GET / HTTP/1.1 \r\n\r\n"), malformed_request());
    assert_eq!(HttpRequest::parse(b"GET / HTTP/99999999999999999999\r\n\r\n"), malformed_request());
}

#[test]
fn status_line_forms() {
    assert_eq!(HttpResponse::parse(b"HTTP/1.1 200\r\n\r\n"), Ok(response(1, 200, "", vec![])));
    assert_eq!(HttpResponse::parse(b"HTTP/1.1 200 \r\n\r\n"), Ok(response(1, 200, "", vec![])));
    assert_eq!(
        HttpResponse::parse(b"HTTP/1.0 404 Not Found\r\n\r\n"),
        Ok(response(0, 404, "Not Found", vec![]))
    );
    assert_eq!(HttpResponse::parse(b"HTTP/3 7 x\r\n\r\n"), Ok(response(3, 7, "x", vec![])));
    assert_eq!(HttpResponse::parse(b"HTTP/1 65535 x\r\n\r\n"), Ok(response(1, 65535, "x", vec![])));
    assert_eq!(HttpResponse::parse(b"HTTP/1.1\r\n\r\n"), malformed_response());
    assert_eq!(HttpResponse::parse(b"200 OK\r\n\r\n"), malformed_response());
    assert_eq!(HttpResponse::parse(b"HTTP/1.1 200 O\x01K\r\n\r\n"), malformed_response());
}

#[test]
fn header_line_forms() {
    let expected = Ok(request("GET", "/", 1, vec![header("Host", "example.com")]));
    assert_eq!(HttpRequest::parse(b"GET / HTTP/1.1\r\nHost:example.com\r\n\r\n"), expected);
    assert_eq!(HttpRequest::parse(b"GET / HTTP/1.1\r\nHost: example.com\r\n\r\n"), expected);
    assert_eq!(HttpRequest::parse(b"GET / HTTP/1.1\r\nHost example.com\r\n\r\n"), expected);
    assert_eq!(HttpRequest::parse(b"GET / HTTP/1.1\r\nHost: \t example.com \t\r\n\r\n"), expected);
    assert_eq!(
        HttpRequest::parse(b"GET / HTTP/1.1\r\nEmpty:\r\nBlank:   \r\n\r\n"),
        Ok(request("GET", "/", 1, vec![header("Empty", ""), header("Blank", "")]))
    );
    assert_eq!(
        HttpRequest::parse(b"GET / HTTP/1.1\r\nA: b c  d\r\n\r\n"),
        Ok(request("GET", "/", 1, vec![header("A", "b c  d")]))
    );
    assert_eq!(HttpRequest::parse(b"GET / HTTP/1.1\r\n: v\r\n\r\n"), malformed_request());
    assert_eq!(HttpRequest::parse(b"GET / HTTP/1.1\r\nNoSeparator\r\n\r\n"), malformed_request());
    assert_eq!(HttpRequest::parse(b"GET / HTTP/1.1\r\nBad(name: v\r\n\r\n"), malformed_request());
    assert_eq!(HttpRequest::parse(b"GET / HTTP/1.1\r\nA: b\rc\r\n\r\n"), malformed_request());
    assert_eq!(HttpRequest::parse(b"GET / HTTP/1.1\r\nA: b\nc\r\n\r\n"), malformed_request());
}

#[test]
fn headers_keep_their_order() {
    let parsed = HttpRequest::parse(b"GET / HTTP/1.1\r\nB: 2\r\nA: 1\r\nB: 3\r\n\r\n");
    assert_eq!(
        parsed,
        Ok(request("GET", "/", 1, vec![header("B", "2"), header("A", "1"), header("B", "3")]))
    );
}

#[test]
fn reads_any_number_of_headers() {
    for count in [64usize, 65, 66, 1000] {
        let mut bytes = b"GET / HTTP/1.1\r\n".to_vec();
        let mut headers = vec![];
        for i in 0..count {
            bytes.extend_from_slice(format!("H{}: {}\r\n", i, i).as_bytes());
            headers.push(header(&format!("H{}", i), &format!("{}", i)));
        }
        bytes.extend_from_slice(b"\r\n");
        let parsed = HttpRequest::parse(&bytes).unwrap();
        assert_eq!(parsed.headers().len(), count);
        assert_eq!(parsed, request("GET", "/", 1, headers));
        let mut bytes = b"HTTP/1.1 200 OK\r\n".to_vec();
        let mut headers = vec![];
        for i in 0..count {
            bytes.extend_from_slice(format!("H{}: {}\r\n", i, i).as_bytes());
            headers.push(header(&format!("H{}", i), &format!("{}", i)));
        }
        bytes.extend_from_slice(b"\r\n");
        assert_eq!(HttpResponse::parse(&bytes), Ok(response(1, 200, "OK", headers)));
    }
}

#[test]
fn one_bad_header_among_many_is_malformed() {
    let mut bytes = b"GET / HTTP/1.1\r\n".to_vec();
    for i in 0..70 {
        bytes.extend_from_slice(format!("H{}: {}\r\n", i, i).as_bytes());
    }
    bytes.extend_from_slice(b"NoSeparator\r\n\r\n");
    assert_eq!(HttpRequest::parse(&bytes), malformed_request());
}

#[test]
fn serializes_request() {
    let message = request("GET", "/index.html", 1, vec![header("Host", "example.com")]);
    assert_eq!(message.serialize(), b"GET /index.html HTTP/1\r\nHost example.com\r\n\r\n".to_vec());
    let message = request("PUT", "/a", 255, vec![]);
    assert_eq!(message.serialize(), b"PUT /a HTTP/255\r\n\r\n".to_vec());
    let message = request("PUT", "/a", 0, vec![header("A", ""), header("B", "x y")]);
    assert_eq!(message.serialize(), b"PUT /a HTTP/0\r\nA \r\nB x y\r\n\r\n".to_vec());
}

#[test]
fn serializes_response() {
    let message = response(1, 200, "OK", vec![header("Content-Length", "0")]);
    assert_eq!(message.serialize(), b"HTTP/1 200 OK\r\nContent-Length 0\r\n\r\n".to_vec());
    let message = response(10, 65535, "", vec![]);
    assert_eq!(message.serialize(), b"HTTP/10 65535 \r\n\r\n".to_vec());
    let message = response(0, 7, "Zo\u{eb}", vec![]);
    assert_eq!(message.serialize(), "HTTP/0 7 Zo\u{eb}\r\n\r\n".as_bytes().to_vec());
}

#[test]
fn request_round_trip() {
    let build = || {
        request(
            "OPTIONS",
            "/a/b?c=d",
            109,
            vec![header("Host", "example.com"), header("X-Empty", ""), header("Accept", "*/* ; q=1")],
        )
    };
    assert_eq!(HttpRequest::parse(&build().serialize()), Ok(build()));
    for version in [0u8, 1, 9, 10, 99, 100, 255] {
        let bytes = request("GET", "/", version, vec![]).serialize();
        assert_eq!(HttpRequest::parse(&bytes), Ok(request("GET", "/", version, vec![])));
    }
}

#[test]
fn response_round_trip() {
    let build = || response(1, 301, "Moved  Permanently", vec![header("Location", "/x"), header("A", "b")]);
    assert_eq!(HttpResponse::parse(&build().serialize()), Ok(build()));
    for code in [0u16, 9, 10, 99, 100, 999, 1000, 9999, 10000, 65535] {
        let bytes = response(1, code, "", vec![]).serialize();
        assert_eq!(HttpResponse::parse(&bytes), Ok(response(1, code, "", vec![])));
    }
}

#[test]
fn message_outside_the_grammar_does_not_round_trip() {
    let message = request("GET", "/", 1, vec![header("Name", " padded ")]);
    assert_eq!(
        HttpRequest::parse(&message.serialize()),
        Ok(request("GET", "/", 1, vec![header("Name", "padded")]))
    );
    let message = request("", "/", 1, vec![]);
    assert_eq!(HttpRequest::parse(&message.serialize()), malformed_request());
    let message = request("GET", "/a b", 1, vec![]);
    assert_eq!(HttpRequest::parse(&message.serialize()), malformed_request());
}

#[test]
fn framer_trait_reads_and_writes() {
    let any = request("X", "/", 0, vec![]);
    let parsed = any.from_bytes(b"GET /index.html HTTP/1\r\nHost: example.com\r\n\r\n");
    assert_eq!(parsed, Ok(request("GET", "/index.html", 1, vec![header("Host", "example.com")])));
    assert_eq!(any.to_bytes(), b"X / HTTP/0\r\n\r\n".to_vec());
    let any = response(0, 0, "", vec![]);
    assert_eq!(any.from_bytes(b"HTTP/1 200 OK\r\n\r\n"), Ok(response(1, 200, "OK", vec![])));
    assert_eq!(any.from_bytes(b"HTTP/1 200 OK\r\n"), incomplete_response());
    assert_eq!(any.to_bytes(), b"HTTP/0 0 \r\n\r\n".to_vec());
}

#[test]
fn error_carries_its_reason() {
    let error = HttpRequest::parse(b"GET").unwrap_err();
    assert_eq!(error.reason(), "Error: incomplete request");
    let error = HttpResponse::parse(b"x\r\n\r\n").unwrap_err();
    assert_eq!(error.reason(), "Error parsing response");
}

#[test]
fn field_text_decodes_utf8() {
    assert_eq!(field_text(b"plain"), Some("plain".to_string()));
    assert_eq!(field_text(&[0xe2, 0x82, 0xac]), Some("\u{20ac}".to_string()));
    assert_eq!(field_text(b""), Some(String::new()));
    assert_eq!(field_text(&[0xe2, 0x82]), None);
    assert_eq!(field_text(&[0xc0, 0x80]), None);
    assert_eq!(field_text(&[0xed, 0xa0, 0x80]), None);
}

#[test]
fn tells_what_the_grammar_carries() {
    assert!(header("Host", "example.com").in_grammar());
    assert!(header("X", "").in_grammar());
    assert!(header("X", "a b\tc").in_grammar());
    assert!(header("X", "Zo\u{eb}").in_grammar());
    assert!(!header("", "v").in_grammar());
    assert!(!header("Na me", "v").in_grammar());
    assert!(!header("Name:", "v").in_grammar());
    assert!(!header("N\u{e9}", "v").in_grammar());
    assert!(!header("X", " v").in_grammar());
    assert!(!header("X", "v ").in_grammar());
    assert!(!header("X", "v\t").in_grammar());
    assert!(!header("X", "a\r\nb").in_grammar());
    assert!(!header("X", "a\u{7f}").in_grammar());
    assert!(request("GET", "/", 0, vec![]).in_grammar());
    assert!(request("M-SEARCH", "*", 255, vec![header("A", "b")]).in_grammar());
    assert!(request("GET", "/caf\u{e9}", 1, vec![]).in_grammar());
    assert!(!request("", "/", 1, vec![]).in_grammar());
    assert!(!request("GET", "", 1, vec![]).in_grammar());
    assert!(!request("GET", "/a b", 1, vec![]).in_grammar());
    assert!(!request("GE T", "/", 1, vec![]).in_grammar());
    assert!(!request("GET", "/", 1, vec![header("A", "b"), header("C", " d")]).in_grammar());
    assert!(response(1, 200, "OK", vec![]).in_grammar());
    assert!(response(1, 200, "", vec![]).in_grammar());
    assert!(response(1, 200, " spaced out ", vec![header("A", "b")]).in_grammar());
    assert!(!response(1, 200, "O\nK", vec![]).in_grammar());
    assert!(!response(1, 200, "OK", vec![header("A B", "c")]).in_grammar());
    let many = |n: usize| (0..n).map(|i| header(&format!("H{}", i), "v")).collect::<Vec<_>>();
    assert!(request("GET", "/", 1, many(64)).in_grammar());
    assert!(request("GET", "/", 1, many(65)).in_grammar());
    assert!(response(1, 200, "OK", many(64)).in_grammar());
    assert!(response(1, 200, "OK", many(300)).in_grammar());
}

#[test]
fn what_the_grammar_carries_round_trips() {
    let many = |n: usize| (0..n).map(|i| header(&format!("H{}", i), &format!("v {}", i))).collect::<Vec<_>>();
    let methods = ["GET", "M-SEARCH", "a", "!#$%&'*+-.^_`|~09AZaz"];
    let paths = ["/", "*", "/a/b?c=d#e", "/caf\u{e9}", "http://h:80/"];
    for method in methods {
        for path in paths {
            for count in [0usize, 1, 2, 64, 65, 200] {
                let message = request(method, path, 1, many(count));
                assert!(message.in_grammar());
                assert_eq!(HttpRequest::parse(&message.serialize()), Ok(message));
            }
        }
    }
    for reason in ["", "OK", " ", "Not Found", "a\tb", "Zo\u{eb}"] {
        for count in [0usize, 3, 64, 65, 200] {
            let message = response(1, 404, reason, many(count));
            assert!(message.in_grammar());
            assert_eq!(HttpResponse::parse(&message.serialize()), Ok(message));
        }
    }
}

#[test]
fn what_was_read_is_in_the_grammar_and_round_trips() {
    let heads: [&[u8]; 6] = [
        b"GET /index.html HTTP/1\r\nHost: example.com\r\n\r\n",
        b"GET / HTTP/1.1\r\nHost:example.com\r\nAccept: \t*/*  \r\n\r\nbody",
        b"OPTIONS * HTTP/1.0\r\n\r\n",
        b"PUT /x HTTP/0255\r\nA b\r\nC:\r\n\r\n",
        b"M-SEARCH * HTTP/1.1\r\nX:  a  b  \r\n\r\n",
        b"GET /%20 HTTP/7\r\nA: :\r\n\r\n",
    ];
    for head in heads {
        let first = HttpRequest::parse(head).unwrap();
        assert!(first.in_grammar());
        let again = HttpRequest::parse(&first.serialize()).unwrap();
        assert_eq!(again, first);
        assert_eq!(again.serialize(), first.serialize());
    }
    let heads: [&[u8]; 5] = [
        b"HTTP/1 200 OK\r\nContent-Length: 0\r\n\r\n",
        b"HTTP/1.1 200\r\n\r\n",
        b"HTTP/1.1 0404  Not  Found \r\nServer x\r\n\r\n",
        b"HTTP/1.0 500 \r\nA:b\r\n\r\nrest",
        b"HTTP/255 65535 \t\r\n\r\n",
    ];
    for head in heads {
        let first = HttpResponse::parse(head).unwrap();
        assert!(first.in_grammar());
        let again = HttpResponse::parse(&first.serialize()).unwrap();
        assert_eq!(again, first);
        assert_eq!(again.serialize(), first.serialize());
    }
}
