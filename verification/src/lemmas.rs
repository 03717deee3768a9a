//! Lemmas about the grammar of [`crate::wire`], in both directions: a line
//! that was put together from its fields is read back into them, and a line
//! that is read is its fields put together. The same for the lines of a
//! head.

use crate::wire::{
    all_in, back_run_len, code_of, crlf, crlf_at, decimal_digits, decimal_value, first_crlf,
    head_lines, header_line_fields, http_slash, in_class, is_decimal, is_path, is_text,
    is_token, is_value, join_lines, lemma_back_run_len_bounds, lemma_back_run_len_is,
    lemma_first_crlf_bounds, lemma_first_crlf_is, lemma_first_crlf_none,
    lemma_join_lines_concat, lemma_join_one_line, lemma_run_len_bounds, lemma_run_len_is,
    request_line_fields, run_len, status_line_fields, trim_blanks,
    version_number, ByteClass, COLON, CR, LF, SP,
};
use vstd::prelude::*;

verus! {

/// True when no byte of `s` is CR.
pub open spec fn has_no_cr(s: Seq<u8>) -> bool {
    forall|i: int| 0 <= i < s.len() ==> #[trigger] s[i] != CR
}

/// A line as the grammar writes it: at least one byte, and no CR.
pub open spec fn is_clean_line(line: Seq<u8>) -> bool {
    line.len() > 0 && has_no_cr(line)
}

/// The digits of a number are a decimal that writes the number.
pub proof fn lemma_decimal_digits(n: nat)
    ensures
        is_decimal(decimal_digits(n)),
        decimal_value(decimal_digits(n)) == n,
    decreases n,
{
    let digits = decimal_digits(n);
    if n < 10 {
        assert(decimal_value(digits.drop_last()) == 0);
    } else {
        lemma_decimal_digits(n / 10);
        assert(digits.drop_last() =~= decimal_digits(n / 10));
    }
}

/// The digits of a version are a version number that gives the version.
pub proof fn lemma_version_digits(version: u8)
    ensures
        version_number(decimal_digits(version as nat)) == Some(version),
{
    lemma_decimal_digits(version as nat);
}

/// The digits of a status code give the code.
pub proof fn lemma_code_digits(code: u16)
    ensures
        code_of(decimal_digits(code as nat)) == Some(code),
{
    lemma_decimal_digits(code as nat);
}

/// The first CR LF of a clean line followed by CR LF is the one that follows
/// it.
pub proof fn lemma_first_crlf_after_clean_line(line: Seq<u8>, rest: Seq<u8>)
    requires
        has_no_cr(line),
    ensures
        first_crlf(line + crlf() + rest) == Some(line.len() as int),
{
    let s = line + crlf() + rest;
    lemma_first_crlf_is(s, line.len() as int);
}

/// Joined lines start with the first line and its CR LF.
pub proof fn lemma_join_lines_front(lines: Seq<Seq<u8>>)
    requires
        lines.len() > 0,
    ensures
        join_lines(lines) == lines[0] + crlf() + join_lines(lines.skip(1)),
{
    assert(lines =~= seq![lines[0]] + lines.skip(1));
    lemma_join_lines_concat(seq![lines[0]], lines.skip(1));
    lemma_join_one_line(lines[0]);
}

/// Clean lines, joined and closed by an empty line, are the lines of the
/// head, whatever follows.
pub proof fn lemma_head_lines_of_joined(lines: Seq<Seq<u8>>, tail: Seq<u8>)
    requires
        forall|i: int| 0 <= i < lines.len() ==> is_clean_line(#[trigger] lines[i]),
    ensures
        head_lines(join_lines(lines) + crlf() + tail) == Some(lines),
    decreases lines.len(),
{
    let s = join_lines(lines) + crlf() + tail;
    if lines.len() > 0 {
        let line = lines[0];
        let others = lines.skip(1);
        let after = join_lines(others) + crlf() + tail;
        lemma_join_lines_front(lines);
        assert(s =~= line + crlf() + after);
        lemma_first_crlf_after_clean_line(line, after);
        assert(s.skip(line.len() as int + 2) =~= after);
        assert(s.take(line.len() as int) =~= line);
        lemma_head_lines_of_joined(others, tail);
    }
}

/// Clean lines, joined and closed by an empty line, hold no head before
/// their last byte.
pub proof fn lemma_head_lines_of_prefix(lines: Seq<Seq<u8>>, k: int)
    requires
        forall|i: int| 0 <= i < lines.len() ==> is_clean_line(#[trigger] lines[i]),
        0 <= k < (join_lines(lines) + crlf()).len(),
    ensures
        head_lines((join_lines(lines) + crlf()).take(k)) is None,
    decreases lines.len(),
{
    let s = join_lines(lines) + crlf();
    let p = s.take(k);
    if lines.len() > 0 {
        let line = lines[0];
        let others = lines.skip(1);
        let after = join_lines(others) + crlf();
        lemma_join_lines_front(lines);
        if k < line.len() + 2 {
            lemma_first_crlf_none(p);
        } else {
            let cut = after.take(k - line.len() - 2);
            assert(p =~= line + crlf() + cut);
            lemma_first_crlf_after_clean_line(line, cut);
            assert(p.skip(line.len() as int + 2) =~= cut);
            lemma_head_lines_of_prefix(others, k - line.len() - 2);
        }
    }
}

/// Bytes after a head leave the lines of the head as they are.
pub proof fn lemma_head_lines_extend(raw: Seq<u8>, more: Seq<u8>)
    requires
        head_lines(raw) is Some,
    ensures
        head_lines(raw + more) == head_lines(raw),
    decreases raw.len(),
{
    let longer = raw + more;
    lemma_first_crlf_bounds(raw);
    let i = first_crlf(raw)->0;
    assert forall|j: int| 0 <= j < i implies !crlf_at(longer, j) by {
        assert(!crlf_at(raw, j));
    }
    lemma_first_crlf_is(longer, i);
    if i > 0 {
        assert(longer.skip(i + 2) =~= raw.skip(i + 2) + more);
        assert(longer.take(i) =~= raw.take(i));
        lemma_head_lines_extend(raw.skip(i + 2), more);
    }
}

/// A request line put together from its fields is read back into them.
pub proof fn lemma_request_line_fields(
    method: Seq<u8>,
    path: Seq<u8>,
    number: Seq<u8>,
    version: u8,
)
    requires
        is_token(method),
        is_path(path),
        version_number(number) == Some(version),
    ensures
        request_line_fields(method + seq![SP] + path + seq![SP] + http_slash() + number) == Some(
            (method, path, version),
        ),
{
    let line = method + seq![SP] + path + seq![SP] + http_slash() + number;
    let i = method.len() as int;
    lemma_run_len_is(line, ByteClass::Unspaced, i);
    let rest = line.skip(i + 1);
    let j = path.len() as int;
    lemma_run_len_is(rest, ByteClass::Unspaced, j);
    assert(line.take(i) =~= method);
    assert(rest.take(j) =~= path);
    let tail = rest.skip(j + 1);
    assert(tail.skip(5) =~= number);
}

/// A status line put together from its fields is read back into them. The
/// space after the code may be left out when the reason is empty.
pub proof fn lemma_status_line_fields(
    number: Seq<u8>,
    version: u8,
    digits: Seq<u8>,
    code: u16,
    reason: Seq<u8>,
    spaced: bool,
)
    requires
        version_number(number) == Some(version),
        code_of(digits) == Some(code),
        is_text(reason),
        spaced || reason.len() == 0,
    ensures
        status_line_fields(
            http_slash() + number + seq![SP] + digits + (if spaced {
                seq![SP] + reason
            } else {
                Seq::<u8>::empty()
            }),
        ) == Some((version, code, reason)),
{
    let end = if spaced {
        seq![SP] + reason
    } else {
        Seq::<u8>::empty()
    };
    let line = http_slash() + number + seq![SP] + digits + end;
    let first = http_slash() + number;
    let i = first.len() as int;
    lemma_run_len_is(line, ByteClass::Unspaced, i);
    assert(line.take(i) =~= first);
    assert(first.skip(5) =~= number);
    let rest = line.skip(i + 1);
    let j = digits.len() as int;
    lemma_run_len_is(rest, ByteClass::Unspaced, j);
    assert(rest.take(j) =~= digits);
    if spaced {
        assert(rest.skip(j + 1) =~= reason);
    }
}

/// A value between blanks is what is left when the blanks are cut off.
pub proof fn lemma_trim_blanks(lead: Seq<u8>, value: Seq<u8>, trail: Seq<u8>)
    requires
        all_in(lead, ByteClass::Blank),
        all_in(trail, ByteClass::Blank),
        value.len() > 0 ==> !in_class(ByteClass::Blank, value[0]) && !in_class(
            ByteClass::Blank,
            value.last(),
        ),
    ensures
        trim_blanks(lead + value + trail) == value,
{
    let s = lead + value + trail;
    if value.len() == 0 {
        lemma_run_len_is(s, ByteClass::Blank, s.len() as int);
        assert(s.skip(s.len() as int) =~= Seq::<u8>::empty());
    } else {
        let i = lead.len() as int;
        lemma_run_len_is(s, ByteClass::Blank, i);
        let t = s.skip(i);
        let n = trail.len() as int;
        lemma_back_run_len_is(t, ByteClass::Blank, n);
    }
}

/// A header line put together from its fields is read back into them: the
/// name, a colon or a space, and the value with blanks before and after it.
pub proof fn lemma_header_line_fields(
    name: Seq<u8>,
    separator: u8,
    lead: Seq<u8>,
    value: Seq<u8>,
    trail: Seq<u8>,
)
    requires
        is_token(name),
        separator == COLON || separator == SP,
        all_in(lead, ByteClass::Blank),
        is_value(value),
        all_in(trail, ByteClass::Blank),
    ensures
        header_line_fields(name + seq![separator] + lead + value + trail) == Some((name, value)),
{
    let line = name + seq![separator] + lead + value + trail;
    let n = name.len() as int;
    lemma_run_len_is(line, ByteClass::Token, n);
    assert(line.take(n) =~= name);
    assert(line.skip(n + 1) =~= lead + value + trail);
    lemma_trim_blanks(lead, value, trail);
}

/// The lines of a head, joined and closed by an empty line, are the bytes
/// that the head starts with. None of the lines is empty.
pub proof fn lemma_head_lines_rejoin(raw: Seq<u8>)
    requires
        head_lines(raw) is Some,
    ensures
        (join_lines(head_lines(raw)->0) + crlf()).is_prefix_of(raw),
        forall|i: int|
            0 <= i < head_lines(raw)->0.len() ==> (#[trigger] head_lines(raw)->0[i]).len() > 0,
    decreases raw.len(),
{
    let lines = head_lines(raw)->0;
    let head = join_lines(lines) + crlf();
    lemma_first_crlf_bounds(raw);
    let i = first_crlf(raw)->0;
    if i != 0 {
        let rest = raw.skip(i + 2);
        let others = head_lines(rest)->0;
        lemma_head_lines_rejoin(rest);
        assert(lines.skip(1) =~= others);
        lemma_join_lines_front(lines);
        let tail = join_lines(others) + crlf();
        assert(head =~= raw.take(i) + crlf() + tail);
    }
}

/// The version number of the request line `line`: what follows `HTTP/`.
pub open spec fn request_line_number(line: Seq<u8>) -> Seq<u8> {
    let i = run_len(line, ByteClass::Unspaced) as int;
    let rest = line.skip(i + 1);
    let j = run_len(rest, ByteClass::Unspaced) as int;
    rest.skip(j + 1).skip(5)
}

/// A request line is its fields put together: method, space, path, space,
/// `HTTP/`, and a version number.
pub proof fn lemma_request_line_parts(line: Seq<u8>)
    requires
        request_line_fields(line) is Some,
    ensures
        ({
            let (method, path, version) = request_line_fields(line)->0;
            &&& is_token(method)
            &&& is_path(path)
            &&& version_number(request_line_number(line)) == Some(version)
            &&& line == method + seq![SP] + path + seq![SP] + http_slash() + request_line_number(
                line,
            )
        }),
{
    let i = run_len(line, ByteClass::Unspaced) as int;
    lemma_run_len_bounds(line, ByteClass::Unspaced);
    let rest = line.skip(i + 1);
    let j = run_len(rest, ByteClass::Unspaced) as int;
    lemma_run_len_bounds(rest, ByteClass::Unspaced);
    let tail = rest.skip(j + 1);
    assert(tail =~= http_slash() + tail.skip(5));
}

/// The version number of the status line `line`: what follows `HTTP/`.
pub open spec fn status_line_number(line: Seq<u8>) -> Seq<u8> {
    line.take(run_len(line, ByteClass::Unspaced) as int).skip(5)
}

/// The digits of the code of the status line `line`.
pub open spec fn status_line_digits(line: Seq<u8>) -> Seq<u8> {
    let rest = line.skip(run_len(line, ByteClass::Unspaced) as int + 1);
    rest.take(run_len(rest, ByteClass::Unspaced) as int)
}

/// True when a space follows the code of the status line `line`.
pub open spec fn status_line_spaced(line: Seq<u8>) -> bool {
    let rest = line.skip(run_len(line, ByteClass::Unspaced) as int + 1);
    run_len(rest, ByteClass::Unspaced) < rest.len()
}

/// A status line is its fields put together: `HTTP/`, a version number,
/// space, the digits of the code and, unless the line ends there, space and
/// the reason.
pub proof fn lemma_status_line_parts(line: Seq<u8>)
    requires
        status_line_fields(line) is Some,
    ensures
        ({
            let (version, code, reason) = status_line_fields(line)->0;
            &&& is_text(reason)
            &&& version_number(status_line_number(line)) == Some(version)
            &&& code_of(status_line_digits(line)) == Some(code)
            &&& status_line_spaced(line) || reason.len() == 0
            &&& line == http_slash() + status_line_number(line) + seq![SP] + status_line_digits(
                line,
            ) + (if status_line_spaced(line) {
                seq![SP] + reason
            } else {
                Seq::<u8>::empty()
            })
        }),
{
    let i = run_len(line, ByteClass::Unspaced) as int;
    lemma_run_len_bounds(line, ByteClass::Unspaced);
    let rest = line.skip(i + 1);
    lemma_run_len_bounds(rest, ByteClass::Unspaced);
}

/// The blanks before the value of the header line `line`.
pub open spec fn header_line_lead(line: Seq<u8>) -> Seq<u8> {
    let rest = line.skip(run_len(line, ByteClass::Token) as int + 1);
    rest.take(run_len(rest, ByteClass::Blank) as int)
}

/// The blanks after the value of the header line `line`.
pub open spec fn header_line_trail(line: Seq<u8>) -> Seq<u8> {
    let rest = line.skip(run_len(line, ByteClass::Token) as int + 1);
    let t = rest.skip(run_len(rest, ByteClass::Blank) as int);
    t.skip(t.len() - back_run_len(t, ByteClass::Blank))
}

/// A header line is its fields put together: the name, a colon or a space,
/// blanks, the value, and blanks.
pub proof fn lemma_header_line_parts(line: Seq<u8>)
    requires
        header_line_fields(line) is Some,
    ensures
        ({
            let (name, value) = header_line_fields(line)->0;
            let separator = line[name.len() as int];
            &&& is_token(name)
            &&& is_value(value)
            &&& name.len() < line.len()
            &&& separator == COLON || separator == SP
            &&& all_in(header_line_lead(line), ByteClass::Blank)
            &&& all_in(header_line_trail(line), ByteClass::Blank)
            &&& line == name + seq![separator] + header_line_lead(line) + value
                + header_line_trail(line)
        }),
{
    let n = run_len(line, ByteClass::Token) as int;
    let rest = line.skip(n + 1);
    let a = run_len(rest, ByteClass::Blank) as int;
    lemma_run_len_bounds(rest, ByteClass::Blank);
    let t = rest.skip(a);
    lemma_back_run_len_bounds(t, ByteClass::Blank);
}

} // verus!
