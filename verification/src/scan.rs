//! The scanners that read a message head at run time.
//!
//! Each of them computes one function of [`crate::wire`] on a slice.

use crate::wire::{
    all_in, back_run_len, bounded_decimal, crlf_at, decimal_value, first_crlf, head_lines,
    header_line_fields, in_class, lemma_back_run_len_is, lemma_decimal_value_grows,
    lemma_first_crlf_is, lemma_first_crlf_none, lemma_run_len_bounds, lemma_run_len_is,
    one_dot_one, one_dot_zero, request_line_fields, run_len, status_line_fields, trim_blanks,
    version_of, ByteClass, COLON, CR, HTAB, LF, SP,
};
use vstd::prelude::*;
use vstd::slice::{slice_subrange, slice_to_vec};
use vstd::utf8::{decode_utf8, encode_utf8, encode_utf8_decode_utf8, valid_utf8};

verus! {

/// Tells whether `b` belongs to `class`.
pub fn byte_in_class(class: ByteClass, b: u8) -> (r: bool)
    ensures
        r == in_class(class, b),
{
    match class {
        ByteClass::Token => {
            (0x30 <= b && b <= 0x39) || (0x41 <= b && b <= 0x5a) || (0x61 <= b && b <= 0x7a) || b
                == 0x21 || (0x23 <= b && b <= 0x27) || b == 0x2a || b == 0x2b || b == 0x2d || b
                == 0x2e || b == 0x5e || b == 0x5f || b == 0x60 || b == 0x7c || b == 0x7e
        },
        ByteClass::Path => b > SP && b != 0x7f,
        ByteClass::Text => b == HTAB || (b >= SP && b != 0x7f),
        ByteClass::Blank => b == SP || b == HTAB,
        ByteClass::Digit => 0x30 <= b && b <= 0x39,
        ByteClass::Unspaced => b != SP,
    }
}

/// Counts the bytes of `class` at the start of `s`.
pub fn run_length(s: &[u8], class: ByteClass) -> (n: usize)
    ensures
        n == run_len(s@, class),
        n <= s@.len(),
{
    let len: usize = s.len();
    let mut i: usize = 0;
    while i < len && byte_in_class(class, s[i])
        invariant
            len == s@.len(),
            i <= len,
            forall|j: int| 0 <= j < i ==> in_class(class, #[trigger] s@[j]),
        decreases len - i,
    {
        i = i + 1;
    }
    proof {
        lemma_run_len_is(s@, class, i as int);
    }
    i
}

/// Counts the bytes of `class` at the end of `s`.
pub fn back_run_length(s: &[u8], class: ByteClass) -> (n: usize)
    ensures
        n == back_run_len(s@, class),
        n <= s@.len(),
{
    let len: usize = s.len();
    let mut k: usize = 0;
    while k < len && byte_in_class(class, s[len - k - 1])
        invariant
            len == s@.len(),
            k <= len,
            forall|j: int| len - k <= j < len ==> in_class(class, #[trigger] s@[j]),
        decreases len - k,
    {
        k = k + 1;
    }
    proof {
        lemma_back_run_len_is(s@, class, k as int);
    }
    k
}

/// Tells whether every byte of `s` belongs to `class`.
pub fn is_all_in(s: &[u8], class: ByteClass) -> (r: bool)
    ensures
        r == all_in(s@, class),
{
    let n: usize = run_length(s, class);
    proof {
        lemma_run_len_bounds(s@, class);
    }
    n == s.len()
}

/// Cuts the blanks off both ends of `s`.
pub fn trim<'a>(s: &'a [u8]) -> (t: &'a [u8])
    ensures
        t@ == trim_blanks(s@),
{
    let start: usize = run_length(s, ByteClass::Blank);
    let rest = slice_subrange(s, start, s.len());
    let back: usize = back_run_length(rest, ByteClass::Blank);
    slice_subrange(rest, 0, rest.len() - back)
}

/// Finds the first CR LF of `s` at or after `from`. There is none when
/// `from` is past the end.
pub fn find_crlf(s: &[u8], from: usize) -> (found: Option<usize>)
    ensures
        match found {
            Some(i) => from <= i && i + 2 <= s@.len() && first_crlf(s@.skip(from as int)) == Some(
                i - from,
            ),
            None => from <= s@.len() ==> first_crlf(s@.skip(from as int)) is None,
        },
{
    let len: usize = s.len();
    if from > len {
        return None;
    }
    let ghost t = s@.skip(from as int);
    let mut i: usize = from;
    while i < len && i + 1 < len
        invariant
            len == s@.len(),
            from <= i <= len,
            t == s@.skip(from as int),
            forall|j: int| 0 <= j < i - from ==> !crlf_at(t, j),
        decreases len - i,
    {
        if s[i] == CR && s[i + 1] == LF {
            proof {
                lemma_first_crlf_is(t, i - from);
            }
            return Some(i);
        }
        i = i + 1;
    }
    proof {
        lemma_first_crlf_none(t);
    }
    None
}

/// Reads `s` as a decimal number of at most `max`.
pub fn decimal(s: &[u8], max: u16) -> (number: Option<u16>)
    ensures
        match number {
            Some(n) => bounded_decimal(s@, max as nat) == Some(n as nat),
            None => bounded_decimal(s@, max as nat) is None,
        },
{
    let len: usize = s.len();
    if len == 0 || !is_all_in(s, ByteClass::Digit) {
        return None;
    }
    let mut value: u32 = 0;
    let mut i: usize = 0;
    while i < len
        invariant
            len == s@.len(),
            i <= len,
            all_in(s@, ByteClass::Digit),
            value == decimal_value(s@.take(i as int)),
            value <= max,
        decreases len - i,
    {
        let digit: u32 = (s[i] - 0x30) as u32;
        proof {
            let t = s@.take(i + 1);
            assert(t.drop_last() == s@.take(i as int));
        }
        value = value * 10 + digit;
        i = i + 1;
        if value > max as u32 {
            proof {
                lemma_decimal_value_grows(s@, i as int);
            }
            return None;
        }
    }
    proof {
        assert(s@.take(len as int) == s@);
    }
    Some(value as u16)
}

/// `String::from_utf8` of the standard library: the string whose bytes are
/// `bytes`, if they are UTF-8, and nothing if they are not.
#[verifier::external_body]
fn string_from_utf8(bytes: Vec<u8>) -> (text: Option<String>)
    ensures
        text is Some <==> valid_utf8(bytes@),
        text matches Some(s) ==> encode_utf8(s@) == bytes@,
{
    match String::from_utf8(bytes) {
        Ok(text) => Some(text),
        Err(_) => None,
    }
}

/// The text that the bytes `field` encode, if they are UTF-8.
pub fn field_text(field: &[u8]) -> (text: Option<String>)
    ensures
        text is Some <==> valid_utf8(field@),
        text matches Some(s) ==> s@ == decode_utf8(field@),
{
    let text = string_from_utf8(slice_to_vec(field));
    proof {
        if text is Some {
            encode_utf8_decode_utf8(text->0@);
        }
    }
    text
}

/// Reads `s` as `HTTP/` and a version number.
pub fn read_version(s: &[u8]) -> (version: Option<u8>)
    ensures
        version == version_of(s@),
{
    let len: usize = s.len();
    if len < 5 || s[0] != 0x48 || s[1] != 0x54 || s[2] != 0x54 || s[3] != 0x50 || s[4] != 0x2f {
        return None;
    }
    let number = slice_subrange(s, 5, len);
    if number.len() == 3 && number[0] == 0x31 && number[1] == 0x2e {
        if number[2] == 0x30 {
            assert(number@ =~= one_dot_zero());
            return Some(0);
        }
        if number[2] == 0x31 {
            assert(number@ =~= one_dot_one());
            return Some(1);
        }
    }
    match decimal(number, 255) {
        Some(n) => Some(n as u8),
        None => None,
    }
}

/// Reads `line` as a request line.
pub fn read_request_line(line: &[u8]) -> (fields: Option<(String, String, u8)>)
    ensures
        match fields {
            Some((method, path, version)) => {
                &&& request_line_fields(line@) matches Some((m, p, v))
                &&& method@ == decode_utf8(m)
                &&& path@ == decode_utf8(p)
                &&& version == v
            },
            None => request_line_fields(line@) is None,
        },
{
    let i: usize = run_length(line, ByteClass::Unspaced);
    if i >= line.len() {
        return None;
    }
    let method = slice_subrange(line, 0, i);
    let rest = slice_subrange(line, i + 1, line.len());
    let j: usize = run_length(rest, ByteClass::Unspaced);
    if j >= rest.len() {
        return None;
    }
    let path = slice_subrange(rest, 0, j);
    let tail = slice_subrange(rest, j + 1, rest.len());
    if i == 0 || !is_all_in(method, ByteClass::Token) {
        return None;
    }
    if j == 0 || !is_all_in(path, ByteClass::Path) {
        return None;
    }
    let method_text = match field_text(method) {
        Some(text) => text,
        None => { return None; },
    };
    let path_text = match field_text(path) {
        Some(text) => text,
        None => { return None; },
    };
    match read_version(tail) {
        Some(version) => Some((method_text, path_text, version)),
        None => None,
    }
}

/// Reads `line` as a status line.
pub fn read_status_line(line: &[u8]) -> (fields: Option<(u8, u16, String)>)
    ensures
        match fields {
            Some((version, code, reason)) => {
                &&& status_line_fields(line@) matches Some((v, c, r))
                &&& version == v
                &&& code == c
                &&& reason@ == decode_utf8(r)
            },
            None => status_line_fields(line@) is None,
        },
{
    let i: usize = run_length(line, ByteClass::Unspaced);
    if i >= line.len() {
        return None;
    }
    let rest = slice_subrange(line, i + 1, line.len());
    let j: usize = run_length(rest, ByteClass::Unspaced);
    let reason = if j < rest.len() {
        slice_subrange(rest, j + 1, rest.len())
    } else {
        slice_subrange(rest, j, j)
    };
    let version = match read_version(slice_subrange(line, 0, i)) {
        Some(version) => version,
        None => { return None; },
    };
    let code = match decimal(slice_subrange(rest, 0, j), 65535) {
        Some(code) => code,
        None => { return None; },
    };
    if !is_all_in(reason, ByteClass::Text) {
        return None;
    }
    match field_text(reason) {
        Some(text) => Some((version, code, text)),
        None => None,
    }
}

/// Reads `line` as a header line.
pub fn read_header_line(line: &[u8]) -> (fields: Option<(String, String)>)
    ensures
        match fields {
            Some((name, value)) => {
                &&& header_line_fields(line@) matches Some((n, v))
                &&& name@ == decode_utf8(n)
                &&& value@ == decode_utf8(v)
            },
            None => header_line_fields(line@) is None,
        },
{
    let n: usize = run_length(line, ByteClass::Token);
    if n == 0 || n >= line.len() || (line[n] != COLON && line[n] != SP) {
        return None;
    }
    let name = slice_subrange(line, 0, n);
    proof {
        lemma_run_len_bounds(line@, ByteClass::Token);
    }
    let value = trim(slice_subrange(line, n + 1, line.len()));
    if !is_all_in(value, ByteClass::Text) {
        return None;
    }
    let name_text = match field_text(name) {
        Some(text) => text,
        None => { return None; },
    };
    match field_text(value) {
        Some(text) => Some((name_text, text)),
        None => None,
    }
}

/// The pieces of `raw` that `bounds` cuts out, in order.
pub open spec fn lines_at(raw: Seq<u8>, bounds: Seq<(usize, usize)>) -> Seq<Seq<u8>> {
    Seq::new(bounds.len(), |k: int| raw.subrange(bounds[k].0 as int, bounds[k].1 as int))
}

/// True when each pair of `bounds` is a range within `len` bytes.
pub open spec fn bounds_within(bounds: Seq<(usize, usize)>, len: nat) -> bool {
    forall|k: int| 0 <= k < bounds.len() ==> (#[trigger] bounds[k]).0 <= bounds[k].1 <= len
}

/// Finds the lines of the head that `raw` starts with: for each line before
/// the first empty one, where it starts and where its CR LF stands.
pub fn split_head(raw: &[u8]) -> (found: Option<Vec<(usize, usize)>>)
    ensures
        match found {
            Some(bounds) => bounds_within(bounds@, raw@.len()) && head_lines(raw@) == Some(
                lines_at(raw@, bounds@),
            ),
            None => head_lines(raw@) is None,
        },
{
    let len: usize = raw.len();
    let mut bounds: Vec<(usize, usize)> = Vec::new();
    let mut pos: usize = 0;
    assert(raw@.skip(0) =~= raw@);
    loop
        invariant
            len == raw@.len(),
            pos <= len,
            bounds_within(bounds@, raw@.len()),
            head_lines(raw@) == match head_lines(raw@.skip(pos as int)) {
                Some(rest) => Some(lines_at(raw@, bounds@) + rest),
                None => None,
            },
        decreases len - pos,
    {
        let ghost tail = raw@.skip(pos as int);
        match find_crlf(raw, pos) {
            None => {
                return None;
            },
            Some(i) => {
                if i == pos {
                    return Some(bounds);
                }
                proof {
                    let line = raw@.subrange(pos as int, i as int);
                    assert(tail.take(i - pos) =~= line);
                    assert(tail.skip(i - pos + 2) =~= raw@.skip(i + 2));
                }
                bounds.push((pos, i));
                pos = i + 2;
            },
        }
    }
}

} // verus!
