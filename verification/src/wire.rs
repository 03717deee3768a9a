//! The grammar of an HTTP/1.x message head, as functions on bytes.
//!
//! A head is a run of lines, each closed by CR LF, followed by an empty line.
//! The first line is a request line or a status line, every other line is a
//! header. A field is a run of bytes of one class, and is UTF-8.
//!
//! ```text
//! head         = first-line CRLF *( header CRLF ) CRLF
//! request-line = method SP path SP "HTTP/" version
//! status-line  = "HTTP/" version SP code [ SP reason ]
//! header       = name ( ":" / SP ) *blank value *blank
//! version      = 1*DIGIT / "1.0" / "1.1"      ; at most 255
//! code         = 1*DIGIT                      ; at most 65535
//! ```
//!
//! `1.0` and `1.1` are the minor versions 0 and 1 of HTTP/1, and a plain
//! decimal is the version itself, so `HTTP/1.1` and `HTTP/1` both give 1.
//! A value does not begin or end with a blank.
//!
//! The functions here are `spec` functions, and the lemmas say what they
//! give. The functions that scan bytes at run time are in [`crate::scan`],
//! and they are proved against these.

use vstd::prelude::*;
use vstd::utf8::valid_utf8;

verus! {

pub const HTAB: u8 = 9;

pub const LF: u8 = 10;

pub const CR: u8 = 13;

pub const SP: u8 = 32;

pub const COLON: u8 = 58;

/// The classes of bytes that the grammar tells apart.
#[derive(Clone, Copy, Debug, PartialEq, Eq, Structural)]
pub enum ByteClass {
    /// A letter, a digit, or one of ``! # $ % & ' * + - . ^ _ ` | ~``.
    Token,
    /// Any byte above the space but DEL.
    Path,
    /// The tab, or any byte from the space on but DEL.
    Text,
    /// The space or the tab.
    Blank,
    /// A decimal digit.
    Digit,
    /// Any byte but the space.
    Unspaced,
}

/// True when `b` belongs to `class`.
pub open spec fn in_class(class: ByteClass, b: u8) -> bool {
    match class {
        ByteClass::Token => {
            ||| 0x30 <= b <= 0x39
            ||| 0x41 <= b <= 0x5a
            ||| 0x61 <= b <= 0x7a
            ||| b == 0x21
            ||| 0x23 <= b <= 0x27
            ||| b == 0x2a
            ||| b == 0x2b
            ||| b == 0x2d
            ||| b == 0x2e
            ||| b == 0x5e
            ||| b == 0x5f
            ||| b == 0x60
            ||| b == 0x7c
            ||| b == 0x7e
        },
        ByteClass::Path => b > SP && b != 0x7f,
        ByteClass::Text => b == HTAB || (b >= SP && b != 0x7f),
        ByteClass::Blank => b == SP || b == HTAB,
        ByteClass::Digit => 0x30 <= b <= 0x39,
        ByteClass::Unspaced => b != SP,
    }
}

/// True when every byte of `s` belongs to `class`.
pub open spec fn all_in(s: Seq<u8>, class: ByteClass) -> bool {
    forall|i: int| 0 <= i < s.len() ==> in_class(class, #[trigger] s[i])
}

/// The length of the longest start of `s` whose bytes all belong to `class`.
pub open spec fn run_len(s: Seq<u8>, class: ByteClass) -> nat
    decreases s.len(),
{
    if s.len() > 0 && in_class(class, s[0]) {
        1 + run_len(s.skip(1), class)
    } else {
        0
    }
}

/// The length of the longest end of `s` whose bytes all belong to `class`.
pub open spec fn back_run_len(s: Seq<u8>, class: ByteClass) -> nat
    decreases s.len(),
{
    if s.len() > 0 && in_class(class, s.last()) {
        1 + back_run_len(s.drop_last(), class)
    } else {
        0
    }
}

/// `s` without the blanks at its start and at its end.
pub open spec fn trim_blanks(s: Seq<u8>) -> Seq<u8> {
    let t = s.skip(run_len(s, ByteClass::Blank) as int);
    t.take(t.len() - back_run_len(t, ByteClass::Blank))
}

/// A method or a header name: at least one byte, all of them token bytes.
pub open spec fn is_token(s: Seq<u8>) -> bool {
    s.len() > 0 && all_in(s, ByteClass::Token) && valid_utf8(s)
}

/// A request target: at least one byte, none of them a space or a control.
pub open spec fn is_path(s: Seq<u8>) -> bool {
    s.len() > 0 && all_in(s, ByteClass::Path) && valid_utf8(s)
}

/// A reason phrase or a header value: no control byte but the tab.
pub open spec fn is_text(s: Seq<u8>) -> bool {
    all_in(s, ByteClass::Text) && valid_utf8(s)
}

/// A header value as it is stored: text with no blank at either end.
pub open spec fn is_value(s: Seq<u8>) -> bool {
    &&& is_text(s)
    &&& s.len() > 0 ==> !in_class(ByteClass::Blank, s[0]) && !in_class(ByteClass::Blank, s.last())
}

/// At least one byte, all of them digits.
pub open spec fn is_decimal(s: Seq<u8>) -> bool {
    s.len() > 0 && all_in(s, ByteClass::Digit)
}

/// The number that the digits `s` write in base ten.
pub open spec fn decimal_value(s: Seq<u8>) -> nat
    decreases s.len(),
{
    if s.len() == 0 {
        0
    } else {
        decimal_value(s.drop_last()) * 10 + (s.last() - 0x30) as nat
    }
}

/// The digits of `n` in base ten, without a leading zero.
pub open spec fn decimal_digits(n: nat) -> Seq<u8>
    decreases n,
{
    if n < 10 {
        seq![(0x30 + n) as u8]
    } else {
        decimal_digits(n / 10).push((0x30 + n % 10) as u8)
    }
}

/// The number that `s` writes, if `s` is a decimal of at most `max`.
pub open spec fn bounded_decimal(s: Seq<u8>, max: nat) -> Option<nat> {
    if is_decimal(s) && decimal_value(s) <= max {
        Some(decimal_value(s))
    } else {
        None
    }
}

/// The bytes `HTTP/`.
pub open spec fn http_slash() -> Seq<u8> {
    seq![0x48u8, 0x54u8, 0x54u8, 0x50u8, 0x2fu8]
}

/// The bytes `1.0`.
pub open spec fn one_dot_zero() -> Seq<u8> {
    seq![0x31u8, 0x2eu8, 0x30u8]
}

/// The bytes `1.1`.
pub open spec fn one_dot_one() -> Seq<u8> {
    seq![0x31u8, 0x2eu8, 0x31u8]
}

/// The bytes CR LF.
pub open spec fn crlf() -> Seq<u8> {
    seq![CR, LF]
}

/// The version that follows `HTTP/`: `1.0` and `1.1` give the minor number,
/// a plain decimal gives itself.
pub open spec fn version_number(s: Seq<u8>) -> Option<u8> {
    if s == one_dot_zero() {
        Some(0u8)
    } else if s == one_dot_one() {
        Some(1u8)
    } else {
        match bounded_decimal(s, 255) {
            Some(n) => Some(n as u8),
            None => None,
        }
    }
}

/// The version that `HTTP/` and a version number write.
pub open spec fn version_of(s: Seq<u8>) -> Option<u8> {
    if http_slash().is_prefix_of(s) {
        version_number(s.skip(5))
    } else {
        None
    }
}

/// The status code that `s` writes.
pub open spec fn code_of(s: Seq<u8>) -> Option<u16> {
    match bounded_decimal(s, 65535) {
        Some(n) => Some(n as u16),
        None => None,
    }
}

/// Method, path and version of the request line `line`, if it is one.
///
/// The method ends at the first space and the path at the second, and
/// neither is empty.
pub open spec fn request_line_fields(line: Seq<u8>) -> Option<(Seq<u8>, Seq<u8>, u8)> {
    let i = run_len(line, ByteClass::Unspaced) as int;
    if i < line.len() {
        let rest = line.skip(i + 1);
        let j = run_len(rest, ByteClass::Unspaced) as int;
        if j < rest.len() && is_token(line.take(i)) && is_path(rest.take(j)) {
            match version_of(rest.skip(j + 1)) {
                Some(version) => Some((line.take(i), rest.take(j), version)),
                None => None,
            }
        } else {
            None
        }
    } else {
        None
    }
}

/// Version, code and reason of the status line `line`, if it is one.
///
/// The version ends at the first space. The code ends at the second space,
/// and the reason is all that follows it; without a second space the code
/// runs to the end of the line and the reason is empty.
pub open spec fn status_line_fields(line: Seq<u8>) -> Option<(u8, u16, Seq<u8>)> {
    let i = run_len(line, ByteClass::Unspaced) as int;
    if i < line.len() {
        let rest = line.skip(i + 1);
        let j = run_len(rest, ByteClass::Unspaced) as int;
        let reason = if j < rest.len() {
            rest.skip(j + 1)
        } else {
            Seq::<u8>::empty()
        };
        match (version_of(line.take(i)), code_of(rest.take(j))) {
            (Some(version), Some(code)) => if is_text(reason) {
                Some((version, code, reason))
            } else {
                None
            },
            _ => None,
        }
    } else {
        None
    }
}

/// Name and value of the header line `line`, if it is one.
///
/// The name is the token at the start of the line. A colon or a space must
/// follow it. The value is the rest of the line without the blanks at its
/// two ends.
pub open spec fn header_line_fields(line: Seq<u8>) -> Option<(Seq<u8>, Seq<u8>)> {
    let n = run_len(line, ByteClass::Token) as int;
    if n < line.len() && (line[n] == COLON || line[n] == SP) && is_token(line.take(n)) {
        let value = trim_blanks(line.skip(n + 1));
        if is_text(value) {
            Some((line.take(n), value))
        } else {
            None
        }
    } else {
        None
    }
}

/// True when CR LF stands at index `i` of `s`.
pub open spec fn crlf_at(s: Seq<u8>, i: int) -> bool {
    0 <= i && i + 1 < s.len() && s[i] == CR && s[i + 1] == LF
}

/// The index of the first CR LF in `s`.
pub open spec fn first_crlf(s: Seq<u8>) -> Option<int>
    decreases s.len(),
{
    if s.len() < 2 {
        None
    } else if s[0] == CR && s[1] == LF {
        Some(0)
    } else {
        match first_crlf(s.skip(1)) {
            Some(i) => Some(i + 1),
            None => None,
        }
    }
}

/// The lines of the head that `s` starts with: every line before the first
/// empty one, without its CR LF. `None` when `s` holds no empty line yet.
pub open spec fn head_lines(s: Seq<u8>) -> Option<Seq<Seq<u8>>>
    decreases s.len(),
{
    match first_crlf(s) {
        None => None,
        Some(i) => if i == 0 {
            Some(Seq::empty())
        } else {
            proof {
                lemma_first_crlf_bounds(s);
            }
            match head_lines(s.skip(i + 2)) {
                Some(rest) => Some(seq![s.take(i)] + rest),
                None => None,
            }
        },
    }
}

/// The lines `lines`, each followed by CR LF.
pub open spec fn join_lines(lines: Seq<Seq<u8>>) -> Seq<u8>
    decreases lines.len(),
{
    if lines.len() == 0 {
        Seq::empty()
    } else {
        join_lines(lines.drop_last()) + lines.last() + crlf()
    }
}

/// The run of `class` at the start of `s` ends at `i` when the bytes before
/// `i` belong to the class and the byte at `i`, if there is one, does not.
pub proof fn lemma_run_len_is(s: Seq<u8>, class: ByteClass, i: int)
    requires
        0 <= i <= s.len(),
        forall|j: int| 0 <= j < i ==> in_class(class, #[trigger] s[j]),
        i < s.len() ==> !in_class(class, s[i]),
    ensures
        run_len(s, class) == i,
    decreases i,
{
    if i > 0 {
        let t = s.skip(1);
        lemma_run_len_is(t, class, i - 1);
    }
}

/// What the run of `class` at the start of `s` is: its bytes belong to the
/// class, and the byte after it, if there is one, does not.
pub proof fn lemma_run_len_bounds(s: Seq<u8>, class: ByteClass)
    ensures
        run_len(s, class) <= s.len(),
        forall|j: int| 0 <= j < run_len(s, class) ==> in_class(class, #[trigger] s[j]),
        run_len(s, class) < s.len() ==> !in_class(class, s[run_len(s, class) as int]),
    decreases s.len(),
{
    if s.len() > 0 && in_class(class, s[0]) {
        let t = s.skip(1);
        lemma_run_len_bounds(t, class);
        assert forall|j: int| 0 <= j < run_len(s, class) implies in_class(
            class,
            #[trigger] s[j],
        ) by {
            if j > 0 {
                assert(s[j] == t[j - 1]);
            }
        }
    }
}

/// The run of `class` at the end of `s` has `k` bytes when the last `k`
/// bytes belong to the class and the byte before them, if there is one, does
/// not.
pub proof fn lemma_back_run_len_is(s: Seq<u8>, class: ByteClass, k: int)
    requires
        0 <= k <= s.len(),
        forall|j: int| s.len() - k <= j < s.len() ==> in_class(class, #[trigger] s[j]),
        k < s.len() ==> !in_class(class, s[s.len() - k - 1]),
    ensures
        back_run_len(s, class) == k,
    decreases k,
{
    if k > 0 {
        let t = s.drop_last();
        lemma_back_run_len_is(t, class, k - 1);
    }
}

/// What the run of `class` at the end of `s` is: its bytes belong to the
/// class, and the byte before it, if there is one, does not.
pub proof fn lemma_back_run_len_bounds(s: Seq<u8>, class: ByteClass)
    ensures
        back_run_len(s, class) <= s.len(),
        forall|j: int|
            s.len() - back_run_len(s, class) <= j < s.len() ==> in_class(class, #[trigger] s[j]),
        back_run_len(s, class) < s.len() ==> !in_class(
            class,
            s[s.len() - back_run_len(s, class) - 1],
        ),
    decreases s.len(),
{
    if s.len() > 0 && in_class(class, s.last()) {
        let t = s.drop_last();
        lemma_back_run_len_bounds(t, class);
        assert forall|j: int| s.len() - back_run_len(s, class) <= j < s.len() implies in_class(
            class,
            #[trigger] s[j],
        ) by {
            if j < t.len() {
                assert(s[j] == t[j]);
            }
        }
    }
}

/// The first CR LF of `s` is at `i` when one stands there and none stands
/// before.
pub proof fn lemma_first_crlf_is(s: Seq<u8>, i: int)
    requires
        crlf_at(s, i),
        forall|j: int| 0 <= j < i ==> !crlf_at(s, j),
    ensures
        first_crlf(s) == Some(i),
    decreases i,
{
    if i > 0 {
        let t = s.skip(1);
        assert(!crlf_at(s, 0));
        assert forall|j: int| 0 <= j < i - 1 implies !crlf_at(t, j) by {
            assert(!crlf_at(s, j + 1));
        }
        lemma_first_crlf_is(t, i - 1);
    }
}

/// `s` has no first CR LF when CR LF stands nowhere in it.
pub proof fn lemma_first_crlf_none(s: Seq<u8>)
    requires
        forall|j: int| !crlf_at(s, j),
    ensures
        first_crlf(s) is None,
    decreases s.len(),
{
    if s.len() >= 2 {
        let t = s.skip(1);
        assert(!crlf_at(s, 0));
        assert forall|j: int| !crlf_at(t, j) by {
            assert(!crlf_at(s, j + 1));
        }
        lemma_first_crlf_none(t);
    }
}

/// What the first CR LF of `s` is.
pub proof fn lemma_first_crlf_bounds(s: Seq<u8>)
    ensures
        match first_crlf(s) {
            Some(i) => crlf_at(s, i) && forall|j: int| 0 <= j < i ==> !crlf_at(s, j),
            None => forall|j: int| !crlf_at(s, j),
        },
    decreases s.len(),
{
    if s.len() >= 2 && !(s[0] == CR && s[1] == LF) {
        let t = s.skip(1);
        lemma_first_crlf_bounds(t);
        match first_crlf(t) {
            Some(i) => {
                assert forall|j: int| 0 <= j < i + 1 implies !crlf_at(s, j) by {
                    if j > 0 {
                        assert(!crlf_at(t, j - 1));
                    }
                }
            },
            None => {
                assert forall|j: int| !crlf_at(s, j) by {
                    if j > 0 {
                        assert(!crlf_at(t, j - 1));
                    }
                }
            },
        }
    }
}

/// More digits never write a smaller number.
pub proof fn lemma_decimal_value_grows(s: Seq<u8>, k: int)
    requires
        0 <= k <= s.len(),
        all_in(s, ByteClass::Digit),
    ensures
        decimal_value(s.take(k)) <= decimal_value(s),
    decreases s.len() - k,
{
    if k < s.len() {
        let t = s.take(k + 1);
        assert(t.drop_last() == s.take(k));
        lemma_decimal_value_grows(s, k + 1);
    } else {
        assert(s.take(k) == s);
    }
}

/// Joining two runs of lines one after the other joins their bytes.
pub proof fn lemma_join_lines_concat(a: Seq<Seq<u8>>, b: Seq<Seq<u8>>)
    ensures
        join_lines(a + b) == join_lines(a) + join_lines(b),
    decreases b.len(),
{
    if b.len() > 0 {
        assert((a + b).drop_last() =~= a + b.drop_last());
        lemma_join_lines_concat(a, b.drop_last());
    }
}

/// One line joined is the line and its CR LF.
pub proof fn lemma_join_one_line(line: Seq<u8>)
    ensures
        join_lines(seq![line]) == line + crlf(),
{
    let one = seq![line];
    assert(join_lines(one.drop_last()) =~= Seq::<u8>::empty());
}

} // verus!
