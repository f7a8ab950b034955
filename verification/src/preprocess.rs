//! Literal-aware stripping of comments and line breaks from a host script.
//!
//! The host's support script is handed over as one inline snippet, so every
//! line break and every comment in it has to go. Text inside a quoted literal
//! is left alone, whatever it looks like.
//!
//! The lexer has two states. In the normal state it replaces a line break,
//! a line comment and a block comment by one space each, and a quote takes it
//! into a literal. In a literal it repeats everything up to and with the next
//! occurrence of the quote that opened it; a backslash means nothing to it.
//! A script that ends inside a block comment or a literal is refused.
//!
//! The lexer works on bytes. Every marker it knows is ASCII, so a script in
//! UTF-8 stays in UTF-8 (`lemma_stripped_keeps_utf8`).
use vstd::prelude::*;
use vstd::utf8::{
    is_char_boundary, is_char_boundary_iff_not_is_continuation_byte,
    is_char_boundary_start_end_of_seq, length_of_first_scalar, pop_first_scalar,
    valid_first_scalar, valid_utf8, valid_utf8_concat, valid_utf8_split,
};

verus! {

/// The line break.
pub const NEWLINE: u8 = 10;

/// What stands in the output for each replaced span.
pub const SPACE: u8 = 32;

/// One of the two quotes that open and close a literal.
pub const DOUBLE_QUOTE: u8 = 34;

/// The other quote.
pub const SINGLE_QUOTE: u8 = 39;

/// With a slash before it, opens a block comment; with a slash after it, closes one.
pub const STAR: u8 = 42;

/// Two of them open a line comment.
pub const SLASH: u8 = 47;

/// Why a script cannot be embedded: the input ended inside a block comment or
/// inside a quoted literal.
#[derive(Clone, Copy, Debug, PartialEq, Eq, Structural)]
pub enum LexError {
    UnterminatedComment,
    UnterminatedLiteral,
}

/// The kinds of span that the lexer tells apart.
#[derive(Clone, Copy, Debug, PartialEq, Eq, Structural)]
pub enum SpanKind {
    /// One line break.
    Newline,
    /// `//` up to, and without, the next line break or the end of the input.
    LineComment,
    /// `/*` up to and with the first `*/` that begins after the opening slash.
    BlockComment,
    /// A quote character up to and with the next occurrence of the same one.
    Literal,
    /// Any other single byte.
    Plain,
}

/// One span of the input: its kind and its length in bytes.
#[derive(Clone, Copy, Debug, PartialEq, Eq, Structural)]
pub struct Span {
    pub kind: SpanKind,
    pub len: usize,
}

impl SpanKind {
    /// Spans of these kinds are matched: the output holds one space in their place.
    /// All others are repeated byte for byte.
    pub open spec fn is_replaced(self) -> bool {
        self is Newline || self is LineComment || self is BlockComment
    }

    /// Tells whether the output holds a space in place of a span of this kind.
    pub fn replaced(self) -> (r: bool)
        ensures
            r == self.is_replaced(),
    {
        match self {
            SpanKind::Newline | SpanKind::LineComment | SpanKind::BlockComment => true,
            SpanKind::Literal | SpanKind::Plain => false,
        }
    }
}

/// `b` opens a literal.
pub open spec fn is_quote(b: u8) -> bool {
    b == SINGLE_QUOTE || b == DOUBLE_QUOTE
}

/// `s` begins with the two bytes `a`, `b`.
pub open spec fn begins_with(s: Seq<u8>, a: u8, b: u8) -> bool {
    s.len() >= 2 && s[0] == a && s[1] == b
}

/// The index of the first byte `b` in `s`.
pub open spec fn find_byte(s: Seq<u8>, b: u8) -> Option<int>
    decreases s.len(),
{
    if s.len() == 0 {
        None
    } else if s[0] == b {
        Some(0)
    } else {
        match find_byte(s.skip(1), b) {
            Some(k) => Some(k + 1),
            None => None,
        }
    }
}

/// The index at which the first adjacent pair `a`, `b` begins in `s`.
pub open spec fn find_pair(s: Seq<u8>, a: u8, b: u8) -> Option<int>
    decreases s.len(),
{
    if s.len() < 2 {
        None
    } else if s[0] == a && s[1] == b {
        Some(0)
    } else {
        match find_pair(s.skip(1), a, b) {
            Some(k) => Some(k + 1),
            None => None,
        }
    }
}

/// The number of bytes before the first line break of `s`, or all of them.
pub open spec fn line_len(s: Seq<u8>) -> int {
    match find_byte(s, NEWLINE) {
        Some(k) => k,
        None => s.len() as int,
    }
}

/// The kind of the span that begins a non-empty `s`.
pub open spec fn kind_at(s: Seq<u8>) -> SpanKind {
    if s[0] == NEWLINE {
        SpanKind::Newline
    } else if begins_with(s, SLASH, SLASH) {
        SpanKind::LineComment
    } else if begins_with(s, SLASH, STAR) {
        SpanKind::BlockComment
    } else if is_quote(s[0]) {
        SpanKind::Literal
    } else {
        SpanKind::Plain
    }
}

/// The length of the span that begins a non-empty `s`, or `None` where the
/// span is a block comment or a literal that the input does not close.
pub open spec fn len_at(s: Seq<u8>) -> Option<int> {
    match kind_at(s) {
        SpanKind::Newline | SpanKind::Plain => Some(1),
        SpanKind::LineComment => Some(line_len(s)),
        SpanKind::BlockComment => match find_pair(s.skip(1), STAR, SLASH) {
            Some(k) => Some(k + 3),
            None => None,
        },
        SpanKind::Literal => match find_byte(s.skip(1), s[0]) {
            Some(k) => Some(k + 2),
            None => None,
        },
    }
}

/// The error for a span of kind `kind` that the input does not close.
pub open spec fn error_of(kind: SpanKind) -> LexError {
    if kind is BlockComment {
        LexError::UnterminatedComment
    } else {
        LexError::UnterminatedLiteral
    }
}

/// What the output holds for the span of `len` bytes that begins `s`.
pub open spec fn emitted(s: Seq<u8>, len: int) -> Seq<u8> {
    if kind_at(s).is_replaced() {
        seq![SPACE]
    } else {
        s.take(len)
    }
}

/// `head` followed by the text of `tail`, or the error of `tail`.
pub open spec fn prepend(head: Seq<u8>, tail: Result<Seq<u8>, LexError>) -> Result<
    Seq<u8>,
    LexError,
> {
    match tail {
        Ok(t) => Ok(head + t),
        Err(e) => Err(e),
    }
}

/// The script `s` with every line break, line comment and block comment
/// replaced by one space and everything else repeated, or the error of the
/// first span that `s` does not close.
pub open spec fn stripped(s: Seq<u8>) -> Result<Seq<u8>, LexError>
    decreases s.len(),
    via stripped_decreases
{
    if s.len() == 0 {
        Ok(Seq::empty())
    } else {
        match len_at(s) {
            Some(n) => prepend(emitted(s, n), stripped(s.skip(n))),
            None => Err(error_of(kind_at(s))),
        }
    }
}

/// Each span takes at least one byte, so what is left to strip gets shorter.
#[via_fn]
proof fn stripped_decreases(s: Seq<u8>) {
    if s.len() != 0 {
        lemma_len_at_bounds(s);
    }
}

/// `find_byte` gives the first index that holds `b`, and `None` only where no index does.
pub proof fn lemma_find_byte(s: Seq<u8>, b: u8)
    ensures
        match find_byte(s, b) {
            Some(k) => 0 <= k < s.len() && s[k] == b && forall|j: int|
                0 <= j < k ==> s[j] != b,
            None => forall|j: int| 0 <= j < s.len() ==> s[j] != b,
        },
    decreases s.len(),
{
    if s.len() != 0 && s[0] != b {
        let rest = s.skip(1);
        lemma_find_byte(rest, b);
        match find_byte(rest, b) {
            Some(k) => {
                assert forall|j: int| 0 <= j < k + 1 implies s[j] != b by {
                    if j > 0 {
                        assert(rest[j - 1] == s[j]);
                    }
                }
            },
            None => {
                assert forall|j: int| 0 <= j < s.len() implies s[j] != b by {
                    if j > 0 {
                        assert(rest[j - 1] == s[j]);
                    }
                }
            },
        }
    }
}

/// An index that holds `b` with none before it is what `find_byte` gives.
pub proof fn lemma_find_byte_is(s: Seq<u8>, b: u8, k: int)
    requires
        0 <= k < s.len(),
        s[k] == b,
        forall|j: int| 0 <= j < k ==> s[j] != b,
    ensures
        find_byte(s, b) == Some(k),
{
    lemma_find_byte(s, b);
}

/// Where no index holds `b`, `find_byte` gives `None`.
pub proof fn lemma_find_byte_none(s: Seq<u8>, b: u8)
    requires
        forall|j: int| 0 <= j < s.len() ==> s[j] != b,
    ensures
        find_byte(s, b) is None,
{
    lemma_find_byte(s, b);
}

/// The pair `a`, `b` begins at index `j` of `s`.
pub open spec fn pair_at(s: Seq<u8>, j: int, a: u8, b: u8) -> bool {
    0 <= j && j + 1 < s.len() && s[j] == a && s[j + 1] == b
}

/// `find_pair` gives the first index at which the pair begins, and `None`
/// only where it begins nowhere.
pub proof fn lemma_find_pair(s: Seq<u8>, a: u8, b: u8)
    ensures
        match find_pair(s, a, b) {
            Some(k) => pair_at(s, k, a, b) && forall|j: int| 0 <= j < k ==> !pair_at(s, j, a, b),
            None => forall|j: int| !pair_at(s, j, a, b),
        },
    decreases s.len(),
{
    if s.len() >= 2 && !(s[0] == a && s[1] == b) {
        let rest = s.skip(1);
        lemma_find_pair(rest, a, b);
        assert forall|j: int| j > 0 && pair_at(s, j, a, b) implies pair_at(rest, j - 1, a, b) by {}
    }
}

/// An index at which the pair begins, with none before it, is what `find_pair` gives.
pub proof fn lemma_find_pair_is(s: Seq<u8>, a: u8, b: u8, k: int)
    requires
        pair_at(s, k, a, b),
        forall|j: int| 0 <= j < k ==> !pair_at(s, j, a, b),
    ensures
        find_pair(s, a, b) == Some(k),
{
    lemma_find_pair(s, a, b);
}

/// Where the pair begins nowhere, `find_pair` gives `None`.
pub proof fn lemma_find_pair_none(s: Seq<u8>, a: u8, b: u8)
    requires
        forall|j: int| !pair_at(s, j, a, b),
    ensures
        find_pair(s, a, b) is None,
{
    lemma_find_pair(s, a, b);
}

/// A span is never empty and never runs past the end of the input.
pub proof fn lemma_len_at_bounds(s: Seq<u8>)
    requires
        s.len() > 0,
    ensures
        len_at(s) matches Some(n) ==> 1 <= n <= s.len(),
        kind_at(s) is LineComment ==> line_len(s) >= 2,
{
    lemma_find_byte(s, NEWLINE);
    lemma_find_pair(s.skip(1), STAR, SLASH);
    lemma_find_byte(s.skip(1), s[0]);
}

/// The output for a non-empty input is not empty, and begins with a space
/// where the first span is replaced and with the input's first byte otherwise.
pub proof fn lemma_stripped_first(s: Seq<u8>)
    requires
        s.len() > 0,
        stripped(s) is Ok,
    ensures
        stripped(s)->Ok_0.len() > 0,
        stripped(s)->Ok_0[0] == (if kind_at(s).is_replaced() {
            SPACE
        } else {
            s[0]
        }),
{
    lemma_len_at_bounds(s);
}

/// Stripping is idempotent: what `stripped` gives is a script that `stripped`
/// accepts and leaves as it is, so stripping twice gives what stripping once gives.
pub proof fn lemma_stripped_idempotent(s: Seq<u8>)
    ensures
        stripped(s) matches Ok(text) ==> stripped(text) == stripped(s),
    decreases s.len(),
{
    if s.len() > 0 && stripped(s) is Ok {
        lemma_len_at_bounds(s);
        let n = len_at(s)->Some_0;
        let rest = s.skip(n);
        let head = emitted(s, n);
        let tail = stripped(rest)->Ok_0;
        let text = head + tail;
        lemma_stripped_idempotent(rest);
        assert(text.skip(head.len() as int) == tail);
        match kind_at(s) {
            SpanKind::Literal => {
                lemma_find_byte(s.skip(1), s[0]);
                assert forall|j: int| 0 <= j < n - 2 implies text.skip(1)[j] != s[0] by {
                    assert(text.skip(1)[j] == s.skip(1)[j]);
                }
                lemma_find_byte_is(text.skip(1), s[0], n - 2);
            },
            SpanKind::Plain => {
                if rest.len() > 0 {
                    lemma_stripped_first(rest);
                }
            },
            _ => {},
        }
        assert(emitted(text, head.len() as int) == head);
    }
}

/// Stripping invents nothing: the output is no longer than the input, and
/// each of its bytes is a space or a byte of the input.
pub proof fn lemma_stripped_invents_nothing(s: Seq<u8>)
    ensures
        stripped(s) matches Ok(text) ==> text.len() <= s.len() && forall|i: int|
            0 <= i < text.len() ==> text[i] == SPACE || s.contains(#[trigger] text[i]),
    decreases s.len(),
{
    if s.len() > 0 && stripped(s) is Ok {
        lemma_len_at_bounds(s);
        let n = len_at(s)->Some_0;
        let head = emitted(s, n);
        let tail = stripped(s.skip(n))->Ok_0;
        lemma_stripped_invents_nothing(s.skip(n));
        assert forall|i: int| 0 <= i < (head + tail).len() implies (head + tail)[i] == SPACE
            || s.contains(#[trigger] (head + tail)[i]) by {
            if i < head.len() {
                if !kind_at(s).is_replaced() {
                    assert(s[i] == head[i]);
                }
            } else {
                let b = tail[i - head.len()];
                if b != SPACE {
                    let j = choose|j: int| 0 <= j < s.skip(n).len() && s.skip(n)[j] == b;
                    assert(s[n + j] == b);
                }
            }
        }
    }
}

/// A run of bytes above ASCII at the front of a script is repeated as it is:
/// no marker of the lexer is among them.
pub proof fn lemma_stripped_high_bytes(s: Seq<u8>, k: int)
    requires
        0 <= k <= s.len(),
        forall|j: int| 0 <= j < k ==> s[j] >= 0x80,
    ensures
        stripped(s) == prepend(s.take(k), stripped(s.skip(k))),
    decreases k,
{
    if k == 0 {
        assert(s.skip(0) == s);
    } else {
        let rest = s.skip(1);
        assert forall|j: int| 0 <= j < k - 1 implies rest[j] >= 0x80 by {}
        lemma_stripped_high_bytes(rest, k - 1);
        assert(rest.skip(k - 1) == s.skip(k));
        match stripped(s.skip(k)) {
            Ok(t) => {
                assert(s.take(1) + (rest.take(k - 1) + t) == s.take(k) + t);
            },
            Err(_) => {},
        }
    }
}

/// A span that begins with an ASCII byte of a script in UTF-8 ends where a
/// character ends.
proof fn lemma_span_ends_on_boundary(s: Seq<u8>, n: int)
    requires
        valid_utf8(s),
        s.len() > 0,
        s[0] < 0x80,
        len_at(s) == Some(n),
    ensures
        is_char_boundary(s, n),
{
    lemma_len_at_bounds(s);
    lemma_find_byte(s, NEWLINE);
    lemma_find_pair(s.skip(1), STAR, SLASH);
    lemma_find_byte(s.skip(1), s[0]);
    if n == s.len() {
        is_char_boundary_start_end_of_seq(s);
    } else if s[n] < 0x80 {
        is_char_boundary_iff_not_is_continuation_byte(s, n);
    } else {
        // the span ends with an ASCII byte, which is a whole character
        assert(s[n - 1] < 0x80);
        is_char_boundary_iff_not_is_continuation_byte(s, n - 1);
        valid_utf8_split(s, n - 1);
        let tail = s.subrange(n - 1, s.len() as int);
        let next = pop_first_scalar(tail);
        assert(valid_utf8(next));
        is_char_boundary_iff_not_is_continuation_byte(s, n);
    }
}

/// Stripping keeps text text: the stripped form of a script in UTF-8 is in UTF-8.
pub proof fn lemma_stripped_keeps_utf8(s: Seq<u8>)
    requires
        valid_utf8(s),
    ensures
        stripped(s) matches Ok(text) ==> valid_utf8(text),
    decreases s.len(),
{
    if s.len() > 0 && stripped(s) is Ok {
        if s[0] < 0x80 {
            lemma_len_at_bounds(s);
            let n = len_at(s)->Some_0;
            lemma_span_ends_on_boundary(s, n);
            valid_utf8_split(s, n);
            lemma_stripped_keeps_utf8(s.skip(n));
            let head = emitted(s, n);
            assert(valid_utf8(head)) by {
                if kind_at(s).is_replaced() {
                    reveal_with_fuel(valid_utf8, 2);
                }
            }
            valid_utf8_concat(head, stripped(s.skip(n))->Ok_0);
        } else {
            let w = length_of_first_scalar(s);
            let head = s.take(w);
            lemma_stripped_high_bytes(s, w);
            lemma_stripped_keeps_utf8(s.skip(w));
            assert(valid_utf8(head)) by {
                reveal_with_fuel(valid_utf8, 2);
            }
            valid_utf8_concat(head, stripped(s.skip(w))->Ok_0);
        }
    }
}

/// The span that begins at `pos` in `src`, with `pos` taken as a place where
/// the lexer is in its normal state.
///
/// `Ok(None)` at the end of the input; the error where the span is a block
/// comment or a literal that the input does not close.
pub fn scan(src: &[u8], pos: usize) -> (r: Result<Option<Span>, LexError>)
    ensures
        pos >= src.len() ==> r == Ok::<Option<Span>, LexError>(None),
        pos < src.len() ==> match len_at(src@.skip(pos as int)) {
            Some(n) => r == Ok::<Option<Span>, LexError>(
                Some(Span { kind: kind_at(src@.skip(pos as int)), len: n as usize }),
            ) && pos + n <= src.len(),
            None => r == Err::<Option<Span>, LexError>(error_of(kind_at(src@.skip(pos as int)))),
        },
{
    let n: usize = src.len();
    if pos >= n {
        return Ok(None);
    }
    let ghost rest = src@.skip(pos as int);
    let first: u8 = src[pos];
    let paired: bool = n - pos >= 2;
    if first == NEWLINE {
        Ok(Some(Span { kind: SpanKind::Newline, len: 1 }))
    } else if first == SLASH && paired && src[pos + 1] == SLASH {
        let mut end: usize = pos + 2;
        while end < n && src[end] != NEWLINE
            invariant
                n == src.len(),
                pos + 2 <= end <= n,
                forall|j: int| pos <= j < end ==> src@[j] != NEWLINE,
            decreases n - end,
        {
            end += 1;
        }
        proof {
            if end < n {
                lemma_find_byte_is(rest, NEWLINE, end - pos);
            } else {
                lemma_find_byte_none(rest, NEWLINE);
            }
        }
        Ok(Some(Span { kind: SpanKind::LineComment, len: end - pos }))
    } else if first == SLASH && paired && src[pos + 1] == STAR {
        let ghost body = rest.skip(1);
        let mut at: usize = pos + 1;
        while n - at >= 2 && !(src[at] == STAR && src[at + 1] == SLASH)
            invariant
                n == src.len(),
                pos + 1 <= at < n,
                body == src@.skip(pos + 1),
                forall|j: int| 0 <= j < at - (pos + 1) ==> !pair_at(body, j, STAR, SLASH),
            decreases n - at,
        {
            at += 1;
        }
        if n - at >= 2 {
            proof {
                lemma_find_pair_is(body, STAR, SLASH, at - (pos + 1));
            }
            Ok(Some(Span { kind: SpanKind::BlockComment, len: at + 2 - pos }))
        } else {
            proof {
                lemma_find_pair_none(body, STAR, SLASH);
            }
            Err(LexError::UnterminatedComment)
        }
    } else if first == SINGLE_QUOTE || first == DOUBLE_QUOTE {
        let ghost body = rest.skip(1);
        let mut at: usize = pos + 1;
        while at < n && src[at] != first
            invariant
                n == src.len(),
                pos + 1 <= at <= n,
                body == src@.skip(pos + 1),
                forall|j: int| 0 <= j < at - (pos + 1) ==> body[j] != first,
            decreases n - at,
        {
            at += 1;
        }
        if at < n {
            proof {
                lemma_find_byte_is(body, first, at - (pos + 1));
            }
            Ok(Some(Span { kind: SpanKind::Literal, len: at + 1 - pos }))
        } else {
            proof {
                lemma_find_byte_none(body, first);
            }
            Err(LexError::UnterminatedLiteral)
        }
    } else {
        Ok(Some(Span { kind: SpanKind::Plain, len: 1 }))
    }
}

/// Strips `src` for embedding: every line break, line comment and block
/// comment becomes one space, and everything else, quoted literals with all
/// that they hold included, is repeated unchanged and in order.
///
/// Fails where the input ends inside a block comment or a literal, with the
/// error of the first such span.
pub fn preprocess(src: &[u8]) -> (r: Result<Vec<u8>, LexError>)
    ensures
        match stripped(src@) {
            Ok(text) => r matches Ok(out) && out@ == text,
            Err(e) => r == Err::<Vec<u8>, LexError>(e),
        },
{
    let mut out: Vec<u8> = Vec::new();
    let mut pos: usize = 0;
    assert(src@.skip(0) == src@);
    loop
        invariant
            pos <= src.len(),
            stripped(src@) == prepend(out@, stripped(src@.skip(pos as int))),
        decreases src.len() - pos,
    {
        let ghost rest = src@.skip(pos as int);
        let ghost before = out@;
        match scan(src, pos) {
            Err(e) => {
                return Err(e);
            },
            Ok(None) => {
                return Ok(out);
            },
            Ok(Some(span)) => {
                proof {
                    lemma_len_at_bounds(rest);
                }
                if span.kind.replaced() {
                    out.push(SPACE);
                } else {
                    let mut i: usize = 0;
                    while i < span.len
                        invariant
                            i <= span.len,
                            pos + span.len <= src.len(),
                            rest == src@.skip(pos as int),
                            out@ == before + rest.take(i as int),
                        decreases span.len - i,
                    {
                        out.push(src[pos + i]);
                        i += 1;
                    }
                }
                assert(rest.skip(span.len as int) == src@.skip(pos + span.len));
                proof {
                    // appending is associative: what was written, then this span, then the rest
                    match stripped(rest.skip(span.len as int)) {
                        Ok(t) => {
                            assert(before + (emitted(rest, span.len as int) + t) == out@ + t);
                        },
                        Err(_) => {},
                    }
                }
                pos += span.len;
            },
        }
    }
}

} // verus!
