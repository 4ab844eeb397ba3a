//! The PostScript lexical scanner.
//!
//! `next_token` splits the ASCII portion of a font program into tokens:
//! whitespace separates tokens, `%` starts a line comment, the bytes
//! `( ) [ ] { }` are single-byte tokens, `<` and `>` pair up into `<<`, `<>`
//! and `>>`, `/` starts a name, and any other byte starts a name or number
//! token that runs to the next whitespace or self-delimiting byte.
//!
//! Every scanner entry is specified against the spec-level tokenizer
//! `spec_next_token`, so the token it hands back is a function of the buffer
//! and the read position alone.
use vstd::prelude::*;

verus! {

use vstd::slice::slice_subrange;
use crate::cff::parser::Stream;

/// PostScript whitespace: NUL, tab, line feed, form feed, carriage return
/// and space.
pub open spec fn spec_is_whitespace(c: u8) -> bool {
    c == 0x00 || c == 0x09 || c == 0x0A || c == 0x0C || c == 0x0D || c == 0x20
}

/// Whether `c` is PostScript whitespace.
pub fn is_whitespace(c: u8) -> (r: bool)
    ensures
        r == spec_is_whitespace(c),
{
    c == 0x00 || c == 0x09 || c == 0x0A || c == 0x0C || c == 0x0D || c == 0x20
}

/// The self-delimiting bytes `( ) < > [ ] { } / %`: they end the token
/// before them and are not part of it.
pub open spec fn spec_is_self_delim(c: u8) -> bool {
    c == 0x28 || c == 0x29 || c == 0x3C || c == 0x3E || c == 0x5B || c == 0x5D || c == 0x7B || c
        == 0x7D || c == 0x2F || c == 0x25
}

/// Whether `c` is a self-delimiting byte appearing after a token.
pub fn is_self_delim_after_token(c: u8) -> (r: bool)
    ensures
        r == spec_is_self_delim(c),
{
    c == 0x28 || c == 0x29 || c == 0x3C || c == 0x3E || c == 0x5B || c == 0x5D || c == 0x7B || c
        == 0x7D || c == 0x2F || c == 0x25
}

/// Where the name token starting at `off` ends: the first position at or
/// after `off` holding whitespace or a self-delimiting byte, or the end of
/// the buffer.
pub open spec fn spec_token_end(data: Seq<u8>, off: int) -> int
    decreases data.len() - off,
{
    if off < 0 {
        0
    } else if off >= data.len() {
        data.len() as int
    } else if spec_is_whitespace(data[off]) || spec_is_self_delim(data[off]) {
        off
    } else {
        spec_token_end(data, off + 1)
    }
}

/// The token end never lies before `off` nor past the end of the buffer.
pub proof fn lemma_token_end_bounds(data: Seq<u8>, off: int)
    requires
        0 <= off <= data.len(),
    ensures
        off <= spec_token_end(data, off) <= data.len(),
    decreases data.len() - off,
{
    if off < data.len() && !(spec_is_whitespace(data[off]) || spec_is_self_delim(data[off])) {
        lemma_token_end_bounds(data, off + 1);
    }
}

/// The spec-level tokenizer: the next token starting at `off` and the read
/// position after it, or `None` when only whitespace and comments remain.
/// `in_comment` is true while inside a line comment.
pub open spec fn spec_scan(data: Seq<u8>, off: int, in_comment: bool) -> Option<(Seq<u8>, int)>
    decreases data.len() - off,
{
    if off < 0 || off >= data.len() {
        None
    } else {
        let c = data[off];
        if in_comment {
            if c == 0x0A || c == 0x0D {
                spec_scan(data, off + 1, false)
            } else {
                spec_scan(data, off + 1, true)
            }
        } else if spec_is_whitespace(c) {
            spec_scan(data, off + 1, false)
        } else if c == 0x25 {  // '%'
            spec_scan(data, off + 1, true)
        } else if c == 0x28 || c == 0x29 || c == 0x5B || c == 0x5D || c == 0x7B || c == 0x7D {
            Some((data.subrange(off, off + 1), off + 1))
        } else if c == 0x3C {  // '<': pairs up into '<<' and the empty-string sentinel '<>'
            if off + 1 < data.len() && (data[off + 1] == 0x3C || data[off + 1] == 0x3E) {
                Some((data.subrange(off, off + 2), off + 2))
            } else {
                Some((data.subrange(off, off + 1), off + 1))
            }
        } else if c == 0x3E {  // '>': pairs up into '>>'
            if off + 1 < data.len() && data[off + 1] == 0x3E {
                Some((data.subrange(off, off + 2), off + 2))
            } else {
                Some((data.subrange(off, off + 1), off + 1))
            }
        } else if c == 0x2F {  // '/': a name; bare '/' when nothing follows it
            let end = spec_token_end(data, off + 1);
            Some((data.subrange(off, end), end))
        } else {
            let end = spec_token_end(data, off);
            Some((data.subrange(off, end), end))
        }
    }
}

/// The next token of the buffer from position `off`, and the position after
/// it.
pub open spec fn spec_next_token(data: Seq<u8>, off: int) -> Option<(Seq<u8>, int)> {
    spec_scan(data, off, false)
}

/// Scanning makes progress: a token is non-empty and ends past where the
/// scan began.
pub proof fn lemma_scan_advances(data: Seq<u8>, off: int, in_comment: bool)
    ensures
        spec_scan(data, off, in_comment) matches Some(t) ==> off < t.1 <= data.len() && t.0.len()
            >= 1,
    decreases data.len() - off,
{
    if 0 <= off && off < data.len() {
        let c = data[off];
        if in_comment {
            if c == 0x0A || c == 0x0D {
                lemma_scan_advances(data, off + 1, false);
            } else {
                lemma_scan_advances(data, off + 1, true);
            }
        } else if spec_is_whitespace(c) {
            lemma_scan_advances(data, off + 1, false);
        } else if c == 0x25 {
            lemma_scan_advances(data, off + 1, true);
        } else if c == 0x2F {
            lemma_token_end_bounds(data, off + 1);
        } else if !(c == 0x28 || c == 0x29 || c == 0x5B || c == 0x5D || c == 0x7B || c == 0x7D || c
            == 0x3C || c == 0x3E) {
            lemma_token_end_bounds(data, off + 1);
            assert(spec_token_end(data, off) == spec_token_end(data, off + 1));
        }
    }
}

/// Scanner determinism: streams over equal buffers at equal positions scan
/// the same token and end at the same position. In particular, a peeked
/// token is exactly the token that a following `next_token` hands back.
pub proof fn lemma_scanner_deterministic<'a, 'b>(a: Stream<'a>, b: Stream<'b>)
    requires
        a.data@ == b.data@,
        a.offset == b.offset,
    ensures
        spec_next_token(a.data@, a.offset as int) == spec_next_token(b.data@, b.offset as int),
{
}

/// How far whitespace skipping moves the read position.
pub open spec fn spec_skip_whitespace(data: Seq<u8>, off: int) -> int
    decreases data.len() - off,
{
    if 0 <= off < data.len() && spec_is_whitespace(data[off]) {
        spec_skip_whitespace(data, off + 1)
    } else {
        off
    }
}

/// How far skipping a line comment moves the read position: past the next
/// line feed or carriage return, or to the end of the buffer.
pub open spec fn spec_skip_comment(data: Seq<u8>, off: int) -> int
    decreases data.len() - off,
{
    if 0 <= off < data.len() {
        if data[off] == 0x0A || data[off] == 0x0D {
            off + 1
        } else {
            spec_skip_comment(data, off + 1)
        }
    } else {
        off
    }
}

/// Whether the byte is an ASCII decimal digit.
pub open spec fn spec_is_digit(c: u8) -> bool {
    0x30 <= c <= 0x39
}

/// Whether every byte of the token is an ASCII decimal digit.
pub open spec fn spec_all_digits(t: Seq<u8>) -> bool {
    forall|i: int| 0 <= i < t.len() ==> #[trigger] spec_is_digit(t[i])
}

/// The value of a sequence of ASCII decimal digits.
pub open spec fn spec_digits_val(t: Seq<u8>) -> int
    decreases t.len(),
{
    if t.len() == 0 {
        0
    } else {
        spec_digits_val(t.drop_last()) * 10 + (t.last() - 0x30)
    }
}

/// A digit string's value is never negative.
pub proof fn lemma_digits_val_nonneg(t: Seq<u8>)
    requires
        spec_all_digits(t),
    ensures
        spec_digits_val(t) >= 0,
    decreases t.len(),
{
    if t.len() > 0 {
        assert(spec_is_digit(t[t.len() - 1]));
        lemma_digits_val_nonneg(t.drop_last());
    }
}

/// Extending a digit string can only grow its value.
pub proof fn lemma_digits_val_prefix_le(t: Seq<u8>, k: int)
    requires
        spec_all_digits(t),
        0 <= k <= t.len(),
    ensures
        spec_digits_val(t.take(k)) <= spec_digits_val(t),
    decreases t.len() - k,
{
    if k < t.len() {
        lemma_digits_val_prefix_le(t, k + 1);
        let a = t.take(k);
        let b = t.take(k + 1);
        assert(b.drop_last() =~= a);
        assert(b.last() == t[k]);
        assert(spec_is_digit(t[k]));
        assert(spec_all_digits(a)) by {
            assert(forall|i: int| 0 <= i < a.len() ==> a[i] == t[i] && #[trigger] spec_is_digit(
                t[i],
            ));
        }
        lemma_digits_val_nonneg(a);
    } else {
        assert(t.take(k) =~= t);
    }
}

/// What parsing a token as a decimal integer yields: an optional sign, then
/// decimal digits; `None` on any other shape or when the value does not fit
/// an i32.
pub open spec fn spec_parse_int(t: Seq<u8>) -> Option<i32> {
    if t.len() >= 2 && (t[0] == 0x2D || t[0] == 0x2B) {
        let d = t.skip(1);
        if spec_all_digits(d) {
            let v = if t[0] == 0x2D {
                -spec_digits_val(d)
            } else {
                spec_digits_val(d)
            };
            if i32::MIN <= v <= i32::MAX {
                Some(v as i32)
            } else {
                None
            }
        } else {
            None
        }
    } else if t.len() >= 1 && spec_all_digits(t) {
        if spec_digits_val(t) <= i32::MAX {
            Some(spec_digits_val(t) as i32)
        } else {
            None
        }
    } else {
        None
    }
}

/// Parses a token as a decimal integer.
pub fn parse_int_token(t: &[u8]) -> (r: Option<i32>)
    ensures
        r == spec_parse_int(t@),
{
    if t.len() == 0 {
        return None;
    }
    let neg = t[0] == 0x2D;
    let has_sign = neg || t[0] == 0x2B;
    let start: usize = if has_sign {
        1
    } else {
        0
    };
    if t.len() == start {
        proof {
            if t@.len() >= 1 {
                assert(!spec_is_digit(t@[0]));
            }
        }
        return None;
    }
    let ghost d = if has_sign {
        t@.skip(1)
    } else {
        t@
    };
    let limit: i64 = if neg {
        0x80000000
    } else {
        0x7FFFFFFF
    };
    let mut acc: i64 = 0;
    let mut i = start;
    while i < t.len()
        invariant
            start <= i <= t@.len(),
            start == if has_sign { 1int } else { 0int },
            has_sign ==> t@.len() >= 2 && (t@[0] == 0x2D || t@[0] == 0x2B),
            neg <==> (t@.len() >= 1 && t@[0] == 0x2D),
            !has_sign ==> t@.len() >= 1 && !(t@[0] == 0x2D || t@[0] == 0x2B),
            d == if has_sign { t@.skip(1) } else { t@ },
            limit == if neg { 0x80000000int } else { 0x7FFFFFFFint },
            spec_all_digits(d.take(i - start)),
            acc == spec_digits_val(d.take(i - start)),
            0 <= acc <= limit,
        decreases t@.len() - i,
    {
        let c = t[i];
        if !(0x30 <= c && c <= 0x39) {
            proof {
                assert(d[i - start] == t@[i as int]);
                assert(!spec_is_digit(d[i - start]));
            }
            return None;
        }
        proof {
            let k = i - start;
            assert(d.take(k + 1).drop_last() =~= d.take(k));
            assert(d.take(k + 1).last() == d[k]);
            assert(d[k] == t@[i as int]);
            assert(forall|j: int|
                0 <= j < d.take(k + 1).len() ==> #[trigger] spec_is_digit(d.take(k + 1)[j]));
        }
        acc = acc * 10 + ((c - 0x30) as i64);
        i = i + 1;
        if acc > limit {
            proof {
                let k = i - start;
                if spec_all_digits(d) {
                    lemma_digits_val_prefix_le(d, k);
                }
            }
            return None;
        }
    }
    proof {
        assert(d.take(i - start) =~= d);
    }
    if neg {
        Some((-acc) as i32)
    } else {
        Some(acc as i32)
    }
}

/// Compares two byte strings for equality.
pub fn bytes_eq(a: &[u8], b: &[u8]) -> (r: bool)
    ensures
        r == (a@ == b@),
{
    if a.len() != b.len() {
        return false;
    }
    let mut i: usize = 0;
    while i < a.len()
        invariant
            0 <= i <= a@.len(),
            a@.len() == b@.len(),
            forall|j: int| 0 <= j < i ==> a@[j] == b@[j],
        decreases a@.len() - i,
    {
        if a[i] != b[i] {
            return false;
        }
        i = i + 1;
    }
    proof {
        assert(a@ =~= b@);
    }
    true
}

/// Where the name token starting at `start` ends in `data`.
fn token_end(data: &[u8], start: usize) -> (end: usize)
    requires
        start <= data@.len(),
    ensures
        end == spec_token_end(data@, start as int),
        start <= end <= data@.len(),
{
    let mut i = start;
    loop
        invariant
            start <= i <= data@.len(),
            spec_token_end(data@, i as int) == spec_token_end(data@, start as int),
        decreases data@.len() - i,
    {
        if i >= data.len() {
            return i;
        }
        let c = data[i];
        if is_whitespace(c) || is_self_delim_after_token(c) {
            return i;
        }
        i = i + 1;
    }
}

impl<'a> Stream<'a> {
    /// Returns the next token, advancing past it, or `None` when only
    /// whitespace and comments remain; then the whole buffer is consumed.
    pub fn next_token(&mut self) -> (r: Option<&'a [u8]>)
        ensures
            final(self).data@ == old(self).data@,
            match spec_next_token(old(self).data@, old(self).offset as int) {
                Some(t) => r matches Some(s) && s@ == t.0 && final(self).offset == t.1,
                None => r is None && final(self).offset == old(self).data@.len(),
            },
            final(self).offset <= final(self).data@.len(),
            r is Some ==> final(self).offset > old(self).offset,
            old(self).offset <= old(self).data@.len() ==> final(self).offset >= old(self).offset,
    {
        proof {
            lemma_scan_advances(old(self).data@, old(self).offset as int, false);
        }
        let mut in_comment = false;
        loop
            invariant
                self.data@ == old(self).data@,
                spec_scan(self.data@, self.offset as int, in_comment) == spec_next_token(
                    old(self).data@,
                    old(self).offset as int,
                ),
                match spec_next_token(old(self).data@, old(self).offset as int) {
                    Some(t) => old(self).offset < t.1 <= old(self).data@.len(),
                    None => true,
                },
            decreases self.data@.len() - self.offset,
        {
            if self.offset >= self.data.len() {
                self.offset = self.data.len();
                return None;
            }
            let c = self.data[self.offset];
            if in_comment {
                self.offset = self.offset + 1;
                if c == 0x0A || c == 0x0D {
                    in_comment = false;
                }
            } else if is_whitespace(c) {
                self.offset = self.offset + 1;
            } else if c == 0x25 {  // '%'
                self.offset = self.offset + 1;
                in_comment = true;
            } else if c == 0x28 || c == 0x29 || c == 0x5B || c == 0x5D || c == 0x7B || c == 0x7D {
                let r = slice_subrange(self.data, self.offset, self.offset + 1);
                self.offset = self.offset + 1;
                return Some(r);
            } else if c == 0x3C {  // '<'
                if self.offset + 1 < self.data.len() {
                    let c2 = self.data[self.offset + 1];
                    if c2 == 0x3C || c2 == 0x3E {
                        let r = slice_subrange(self.data, self.offset, self.offset + 2);
                        self.offset = self.offset + 2;
                        return Some(r);
                    }
                }
                let r = slice_subrange(self.data, self.offset, self.offset + 1);
                self.offset = self.offset + 1;
                return Some(r);
            } else if c == 0x3E {  // '>'
                if self.offset + 1 < self.data.len() {
                    let c2 = self.data[self.offset + 1];
                    if c2 == 0x3E {
                        let r = slice_subrange(self.data, self.offset, self.offset + 2);
                        self.offset = self.offset + 2;
                        return Some(r);
                    }
                }
                let r = slice_subrange(self.data, self.offset, self.offset + 1);
                self.offset = self.offset + 1;
                return Some(r);
            } else if c == 0x2F {  // '/'
                let end = token_end(self.data, self.offset + 1);
                let r = slice_subrange(self.data, self.offset, end);
                self.offset = end;
                return Some(r);
            } else {
                let end = token_end(self.data, self.offset);
                proof {
                    lemma_token_end_bounds(self.data@, self.offset as int);
                }
                let r = slice_subrange(self.data, self.offset, end);
                self.offset = end;
                return Some(r);
            }
        }
    }

    /// Returns the token `next_token` would return, leaving the stream
    /// unchanged.
    pub fn peek_token(&self) -> (r: Option<&'a [u8]>)
        ensures
            match spec_next_token(self.data@, self.offset as int) {
                Some(t) => r matches Some(s) && s@ == t.0,
                None => r is None,
            },
    {
        let mut s = *self;
        s.next_token()
    }

    /// Reads the next token and discards it.
    pub fn skip_token(&mut self)
        ensures
            final(self).data@ == old(self).data@,
            final(self).offset == match spec_next_token(
                old(self).data@,
                old(self).offset as int,
            ) {
                Some(t) => t.1,
                None => old(self).data@.len() as int,
            },
            final(self).offset <= final(self).data@.len(),
            old(self).offset <= old(self).data@.len() ==> final(self).offset >= old(self).offset,
    {
        let _ = self.next_token();
    }

    /// Reads the next token and parses it as a decimal integer.
    pub fn next_int(&mut self) -> (r: Option<i32>)
        ensures
            final(self).data@ == old(self).data@,
            match spec_next_token(old(self).data@, old(self).offset as int) {
                Some(t) => r == spec_parse_int(t.0) && final(self).offset == t.1,
                None => r is None && final(self).offset == old(self).data@.len(),
            },
            final(self).offset <= final(self).data@.len(),
            old(self).offset <= old(self).data@.len() ==> final(self).offset >= old(self).offset,
    {
        match self.next_token() {
            Some(t) => parse_int_token(t),
            None => None,
        }
    }

    /// Skips whitespace bytes, stopping at the first non-whitespace byte or
    /// the end of the buffer.
    pub fn skip_whitespaces(&mut self)
        ensures
            final(self).data@ == old(self).data@,
            final(self).offset as int == spec_skip_whitespace(
                old(self).data@,
                old(self).offset as int,
            ),
    {
        loop
            invariant
                self.data@ == old(self).data@,
                self.offset >= old(self).offset,
                spec_skip_whitespace(self.data@, self.offset as int) == spec_skip_whitespace(
                    old(self).data@,
                    old(self).offset as int,
                ),
            decreases self.data@.len() - self.offset,
        {
            if self.offset >= self.data.len() {
                return ;
            }
            if is_whitespace(self.data[self.offset]) {
                self.offset = self.offset + 1;
            } else {
                return ;
            }
        }
    }

    /// Skips the remainder of a line comment, consuming the line break that
    /// ends it.
    pub fn skip_line_comment(&mut self)
        ensures
            final(self).data@ == old(self).data@,
            final(self).offset as int == spec_skip_comment(
                old(self).data@,
                old(self).offset as int,
            ),
    {
        loop
            invariant
                self.data@ == old(self).data@,
                spec_skip_comment(self.data@, self.offset as int) == spec_skip_comment(
                    old(self).data@,
                    old(self).offset as int,
                ),
            decreases self.data@.len() - self.offset,
        {
            if self.offset >= self.data.len() {
                return ;
            }
            let c = self.data[self.offset];
            self.offset = self.offset + 1;
            if c == 0x0A || c == 0x0D {
                return ;
            }
        }
    }
}

} // verus!
