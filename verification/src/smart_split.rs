//! The tokenizer: splits one line of source text into tokens on whitespace
//! and comma boundaries while respecting quoted substrings.
//!
//! A token starts at the first character that is not a separator. While a
//! token accumulates, a backslash escapes the next character, and a single
//! or double quote opens a quoted span in which separators are consumed as
//! part of the token; the opening and closing quote characters are kept in
//! the emitted token verbatim. A token that ends with an open quote, or
//! with an escape still pending, is a malformed-input error reported to the
//! caller, never a panic.

use vstd::prelude::*;

verus! {

/// A malformed line reported by the tokenizer.
#[derive(Debug, PartialEq, Eq, Structural, Clone, Copy)]
pub enum TokenError {
    /// The input ended inside a quoted span.
    UnterminatedQuote,
    /// The input ended with an escape pending.
    DanglingEscape,
}

/// Token separators: whitespace and commas; commas are pure separators,
/// never retained.
pub open spec fn is_separator(c: char) -> bool {
    c == ' ' || c == '\t' || c == '\n' || c == '\r' || c == ','
}

/// The first position at or after `i` that does not hold a separator, or
/// the end of the input.
pub open spec fn skip_separators(s: Seq<char>, i: int) -> int
    decreases s.len() - i,
{
    if i < 0 || i >= s.len() {
        i
    } else if is_separator(s[i]) {
        skip_separators(s, i + 1)
    } else {
        i
    }
}

/// How a token scan ends: at an end position, or malformed.
pub ghost enum ScanEnd {
    /// The token ends (exclusively) at this position.
    Done { end: int },
    /// The input ended inside a quoted span.
    Unterminated,
    /// The input ended with an escape pending.
    Dangling,
}

/// The scan of one token from position `i`, carrying the escape-pending
/// flag and the currently open quote character. An escaped character is
/// consumed literally; inside a quote only the matching quote closes the
/// span and a backslash escapes; outside, a backslash escapes, a quote
/// opens a span, and a separator ends the token (and is not consumed).
pub open spec fn scan_token(s: Seq<char>, i: int, escaped: bool, quote: Option<char>) -> ScanEnd
    decreases s.len() - i,
{
    if i < 0 || i >= s.len() {
        if quote is Some {
            ScanEnd::Unterminated
        } else if escaped {
            ScanEnd::Dangling
        } else {
            ScanEnd::Done { end: i }
        }
    } else {
        let c = s[i];
        if escaped {
            scan_token(s, i + 1, false, quote)
        } else {
            match quote {
                Some(q) => {
                    if c == q {
                        scan_token(s, i + 1, false, None)
                    } else if c == '\\' {
                        scan_token(s, i + 1, true, quote)
                    } else {
                        scan_token(s, i + 1, false, quote)
                    }
                },
                None => {
                    if c == '\\' {
                        scan_token(s, i + 1, true, None)
                    } else if c == '\'' || c == '"' {
                        scan_token(s, i + 1, false, Some(c))
                    } else if is_separator(c) {
                        ScanEnd::Done { end: i }
                    } else {
                        scan_token(s, i + 1, false, None)
                    }
                },
            }
        }
    }
}

/// The next token of `s` starting the search at `pos`: `Ok(None)` when only
/// separators remain, else the token's start and (exclusive) end position,
/// or the malformed-input error.
pub open spec fn spec_next(s: Seq<char>, pos: int) -> Result<Option<(int, int)>, TokenError> {
    let start = skip_separators(s, pos);
    if start >= s.len() {
        Ok(None)
    } else {
        match scan_token(s, start, false, None) {
            ScanEnd::Done { end } => Ok(Some((start, end))),
            ScanEnd::Unterminated => Err(TokenError::UnterminatedQuote),
            ScanEnd::Dangling => Err(TokenError::DanglingEscape),
        }
    }
}

proof fn lemma_skip_bounds(s: Seq<char>, i: int)
    requires
        0 <= i <= s.len(),
    ensures
        i <= skip_separators(s, i) <= s.len(),
        skip_separators(s, i) < s.len() ==> !is_separator(s[skip_separators(s, i)]),
    decreases s.len() - i,
{
    if i < s.len() && is_separator(s[i]) {
        lemma_skip_bounds(s, i + 1);
    }
}

proof fn lemma_scan_bounds(s: Seq<char>, i: int, escaped: bool, quote: Option<char>)
    requires
        0 <= i <= s.len(),
    ensures
        scan_token(s, i, escaped, quote) matches ScanEnd::Done { end } ==> i <= end <= s.len(),
    decreases s.len() - i,
{
    if i < s.len() {
        lemma_scan_bounds(s, i + 1, false, quote);
        lemma_scan_bounds(s, i + 1, true, quote);
        lemma_scan_bounds(s, i + 1, false, None);
        if !escaped && quote is None && (s[i] == '\'' || s[i] == '"') {
            lemma_scan_bounds(s, i + 1, false, Some(s[i]));
        }
    }
}

/// A found token lies between the search position and the end of the input,
/// and is never empty.
pub proof fn lemma_next_bounds(s: Seq<char>, pos: int)
    requires
        0 <= pos <= s.len(),
    ensures
        spec_next(s, pos) matches Ok(tok) ==> (tok matches Some(se) ==> pos <= se.0 < se.1
            <= s.len()),
{
    lemma_skip_bounds(s, pos);
    let start = skip_separators(s, pos);
    if start < s.len() {
        let c = s[start];
        if c == '\\' {
            lemma_scan_bounds(s, start + 1, true, None);
        } else if c == '\'' || c == '"' {
            lemma_scan_bounds(s, start + 1, false, Some(c));
        } else {
            lemma_scan_bounds(s, start + 1, false, None);
        }
    }
}

/// The tokens of `s` from position `pos` on, in order, or the first
/// malformed-input error.
pub open spec fn spec_tokens_from(s: Seq<char>, pos: int) -> Result<Seq<Seq<char>>, TokenError>
    decreases s.len() - pos
        when 0 <= pos <= s.len()
        via spec_tokens_from_decreases
{
    match spec_next(s, pos) {
        Err(e) => Err(e),
        Ok(None) => Ok(Seq::empty()),
        Ok(Some(se)) => match spec_tokens_from(s, se.1) {
            Err(e) => Err(e),
            Ok(rest) => Ok(seq![s.subrange(se.0, se.1)] + rest),
        },
    }
}

#[via_fn]
proof fn spec_tokens_from_decreases(s: Seq<char>, pos: int) {
    lemma_next_bounds(s, pos);
}

/// The token sequence of a whole line, or its first malformed-input error.
pub open spec fn spec_tokenize(s: Seq<char>) -> Result<Seq<Seq<char>>, TokenError> {
    spec_tokens_from(s, 0)
}

/// Whether a character separates tokens.
fn is_sep(c: char) -> (r: bool)
    ensures
        r == is_separator(c),
{
    c == ' ' || c == '\t' || c == '\n' || c == '\r' || c == ','
}

/// The tokenizer: a restartable cursor over one line of source text,
/// yielding one token per call of `next`.
pub struct SmartSplit<'a> {
    /// The line being split.
    pub string: &'a str,
    /// The position (in characters) the next token search starts at.
    pub cur_pos: usize,
}

impl<'a> SmartSplit<'a> {
    /// Well-formed: the cursor lies within the line.
    pub open spec fn wf(&self) -> bool {
        self.cur_pos <= self.string@.len()
    }

    /// A tokenizer positioned at the start of the line.
    pub fn new(string: &'a str) -> (r: SmartSplit<'a>)
        ensures
            r.string@ == string@,
            r.cur_pos == 0,
            r.wf(),
    {
        SmartSplit { string, cur_pos: 0 }
    }

    /// The next token, `Ok(None)` when only separators remain, or the
    /// malformed-input error when the token ends with an open quote or a
    /// pending escape. A returned token is a non-empty slice of the line
    /// with quotes and escapes kept verbatim.
    pub fn next(&mut self) -> (r: Result<Option<&'a str>, TokenError>)
        requires
            old(self).wf(),
        ensures
            final(self).wf(),
            final(self).string == old(self).string,
            match spec_next(old(self).string@, old(self).cur_pos as int) {
                Err(e) => r == Err::<Option<&'a str>, TokenError>(e) && final(self).cur_pos == old(
                    self,
                ).cur_pos,
                Ok(None) => r == Ok::<Option<&'a str>, TokenError>(None) && final(self).cur_pos
                    == old(self).cur_pos,
                Ok(Some(se)) => {
                    &&& r is Ok
                    &&& r->Ok_0 is Some
                    &&& r->Ok_0->Some_0@ == old(self).string@.subrange(se.0, se.1)
                    &&& final(self).cur_pos == se.1
                },
            },
    {
        let ghost s0 = self.string@;
        let ghost pos0 = self.cur_pos as int;
        let len = self.string.unicode_len();
        let mut start = self.cur_pos;
        while start < len && is_sep(self.string.get_char(start))
            invariant
                self.string == old(self).string,
                self.cur_pos == old(self).cur_pos,
                s0 == self.string@,
                pos0 == self.cur_pos as int,
                len == s0.len(),
                pos0 <= start as int <= len as int,
                skip_separators(s0, pos0) == skip_separators(s0, start as int),
            decreases len - start,
        {
            start = start + 1;
        }
        assert(start as int == skip_separators(s0, pos0));
        if start >= len {
            return Ok(None);
        }
        let mut end = start;
        let mut escaped = false;
        let mut quote: Option<char> = None;
        while end < len
            invariant
                self.string == old(self).string,
                self.cur_pos == old(self).cur_pos,
                s0 == self.string@,
                pos0 == self.cur_pos as int,
                len == s0.len(),
                start as int == skip_separators(s0, pos0),
                start < len,
                start <= end <= len,
                scan_token(s0, start as int, false, None) == scan_token(
                    s0,
                    end as int,
                    escaped,
                    quote,
                ),
            decreases len - end,
        {
            let c = self.string.get_char(end);
            if !escaped && quote.is_none() && is_sep(c) {
                self.cur_pos = end;
                return Ok(Some(self.string.substring_char(start, end)));
            }
            if escaped {
                escaped = false;
            } else {
                match quote {
                    Some(q) => {
                        if c == q {
                            quote = None;
                        } else if c == '\\' {
                            escaped = true;
                        }
                    },
                    None => {
                        if c == '\\' {
                            escaped = true;
                        } else if c == '\'' || c == '"' {
                            quote = Some(c);
                        }
                    },
                }
            }
            end = end + 1;
        }
        if quote.is_some() {
            return Err(TokenError::UnterminatedQuote);
        }
        if escaped {
            return Err(TokenError::DanglingEscape);
        }
        self.cur_pos = len;
        Ok(Some(self.string.substring_char(start, len)))
    }

    /// All remaining tokens of the line, in order, as owned strings, or the
    /// first malformed-input error.
    pub fn remaining_tokens(&mut self) -> (r: Result<Vec<String>, TokenError>)
        requires
            old(self).wf(),
        ensures
            final(self).wf(),
            final(self).string == old(self).string,
            match spec_tokens_from(old(self).string@, old(self).cur_pos as int) {
                Ok(toks) => r is Ok && r->Ok_0.deep_view() == toks,
                Err(e) => r == Err::<Vec<String>, TokenError>(e),
            },
    {
        let ghost s = self.string@;
        let ghost pos0 = self.cur_pos as int;
        let mut tokens: Vec<String> = Vec::new();
        loop
            invariant
                self.wf(),
                self.string == old(self).string,
                s == old(self).string@,
                pos0 == old(self).cur_pos as int,
                self.string@ == s,
                pos0 <= self.cur_pos as int,
                spec_tokens_from(s, pos0) == (match spec_tokens_from(s, self.cur_pos as int) {
                    Ok(rest) => Ok::<Seq<Seq<char>>, TokenError>(tokens.deep_view() + rest),
                    Err(e) => Err::<Seq<Seq<char>>, TokenError>(e),
                }),
            decreases s.len() - self.cur_pos,
        {
            let ghost p = self.cur_pos as int;
            let ghost old_tokens = tokens.deep_view();
            proof {
                lemma_next_bounds(s, p);
            }
            match self.next() {
                Err(e) => {
                    return Err(e);
                },
                Ok(None) => {
                    proof {
                        assert(spec_tokens_from(s, p) == Ok::<Seq<Seq<char>>, TokenError>(
                            Seq::empty(),
                        ));
                        assert(old_tokens + Seq::<Seq<char>>::empty() =~= old_tokens);
                    }
                    return Ok(tokens);
                },
                Ok(Some(tok)) => {
                    tokens.push(tok.to_owned());
                    proof {
                        let se = spec_next(s, p)->Ok_0->Some_0;
                        assert(tokens.deep_view() =~= old_tokens + seq![s.subrange(se.0, se.1)]);
                        match spec_tokens_from(s, se.1) {
                            Ok(rest) => {
                                assert(old_tokens + (seq![s.subrange(se.0, se.1)] + rest)
                                    =~= tokens.deep_view() + rest);
                            },
                            Err(_) => {},
                        }
                    }
                },
            }
        }
    }
}

/// The whole token sequence of one line, in order, as owned strings, or its
/// first malformed-input error.
pub fn tokenize(line: &str) -> (r: Result<Vec<String>, TokenError>)
    ensures
        match r {
            Ok(tokens) => spec_tokenize(line@) == Ok::<Seq<Seq<char>>, TokenError>(
                tokens.deep_view(),
            ),
            Err(e) => spec_tokenize(line@) == Err::<Seq<Seq<char>>, TokenError>(e),
        },
{
    let mut split = SmartSplit::new(line);
    split.remaining_tokens()
}

} // verus!
