use vstd::prelude::*;
use vstd::arithmetic::div_mod::{lemma_add_mod_noop, lemma_mul_mod_noop_left, lemma_small_mod};
use crate::error::{ErrA, RuntimeError};
use crate::literal::{Literal, Val};
use crate::text::{
    digit_val, exec_digit_val, exec_is_digit, exec_is_ident, exec_is_space, exec_lower_char, exec_upper_char,
    is_alpha_char, is_digit_char, is_ident_char, is_space_char, str_chars, string_from_chars,
    upper_seq,
};
use crate::token::{token_wf, TokA, Token, TokenType};

verus! {

/// The token kind of a single-character symbol, or `None` for a character
/// that is no such symbol.
pub open spec fn symbol_kind(c: char) -> Option<TokenType> {
    match c {
        '+' => Some(TokenType::Plus),
        '-' => Some(TokenType::Minus),
        '*' => Some(TokenType::Multiply),
        '/' => Some(TokenType::Division),
        '%' => Some(TokenType::Modulus),
        '=' => Some(TokenType::Assignment),
        '(' => Some(TokenType::Lparen),
        ')' => Some(TokenType::Rparen),
        ';' => Some(TokenType::Semi),
        '.' => Some(TokenType::Dot),
        ':' => Some(TokenType::Colon),
        ',' => Some(TokenType::Comma),
        _ => None,
    }
}

/// The token kind of a reserved word, matched against the upper-case
/// folding of an identifier, or `None` for a plain identifier.
pub open spec fn keyword_kind(s: Seq<char>) -> Option<TokenType> {
    if s == seq!['B', 'E', 'G', 'I', 'N'] {
        Some(TokenType::Begin)
    } else if s == seq!['E', 'N', 'D'] {
        Some(TokenType::End)
    } else if s == seq!['P', 'R', 'O', 'G', 'R', 'A', 'M'] {
        Some(TokenType::Program)
    } else if s == seq!['V', 'A', 'R'] {
        Some(TokenType::Var)
    } else if s == seq!['D', 'I', 'V'] {
        Some(TokenType::IntegerDivision)
    } else if s == seq!['I', 'N', 'T', 'E', 'G', 'E', 'R'] {
        Some(TokenType::IntegerType)
    } else if s == seq!['R', 'E', 'A', 'L'] {
        Some(TokenType::FloatType)
    } else if s == seq!['P', 'R', 'O', 'C', 'E', 'D', 'U', 'R', 'E'] {
        Some(TokenType::Procedure)
    } else {
        None
    }
}

/// The value of a run of decimal digits, unbounded.
pub open spec fn decimal_value(s: Seq<char>) -> int
    decreases s.len(),
{
    if s.len() == 0 {
        0
    } else {
        decimal_value(s.drop_last()) * 10 + digit_val(s.last())
    }
}

/// The value of a run of decimal digits as the lexer's 64-bit integer
/// token carries it: reduced to 64 bits, then read as two's complement.
pub open spec fn decimal_token_val(s: Seq<char>) -> i64 {
    ((decimal_value(s) % 0x1_0000_0000_0000_0000) as u64) as i64
}

proof fn lemma_decimal_value_nonneg(s: Seq<char>)
    requires
        forall|i: int| 0 <= i < s.len() ==> is_digit_char(#[trigger] s[i]),
    ensures
        decimal_value(s) >= 0,
    decreases s.len(),
{
    if s.len() > 0 {
        assert(forall|i: int|
            0 <= i < s.drop_last().len() ==> is_digit_char(#[trigger] s.drop_last()[i]));
        lemma_decimal_value_nonneg(s.drop_last());
        assert(is_digit_char(s[s.len() - 1]));
    }
}

/// The spelling of a real constant: one or more digits, a dot, then zero
/// or more digits.
pub open spec fn float_lexeme(s: Seq<char>) -> bool {
    exists|k: int|
        1 <= k < s.len() && #[trigger] s[k] == '.' && (forall|i: int|
            0 <= i < k ==> is_digit_char(#[trigger] s[i])) && (forall|i: int|
            k < i < s.len() ==> is_digit_char(#[trigger] s[i]))
}


/// The lexer's cursor as the specifications see it.
#[verifier::ext_equal]
pub ghost struct LexSt {
    pub text: Seq<char>,
    pub pos: int,
    pub line: u32,
    pub col: u32,
}

/// A counter stepped by one, stopping at its maximum.
pub open spec fn sat_inc(x: u32) -> u32 {
    if x < u32::MAX {
        (x + 1) as u32
    } else {
        x
    }
}

/// One character step of the cursor: past a newline the line counter
/// steps and the column restarts; otherwise the column steps, except past
/// the last character.
pub open spec fn spec_advance(l: LexSt) -> LexSt {
    let newline = 0 <= l.pos < l.text.len() && l.text[l.pos] == '\n';
    let line2 = if newline {
        sat_inc(l.line)
    } else {
        l.line
    };
    let col1 = if newline {
        0u32
    } else {
        l.col
    };
    let pos2 = l.pos + 1;
    let col2 = if pos2 < l.text.len() {
        sat_inc(col1)
    } else {
        col1
    };
    LexSt { text: l.text, pos: pos2, line: line2, col: col2 }
}

/// The cursor past a maximal run of blank space.
pub open spec fn spec_skip_ws(l: LexSt) -> LexSt
    decreases l.text.len() - l.pos,
{
    if 0 <= l.pos && l.pos < l.text.len() && is_space_char(l.text[l.pos]) {
        spec_skip_ws(spec_advance(l))
    } else {
        l
    }
}

/// The cursor past a comment opened at it: everything up to and including
/// the first `}`, or the whole rest of the input when no `}` follows.
pub open spec fn spec_skip_comment(l: LexSt) -> LexSt
    decreases l.text.len() - l.pos,
{
    if 0 <= l.pos && l.pos < l.text.len() && l.text[l.pos] != '}' {
        spec_skip_comment(spec_advance(l))
    } else if 0 <= l.pos && l.pos < l.text.len() {
        spec_advance(l)
    } else {
        l
    }
}

/// The cursor past a maximal run of decimal digits.
pub open spec fn spec_scan_digits(l: LexSt) -> LexSt
    decreases l.text.len() - l.pos,
{
    if 0 <= l.pos && l.pos < l.text.len() && is_digit_char(l.text[l.pos]) {
        spec_scan_digits(spec_advance(l))
    } else {
        l
    }
}

/// The cursor past a maximal run of identifier characters.
pub open spec fn spec_scan_ident(l: LexSt) -> LexSt
    decreases l.text.len() - l.pos,
{
    if 0 <= l.pos && l.pos < l.text.len() && is_ident_char(l.text[l.pos]) {
        spec_scan_ident(spec_advance(l))
    } else {
        l
    }
}

/// The number token read at the cursor and the cursor past it; see
/// [`Lexer::get_number`].
pub open spec fn spec_number(l: LexSt) -> (TokA, LexSt) {
    let l1 = spec_scan_digits(l);
    if 0 <= l1.pos && l1.pos < l.text.len() && l.text[l1.pos] == '.' {
        let l2 = spec_scan_digits(spec_advance(l1));
        (
            TokA {
                token_type: TokenType::FloatConst,
                value: Val::Text(l.text.subrange(l.pos, l2.pos)),
                line: l.line,
                col: l.col,
            },
            l2,
        )
    } else {
        (
            TokA {
                token_type: TokenType::IntegerConst,
                value: Val::Int(decimal_token_val(l.text.subrange(l.pos, l1.pos))),
                line: l.line,
                col: l.col,
            },
            l1,
        )
    }
}

/// The keyword or identifier token read at the cursor and the cursor past
/// it; see [`Lexer::get_reserved_keyword_or_identifier`].
pub open spec fn spec_ident_token(l: LexSt) -> (TokA, LexSt) {
    let l1 = spec_scan_ident(l);
    let span = l.text.subrange(l.pos, l1.pos);
    let t = match keyword_kind(upper_seq(span)) {
        Some(k) => TokA {
            token_type: k,
            value: Val::Text(upper_seq(span)),
            line: l.line,
            col: l.col,
        },
        None => TokA {
            token_type: TokenType::Identifier,
            value: Val::Text(span),
            line: l.line,
            col: l.col,
        },
    };
    (t, l1)
}

/// The single-character symbol token at the cursor and the cursor past it.
pub open spec fn spec_symbol_token(l: LexSt) -> (TokA, LexSt) {
    (
        TokA {
            token_type: symbol_kind(l.text[l.pos])->0,
            value: Val::Text(Seq::empty()),
            line: l.line,
            col: l.col,
        },
        spec_advance(l),
    )
}

/// What producing the next token yields: blank space and comments are
/// stepped over, then the first significant character decides — a symbol,
/// a letter (keyword or identifier), a digit (number), any other
/// character the lexing error carrying that character; exhausted input
/// yields the end-of-input token and moves nothing, so it repeats.
pub open spec fn spec_next_token(l: LexSt) -> (Result<TokA, ErrA>, LexSt)
    decreases l.text.len() - l.pos
    via spec_next_token_dec
{
    if !(0 <= l.pos && l.pos < l.text.len()) {
        (
            Ok(
                TokA {
                    token_type: TokenType::EOF,
                    value: Val::Text(Seq::empty()),
                    line: l.line,
                    col: l.col,
                },
            ),
            l,
        )
    } else {
        let c = l.text[l.pos];
        if is_space_char(c) {
            spec_next_token(spec_skip_ws(l))
        } else if c == '{' {
            spec_next_token(spec_skip_comment(l))
        } else if symbol_kind(c) is Some {
            let r = spec_symbol_token(l);
            (Ok(r.0), r.1)
        } else if is_alpha_char(c) {
            let r = spec_ident_token(l);
            (Ok(r.0), r.1)
        } else if is_digit_char(c) {
            let r = spec_number(l);
            (Ok(r.0), r.1)
        } else {
            (Err(ErrA::UnexpectedChar(c)), l)
        }
    }
}

#[via_fn]
proof fn spec_next_token_dec(l: LexSt) {
    if 0 <= l.pos && l.pos < l.text.len() {
        lemma_skip_ws_bounds(l);
        lemma_skip_comment_bounds(l);
    }
}

proof fn lemma_skip_ws_bounds(l: LexSt)
    ensures
        spec_skip_ws(l).text == l.text,
        spec_skip_ws(l).pos >= l.pos,
        l.pos <= l.text.len() ==> spec_skip_ws(l).pos <= l.text.len(),
        0 <= l.pos && l.pos < l.text.len() && is_space_char(l.text[l.pos])
            ==> spec_skip_ws(l).pos > l.pos,
    decreases l.text.len() - l.pos,
{
    if 0 <= l.pos && l.pos < l.text.len() && is_space_char(l.text[l.pos]) {
        lemma_skip_ws_bounds(spec_advance(l));
    }
}

proof fn lemma_skip_comment_bounds(l: LexSt)
    ensures
        spec_skip_comment(l).text == l.text,
        spec_skip_comment(l).pos >= l.pos,
        l.pos <= l.text.len() ==> spec_skip_comment(l).pos <= l.text.len(),
        0 <= l.pos && l.pos < l.text.len() ==> spec_skip_comment(l).pos > l.pos,
    decreases l.text.len() - l.pos,
{
    if 0 <= l.pos && l.pos < l.text.len() && l.text[l.pos] != '}' {
        lemma_skip_comment_bounds(spec_advance(l));
    }
}

proof fn lemma_scan_digits_bounds(l: LexSt)
    ensures
        spec_scan_digits(l).text == l.text,
        spec_scan_digits(l).pos >= l.pos,
        l.pos <= l.text.len() ==> spec_scan_digits(l).pos <= l.text.len(),
        0 <= l.pos && l.pos < l.text.len() && is_digit_char(l.text[l.pos])
            ==> spec_scan_digits(l).pos > l.pos,
    decreases l.text.len() - l.pos,
{
    if 0 <= l.pos && l.pos < l.text.len() && is_digit_char(l.text[l.pos]) {
        lemma_scan_digits_bounds(spec_advance(l));
    }
}

proof fn lemma_scan_ident_bounds(l: LexSt)
    ensures
        spec_scan_ident(l).text == l.text,
        spec_scan_ident(l).pos >= l.pos,
        l.pos <= l.text.len() ==> spec_scan_ident(l).pos <= l.text.len(),
        0 <= l.pos && l.pos < l.text.len() && is_ident_char(l.text[l.pos])
            ==> spec_scan_ident(l).pos > l.pos,
    decreases l.text.len() - l.pos,
{
    if 0 <= l.pos && l.pos < l.text.len() && is_ident_char(l.text[l.pos]) {
        lemma_scan_ident_bounds(spec_advance(l));
    }
}

/// Producing a token keeps the text and never moves the cursor
/// backwards; it moves strictly forward for every token but end-of-input.
pub proof fn lemma_next_token_pos_monotone(l: LexSt)
    ensures
        ({
            let (r, l2) = spec_next_token(l);
            &&& l2.text == l.text
            &&& l.pos <= l2.pos
            &&& (r matches Ok(t) && t.token_type != TokenType::EOF ==> l2.pos > l.pos)
        }),
    decreases l.text.len() - l.pos,
{
    if 0 <= l.pos && l.pos < l.text.len() {
        let c = l.text[l.pos];
        if is_space_char(c) {
            lemma_skip_ws_bounds(l);
            lemma_next_token_pos_monotone(spec_skip_ws(l));
        } else if c == '{' {
            lemma_skip_comment_bounds(l);
            lemma_next_token_pos_monotone(spec_skip_comment(l));
        } else if symbol_kind(c) is Some {
        } else if is_alpha_char(c) {
            lemma_scan_ident_bounds(l);
        } else if is_digit_char(c) {
            lemma_scan_digits_bounds(l);
            lemma_scan_digits_bounds(spec_advance(spec_scan_digits(l)));
        }
    }
}

/// Producing a token keeps the text, never moves the cursor backwards or
/// past the end, moves it strictly forward for every token but
/// end-of-input, and yields end-of-input exactly at exhausted input.
pub proof fn lemma_next_token_progress(l: LexSt)
    requires
        0 <= l.pos,
        l.pos <= l.text.len(),
    ensures
        ({
            let (r, l2) = spec_next_token(l);
            &&& l2.text == l.text
            &&& l.pos <= l2.pos
            &&& l2.pos <= l.text.len()
            &&& (r matches Ok(t) && t.token_type != TokenType::EOF ==> l2.pos > l.pos)
            &&& (r matches Ok(t) && t.token_type == TokenType::EOF ==> l2.pos == l.text.len())
        }),
    decreases l.text.len() - l.pos,
{
    if 0 <= l.pos && l.pos < l.text.len() {
        let c = l.text[l.pos];
        if is_space_char(c) {
            lemma_skip_ws_bounds(l);
            lemma_next_token_progress(spec_skip_ws(l));
        } else if c == '{' {
            lemma_skip_comment_bounds(l);
            lemma_next_token_progress(spec_skip_comment(l));
        } else if symbol_kind(c) is Some {
        } else if is_alpha_char(c) {
            lemma_scan_ident_bounds(l);
        } else if is_digit_char(c) {
            lemma_scan_digits_bounds(l);
            lemma_scan_digits_bounds(spec_advance(spec_scan_digits(l)));
        }
    }
}

/// The character stream and the cursor over it.  `pos` is the index of the
/// current character; `line` and `col` track the cursor for diagnostics.
pub struct Lexer {
    pub text: Vec<char>,
    pub pos: usize,
    pub line: u32,
    pub col: u32,
}

impl Lexer {
    /// The cursor sits inside the text or just past its end.
    pub open spec fn wf(self) -> bool {
        self.pos <= self.text@.len()
    }

    /// The abstraction of this lexer; see [`LexSt`].
    pub open spec fn abs(self) -> LexSt {
        LexSt { text: self.text@, pos: self.pos as int, line: self.line, col: self.col }
    }

    /// A lexer at the start of the given source text.
    pub fn from(text: &str) -> (r: Lexer)
        requires
            text@.len() > 0,
        ensures
            r.text@ == text@,
            r.pos == 0,
            r.line == 1,
            r.col == 1,
            r.wf(),
    {
        Lexer { text: str_chars(text), pos: 0, line: 1, col: 1 }
    }

    /// The character under the cursor, or `None` once the input is
    /// exhausted.
    pub fn get_current_char(&self) -> (r: Option<char>)
        ensures
            r == if self.pos < self.text@.len() {
                Some(self.text@[self.pos as int])
            } else {
                None::<char>
            },
    {
        if self.pos < self.text.len() {
            Some(self.text[self.pos])
        } else {
            None
        }
    }

    /// Steps over the current character, keeping the line and column
    /// counters for diagnostics.
    fn advance(&mut self)
        requires
            old(self).wf(),
            old(self).pos < old(self).text@.len(),
        ensures
            final(self).text == old(self).text,
            final(self).pos == old(self).pos + 1,
            final(self).wf(),
            final(self).abs() == spec_advance(old(self).abs()),
    {
        if self.text[self.pos] == '\n' {
            self.line = self.line.saturating_add(1);
            self.col = 0;
        }
        let n = self.text.len();
        self.pos = self.pos + 1;
        if self.pos < n {
            self.col = self.col.saturating_add(1);
        }
    }

    /// Steps past a run of blank space.
    fn skip_whitespace(&mut self)
        requires
            old(self).wf(),
        ensures
            final(self).text == old(self).text,
            old(self).pos <= final(self).pos,
            final(self).wf(),
            forall|i: int|
                old(self).pos <= i < final(self).pos ==> is_space_char(
                    #[trigger] old(self).text@[i],
                ),
            final(self).pos < final(self).text@.len() ==> !is_space_char(
                final(self).text@[final(self).pos as int],
            ),
            final(self).abs() == spec_skip_ws(old(self).abs()),
    {
        let ghost orig = *self;
        while self.pos < self.text.len() && exec_is_space(self.text[self.pos])
            invariant
                orig == *old(self),
                self.wf(),
                self.text == orig.text,
                orig.pos <= self.pos,
                forall|i: int| orig.pos <= i < self.pos ==> is_space_char(#[trigger] orig.text@[i]),
                spec_skip_ws(orig.abs()) == spec_skip_ws(self.abs()),
            decreases self.text@.len() - self.pos,
        {
            self.advance();
        }
    }

    /// Steps past a `{ ... }` comment: everything up to and including the
    /// first `}`, or the whole rest of the input when no `}` follows.
    fn skip_comment(&mut self)
        requires
            old(self).wf(),
            old(self).pos < old(self).text@.len(),
            old(self).text@[old(self).pos as int] == '{',
        ensures
            final(self).text == old(self).text,
            old(self).pos < final(self).pos,
            final(self).wf(),
            final(self).abs() == spec_skip_comment(old(self).abs()),
    {
        let ghost orig = *self;
        while self.pos < self.text.len() && self.text[self.pos] != '}'
            invariant
                orig == *old(self),
                self.wf(),
                self.text == orig.text,
                orig.pos <= self.pos,
                spec_skip_comment(orig.abs()) == spec_skip_comment(self.abs()),
            decreases self.text@.len() - self.pos,
        {
            self.advance();
        }
        if self.pos < self.text.len() {
            self.advance();
        }
        proof {
            assert(final(self).pos > orig.pos || orig.text@[orig.pos as int] == '}');
        }
    }

    /// A copy of the characters between two cursor positions.
    fn copy_range(&self, start: usize, end: usize) -> (r: Vec<char>)
        requires
            start <= end,
            end <= self.text@.len(),
        ensures
            r@ == self.text@.subrange(start as int, end as int),
    {
        let mut v: Vec<char> = Vec::new();
        let mut i: usize = start;
        while i < end
            invariant
                start <= i <= end,
                end <= self.text@.len(),
                v@ =~= self.text@.subrange(start as int, i as int),
            decreases end - i,
        {
            v.push(self.text[i]);
            proof {
                assert(v@ =~= self.text@.subrange(start as int, i as int + 1));
            }
            i = i + 1;
        }
        proof {
            assert(v@ =~= self.text@.subrange(start as int, end as int));
        }
        v
    }

    /// Consumes a number: an integer constant carrying its 64-bit value, or
    /// — when a dot follows the first digit run — a real constant carrying
    /// its decimal spelling.
    fn get_number(&mut self) -> (t: Token)
        requires
            old(self).wf(),
            old(self).pos < old(self).text@.len(),
            is_digit_char(old(self).text@[old(self).pos as int]),
        ensures
            final(self).text == old(self).text,
            final(self).wf(),
            old(self).pos < final(self).pos,
            token_wf(t),
            ({
                let span = old(self).text@.subrange(
                    old(self).pos as int,
                    final(self).pos as int,
                );
                if t.token_type == TokenType::IntegerConst {
                    &&& t.literal == Literal::Int(decimal_token_val(span))
                    &&& (forall|i: int| 0 <= i < span.len() ==> is_digit_char(#[trigger] span[i]))
                    &&& (decimal_value(span) <= i64::MAX ==> t.literal == Literal::Int(
                        decimal_value(span) as i64,
                    ))
                } else {
                    &&& t.token_type == TokenType::FloatConst
                    &&& (t.literal matches Literal::Text(s) && s@ == span)
                    &&& float_lexeme(span)
                }
            }),
            ({
                let (ta, l2) = spec_number(old(self).abs());
                final(self).abs() == l2 && t.abs() == ta
            }),
    {
        let ghost orig = *self;
        let start = self.pos;
        let line = self.line;
        let col = self.col;
        let mut acc: u64 = 0;
        while self.pos < self.text.len() && exec_is_digit(self.text[self.pos])
            invariant
                orig == *old(self),
                self.wf(),
                self.text == orig.text,
                start <= self.pos,
                start == orig.pos,
                spec_scan_digits(orig.abs()) == spec_scan_digits(self.abs()),
                forall|i: int|
                    start <= i < self.pos ==> is_digit_char(#[trigger] self.text@[i]),
                acc == decimal_value(self.text@.subrange(start as int, self.pos as int)) % 0x1_0000_0000_0000_0000,
            decreases self.text@.len() - self.pos,
        {
            let d = exec_digit_val(self.text[self.pos]);
            let ghost prev = self.text@.subrange(start as int, self.pos as int);
            let ghost x = decimal_value(prev);
            acc = acc.wrapping_mul(10).wrapping_add(d as u64);
            self.advance();
            proof {
                let m: int = 0x1_0000_0000_0000_0000;
                let cur = self.text@.subrange(start as int, self.pos as int);
                assert(cur.drop_last() =~= prev);
                assert(cur.last() == self.text@[self.pos - 1]);
                assert(decimal_value(cur) == x * 10 + digit_val(cur.last()));
                lemma_mul_mod_noop_left(x, 10, m);
                lemma_add_mod_noop(x * 10, digit_val(cur.last()), m);
                lemma_small_mod(digit_val(cur.last()) as nat, m as nat);
            }
        }
        let ghost l1 = self.abs();
        proof {
            assert(spec_scan_digits(orig.abs()) == l1);
        }
        if self.pos < self.text.len() && self.text[self.pos] == '.' {
            let ghost intlen = self.pos - start;
            self.advance();
            let ghost mid = spec_advance(l1);
            while self.pos < self.text.len() && exec_is_digit(self.text[self.pos])
                invariant
                    orig == *old(self),
                    self.wf(),
                    self.text == orig.text,
                    start <= self.pos,
                    start == orig.pos,
                    start + intlen < self.pos,
                    spec_scan_digits(mid) == spec_scan_digits(self.abs()),
                    1 <= intlen,
                    self.text@[start + intlen] == '.',
                    forall|i: int|
                        start <= i < start + intlen ==> is_digit_char(#[trigger] self.text@[i]),
                    forall|i: int|
                        start + intlen < i < self.pos ==> is_digit_char(#[trigger] self.text@[i]),
                decreases self.text@.len() - self.pos,
            {
                self.advance();
            }
            let lexeme = self.copy_range(start, self.pos);
            let s = string_from_chars(&lexeme);
            proof {
                let span = orig.text@.subrange(start as int, self.pos as int);
                assert(span[intlen] == '.');
                assert(1 <= intlen < span.len());
                assert(forall|i: int| 0 <= i < intlen ==> is_digit_char(#[trigger] span[i]));
                assert(forall|i: int|
                    intlen < i < span.len() ==> is_digit_char(#[trigger] span[i]));
                assert(float_lexeme(span));
                assert(spec_scan_digits(mid) == self.abs());
                assert(spec_number(orig.abs()).1 == self.abs());
            }
            return Token::new(TokenType::FloatConst, Literal::from_str(s), line, col);
        }
        proof {
            let span = orig.text@.subrange(start as int, self.pos as int);
            assert(forall|j: int| 0 <= j < span.len() ==> is_digit_char(#[trigger] span[j]));
            lemma_decimal_value_nonneg(span);
            if decimal_value(span) <= i64::MAX {
                lemma_small_mod(decimal_value(span) as nat, 0x1_0000_0000_0000_0000 as nat);
            }
        }
        Token::new(TokenType::IntegerConst, Literal::from_int(#[verifier::truncate] (acc as i64)), line, col)
    }

    /// Consumes a maximal run of identifier characters.
    fn get_identifier(&mut self) -> (r: Vec<char>)
        requires
            old(self).wf(),
            old(self).pos < old(self).text@.len(),
            is_ident_char(old(self).text@[old(self).pos as int]),
        ensures
            final(self).text == old(self).text,
            final(self).wf(),
            old(self).pos < final(self).pos,
            r@ == old(self).text@.subrange(old(self).pos as int, final(self).pos as int),
            forall|i: int|
                old(self).pos <= i < final(self).pos ==> is_ident_char(
                    #[trigger] old(self).text@[i],
                ),
            final(self).pos < final(self).text@.len() ==> !is_ident_char(
                final(self).text@[final(self).pos as int],
            ),
            final(self).abs() == spec_scan_ident(old(self).abs()),
    {
        let ghost orig = *self;
        let start = self.pos;
        while self.pos < self.text.len() && exec_is_ident(self.text[self.pos])
            invariant
                orig == *old(self),
                self.wf(),
                self.text == orig.text,
                start == orig.pos,
                start <= self.pos,
                spec_scan_ident(orig.abs()) == spec_scan_ident(self.abs()),
                forall|i: int| start <= i < self.pos ==> is_ident_char(#[trigger] self.text@[i]),
            decreases self.text@.len() - self.pos,
        {
            self.advance();
        }
        self.copy_range(start, self.pos)
    }

    /// Decides whether an upper-case folded identifier is a reserved word.
    fn keyword_lookup(up: &Vec<char>) -> (r: Option<TokenType>)
        ensures
            r == keyword_kind(up@),
    {
        if up.len() == 5 && up[0] == 'B' && up[1] == 'E' && up[2] == 'G' && up[3] == 'I' && up[4]
            == 'N' {
            proof {
                assert(up@ =~= seq!['B', 'E', 'G', 'I', 'N']);
            }
            Some(TokenType::Begin)
        } else if up.len() == 3 && up[0] == 'E' && up[1] == 'N' && up[2] == 'D' {
            proof {
                assert(up@ =~= seq!['E', 'N', 'D']);
            }
            Some(TokenType::End)
        } else if up.len() == 7 && up[0] == 'P' && up[1] == 'R' && up[2] == 'O' && up[3] == 'G'
            && up[4] == 'R' && up[5] == 'A' && up[6] == 'M' {
            proof {
                assert(up@ =~= seq!['P', 'R', 'O', 'G', 'R', 'A', 'M']);
            }
            Some(TokenType::Program)
        } else if up.len() == 3 && up[0] == 'V' && up[1] == 'A' && up[2] == 'R' {
            proof {
                assert(up@ =~= seq!['V', 'A', 'R']);
            }
            Some(TokenType::Var)
        } else if up.len() == 3 && up[0] == 'D' && up[1] == 'I' && up[2] == 'V' {
            proof {
                assert(up@ =~= seq!['D', 'I', 'V']);
            }
            Some(TokenType::IntegerDivision)
        } else if up.len() == 7 && up[0] == 'I' && up[1] == 'N' && up[2] == 'T' && up[3] == 'E'
            && up[4] == 'G' && up[5] == 'E' && up[6] == 'R' {
            proof {
                assert(up@ =~= seq!['I', 'N', 'T', 'E', 'G', 'E', 'R']);
            }
            Some(TokenType::IntegerType)
        } else if up.len() == 4 && up[0] == 'R' && up[1] == 'E' && up[2] == 'A' && up[3] == 'L' {
            proof {
                assert(up@ =~= seq!['R', 'E', 'A', 'L']);
            }
            Some(TokenType::FloatType)
        } else if up.len() == 9 && up[0] == 'P' && up[1] == 'R' && up[2] == 'O' && up[3] == 'C'
            && up[4] == 'E' && up[5] == 'D' && up[6] == 'U' && up[7] == 'R' && up[8] == 'E' {
            proof {
                assert(up@ =~= seq!['P', 'R', 'O', 'C', 'E', 'D', 'U', 'R', 'E']);
            }
            Some(TokenType::Procedure)
        } else {
            None
        }
    }

    /// Consumes an identifier and classifies it: a reserved word becomes
    /// its keyword token carrying the canonical upper-case spelling, any
    /// other identifier keeps its original case.
    fn get_reserved_keyword_or_identifier(&mut self) -> (t: Token)
        requires
            old(self).wf(),
            old(self).pos < old(self).text@.len(),
            is_alpha_char(old(self).text@[old(self).pos as int]),
        ensures
            final(self).text == old(self).text,
            final(self).wf(),
            old(self).pos < final(self).pos,
            token_wf(t),
            ({
                let span = old(self).text@.subrange(
                    old(self).pos as int,
                    final(self).pos as int,
                );
                match keyword_kind(upper_seq(span)) {
                    Some(k) => t.token_type == k && (t.literal matches Literal::Text(s) && s@
                        == upper_seq(span)),
                    None => t.token_type == TokenType::Identifier && (
                    t.literal matches Literal::Text(s) && s@ == span),
                }
            }),
            ({
                let (ta, l2) = spec_ident_token(old(self).abs());
                final(self).abs() == l2 && t.abs() == ta
            }),
    {
        let line = self.line;
        let col = self.col;
        let id = self.get_identifier();
        let mut up: Vec<char> = Vec::new();
        let mut i: usize = 0;
        while i < id.len()
            invariant
                i <= id.len(),
                up@ =~= upper_seq(id@).take(i as int),
            decreases id.len() - i,
        {
            up.push(exec_upper_char(id[i]));
            i = i + 1;
        }
        proof {
            assert(up@ =~= upper_seq(id@));
        }
        match Lexer::keyword_lookup(&up) {
            Some(k) => Token::new(k, Literal::from_str(string_from_chars(&up)), line, col),
            None => Token::new(
                TokenType::Identifier,
                Literal::from_str(string_from_chars(&id)),
                line,
                col,
            ),
        }
    }

    /// Consumes one single-character symbol token.
    fn get_reserved_symbol_token(&mut self) -> (t: Token)
        requires
            old(self).wf(),
            old(self).pos < old(self).text@.len(),
            symbol_kind(old(self).text@[old(self).pos as int]) is Some,
        ensures
            final(self).text == old(self).text,
            final(self).pos == old(self).pos + 1,
            final(self).wf(),
            token_wf(t),
            Some(t.token_type) == symbol_kind(old(self).text@[old(self).pos as int]),
            t.literal matches Literal::Text(s) && s@ == Seq::<char>::empty(),
            ({
                let (ta, l2) = spec_symbol_token(old(self).abs());
                final(self).abs() == l2 && t.abs() == ta
            }),
    {
        let line = self.line;
        let col = self.col;
        let c = self.text[self.pos];
        let k = match c {
            '+' => TokenType::Plus,
            '-' => TokenType::Minus,
            '*' => TokenType::Multiply,
            '/' => TokenType::Division,
            '%' => TokenType::Modulus,
            '=' => TokenType::Assignment,
            '(' => TokenType::Lparen,
            ')' => TokenType::Rparen,
            ';' => TokenType::Semi,
            '.' => TokenType::Dot,
            ':' => TokenType::Colon,
            _ => TokenType::Comma,
        };
        self.advance();
        Token::new(k, Literal::from_str(String::new()), line, col)
    }

    /// Produces the next token: skips blank space and comments, then
    /// classifies the first significant character; a character that can
    /// start no token is the lexing error.  Once the input is exhausted it
    /// yields the end-of-input token, repeatably.
    pub fn get_next_token(&mut self) -> (r: Result<Token, RuntimeError>)
        requires
            old(self).wf(),
        ensures
            final(self).text == old(self).text,
            final(self).wf(),
            old(self).pos <= final(self).pos,
            match r {
                Ok(t) => token_wf(t) && (t.token_type == TokenType::EOF ==> final(self).pos
                    == final(self).text@.len()) && (t.token_type != TokenType::EOF ==> old(
                    self,
                ).pos < final(self).pos),
                Err(e) => e is UnexpectedChar,
            },
            ({
                let (res, l2) = spec_next_token(old(self).abs());
                final(self).abs() == l2 && match (r, res) {
                    (Ok(t), Ok(ta)) => t.abs() == ta,
                    (Err(e), Err(ea)) => e.abs() == ea,
                    _ => false,
                }
            }),
    {
        let ghost orig = *self;
        while self.pos < self.text.len()
            invariant
                orig == *old(self),
                self.wf(),
                self.text == orig.text,
                orig.pos <= self.pos,
                spec_next_token(orig.abs()) == spec_next_token(self.abs()),
            decreases self.text@.len() - self.pos,
        {
            let c = self.text[self.pos];
            if exec_is_space(c) {
                self.skip_whitespace();
            } else if c == '{' {
                self.skip_comment();
            } else if exec_is_symbol(c) {
                return Ok(self.get_reserved_symbol_token());
            } else if crate::text::exec_is_alpha(c) {
                return Ok(self.get_reserved_keyword_or_identifier());
            } else if exec_is_digit(c) {
                return Ok(self.get_number());
            } else {
                return Err(RuntimeError::UnexpectedChar(c));
            }
        }
        Ok(Token::new(TokenType::EOF, Literal::from_str(String::new()), self.line, self.col))
    }
}

/// Whether a character is one of the single-character symbols.
fn exec_is_symbol(c: char) -> (r: bool)
    ensures
        r == (symbol_kind(c) is Some),
{
    c == '+' || c == '-' || c == '*' || c == '/' || c == '%' || c == '=' || c == '(' || c == ')'
        || c == ';' || c == '.' || c == ':' || c == ','
}

} // verus!
