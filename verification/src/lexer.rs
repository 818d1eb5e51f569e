//! The scanner: a cursor over immutable input text that produces one
//! classified token per call.
//!
//! The behaviour of the scanner is pinned down by a mathematical model:
//! [`spec_next_token`] says, for any input text and cursor position, which
//! category and literal the next token has and where the cursor stands
//! afterwards. [`Lexer::next_token`] is proved to return exactly that token.

use crate::token::{lookup_identifier, spec_lookup, Token, TokenType};
use vstd::prelude::*;
use vstd::string::StrSliceExecFns;

verus! {

/// A character that may appear in an identifier: an ASCII letter or `_`.
pub open spec fn is_letter_char(c: char) -> bool {
    ('a' <= c && c <= 'z') || ('A' <= c && c <= 'Z') || c == '_'
}

/// An ASCII decimal digit.
pub open spec fn is_digit_char(c: char) -> bool {
    '0' <= c && c <= '9'
}

/// The whitespace characters skipped between tokens.
pub open spec fn is_whitespace_char(c: char) -> bool {
    c == ' ' || c == '\t' || c == '\n' || c == '\r'
}

/// The category of a single-character token: one of the fixed symbols, or
/// `ILLEGAL` for a character that matches no lexical class. `=` and `!`
/// are not listed here because they need one character of lookahead.
pub open spec fn single_char_category(c: char) -> TokenType {
    if c == ';' {
        TokenType::SEMICOLON
    } else if c == '(' {
        TokenType::LPAREN
    } else if c == ')' {
        TokenType::RPAREN
    } else if c == '{' {
        TokenType::LBRACE
    } else if c == '}' {
        TokenType::RBRACE
    } else if c == ',' {
        TokenType::COMMA
    } else if c == '+' {
        TokenType::PLUS
    } else if c == '-' {
        TokenType::MINUS
    } else if c == '*' {
        TokenType::ASTERISK
    } else if c == '/' {
        TokenType::SLASH
    } else if c == '<' {
        TokenType::LT
    } else if c == '>' {
        TokenType::GT
    } else {
        TokenType::ILLEGAL
    }
}

/// The first position at or after `pos` that does not hold whitespace
/// (the input's length if whitespace runs to the end).
pub open spec fn skip_ws_from(input: Seq<char>, pos: int) -> int
    decreases input.len() - pos,
    when 0 <= pos <= input.len()
{
    if pos < input.len() && is_whitespace_char(input[pos]) {
        skip_ws_from(input, pos + 1)
    } else {
        pos
    }
}

/// The end of the letter-class run that starts at `pos`: the first
/// position at or after `pos` that does not hold a letter-class character.
pub open spec fn letter_run_end(input: Seq<char>, pos: int) -> int
    decreases input.len() - pos,
    when 0 <= pos <= input.len()
{
    if pos < input.len() && is_letter_char(input[pos]) {
        letter_run_end(input, pos + 1)
    } else {
        pos
    }
}

/// The end of the digit run that starts at `pos`.
pub open spec fn digit_run_end(input: Seq<char>, pos: int) -> int
    decreases input.len() - pos,
    when 0 <= pos <= input.len()
{
    if pos < input.len() && is_digit_char(input[pos]) {
        digit_run_end(input, pos + 1)
    } else {
        pos
    }
}

/// One step of the scan: the token's category, its literal, and the cursor
/// position after it.
pub ghost struct ScanStep {
    pub category: TokenType,
    pub literal: Seq<char>,
    pub end: int,
}

/// Classifies the token that starts exactly at `start` (whitespace already
/// skipped): end of input, a letter-class run resolved against the keyword
/// table, a digit run, a one- or two-character operator chosen by one
/// character of lookahead, a fixed symbol, or an illegal character.
pub open spec fn scan_at(input: Seq<char>, start: int) -> ScanStep {
    if !(0 <= start < input.len()) {
        ScanStep { category: TokenType::EOF, literal: Seq::empty(), end: start }
    } else {
        let c = input[start];
        if is_letter_char(c) {
            let end = letter_run_end(input, start);
            ScanStep {
                category: spec_lookup(input.subrange(start, end)),
                literal: input.subrange(start, end),
                end,
            }
        } else if is_digit_char(c) {
            let end = digit_run_end(input, start);
            ScanStep {
                category: TokenType::INT,
                literal: input.subrange(start, end),
                end,
            }
        } else if c == '=' {
            if start + 1 < input.len() && input[start + 1] == '=' {
                ScanStep {
                    category: TokenType::EQ,
                    literal: input.subrange(start, start + 2),
                    end: start + 2,
                }
            } else {
                ScanStep { category: TokenType::ASSIGN, literal: seq![c], end: start + 1 }
            }
        } else if c == '!' {
            if start + 1 < input.len() && input[start + 1] == '=' {
                ScanStep {
                    category: TokenType::NOT_EQ,
                    literal: input.subrange(start, start + 2),
                    end: start + 2,
                }
            } else {
                ScanStep { category: TokenType::BANG, literal: seq![c], end: start + 1 }
            }
        } else {
            ScanStep { category: single_char_category(c), literal: seq![c], end: start + 1 }
        }
    }
}

/// The full model of one `next_token` call from cursor position `pos`:
/// skip whitespace, then classify the token that starts there.
pub open spec fn spec_next_token(input: Seq<char>, pos: int) -> ScanStep {
    scan_at(input, skip_ws_from(input, pos))
}

/// A cursor over input text. Constructed once per input, advanced to
/// exhaustion by repeated `next_token` calls, then discarded.
pub struct Lexer {
    input: String,
    position: usize,
}

impl Lexer {
    /// The scanner's input text.
    pub closed spec fn src(self) -> Seq<char> {
        self.input@
    }

    /// The scanner's cursor: the index of the next character to classify.
    pub closed spec fn pos(self) -> int {
        self.position as int
    }

    /// The scanner's invariant: the cursor never leaves the input,
    /// `src().len()` included, which marks exhaustion.
    pub open spec fn wf(self) -> bool {
        0 <= self.pos() <= self.src().len()
    }

    /// Returns a scanner positioned at the first character of `input`
    /// (or at the end-of-input boundary for empty input).
    pub fn new(input: String) -> (l: Lexer)
        ensures
            l.wf(),
            l.src() == input@,
            l.pos() == 0,
    {
        Lexer { input, position: 0 }
    }

    /// Returns the next token and advances the cursor past it, exactly as
    /// [`spec_next_token`] says: whitespace is skipped, the token's
    /// category and literal are those of the classified character run, and
    /// the cursor ends right after the consumed characters. Once the end
    /// of the input is reached the cursor advances no further.
    pub fn next_token(&mut self) -> (t: Token)
        requires
            old(self).wf(),
        ensures
            final(self).wf(),
            final(self).src() == old(self).src(),
            old(self).pos() <= final(self).pos(),
            t.token_type == spec_next_token(old(self).src(), old(self).pos()).category,
            t.literal@ == spec_next_token(old(self).src(), old(self).pos()).literal,
            final(self).pos() == spec_next_token(old(self).src(), old(self).pos()).end,
    {
        self.skip_whitespace();
        proof {
            lemma_skip_ws_from_bounds(self.src(), old(self).pos());
        }
        let len = self.input.as_str().unicode_len();
        if self.position >= len {
            return self.make_eof_token();
        }
        let c = self.input.as_str().get_char(self.position);
        if Self::is_letter(c) {
            proof {
                lemma_letter_run_end_bounds(self.src(), self.pos());
            }
            return self.make_letter_token();
        }
        if Self::is_number(c) {
            proof {
                lemma_digit_run_end_bounds(self.src(), self.pos());
            }
            return self.make_number_token();
        }
        if c == '=' {
            if self.peek_char() == '=' {
                return self.make_two_char_token(TokenType::EQ);
            }
            return self.make_one_char_token(TokenType::ASSIGN);
        }
        if c == '!' {
            if self.peek_char() == '=' {
                return self.make_two_char_token(TokenType::NOT_EQ);
            }
            return self.make_one_char_token(TokenType::BANG);
        }
        let category = Self::classify_single(c);
        self.make_one_char_token(category)
    }

    /// A single-character token holding the character under the cursor.
    fn make_one_char_token(&mut self, token_type: TokenType) -> (t: Token)
        requires
            old(self).wf(),
            old(self).pos() < old(self).src().len(),
        ensures
            final(self).wf(),
            final(self).src() == old(self).src(),
            final(self).pos() == old(self).pos() + 1,
            t.token_type == token_type,
            t.literal@ == seq![old(self).src()[old(self).pos()]],
    {
        // The character count fits in usize, so the cursor can step once more.
        let _len: usize = self.input.as_str().unicode_len();
        let lit = self.input.as_str().substring_char(self.position, self.position + 1).to_owned();
        proof {
            assert(lit@ =~= seq![old(self).src()[old(self).pos()]]);
        }
        self.position = self.position + 1;
        Token { token_type, literal: lit }
    }

    /// A two-character token: the character under the cursor and the one
    /// behind it, consumed together.
    fn make_two_char_token(&mut self, token_type: TokenType) -> (t: Token)
        requires
            old(self).wf(),
            old(self).pos() + 1 < old(self).src().len(),
        ensures
            final(self).wf(),
            final(self).src() == old(self).src(),
            final(self).pos() == old(self).pos() + 2,
            t.token_type == token_type,
            t.literal@ == old(self).src().subrange(old(self).pos(), old(self).pos() + 2),
    {
        // The character count fits in usize, so the cursor can step twice more.
        let _len: usize = self.input.as_str().unicode_len();
        let lit = self.input.as_str().substring_char(self.position, self.position + 2).to_owned();
        self.position = self.position + 2;
        Token { token_type, literal: lit }
    }

    /// The end-of-input token: empty literal, cursor untouched.
    fn make_eof_token(&self) -> (t: Token)
        ensures
            t.token_type == TokenType::EOF,
            t.literal@ == Seq::<char>::empty(),
    {
        Token { token_type: TokenType::EOF, literal: String::new() }
    }

    /// Scans a letter-class run and resolves it against the keyword table.
    fn make_letter_token(&mut self) -> (t: Token)
        requires
            old(self).wf(),
            old(self).pos() < old(self).src().len(),
            is_letter_char(old(self).src()[old(self).pos()]),
        ensures
            final(self).wf(),
            final(self).src() == old(self).src(),
            final(self).pos() == letter_run_end(old(self).src(), old(self).pos()),
            t.literal@ == old(self).src().subrange(old(self).pos(), final(self).pos()),
            t.token_type == spec_lookup(t.literal@),
    {
        let identifier = self.read_identifier();
        let token_type = lookup_identifier(identifier.as_str());
        Token { token_type, literal: identifier }
    }

    /// Scans a digit run into an integer-literal token.
    fn make_number_token(&mut self) -> (t: Token)
        requires
            old(self).wf(),
            old(self).pos() < old(self).src().len(),
            is_digit_char(old(self).src()[old(self).pos()]),
        ensures
            final(self).wf(),
            final(self).src() == old(self).src(),
            final(self).pos() == digit_run_end(old(self).src(), old(self).pos()),
            t.literal@ == old(self).src().subrange(old(self).pos(), final(self).pos()),
            t.token_type == TokenType::INT,
    {
        let literal = self.read_number();
        Token { token_type: TokenType::INT, literal }
    }

    /// Advances the cursor past consecutive whitespace.
    fn skip_whitespace(&mut self)
        requires
            old(self).wf(),
        ensures
            final(self).wf(),
            final(self).src() == old(self).src(),
            final(self).pos() == skip_ws_from(old(self).src(), old(self).pos()),
    {
        let len = self.input.as_str().unicode_len();
        while self.position < len && Self::is_whitespace(self.input.as_str().get_char(self.position))
            invariant
                self.wf(),
                self.src() == old(self).src(),
                len == self.src().len(),
                skip_ws_from(old(self).src(), old(self).pos()) == skip_ws_from(self.src(), self.pos()),
            decreases self.src().len() - self.pos(),
        {
            self.read_char();
        }
    }

    /// Advances the cursor by one character.
    fn read_char(&mut self)
        requires
            old(self).wf(),
            old(self).pos() < old(self).src().len(),
        ensures
            final(self).wf(),
            final(self).src() == old(self).src(),
            final(self).pos() == old(self).pos() + 1,
    {
        // The character count fits in usize, so the cursor can step once more.
        let _len: usize = self.input.as_str().unicode_len();
        self.position = self.position + 1;
    }

    /// Reads the character one position behind the cursor without moving
    /// it; the NUL sentinel stands for the out-of-range case. Used only to
    /// decide between one- and two-character operator forms.
    fn peek_char(&self) -> (c: char)
        requires
            self.wf(),
            self.pos() < self.src().len(),
        ensures
            c == (if self.pos() + 1 < self.src().len() {
                self.src()[self.pos() + 1]
            } else {
                '\0'
            }),
    {
        let len = self.input.as_str().unicode_len();
        if self.position + 1 < len {
            self.input.as_str().get_char(self.position + 1)
        } else {
            '\0'
        }
    }

    /// Consumes the letter-class run under the cursor and returns it.
    fn read_identifier(&mut self) -> (lit: String)
        requires
            old(self).wf(),
        ensures
            final(self).wf(),
            final(self).src() == old(self).src(),
            final(self).pos() == letter_run_end(old(self).src(), old(self).pos()),
            old(self).pos() <= final(self).pos(),
            lit@ == old(self).src().subrange(old(self).pos(), final(self).pos()),
    {
        let start = self.position;
        let len = self.input.as_str().unicode_len();
        while self.position < len && Self::is_letter(self.input.as_str().get_char(self.position))
            invariant
                self.wf(),
                self.src() == old(self).src(),
                len == self.src().len(),
                start == old(self).pos(),
                start <= self.pos(),
                letter_run_end(old(self).src(), old(self).pos()) == letter_run_end(self.src(), self.pos()),
            decreases self.src().len() - self.pos(),
        {
            self.read_char();
        }
        self.input.as_str().substring_char(start, self.position).to_owned()
    }

    /// Consumes the digit run under the cursor and returns it.
    fn read_number(&mut self) -> (lit: String)
        requires
            old(self).wf(),
        ensures
            final(self).wf(),
            final(self).src() == old(self).src(),
            final(self).pos() == digit_run_end(old(self).src(), old(self).pos()),
            old(self).pos() <= final(self).pos(),
            lit@ == old(self).src().subrange(old(self).pos(), final(self).pos()),
    {
        let start = self.position;
        let len = self.input.as_str().unicode_len();
        while self.position < len && Self::is_number(self.input.as_str().get_char(self.position))
            invariant
                self.wf(),
                self.src() == old(self).src(),
                len == self.src().len(),
                start == old(self).pos(),
                start <= self.pos(),
                digit_run_end(old(self).src(), old(self).pos()) == digit_run_end(self.src(), self.pos()),
            decreases self.src().len() - self.pos(),
        {
            self.read_char();
        }
        self.input.as_str().substring_char(start, self.position).to_owned()
    }

    fn is_letter(c: char) -> (r: bool)
        ensures
            r == is_letter_char(c),
    {
        ('a' <= c && c <= 'z') || ('A' <= c && c <= 'Z') || c == '_'
    }

    fn is_number(c: char) -> (r: bool)
        ensures
            r == is_digit_char(c),
    {
        '0' <= c && c <= '9'
    }

    fn is_whitespace(c: char) -> (r: bool)
        ensures
            r == is_whitespace_char(c),
    {
        c == ' ' || c == '\t' || c == '\n' || c == '\r'
    }

    /// Maps a character to its fixed-symbol category, `ILLEGAL` when it
    /// has none.
    fn classify_single(c: char) -> (t: TokenType)
        ensures
            t == single_char_category(c),
    {
        if c == ';' {
            TokenType::SEMICOLON
        } else if c == '(' {
            TokenType::LPAREN
        } else if c == ')' {
            TokenType::RPAREN
        } else if c == '{' {
            TokenType::LBRACE
        } else if c == '}' {
            TokenType::RBRACE
        } else if c == ',' {
            TokenType::COMMA
        } else if c == '+' {
            TokenType::PLUS
        } else if c == '-' {
            TokenType::MINUS
        } else if c == '*' {
            TokenType::ASTERISK
        } else if c == '/' {
            TokenType::SLASH
        } else if c == '<' {
            TokenType::LT
        } else if c == '>' {
            TokenType::GT
        } else {
            TokenType::ILLEGAL
        }
    }
}

/// After skipping whitespace the cursor has not moved backwards, has not
/// left the input, and does not stand on whitespace unless the input is
/// exhausted.
pub proof fn lemma_skip_ws_from_bounds(input: Seq<char>, pos: int)
    requires
        0 <= pos <= input.len(),
    ensures
        pos <= skip_ws_from(input, pos) <= input.len(),
        skip_ws_from(input, pos) < input.len() ==> !is_whitespace_char(
            input[skip_ws_from(input, pos)],
        ),
    decreases input.len() - pos,
{
    if pos < input.len() && is_whitespace_char(input[pos]) {
        lemma_skip_ws_from_bounds(input, pos + 1);
    }
}

/// A letter-class run is maximal: it holds letter-class characters only,
/// and ends at the input's end or at the first character of another class.
pub proof fn lemma_letter_run_end_bounds(input: Seq<char>, pos: int)
    requires
        0 <= pos <= input.len(),
    ensures
        pos <= letter_run_end(input, pos) <= input.len(),
        forall|k: int|
            pos <= k < letter_run_end(input, pos) ==> is_letter_char(#[trigger] input[k]),
        letter_run_end(input, pos) < input.len() ==> !is_letter_char(
            input[letter_run_end(input, pos)],
        ),
        pos < input.len() && is_letter_char(input[pos]) ==> pos < letter_run_end(input, pos),
    decreases input.len() - pos,
{
    if pos < input.len() && is_letter_char(input[pos]) {
        lemma_letter_run_end_bounds(input, pos + 1);
    }
}

/// A digit run is maximal: it holds digits only, and ends at the input's
/// end or at the first non-digit.
pub proof fn lemma_digit_run_end_bounds(input: Seq<char>, pos: int)
    requires
        0 <= pos <= input.len(),
    ensures
        pos <= digit_run_end(input, pos) <= input.len(),
        forall|k: int| pos <= k < digit_run_end(input, pos) ==> is_digit_char(#[trigger] input[k]),
        digit_run_end(input, pos) < input.len() ==> !is_digit_char(input[digit_run_end(input, pos)]),
        pos < input.len() && is_digit_char(input[pos]) ==> pos < digit_run_end(input, pos),
    decreases input.len() - pos,
{
    if pos < input.len() && is_digit_char(input[pos]) {
        lemma_digit_run_end_bounds(input, pos + 1);
    }
}

/// Once the end of the input is reached, every further scan returns the
/// end-of-input token with an empty literal, and the cursor stays put.
pub proof fn lemma_end_of_input_idempotent(input: Seq<char>, pos: int)
    requires
        0 <= pos <= input.len(),
        spec_next_token(input, pos).category == TokenType::EOF,
    ensures
        spec_next_token(input, pos).literal == Seq::<char>::empty(),
        spec_next_token(input, pos).end == input.len(),
        spec_next_token(input, input.len() as int).category == TokenType::EOF,
        spec_next_token(input, input.len() as int).literal == Seq::<char>::empty(),
        spec_next_token(input, input.len() as int).end == input.len(),
{
    lemma_skip_ws_from_bounds(input, pos);
    let start = skip_ws_from(input, pos);
    if start < input.len() {
        // Every in-range classification yields a category other than EOF.
        assert(scan_at(input, start).category != TokenType::EOF);
    }
    assert(skip_ws_from(input, input.len() as int) == input.len());
}

/// Whitespace never appears in any literal: it is skipped between tokens
/// and no token is ever made of it.
pub proof fn lemma_whitespace_never_tokenized(input: Seq<char>, pos: int)
    requires
        0 <= pos <= input.len(),
    ensures
        forall|i: int|
            0 <= i < spec_next_token(input, pos).literal.len() ==> !is_whitespace_char(
                #[trigger] spec_next_token(input, pos).literal[i],
            ),
{
    lemma_skip_ws_from_bounds(input, pos);
    let start = skip_ws_from(input, pos);
    if start < input.len() {
        let c = input[start];
        if is_letter_char(c) {
            lemma_letter_run_end_bounds(input, start);
        } else if is_digit_char(c) {
            lemma_digit_run_end_bounds(input, start);
        }
    }
}

/// The lookahead-driven longest-match rule for `=` and `!`: followed by
/// `=` they form one two-character token (`==` or `!=`), never two
/// single-character ones; otherwise they stand alone as assignment or
/// bang.
pub proof fn lemma_two_char_operators(input: Seq<char>, pos: int)
    requires
        0 <= pos <= input.len(),
    ensures
        ({
            let start = skip_ws_from(input, pos);
            let step = spec_next_token(input, pos);
            &&& (start < input.len() && input[start] == '=' ==> (if start + 1 < input.len()
                && input[start + 1] == '=' {
                step.category == TokenType::EQ && step.literal == input.subrange(start, start + 2)
                    && step.end == start + 2
            } else {
                step.category == TokenType::ASSIGN && step.literal == seq!['='] && step.end == start
                    + 1
            }))
            &&& (start < input.len() && input[start] == '!' ==> (if start + 1 < input.len()
                && input[start + 1] == '=' {
                step.category == TokenType::NOT_EQ && step.literal == input.subrange(
                    start,
                    start + 2,
                ) && step.end == start + 2
            } else {
                step.category == TokenType::BANG && step.literal == seq!['!'] && step.end == start
                    + 1
            }))
        }),
{
    lemma_skip_ws_from_bounds(input, pos);
}

/// A letter-class run becomes exactly one token whose literal is the full
/// maximal run: the run is never split, never merged with what follows,
/// and its text decides between a keyword category and `IDENT`.
pub proof fn lemma_letter_run_maximal(input: Seq<char>, pos: int)
    requires
        0 <= pos <= input.len(),
    ensures
        ({
            let start = skip_ws_from(input, pos);
            let step = spec_next_token(input, pos);
            start < input.len() && is_letter_char(input[start]) ==> {
                &&& step.category == spec_lookup(step.literal)
                &&& step.literal == input.subrange(start, step.end)
                &&& start < step.end <= input.len()
                &&& forall|k: int| start <= k < step.end ==> is_letter_char(#[trigger] input[k])
                &&& step.end == input.len() || !is_letter_char(input[step.end])
            }
        }),
{
    lemma_skip_ws_from_bounds(input, pos);
    let start = skip_ws_from(input, pos);
    if start < input.len() && is_letter_char(input[start]) {
        lemma_letter_run_end_bounds(input, start);
    }
}

/// A digit run becomes exactly one `INT` token whose literal is the full
/// maximal run: the run is never split across two tokens and never merged
/// with adjacent letters.
pub proof fn lemma_digit_run_maximal(input: Seq<char>, pos: int)
    requires
        0 <= pos <= input.len(),
    ensures
        ({
            let start = skip_ws_from(input, pos);
            let step = spec_next_token(input, pos);
            start < input.len() && is_digit_char(input[start]) ==> {
                &&& step.category == TokenType::INT
                &&& step.literal == input.subrange(start, step.end)
                &&& start < step.end <= input.len()
                &&& forall|k: int| start <= k < step.end ==> is_digit_char(#[trigger] input[k])
                &&& step.end == input.len() || !is_digit_char(input[step.end])
            }
        }),
{
    lemma_skip_ws_from_bounds(input, pos);
    let start = skip_ws_from(input, pos);
    if start < input.len() && is_digit_char(input[start]) {
        lemma_digit_run_end_bounds(input, start);
    }
}

/// A character that matches no lexical class becomes a single `ILLEGAL`
/// token carrying exactly that character, and the scan continues at the
/// very next position: malformed input never halts the scanner.
pub proof fn lemma_illegal_char_recovery(input: Seq<char>, pos: int)
    requires
        0 <= pos <= input.len(),
    ensures
        ({
            let start = skip_ws_from(input, pos);
            let step = spec_next_token(input, pos);
            (start < input.len() && !is_letter_char(input[start]) && !is_digit_char(input[start])
                && input[start] != '=' && input[start] != '!' && single_char_category(input[start])
                == TokenType::ILLEGAL) ==> {
                &&& step.category == TokenType::ILLEGAL
                &&& step.literal == seq![input[start]]
                &&& step.end == start + 1
            }
        }),
{
    lemma_skip_ws_from_bounds(input, pos);
}

} // verus!
