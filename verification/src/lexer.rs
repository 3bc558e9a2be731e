//! The lexer: from characters to tokens, one token per call, with a cursor
//! that can be read and put back.

use crate::text::chars_of;
use vstd::prelude::*;

verus! {

/// The key of an input slot.
pub type IndexKey = u8;

/// A token of the language.
#[derive(Debug, Clone, Copy, PartialEq, Eq, Structural)]
pub enum Token {
    And,
    Eof,
    Eq,
    Ge,
    Gt,
    If,
    Le,
    LeftParen,
    Lt,
    Number(IndexKey),
    Null,
    Nq,
    Or,
    RightParen,
    Semicolon,
    Undef,
}

/// A single space: what the lexer sees behind the end of the input.
pub const WS: char = ' ';

/// How many characters the lexer looks at to recognise a token.
pub const BUF_SIZE: usize = 4;

/// Tab, line feed, vertical tab, form feed, carriage return and space.
pub open spec fn is_whitespace_char(ch: char) -> bool {
    ('\u{0009}' <= ch && ch <= '\u{000D}') || ch == '\u{0020}'
}

/// The ASCII digits.
pub open spec fn is_digit_char(ch: char) -> bool {
    '0' <= ch && ch <= '9'
}

/// The ASCII digits but `0`.
pub open spec fn is_non_zero_digit_char(ch: char) -> bool {
    '1' <= ch && ch <= '9'
}

/// The character `offset` places behind `pos`, or a space behind the end of
/// the text.
pub open spec fn lookahead(text: Seq<char>, pos: int, offset: int) -> char {
    if 0 <= pos + offset < text.len() {
        text[pos + offset]
    } else {
        WS
    }
}

/// The first position from `pos` on that holds no whitespace: the end of the
/// text if only whitespace is left.
pub open spec fn skip_whitespace(text: Seq<char>, pos: int) -> int
    decreases text.len() - pos,
{
    if 0 <= pos < text.len() && is_whitespace_char(text[pos]) {
        skip_whitespace(text, pos + 1)
    } else {
        pos
    }
}

/// The first position from `pos` on that holds no digit.
pub open spec fn digits_end(text: Seq<char>, pos: int) -> int
    decreases text.len() - pos,
{
    if 0 <= pos < text.len() && is_digit_char(text[pos]) {
        digits_end(text, pos + 1)
    } else {
        pos
    }
}

/// The number that the digits of `text` from `from` up to `to` write in
/// base ten.
pub open spec fn digits_value(text: Seq<char>, from: int, to: int) -> nat
    decreases to - from,
{
    if from >= to {
        0
    } else {
        (10 * digits_value(text, from, to - 1) + (text[to - 1] as int - '0' as int)) as nat
    }
}

/// The token that starts at `pos`, and the position behind it. Keywords and
/// operators are recognised by their characters alone, the longest first; a
/// numeral is a non-zero digit and all the digits that follow, and is a
/// token only if it fits a slot key. Where no token starts, the position
/// stays: at the end of the text the token is `Eof`, elsewhere `Undef`.
pub open spec fn recognize(text: Seq<char>, pos: int) -> (Token, int) {
    let c0 = lookahead(text, pos, 0);
    let c1 = lookahead(text, pos, 1);
    let c2 = lookahead(text, pos, 2);
    let c3 = lookahead(text, pos, 3);
    if c0 == 'n' && c1 == 'u' && c2 == 'l' && c3 == 'l' {
        (Token::Null, pos + 4)
    } else if c0 == 'a' && c1 == 'n' && c2 == 'd' {
        (Token::And, pos + 3)
    } else if c0 == 'i' && c1 == 'f' {
        (Token::If, pos + 2)
    } else if c0 == 'o' && c1 == 'r' {
        (Token::Or, pos + 2)
    } else if c0 == '<' && c1 == '=' {
        (Token::Le, pos + 2)
    } else if c0 == '>' && c1 == '=' {
        (Token::Ge, pos + 2)
    } else if c0 == '<' && c1 == '>' {
        (Token::Nq, pos + 2)
    } else if c0 == '=' {
        (Token::Eq, pos + 1)
    } else if c0 == '<' {
        (Token::Lt, pos + 1)
    } else if c0 == '>' {
        (Token::Gt, pos + 1)
    } else if c0 == ';' {
        (Token::Semicolon, pos + 1)
    } else if c0 == '(' {
        (Token::LeftParen, pos + 1)
    } else if c0 == ')' {
        (Token::RightParen, pos + 1)
    } else if is_non_zero_digit_char(c0) {
        let end = digits_end(text, pos);
        let value = digits_value(text, pos, end);
        if value <= IndexKey::MAX {
            (Token::Number(value as IndexKey), end)
        } else {
            (Token::Undef, pos)
        }
    } else if pos >= text.len() {
        (Token::Eof, pos)
    } else {
        (Token::Undef, pos)
    }
}

/// The next token from `pos` on, whitespace skipped, and the position behind
/// it.
pub open spec fn next_token_at(text: Seq<char>, pos: int) -> (Token, int) {
    recognize(text, skip_whitespace(text, pos))
}

/// Skipping whitespace moves forward and stays in the text; it stops at the
/// end or at a character that is no whitespace.
pub proof fn lemma_skip_whitespace(text: Seq<char>, pos: int)
    ensures
        pos <= skip_whitespace(text, pos),
        pos <= text.len() ==> skip_whitespace(text, pos) <= text.len(),
        0 <= skip_whitespace(text, pos) < text.len() ==> !is_whitespace_char(
            text[skip_whitespace(text, pos)],
        ),
        forall|i: int| pos <= i < skip_whitespace(text, pos) ==> is_whitespace_char(text[i]),
    decreases text.len() - pos,
{
    if 0 <= pos < text.len() && is_whitespace_char(text[pos]) {
        lemma_skip_whitespace(text, pos + 1);
    }
}

/// A run of digits ends in the text, behind its start.
pub proof fn lemma_digits_end(text: Seq<char>, pos: int)
    ensures
        pos <= digits_end(text, pos),
        pos <= text.len() ==> digits_end(text, pos) <= text.len(),
        0 <= pos < text.len() && is_digit_char(text[pos]) ==> pos < digits_end(text, pos),
        forall|i: int| pos <= i < digits_end(text, pos) ==> is_digit_char(text[i]),
        0 <= digits_end(text, pos) < text.len() ==> !is_digit_char(
            text[digits_end(text, pos)],
        ),
    decreases text.len() - pos,
{
    if 0 <= pos < text.len() && is_digit_char(text[pos]) {
        lemma_digits_end(text, pos + 1);
    }
}

/// More digits never write a smaller number.
pub proof fn lemma_digits_value_grows(text: Seq<char>, from: int, mid: int, to: int)
    requires
        0 <= from <= mid <= to <= text.len(),
        forall|i: int| from <= i < to ==> is_digit_char(text[i]),
    ensures
        digits_value(text, from, mid) <= digits_value(text, from, to),
    decreases to - mid,
{
    if mid < to {
        lemma_digits_value_grows(text, from, mid, to - 1);
    }
}

/// A token ends at the place where the lexer started or behind it, and in
/// the text if that place is. A token other than `Eof` and `Undef` ends
/// behind that place and in the text.
pub proof fn lemma_next_token_at(text: Seq<char>, pos: int)
    ensures
        pos <= next_token_at(text, pos).1,
        pos <= text.len() ==> next_token_at(text, pos).1 <= text.len(),
        next_token_at(text, pos).0 != Token::Eof && next_token_at(text, pos).0 != Token::Undef
            ==> pos < next_token_at(text, pos).1 <= text.len(),
{
    lemma_skip_whitespace(text, pos);
    lemma_digits_end(text, skip_whitespace(text, pos));
}

/// Where the lexer finds no token, it stays: asked again, it answers the
/// same from the same place.
pub proof fn lemma_no_token_twice(text: Seq<char>, pos: int)
    requires
        next_token_at(text, pos).0 == Token::Eof || next_token_at(text, pos).0 == Token::Undef,
    ensures
        next_token_at(text, next_token_at(text, pos).1) == next_token_at(text, pos),
        next_token_at(text, pos).1 == skip_whitespace(text, pos),
{
    lemma_skip_whitespace(text, pos);
    lemma_digits_end(text, skip_whitespace(text, pos));
}

/// A numeral that does not fit a slot key is no token: the lexer answers
/// `Undef` and stays in front of it.
pub proof fn lemma_numeral_out_of_range(text: Seq<char>, pos: int)
    requires
        is_non_zero_digit_char(lookahead(text, skip_whitespace(text, pos), 0)),
        digits_value(
            text,
            skip_whitespace(text, pos),
            digits_end(text, skip_whitespace(text, pos)),
        ) >= 256,
    ensures
        next_token_at(text, pos) == (Token::Undef, skip_whitespace(text, pos)),
{
}

/// Returns `true` when the character is a whitespace character.
pub fn is_whitespace(ch: char) -> (r: bool)
    ensures
        r == is_whitespace_char(ch),
{
    ('\u{0009}' <= ch && ch <= '\u{000D}') || ch == '\u{0020}'
}

/// Returns `true` when the character is an ASCII digit.
pub fn is_digit(ch: char) -> (r: bool)
    ensures
        r == is_digit_char(ch),
{
    '0' <= ch && ch <= '9'
}

/// Returns `true` when the character is a non-zero ASCII digit.
pub fn is_non_zero_digit(ch: char) -> (r: bool)
    ensures
        r == is_non_zero_digit_char(ch),
{
    is_digit(ch) && ch != '0'
}

/// The lexer: a text and a cursor in it.
pub struct Lexer {
    /// Input characters.
    input: Vec<char>,
    /// Current position in input.
    position: usize,
}

impl Lexer {
    #[verifier::type_invariant]
    spec fn cursor_in_text(self) -> bool {
        self.position <= self.input.len()
    }

    /// The characters of the text.
    pub closed spec fn text(&self) -> Seq<char> {
        self.input@
    }

    /// The cursor: how many characters lie in front of it.
    pub closed spec fn position(&self) -> int {
        self.position as int
    }

    /// A lexer at the start of `input`.
    pub fn new(input: &str) -> (lexer: Lexer)
        ensures
            lexer.text() == input@,
            lexer.position() == 0,
    {
        Lexer { input: chars_of(input), position: 0 }
    }

    /// The cursor.
    pub fn get_position(&self) -> (position: usize)
        ensures
            position == self.position(),
            position <= self.text().len(),
    {
        proof {
            use_type_invariant(self);
        }
        self.position
    }

    /// The characters behind the cursor.
    pub fn rest(&self) -> (rest: Vec<char>)
        ensures
            rest@ == self.text().subrange(self.position(), self.text().len() as int),
    {
        proof {
            use_type_invariant(self);
        }
        let mut rest: Vec<char> = Vec::new();
        let mut index = self.position;
        while index < self.input.len()
            invariant
                self.position <= index <= self.input.len(),
                rest@ == self.input@.subrange(self.position as int, index as int),
            decreases self.input.len() - index,
        {
            rest.push(self.input[index]);
            index += 1;
        }
        rest
    }

    /// Moves the cursor to `position` if that is a place in front of a
    /// character of the text; otherwise the cursor stays.
    pub fn set_position(&mut self, position: usize)
        ensures
            final(self).text() == old(self).text(),
            final(self).position() == if position < old(self).text().len() {
                position as int
            } else {
                old(self).position()
            },
    {
        proof {
            use_type_invariant(&*self);
        }
        if position < self.input.len() {
            self.position = position;
        }
    }

    /// Returns the next token starting from the current position, and moves
    /// the cursor behind it. Whitespace in front of the token is skipped in
    /// any case.
    pub fn next_token(&mut self) -> (token: Token)
        ensures
            final(self).text() == old(self).text(),
            token == next_token_at(old(self).text(), old(self).position()).0,
            final(self).position() == next_token_at(old(self).text(), old(self).position()).1,
    {
        let chars = self.read_input();
        proof {
            use_type_invariant(&*self);
            lemma_skip_whitespace(old(self).text(), old(self).position());
        }
        let c0 = chars[0];
        let c1 = chars[1];
        let c2 = chars[2];
        let c3 = chars[3];
        if c0 == 'n' && c1 == 'u' && c2 == 'l' && c3 == 'l' {
            self.position += 4;
            Token::Null
        } else if c0 == 'a' && c1 == 'n' && c2 == 'd' {
            self.position += 3;
            Token::And
        } else if c0 == 'i' && c1 == 'f' {
            self.position += 2;
            Token::If
        } else if c0 == 'o' && c1 == 'r' {
            self.position += 2;
            Token::Or
        } else if c0 == '<' && c1 == '=' {
            self.position += 2;
            Token::Le
        } else if c0 == '>' && c1 == '=' {
            self.position += 2;
            Token::Ge
        } else if c0 == '<' && c1 == '>' {
            self.position += 2;
            Token::Nq
        } else if c0 == '=' {
            self.position += 1;
            Token::Eq
        } else if c0 == '<' {
            self.position += 1;
            Token::Lt
        } else if c0 == '>' {
            self.position += 1;
            Token::Gt
        } else if c0 == ';' {
            self.position += 1;
            Token::Semicolon
        } else if c0 == '(' {
            self.position += 1;
            Token::LeftParen
        } else if c0 == ')' {
            self.position += 1;
            Token::RightParen
        } else if is_non_zero_digit(c0) {
            match self.consume_digits() {
                Some(number) => Token::Number(number),
                None => Token::Undef,
            }
        } else if c0 == WS && c1 == WS && c2 == WS && c3 == WS {
            Token::Eof
        } else {
            Token::Undef
        }
    }

    /// Skips whitespace, then reads the characters that decide the token;
    /// behind the end of the text it reads spaces.
    fn read_input(&mut self) -> (buffer: [char; BUF_SIZE])
        ensures
            final(self).text() == old(self).text(),
            final(self).position() == skip_whitespace(old(self).text(), old(self).position()),
            forall|offset: int|
                0 <= offset < BUF_SIZE ==> buffer[offset] == lookahead(
                    final(self).text(),
                    final(self).position(),
                    offset,
                ),
    {
        self.consume_whitespace();
        let mut buffer: [char; BUF_SIZE] = [WS;BUF_SIZE];
        let mut offset: usize = 0;
        while offset < BUF_SIZE
            invariant
                offset <= BUF_SIZE,
                forall|k: int|
                    0 <= k < offset ==> buffer[k] == lookahead(self.text(), self.position(), k),
                forall|k: int| offset <= k < BUF_SIZE ==> buffer[k] == WS,
            decreases BUF_SIZE - offset,
        {
            if let Some(ch) = self.char_at(offset) {
                buffer[offset] = ch;
            }
            offset += 1;
        }
        buffer
    }

    /// Consumes whitespace characters.
    fn consume_whitespace(&mut self)
        ensures
            final(self).text() == old(self).text(),
            final(self).position() == skip_whitespace(old(self).text(), old(self).position()),
    {
        proof {
            use_type_invariant(&*self);
        }
        loop
            invariant
                self.text() == old(self).text(),
                self.position <= self.input.len(),
                skip_whitespace(self.text(), self.position()) == skip_whitespace(
                    old(self).text(),
                    old(self).position(),
                ),
            ensures
                self.text() == old(self).text(),
                self.position() == skip_whitespace(old(self).text(), old(self).position()),
            decreases self.input.len() - self.position,
        {
            match self.char_at(0) {
                Some(ch) if is_whitespace(ch) => {
                    self.position += 1;
                },
                _ => {
                    break ;
                },
            }
        }
    }

    /// Reads the numeral at the cursor. If it fits a slot key, the cursor
    /// moves behind its last digit; if not, the cursor stays.
    fn consume_digits(&mut self) -> (number: Option<IndexKey>)
        requires
            old(self).position() < old(self).text().len(),
            is_non_zero_digit_char(old(self).text()[old(self).position()]),
        ensures
            final(self).text() == old(self).text(),
            ({
                let text = old(self).text();
                let start = old(self).position();
                let end = digits_end(text, start);
                let value = digits_value(text, start, end);
                if value <= IndexKey::MAX {
                    number == Some(value as IndexKey) && final(self).position() == end
                } else {
                    number is None && final(self).position() == start
                }
            }),
    {
        let start = self.position;
        let mut end = self.position;
        let mut value: u16 = 0;
        proof {
            use_type_invariant(&*self);
            lemma_digits_end(self.text(), start as int);
        }
        loop
            invariant
                self.text() == old(self).text(),
                self.position == start == old(self).position(),
                start <= end <= digits_end(self.text(), start as int) <= self.input.len(),
                digits_end(self.text(), end as int) == digits_end(self.text(), start as int),
                forall|i: int| start <= i < end ==> is_digit_char(self.text()[i]),
                value == digits_value(self.text(), start as int, end as int),
                value <= IndexKey::MAX,
            ensures
                end == digits_end(self.text(), start as int),
                value == digits_value(self.text(), start as int, end as int),
                value <= IndexKey::MAX,
                self.text() == old(self).text(),
                self.position == start,
                end <= self.input.len(),
            decreases self.input.len() - end,
        {
            if end >= self.input.len() {
                break ;
            }
            let ch = self.input[end];
            if !is_digit(ch) {
                break ;
            }
            let digit = (ch as u32 - '0' as u32) as u16;
            let next = value * 10 + digit;
            if next > IndexKey::MAX as u16 {
                proof {
                    let text = self.text();
                    let last = digits_end(text, start as int);
                    lemma_digits_end(text, start as int);
                    lemma_digits_value_grows(text, start as int, end as int + 1, last);
                }
                return None;
            }
            proof {
                lemma_digits_end(self.text(), end as int + 1);
            }
            value = next;
            end += 1;
        }
        self.position = end;
        Some(value as IndexKey)
    }

    /// Returns the character at the cursor advanced by `offset`.
    fn char_at(&self, offset: usize) -> (ch: Option<char>)
        ensures
            ch == if self.position() + offset < self.text().len() {
                Some(self.text()[self.position() + offset])
            } else {
                None
            },
    {
        proof {
            use_type_invariant(self);
        }
        if self.input.len() - self.position > offset {
            Some(self.input[self.position + offset])
        } else {
            None
        }
    }
}

} // verus!
