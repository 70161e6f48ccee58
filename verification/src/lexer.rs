//! Lexer for the source language: keywords, string literals and
//! semicolons.

use vstd::prelude::*;
use vstd::string::StringExecFns;

use crate::text::{push_char, str_eq};

verus! {

/// Whether a character has the Unicode `White_Space` property.
pub uninterp spec fn unicode_whitespace(c: char) -> bool;

/// Whether a character has the Unicode `Alphabetic` property.
pub uninterp spec fn unicode_alphabetic(c: char) -> bool;

/// Whether a character is Unicode-alphanumeric.
pub uninterp spec fn unicode_alphanumeric(c: char) -> bool;

/// Relies on `char::is_whitespace`: the result depends on the
/// character alone (the Unicode `White_Space` property).
#[verifier::external_body]
fn char_is_whitespace(c: char) -> (r: bool)
    ensures
        r == unicode_whitespace(c),
{
    c.is_whitespace()
}

/// Relies on `char::is_alphabetic`: the result depends on the
/// character alone (the Unicode `Alphabetic` property).
#[verifier::external_body]
fn char_is_alphabetic(c: char) -> (r: bool)
    ensures
        r == unicode_alphabetic(c),
{
    c.is_alphabetic()
}

/// Relies on `char::is_alphanumeric`: the result depends on the
/// character alone, and alphabetic characters count as alphanumeric
/// (documented as alphabetic-or-numeric).
#[verifier::external_body]
fn char_is_alphanumeric(c: char) -> (r: bool)
    ensures
        r == unicode_alphanumeric(c),
        unicode_alphabetic(c) ==> r,
{
    c.is_alphanumeric()
}

/// A token with the source position it started at.
#[derive(Debug, Clone)]
pub struct Token {
    pub kind: TokenKind,
    pub line: usize,
    pub column: usize,
}

/// The token kinds of the language.
#[derive(Debug, Clone, PartialEq)]
pub enum TokenKind {
    Accrete,
    StringLiteral(String),
    Semicolon,
    Eof,
}

/// A lexing failure, with the position it was noticed at.
#[derive(Debug)]
pub struct LexError {
    pub message: String,
    pub line: usize,
    pub column: usize,
}

/// The lexer walks the characters of the source once, left to right.
pub struct Lexer {
    input: Vec<char>,
    position: usize,
    line: usize,
    column: usize,
}

impl Lexer {
    /// The characters still to be read, from the current position.
    pub closed spec fn input_view(&self) -> Seq<char> {
        self.input@
    }

    /// Position counters stay small enough that advancing them cannot
    /// overflow.
    pub closed spec fn wf(&self) -> bool {
        &&& self.position <= self.input@.len()
        &&& self.line <= self.position + 1
        &&& self.column <= self.position + 1
        &&& self.input@.len() < usize::MAX
    }

    /// A lexer at the start of the source.
    ///
    /// The length bound is a machine limit: the position counters are
    /// machine words.
    pub fn new(source: &str) -> (r: Self)
        requires
            source@.len() < usize::MAX,
        ensures
            r.wf(),
            r.input_view() == source@,
    {
        let input = str_chars_vec(source);
        Lexer { input, position: 0, line: 1, column: 1 }
    }

    /// The character under the cursor, or NUL at the end of input.
    fn current_char(&self) -> (c: char)
        requires
            self.wf(),
        ensures
            c == if self.position < self.input_view().len() {
                self.input_view()[self.position as int]
            } else {
                '\0'
            },
    {
        if self.is_at_end() {
            '\0'
        } else {
            self.input[self.position]
        }
    }

    /// Step over one character, tracking line and column.
    fn advance(&mut self)
        requires
            old(self).wf(),
        ensures
            final(self).wf(),
            final(self).input_view() == old(self).input_view(),
            final(self).position == if old(self).position < old(self).input_view().len() {
                old(self).position + 1
            } else {
                old(self).position as int
            },
    {
        if !self.is_at_end() {
            if self.input[self.position] == '\n' {
                self.line = self.line + 1;
                self.column = 1;
            } else {
                self.column = self.column + 1;
            }
            self.position = self.position + 1;
        }
    }

    /// Whether the cursor has passed the last character.
    fn is_at_end(&self) -> (r: bool)
        ensures
            r == (self.position >= self.input_view().len()),
    {
        self.position >= self.input.len()
    }

    /// Step over leading whitespace.
    fn skip_whitespace(&mut self)
        requires
            old(self).wf(),
        ensures
            final(self).wf(),
            final(self).input_view() == old(self).input_view(),
            final(self).position >= old(self).position,
    {
        while !self.is_at_end() && char_is_whitespace(self.current_char())
            invariant
                self.wf(),
                self.input_view() == old(self).input_view(),
                self.position >= old(self).position,
            decreases self.input_view().len() - self.position,
        {
            self.advance();
        }
    }

    /// Read an identifier: alphanumeric characters and underscores.
    /// It is non-empty when the cursor starts on an alphabetic
    /// character.
    fn read_identifier(&mut self) -> (r: String)
        requires
            old(self).wf(),
            old(self).position < old(self).input_view().len(),
            unicode_alphabetic(old(self).input_view()[old(self).position as int]),
        ensures
            final(self).wf(),
            final(self).input_view() == old(self).input_view(),
            final(self).position > old(self).position,
    {
        let mut ident = String::new();
        let ghost start = self.position;
        while !self.is_at_end() && (char_is_alphanumeric(self.current_char()) || self.current_char()
            == '_')
            invariant
                self.wf(),
                self.input_view() == old(self).input_view(),
                self.position >= start,
                start == old(self).position,
                start < self.input_view().len(),
                unicode_alphabetic(self.input_view()[start as int]),
                self.position == start ==> ident@.len() == 0,
            decreases self.input_view().len() - self.position,
        {
            push_char(&mut ident, self.current_char());
            self.advance();
        }
        proof {
            assert(self.position > start);
        }
        ident
    }

    /// Read a string literal, the cursor standing on the opening
    /// quote. Backslash escapes for newline, tab, carriage return,
    /// backslash and quote are decoded; an unknown escape is kept
    /// verbatim. An unterminated literal is an error.
    fn read_string_literal(&mut self) -> (r: Result<String, LexError>)
        requires
            old(self).wf(),
            old(self).position < old(self).input_view().len(),
        ensures
            final(self).wf(),
            final(self).input_view() == old(self).input_view(),
            final(self).position > old(self).position,
    {
        self.advance();  // consume the opening quote
        let mut literal = String::new();
        let start_line = self.line;
        let start_col = self.column;
        while !self.is_at_end() && self.current_char() != '"'
            invariant
                self.wf(),
                self.input_view() == old(self).input_view(),
                self.position > old(self).position,
            decreases self.input_view().len() - self.position,
        {
            if self.current_char() == '\\' {
                self.advance();
                if self.is_at_end() {
                    return Err(
                        LexError {
                            message: String::from_str("unterminated string literal"),
                            line: start_line,
                            column: start_col,
                        },
                    );
                }
                let c = self.current_char();
                if c == 'n' {
                    push_char(&mut literal, '\n');
                } else if c == 't' {
                    push_char(&mut literal, '\t');
                } else if c == 'r' {
                    push_char(&mut literal, '\r');
                } else if c == '\\' {
                    push_char(&mut literal, '\\');
                } else if c == '"' {
                    push_char(&mut literal, '"');
                } else {
                    push_char(&mut literal, '\\');
                    push_char(&mut literal, c);
                }
                self.advance();
            } else {
                push_char(&mut literal, self.current_char());
                self.advance();
            }
        }
        if self.is_at_end() {
            return Err(
                LexError {
                    message: String::from_str("unterminated string literal"),
                    line: start_line,
                    column: start_col,
                },
            );
        }
        self.advance();  // consume the closing quote
        Ok(literal)
    }

    /// Split the whole source into tokens.
    ///
    /// On success the stream is non-empty and ends with an `Eof`
    /// token, which is what the parser requires of its input.
    pub fn tokenize(self) -> (r: Result<Vec<Token>, LexError>)
        requires
            self.wf(),
        ensures
            match r {
                Ok(tokens) => tokens@.len() > 0 && tokens@.last().kind is Eof,
                Err(_) => true,
            },
    {
        let mut this = self;
        let mut tokens: Vec<Token> = Vec::new();
        loop
            invariant
                this.wf(),
            decreases this.input_view().len() - this.position,
        {
            this.skip_whitespace();

            if this.is_at_end() {
                tokens.push(Token { kind: TokenKind::Eof, line: this.line, column: this.column });
                return Ok(tokens);
            }
            let ch = this.current_char();

            if char_is_alphabetic(ch) {
                let start_col = this.column;
                let word = this.read_identifier();
                if str_eq(word.as_str(), "accrete") {
                    tokens.push(
                        Token { kind: TokenKind::Accrete, line: this.line, column: start_col },
                    );
                } else {
                    let mut message = String::from_str("unknown identifier: ");
                    message.append(word.as_str());
                    return Err(LexError { message, line: this.line, column: start_col });
                }
            } else if ch == '"' {
                let start_col = this.column;
                let literal = match this.read_string_literal() {
                    Ok(s) => s,
                    Err(e) => {
                        return Err(e);
                    },
                };
                tokens.push(
                    Token {
                        kind: TokenKind::StringLiteral(literal),
                        line: this.line,
                        column: start_col,
                    },
                );
            } else if ch == ';' {
                tokens.push(
                    Token { kind: TokenKind::Semicolon, line: this.line, column: this.column },
                );
                this.advance();
            } else {
                return Err(
                    LexError {
                        message: String::from_str("unexpected character"),
                        line: this.line,
                        column: this.column,
                    },
                );
            }
        }
    }
}

/// Relies on `str::chars`: the collected characters are exactly the
/// string's character sequence, which is what a `str` denotes.
#[verifier::external_body]
fn str_chars_vec(source: &str) -> (r: Vec<char>)
    ensures
        r@ == source@,
{
    source.chars().collect()
}

} // verus!
