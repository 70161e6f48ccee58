//! Parser: a module is a run of `accrete <string-literal>`
//! statements, each with an optional trailing semicolon, ended by the
//! end-of-file token.

use vstd::prelude::*;
use vstd::string::StringExecFns;

use crate::ast::{AstExpression, AstModule, AstStatement};
use crate::lexer::{Token, TokenKind};

verus! {

/// A parsing failure, with the position of the offending token.
#[derive(Debug)]
pub struct ParseError {
    pub message: String,
    pub line: usize,
    pub column: usize,
}

/// The token at `i`; past the end the stream stays on its last
/// token, as the cursor does.
pub open spec fn spec_token_at(tokens: Seq<Token>, i: int) -> Token {
    if i < tokens.len() {
        tokens[i]
    } else {
        tokens.last()
    }
}

/// Where the statement starting at `i` ends: past the keyword and the
/// literal, and past a trailing semicolon when one is there.
pub open spec fn spec_next_statement_start(tokens: Seq<Token>, i: int) -> int {
    if spec_token_at(tokens, i + 2).kind is Semicolon {
        i + 3
    } else {
        i + 2
    }
}

/// The grammar, from position `i` on: a run of
/// `accrete <string-literal>` statements, each with an optional
/// trailing semicolon, ended by `Eof`. On success, the literal texts
/// in order.
pub open spec fn spec_parse(tokens: Seq<Token>, i: int) -> Result<Seq<Seq<char>>, ()>
    decreases tokens.len() - i,
{
    if spec_token_at(tokens, i).kind is Eof {
        Ok(Seq::empty())
    } else if spec_token_at(tokens, i).kind is Accrete {
        match spec_token_at(tokens, i + 1).kind {
            TokenKind::StringLiteral(text) => {
                let next = spec_next_statement_start(tokens, i);
                if 0 <= i && next <= tokens.len() {
                    match spec_parse(tokens, next) {
                        Ok(rest) => Ok(seq![text@] + rest),
                        Err(e) => Err(e),
                    }
                } else {
                    Err(())
                }
            },
            _ => Err(()),
        }
    } else {
        Err(())
    }
}

/// The parser walks a token stream once, left to right.
pub struct Parser {
    tokens: Vec<Token>,
    position: usize,
}

impl Parser {
    /// The token stream being parsed.
    pub closed spec fn tokens_view(&self) -> Seq<Token> {
        self.tokens@
    }

    /// The cursor.
    pub closed spec fn pos(&self) -> int {
        self.position as int
    }

    /// The token the cursor stands on.
    pub open spec fn spec_current(&self) -> Token {
        spec_token_at(self.tokens_view(), self.pos())
    }

    /// A usable parser: the stream is non-empty and ends with `Eof`,
    /// which is what the lexer always produces. The cursor never
    /// passes the end.
    pub closed spec fn wf(&self) -> bool {
        &&& self.tokens@.len() > 0
        &&& self.tokens@.last().kind is Eof
        &&& self.position <= self.tokens@.len()
    }

    /// A parser at the start of the token stream.
    pub fn new(tokens: Vec<Token>) -> (r: Self)
        ensures
            (tokens@.len() > 0 && tokens@.last().kind is Eof) ==> r.wf(),
            r.tokens_view() == tokens@,
            r.pos() == 0,
    {
        Parser { tokens, position: 0 }
    }

    /// Parse from the cursor to the end: statements until `Eof`.
    ///
    /// The module returned on success carries exactly the literal
    /// texts that the grammar derives from the stream, in order, and
    /// an error comes back exactly when the stream does not fit the
    /// grammar.
    pub fn parse_module(&mut self) -> (r: Result<AstModule, ParseError>)
        requires
            old(self).wf(),
        ensures
            final(self).wf(),
            match r {
                Ok(m) => spec_parse(old(self).tokens_view(), old(self).pos()) == Ok::<
                    Seq<Seq<char>>,
                    (),
                >(m@),
                Err(_) => spec_parse(old(self).tokens_view(), old(self).pos()) is Err,
            },
    {
        let ghost toks = self.tokens@;
        let ghost start = self.pos();
        let mut statements: Vec<AstStatement> = Vec::new();
        proof {
            assert(statements@.map_values(|s: AstStatement| s@) =~= Seq::<Seq<char>>::empty());
        }

        while !self.is_at_eof()
            invariant
                self.wf(),
                toks == self.tokens@,
                toks == old(self).tokens_view(),
                start == old(self).pos(),
                start <= self.pos() <= toks.len(),
                spec_parse(toks, start) == (match spec_parse(toks, self.pos()) {
                    Ok(rest) => Ok::<Seq<Seq<char>>, ()>(
                        statements@.map_values(|s: AstStatement| s@) + rest,
                    ),
                    Err(e) => Err::<Seq<Seq<char>>, ()>(e),
                }),
            decreases toks.len() - self.pos(),
        {
            let ghost i = self.pos();
            let ghost collected = statements@.map_values(|s: AstStatement| s@);
            match self.parse_statement() {
                Ok(stmt) => {
                    proof {
                        let next = spec_next_statement_start(toks, i);
                        assert(spec_parse(toks, i) == (match spec_parse(toks, next) {
                            Ok(rest) => Ok::<Seq<Seq<char>>, ()>(seq![stmt@] + rest),
                            Err(e) => Err::<Seq<Seq<char>>, ()>(e),
                        }));
                        match spec_parse(toks, next) {
                            Ok(rest) => {
                                assert(collected + (seq![stmt@] + rest) =~= collected.push(
                                    stmt@,
                                ) + rest);
                            },
                            Err(_) => {},
                        }
                    }
                    statements.push(stmt);
                    proof {
                        assert(statements@.map_values(|s: AstStatement| s@) =~= collected.push(
                            stmt@,
                        ));
                    }
                },
                Err(e) => {
                    return Err(e);
                },
            }
        }

        let r = AstModule { statements };
        proof {
            assert(spec_parse(toks, self.pos()) == Ok::<Seq<Seq<char>>, ()>(Seq::empty()));
            assert(r@ + Seq::<Seq<char>>::empty() =~= r@);
        }
        Ok(r)
    }

    /// Parse one statement; only `accrete` statements exist.
    fn parse_statement(&mut self) -> (r: Result<AstStatement, ParseError>)
        requires
            old(self).wf(),
            !(old(self).spec_current().kind is Eof),
        ensures
            final(self).wf(),
            final(self).tokens_view() == old(self).tokens_view(),
            match r {
                Ok(stmt) => {
                    &&& old(self).spec_current().kind is Accrete
                    &&& (match spec_token_at(old(self).tokens_view(), old(self).pos() + 1).kind {
                        TokenKind::StringLiteral(s) => stmt@ == s@,
                        _ => false,
                    })
                    &&& final(self).pos() == spec_next_statement_start(
                        old(self).tokens_view(),
                        old(self).pos(),
                    )
                    &&& old(self).pos() < final(self).pos() <= old(self).tokens_view().len()
                },
                Err(_) => spec_parse(old(self).tokens_view(), old(self).pos()) is Err,
            },
    {
        if self.check_kind_is_accrete() {
            self.parse_accrete_statement()
        } else {
            let token = self.current_token();
            Err(
                ParseError {
                    message: String::from_str("expected statement"),
                    line: token.line,
                    column: token.column,
                },
            )
        }
    }

    /// Parse `accrete <expression>`, with an optional trailing
    /// semicolon.
    fn parse_accrete_statement(&mut self) -> (r: Result<AstStatement, ParseError>)
        requires
            old(self).wf(),
            old(self).spec_current().kind is Accrete,
        ensures
            final(self).wf(),
            final(self).tokens_view() == old(self).tokens_view(),
            match r {
                Ok(stmt) => {
                    &&& (match spec_token_at(old(self).tokens_view(), old(self).pos() + 1).kind {
                        TokenKind::StringLiteral(s) => stmt@ == s@,
                        _ => false,
                    })
                    &&& final(self).pos() == spec_next_statement_start(
                        old(self).tokens_view(),
                        old(self).pos(),
                    )
                    &&& old(self).pos() < final(self).pos() <= old(self).tokens_view().len()
                },
                Err(_) => !(spec_token_at(old(self).tokens_view(), old(self).pos() + 1).kind
                    is StringLiteral),
            },
    {
        let ghost toks = self.tokens@;
        let ghost i = self.pos();
        proof {
            // `Accrete` is not `Eof`, so the cursor is inside the stream.
            assert(i < toks.len());
        }
        self.advance();
        let expr = match self.parse_expression() {
            Ok(e) => e,
            Err(e) => {
                return Err(e);
            },
        };
        proof {
            assert(self.pos() == i + 2);
            assert(i + 1 < toks.len());
        }
        if self.check_kind_is_semicolon() {
            proof {
                assert(self.pos() < toks.len());
            }
            self.advance();
        }
        Ok(AstStatement::Accrete(expr))
    }

    /// Parse one expression; only string literals exist. On success
    /// the result carries the literal's text and the cursor moves past
    /// it; on an error the cursor stays.
    fn parse_expression(&mut self) -> (r: Result<AstExpression, ParseError>)
        requires
            old(self).wf(),
        ensures
            final(self).wf(),
            final(self).tokens_view() == old(self).tokens_view(),
            match r {
                Ok(e) => {
                    &&& (match old(self).spec_current().kind {
                        TokenKind::StringLiteral(s) => e@ == s@,
                        _ => false,
                    })
                    &&& old(self).pos() < old(self).tokens_view().len()
                    &&& final(self).pos() == old(self).pos() + 1
                },
                Err(_) => !(old(self).spec_current().kind is StringLiteral) && final(self).pos()
                    == old(self).pos(),
            },
    {
        let is_literal = match &self.current_token().kind {
            TokenKind::StringLiteral(_) => true,
            _ => false,
        };
        if is_literal {
            let token = self.current_token();
            let text = match &token.kind {
                TokenKind::StringLiteral(s) => s.clone(),
                _ => String::new(),
            };
            proof {
                // A literal is not `Eof`, so the cursor is inside the
                // stream and steps forward.
                assert(self.position < self.tokens@.len());
            }
            self.advance();
            Ok(AstExpression::StringLiteral(text))
        } else {
            let token = self.current_token();
            Err(
                ParseError {
                    message: String::from_str("expected expression"),
                    line: token.line,
                    column: token.column,
                },
            )
        }
    }

    /// The token under the cursor.
    fn current_token(&self) -> (r: &Token)
        requires
            self.wf(),
        ensures
            *r == self.spec_current(),
    {
        if self.position < self.tokens.len() {
            &self.tokens[self.position]
        } else {
            &self.tokens[self.tokens.len() - 1]
        }
    }

    /// Whether the cursor stands on the end-of-file token.
    fn is_at_eof(&self) -> (r: bool)
        requires
            self.wf(),
        ensures
            r == (self.spec_current().kind is Eof),
            r == false ==> self.position < self.tokens@.len(),
    {
        let r = match self.current_token().kind {
            TokenKind::Eof => true,
            _ => false,
        };
        proof {
            if self.position >= self.tokens@.len() {
                assert(self.spec_current().kind is Eof);
            }
        }
        r
    }

    /// Step past the current token; the cursor never leaves the
    /// stream because the final `Eof` is never stepped over.
    fn advance(&mut self)
        requires
            old(self).wf(),
        ensures
            final(self).wf(),
            final(self).tokens == old(self).tokens,
            !(old(self).spec_current().kind is Eof) ==> final(self).position == old(self).position
                + 1,
            old(self).spec_current().kind is Eof ==> final(self).position == old(self).position,
    {
        let n = self.tokens.len();
        if !self.is_at_eof() {
            proof {
                assert(self.position < n);
            }
            self.position = self.position + 1;
        }
    }

    /// Whether the current token is the `accrete` keyword.
    fn check_kind_is_accrete(&self) -> (r: bool)
        requires
            self.wf(),
        ensures
            r == (self.spec_current().kind is Accrete),
    {
        match self.current_token().kind {
            TokenKind::Accrete => true,
            _ => false,
        }
    }

    /// Whether the current token is a semicolon.
    fn check_kind_is_semicolon(&self) -> (r: bool)
        requires
            self.wf(),
        ensures
            r == (self.spec_current().kind is Semicolon),
    {
        match self.current_token().kind {
            TokenKind::Semicolon => true,
            _ => false,
        }
    }
}

} // verus!
