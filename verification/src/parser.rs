//! The recursive-descent parser: tokens in, statements out.
//!
//! The grammar is modelled by the `sp_*` spec functions, which mirror the
//! executable parser rule for rule — including its two deliberate quirks: a
//! binary-operator rule consumes only the first operator of a run at its
//! level, and `consume` skips forward to its target token instead of
//! demanding it immediately. The executable parser is proved to return
//! exactly what the model says.

use vstd::prelude::*;

use vstd::string::StringExecFns;

use crate::error::ParseErrView;
use crate::error::ParserError;
use crate::expr::Expr;
use crate::expr::ExprLiteral;
use crate::expr::ExprView;
use crate::expr::BinaryOp;
use crate::expr::Stmt;
use crate::expr::StmtView;
use crate::expr::UnaryOp;
use crate::expr::stmts_view;
use crate::scanner::wf_tokens;
use crate::strutil::dec_digits;
use crate::strutil::u32_to_string;
use crate::token::Token;
use crate::token::TokenLiteral;
use crate::token::TokenType;
use crate::token::TokenView;
use crate::token::tokens_view;

verus! {

/// The message attached to a token the grammar cannot start from.
pub open spec fn invalid_token_msg(lex: Seq<char>, l: int) -> Seq<char> {
    "Invalid syntax '"@ + lex + "' in line "@ + dec_digits(l)
}

/// Where the skip-ahead `consume` lands: the first position at or after
/// `pos` holding `tt` or `Eof`.
pub open spec fn skip_to(toks: Seq<TokenView>, pos: int, tt: TokenType) -> int
    decreases toks.len() - pos + 1,
{
    if pos >= toks.len() {
        pos
    } else if toks[pos].ttype == TokenType::Eof || toks[pos].ttype == tt {
        pos
    } else {
        skip_to(toks, pos + 1, tt)
    }
}

/// A parse outcome: the tree and the cursor after it, or the error and the
/// cursor where parsing stopped.
pub type ExprRes = Result<(ExprView, int), (ParseErrView, int)>;

pub type StmtRes = Result<(StmtView, int), (ParseErrView, int)>;

pub open spec fn in_range(toks: Seq<TokenView>, pos: int) -> bool {
    0 <= pos < toks.len()
}

pub open spec fn sp_primary(toks: Seq<TokenView>, pos: int) -> ExprRes
    decreases toks.len() - pos + 1, 0int,
{
    if !in_range(toks, pos) {
        // on a well-formed stream the cursor never leaves the token list
        Result::Err((arbitrary(), pos))
    } else {
        let tt = toks[pos].ttype;
        if tt == TokenType::Number || tt == TokenType::String || tt == TokenType::Bool {
            match toks[pos].literal {
                Option::Some(l) => Result::Ok((ExprView::Literal(Option::Some(l)), pos + 1)),
                // a literal-carrying kind always holds its payload
                Option::None => Result::Err((arbitrary(), pos)),
            }
        } else if tt == TokenType::Null {
            Result::Ok((ExprView::Literal(Option::None), pos + 1))
        } else if tt == TokenType::LeftParen {
            let q0 = match sp_expression(toks, pos + 1) {
                Result::Ok((_, p2)) => p2,
                Result::Err((_, p2)) => p2,
            };
            let q = skip_to(toks, q0, TokenType::RightParen);
            if in_range(toks, q) && toks[q].ttype == TokenType::RightParen {
                match sp_expression(toks, pos + 1) {
                    Result::Ok((e, _)) => Result::Ok((ExprView::Grouping(Box::new(e)), q)),
                    Result::Err((e, _)) => Result::Err((e, q)),
                }
            } else {
                Result::Err(
                    (
                        ParseErrView {
                            msg: "Expected ')' after experssion"@,
                            token: Option::None,
                        },
                        q,
                    ),
                )
            }
        } else {
            Result::Err(
                (
                    ParseErrView {
                        msg: invalid_token_msg(toks[pos].lexeme, toks[pos].line),
                        token: Option::Some(toks[pos]),
                    },
                    pos,
                ),
            )
        }
    }
}

pub open spec fn sp_unary(toks: Seq<TokenView>, pos: int) -> ExprRes
    decreases toks.len() - pos + 1, 1int,
{
    if !in_range(toks, pos) {
        Result::Err((arbitrary(), pos))
    } else {
        let tt = toks[pos].ttype;
        if tt == TokenType::Bang || tt == TokenType::Minus {
            let op = if tt == TokenType::Bang {
                UnaryOp::Bang
            } else {
                UnaryOp::Minus
            };
            match sp_unary(toks, pos + 1) {
                Result::Ok((e, p2)) => Result::Ok((ExprView::Unary(op, Box::new(e)), p2)),
                Result::Err(e) => Result::Err(e),
            }
        } else {
            sp_primary(toks, pos)
        }
    }
}

pub open spec fn sp_factor(toks: Seq<TokenView>, pos: int) -> ExprRes
    decreases toks.len() - pos + 1, 2int,
{
    match sp_unary(toks, pos) {
        Result::Err(e) => Result::Err(e),
        Result::Ok((e, p1)) => {
            if in_range(toks, p1) && p1 > pos && (toks[p1].ttype == TokenType::Star || toks[p1].ttype
                == TokenType::Slash) {
                let op = if toks[p1].ttype == TokenType::Star {
                    BinaryOp::Star
                } else {
                    BinaryOp::Slash
                };
                match sp_unary(toks, p1 + 1) {
                    Result::Ok((r, p2)) => Result::Ok(
                        (ExprView::Binary(Box::new(e), op, Box::new(r)), p2),
                    ),
                    Result::Err(er) => Result::Err(er),
                }
            } else {
                Result::Ok((e, p1))
            }
        },
    }
}

pub open spec fn sp_term(toks: Seq<TokenView>, pos: int) -> ExprRes
    decreases toks.len() - pos + 1, 3int,
{
    match sp_factor(toks, pos) {
        Result::Err(e) => Result::Err(e),
        Result::Ok((e, p1)) => {
            if in_range(toks, p1) && p1 > pos && (toks[p1].ttype == TokenType::Minus
                || toks[p1].ttype == TokenType::Plus) {
                let op = if toks[p1].ttype == TokenType::Minus {
                    BinaryOp::Minus
                } else {
                    BinaryOp::Plus
                };
                match sp_factor(toks, p1 + 1) {
                    Result::Ok((r, p2)) => Result::Ok(
                        (ExprView::Binary(Box::new(e), op, Box::new(r)), p2),
                    ),
                    Result::Err(er) => Result::Err(er),
                }
            } else {
                Result::Ok((e, p1))
            }
        },
    }
}

pub open spec fn sp_comparison(toks: Seq<TokenView>, pos: int) -> ExprRes
    decreases toks.len() - pos + 1, 4int,
{
    match sp_term(toks, pos) {
        Result::Err(e) => Result::Err(e),
        Result::Ok((e, p1)) => {
            if in_range(toks, p1) && p1 > pos && (toks[p1].ttype == TokenType::Greater
                || toks[p1].ttype == TokenType::GreaterEqual || toks[p1].ttype == TokenType::Less
                || toks[p1].ttype == TokenType::LessEqual) {
                let op = if toks[p1].ttype == TokenType::Greater {
                    BinaryOp::Greater
                } else if toks[p1].ttype == TokenType::GreaterEqual {
                    BinaryOp::GreaterEqual
                } else if toks[p1].ttype == TokenType::Less {
                    BinaryOp::Less
                } else {
                    BinaryOp::LessEqual
                };
                match sp_term(toks, p1 + 1) {
                    Result::Ok((r, p2)) => Result::Ok(
                        (ExprView::Binary(Box::new(e), op, Box::new(r)), p2),
                    ),
                    Result::Err(er) => Result::Err(er),
                }
            } else {
                Result::Ok((e, p1))
            }
        },
    }
}

pub open spec fn sp_equality(toks: Seq<TokenView>, pos: int) -> ExprRes
    decreases toks.len() - pos + 1, 5int,
{
    match sp_comparison(toks, pos) {
        Result::Err(e) => Result::Err(e),
        Result::Ok((e, p1)) => {
            if in_range(toks, p1) && p1 > pos && (toks[p1].ttype == TokenType::EqualEqual
                || toks[p1].ttype == TokenType::BangEqual) {
                let op = if toks[p1].ttype == TokenType::EqualEqual {
                    BinaryOp::EqualEqual
                } else {
                    BinaryOp::BangEqual
                };
                match sp_comparison(toks, p1 + 1) {
                    Result::Ok((r, p2)) => Result::Ok(
                        (ExprView::Binary(Box::new(e), op, Box::new(r)), p2),
                    ),
                    Result::Err(er) => Result::Err(er),
                }
            } else {
                Result::Ok((e, p1))
            }
        },
    }
}

pub open spec fn sp_expression(toks: Seq<TokenView>, pos: int) -> ExprRes
    decreases toks.len() - pos + 1, 6int,
{
    sp_equality(toks, pos)
}

pub open spec fn sp_print_statement(toks: Seq<TokenView>, pos: int) -> StmtRes
    decreases toks.len() - pos + 1, 7int,
{
    match sp_expression(toks, pos) {
        Result::Err(e) => Result::Err(e),
        Result::Ok((e, p1)) => {
            let q = skip_to(toks, p1, TokenType::Semicolon);
            if in_range(toks, q) && toks[q].ttype == TokenType::Semicolon {
                Result::Ok((StmtView::Print(e), q + 1))
            } else {
                Result::Err(
                    (ParseErrView { msg: "Expected ';' after value"@, token: Option::None }, q),
                )
            }
        },
    }
}

pub open spec fn sp_expr_statement(toks: Seq<TokenView>, pos: int) -> StmtRes
    decreases toks.len() - pos + 1, 7int,
{
    match sp_expression(toks, pos) {
        Result::Err(e) => Result::Err(e),
        Result::Ok((e, p1)) => {
            let q = skip_to(toks, p1, TokenType::Semicolon);
            if in_range(toks, q) && toks[q].ttype == TokenType::Semicolon {
                Result::Ok((StmtView::ExprStmt(e), q + 1))
            } else {
                Result::Err(
                    (ParseErrView { msg: "Expected ';' after value"@, token: Option::None }, q),
                )
            }
        },
    }
}

pub open spec fn sp_statement(toks: Seq<TokenView>, pos: int) -> StmtRes
    decreases toks.len() - pos + 1, 8int,
{
    if !in_range(toks, pos) {
        Result::Err((arbitrary(), pos))
    } else if toks[pos].ttype == TokenType::Print {
        sp_print_statement(toks, pos + 1)
    } else {
        sp_expr_statement(toks, pos)
    }
}

/// The whole parse from a cursor: the statement views produced from here to
/// `Eof` and the final cursor, or the first error.
pub open spec fn sp_parse(toks: Seq<TokenView>, pos: int) -> Result<
    (Seq<StmtView>, int),
    (ParseErrView, int),
>
    decreases toks.len() - pos + 1, 9int,
{
    if !in_range(toks, pos) || toks[pos].ttype == TokenType::Eof {
        Result::Ok((Seq::empty(), pos))
    } else {
        match sp_statement(toks, pos) {
            Result::Err(e) => Result::Err(e),
            Result::Ok((s, p2)) => {
                if pos < p2 <= toks.len() {
                    match sp_parse(toks, p2) {
                        Result::Ok((rest, p3)) => Result::Ok((seq![s] + rest, p3)),
                        Result::Err(e) => Result::Err(e),
                    }
                } else {
                    // a statement always consumes tokens; this branch only
                    // keeps the recursion well-founded
                    Result::Err((arbitrary(), p2))
                }
            },
        }
    }
}

/// Where `synchronize` leaves the cursor: past the error token, then
/// forward to just after a `;` or to the next statement-starting keyword.
pub open spec fn sync_from(toks: Seq<TokenView>, pos: int) -> int
    decreases toks.len() - pos + 1,
{
    if !in_range(toks, pos) {
        pos
    } else if toks[pos].ttype == TokenType::Eof {
        pos
    } else if toks[pos - 1].ttype == TokenType::Semicolon {
        pos
    } else if toks[pos].ttype == TokenType::Class || toks[pos].ttype == TokenType::Fn
        || toks[pos].ttype == TokenType::Let || toks[pos].ttype == TokenType::For || toks[pos].ttype
        == TokenType::If || toks[pos].ttype == TokenType::While || toks[pos].ttype
        == TokenType::Print || toks[pos].ttype == TokenType::Return {
        pos
    } else {
        sync_from(toks, pos + 1)
    }
}

pub open spec fn sp_synchronize(toks: Seq<TokenView>, pos: int) -> int {
    if in_range(toks, pos) && toks[pos].ttype != TokenType::Eof {
        sync_from(toks, pos + 1)
    } else {
        pos
    }
}

// ---------------------------------------------------------------------------
// Executable parser
// ---------------------------------------------------------------------------

fn msg_invalid_token(lex: &String, l: u32) -> (m: String)
    ensures
        m@ == invalid_token_msg(lex@, l as int),
{
    let mut m = String::from_str("Invalid syntax '");
    m.append(lex.as_str());
    m.append("' in line ");
    let n = u32_to_string(l);
    m.append(n.as_str());
    m
}

fn duplicate_stmts(v: &Vec<Stmt>) -> (r: Vec<Stmt>)
    ensures
        stmts_view(r@) == stmts_view(v@),
{
    let mut r: Vec<Stmt> = Vec::new();
    let mut i: usize = 0;
    while i < v.len()
        invariant
            0 <= i <= v@.len(),
            r@.len() == i,
            forall|j: int| 0 <= j < i ==> #[trigger] r@[j]@ == v@[j]@,
        decreases v@.len() - i,
    {
        let s = v[i].duplicate();
        r.push(s);
        i += 1;
    }
    proof {
        assert(stmts_view(r@) =~= stmts_view(v@));
    }
    r
}

/// The parser. `pos` is the cursor into `tokens`; `statements` accumulates
/// the output of the current run.
pub struct Parser {
    pub pos: u32,
    pub tokens: Vec<Token>,
    pub statements: Vec<Stmt>,
}

impl Parser {
    /// The views of the held token sequence.
    pub open spec fn toks(&self) -> Seq<TokenView> {
        tokens_view(self.tokens@)
    }

    /// The parser's well-formedness: a well-formed token stream of bounded
    /// length, with the cursor inside it.
    pub open spec fn wf(&self) -> bool {
        &&& wf_tokens(self.toks())
        &&& self.tokens@.len() <= 0x4000_0000
        &&& (self.pos as int) < self.tokens@.len()
    }

    pub fn new() -> (p: Parser)
        ensures
            p.pos == 0,
            p.tokens@ == Seq::<Token>::empty(),
            p.statements@ == Seq::<Stmt>::empty(),
    {
        Parser { pos: 0, tokens: Vec::new(), statements: Vec::new() }
    }

    /// Returns the parser to a fresh state for another run: the cursor is
    /// rewound and the held tokens and accumulated statements are dropped.
    pub fn reset(&mut self)
        ensures
            final(self).pos == 0,
            final(self).tokens@ == Seq::<Token>::empty(),
            final(self).statements@ == Seq::<Stmt>::empty(),
    {
        self.pos = 0;
        self.tokens.clear();
        self.statements.clear();
    }

    fn peek(&self) -> (t: &Token)
        requires
            (self.pos as int) < self.tokens@.len(),
        ensures
            t@ == self.toks()[self.pos as int],
            t == self.tokens@[self.pos as int],
    {
        &self.tokens[self.pos as usize]
    }

    fn previous(&self) -> (t: &Token)
        requires
            1 <= self.pos,
            (self.pos as int) <= self.tokens@.len(),
        ensures
            t@ == self.toks()[self.pos as int - 1],
            t == self.tokens@[self.pos as int - 1],
    {
        &self.tokens[(self.pos - 1) as usize]
    }

    fn at_end(&self) -> (r: bool)
        requires
            (self.pos as int) < self.tokens@.len(),
        ensures
            r == (self.toks()[self.pos as int].ttype == TokenType::Eof),
    {
        self.peek().ttype == TokenType::Eof
    }

    /// Advances to the first token of kind `ttype` (or to `Eof`), per the
    /// `skip_to` model, and reports whether the target was found.
    #[verifier::loop_isolation(false)]
    fn consume(&mut self, ttype: TokenType, err_msg: String) -> (r: Result<(), ParserError>)
        requires
            old(self).wf(),
        ensures
            final(self).tokens@ == old(self).tokens@,
            final(self).statements@ == old(self).statements@,
            final(self).wf(),
            ({
                let q = skip_to(old(self).toks(), old(self).pos as int, ttype);
                &&& final(self).pos as int == q
                &&& old(self).pos <= final(self).pos
                &&& match r {
                    Result::Ok(()) => old(self).toks()[q].ttype != TokenType::Eof && old(
                        self,
                    ).toks()[q].ttype == ttype,
                    Result::Err(e) => old(self).toks()[q].ttype == TokenType::Eof && e@ == (
                    ParseErrView { msg: err_msg@, token: Option::None }),
                }
            }),
    {
        let ghost tv = self.toks();
        let ghost pos0 = self.pos as int;
        loop
            invariant
                self.wf(),
                self.tokens@ == old(self).tokens@,
                self.statements@ == old(self).statements@,
                pos0 <= self.pos as int,
                skip_to(tv, pos0, ttype) == skip_to(tv, self.pos as int, ttype),
            decreases tv.len() - self.pos,
        {
            let tt = self.peek().ttype;
            if tt == TokenType::Eof {
                return Result::Err(ParserError { msg: err_msg, token: Option::None });
            }
            if tt == ttype {
                return Result::Ok(());
            }
            self.pos = self.pos + 1;
        }
    }

    fn primary(&mut self) -> (r: Result<Expr, ParserError>)
        requires
            old(self).wf(),
        ensures
            final(self).tokens@ == old(self).tokens@,
            final(self).statements@ == old(self).statements@,
            final(self).wf(),
            ({
                let o = sp_primary(old(self).toks(), old(self).pos as int);
                match r {
                    Result::Ok(e) => o matches Result::Ok((ev, p2)) && e@ == ev && final(self).pos as int == p2 && old(self).pos < final(self).pos,
                    Result::Err(er) => o matches Result::Err((ev, p2)) && er@ == ev && final(self).pos as int == p2,
                }
            }),
        decreases old(self).tokens@.len() - old(self).pos, 0int,
    {
        let tt = self.peek().ttype;
        if tt == TokenType::Number || tt == TokenType::String || tt == TokenType::Bool {
            self.pos = self.pos + 1;
            let prev = self.previous();
            match &prev.literal {
                Option::Some(TokenLiteral::Int(v)) => Result::Ok(
                    Expr::Literal(Option::Some(ExprLiteral::Int(*v))),
                ),
                Option::Some(TokenLiteral::Float(s)) => Result::Ok(
                    Expr::Literal(Option::Some(ExprLiteral::Float(s.clone()))),
                ),
                Option::Some(TokenLiteral::Str(s)) => Result::Ok(
                    Expr::Literal(Option::Some(ExprLiteral::Str(s.clone()))),
                ),
                Option::Some(TokenLiteral::Bool(b)) => Result::Ok(
                    Expr::Literal(Option::Some(ExprLiteral::Bool(*b))),
                ),
                Option::None => {
                    proof {
                        assert(false);
                    }
                    Result::Ok(Expr::Literal(Option::None))
                },
            }
        } else if tt == TokenType::Null {
            self.pos = self.pos + 1;
            Result::Ok(Expr::Literal(Option::None))
        } else if tt == TokenType::LeftParen {
            self.pos = self.pos + 1;
            let expr = self.expression();
            match self.consume(
                TokenType::RightParen,
                String::from_str("Expected ')' after experssion"),
            ) {
                Result::Ok(()) => match expr {
                    Result::Ok(e) => Result::Ok(Expr::Grouping(Box::new(e))),
                    Result::Err(er) => Result::Err(er),
                },
                Result::Err(er2) => Result::Err(er2),
            }
        } else {
            let line = self.peek().line;
            let lex = self.peek().lexeme.clone();
            let tok = self.peek().duplicate();
            let msg = msg_invalid_token(&lex, line);
            Result::Err(ParserError { msg, token: Option::Some(tok) })
        }
    }

    fn unary(&mut self) -> (r: Result<Expr, ParserError>)
        requires
            old(self).wf(),
        ensures
            final(self).tokens@ == old(self).tokens@,
            final(self).statements@ == old(self).statements@,
            final(self).wf(),
            ({
                let o = sp_unary(old(self).toks(), old(self).pos as int);
                match r {
                    Result::Ok(e) => o matches Result::Ok((ev, p2)) && e@ == ev && final(self).pos as int == p2 && old(self).pos < final(self).pos,
                    Result::Err(er) => o matches Result::Err((ev, p2)) && er@ == ev && final(self).pos as int == p2,
                }
            }),
        decreases old(self).tokens@.len() - old(self).pos, 1int,
    {
        let tt = self.peek().ttype;
        if tt == TokenType::Bang || tt == TokenType::Minus {
            let op = if tt == TokenType::Bang {
                UnaryOp::Bang
            } else {
                UnaryOp::Minus
            };
            self.pos = self.pos + 1;
            let right = self.unary()?;
            return Result::Ok(Expr::Unary(op, Box::new(right)));
        }
        self.primary()
    }

    fn factor(&mut self) -> (r: Result<Expr, ParserError>)
        requires
            old(self).wf(),
        ensures
            final(self).tokens@ == old(self).tokens@,
            final(self).statements@ == old(self).statements@,
            final(self).wf(),
            ({
                let o = sp_factor(old(self).toks(), old(self).pos as int);
                match r {
                    Result::Ok(e) => o matches Result::Ok((ev, p2)) && e@ == ev && final(self).pos as int == p2 && old(self).pos < final(self).pos,
                    Result::Err(er) => o matches Result::Err((ev, p2)) && er@ == ev && final(self).pos as int == p2,
                }
            }),
        decreases old(self).tokens@.len() - old(self).pos, 2int,
    {
        let expr = self.unary()?;
        let tt = self.peek().ttype;
        if tt == TokenType::Star || tt == TokenType::Slash {
            let op = if tt == TokenType::Star {
                BinaryOp::Star
            } else {
                BinaryOp::Slash
            };
            self.pos = self.pos + 1;
            let right = self.unary()?;
            return Result::Ok(Expr::Binary(Box::new(expr), op, Box::new(right)));
        }
        Result::Ok(expr)
    }

    fn term(&mut self) -> (r: Result<Expr, ParserError>)
        requires
            old(self).wf(),
        ensures
            final(self).tokens@ == old(self).tokens@,
            final(self).statements@ == old(self).statements@,
            final(self).wf(),
            ({
                let o = sp_term(old(self).toks(), old(self).pos as int);
                match r {
                    Result::Ok(e) => o matches Result::Ok((ev, p2)) && e@ == ev && final(self).pos as int == p2 && old(self).pos < final(self).pos,
                    Result::Err(er) => o matches Result::Err((ev, p2)) && er@ == ev && final(self).pos as int == p2,
                }
            }),
        decreases old(self).tokens@.len() - old(self).pos, 3int,
    {
        let expr = self.factor()?;
        let tt = self.peek().ttype;
        if tt == TokenType::Minus || tt == TokenType::Plus {
            let op = if tt == TokenType::Minus {
                BinaryOp::Minus
            } else {
                BinaryOp::Plus
            };
            self.pos = self.pos + 1;
            let right = self.factor()?;
            return Result::Ok(Expr::Binary(Box::new(expr), op, Box::new(right)));
        }
        Result::Ok(expr)
    }

    fn comparison(&mut self) -> (r: Result<Expr, ParserError>)
        requires
            old(self).wf(),
        ensures
            final(self).tokens@ == old(self).tokens@,
            final(self).statements@ == old(self).statements@,
            final(self).wf(),
            ({
                let o = sp_comparison(old(self).toks(), old(self).pos as int);
                match r {
                    Result::Ok(e) => o matches Result::Ok((ev, p2)) && e@ == ev && final(self).pos as int == p2 && old(self).pos < final(self).pos,
                    Result::Err(er) => o matches Result::Err((ev, p2)) && er@ == ev && final(self).pos as int == p2,
                }
            }),
        decreases old(self).tokens@.len() - old(self).pos, 4int,
    {
        let expr = self.term()?;
        let tt = self.peek().ttype;
        if tt == TokenType::Greater || tt == TokenType::GreaterEqual || tt == TokenType::Less || tt
            == TokenType::LessEqual {
            let op = if tt == TokenType::Greater {
                BinaryOp::Greater
            } else if tt == TokenType::GreaterEqual {
                BinaryOp::GreaterEqual
            } else if tt == TokenType::Less {
                BinaryOp::Less
            } else {
                BinaryOp::LessEqual
            };
            self.pos = self.pos + 1;
            let right = self.term()?;
            return Result::Ok(Expr::Binary(Box::new(expr), op, Box::new(right)));
        }
        Result::Ok(expr)
    }

    fn equality(&mut self) -> (r: Result<Expr, ParserError>)
        requires
            old(self).wf(),
        ensures
            final(self).tokens@ == old(self).tokens@,
            final(self).statements@ == old(self).statements@,
            final(self).wf(),
            ({
                let o = sp_equality(old(self).toks(), old(self).pos as int);
                match r {
                    Result::Ok(e) => o matches Result::Ok((ev, p2)) && e@ == ev && final(self).pos as int == p2 && old(self).pos < final(self).pos,
                    Result::Err(er) => o matches Result::Err((ev, p2)) && er@ == ev && final(self).pos as int == p2,
                }
            }),
        decreases old(self).tokens@.len() - old(self).pos, 5int,
    {
        let expr = self.comparison()?;
        let tt = self.peek().ttype;
        if tt == TokenType::EqualEqual || tt == TokenType::BangEqual {
            let op = if tt == TokenType::EqualEqual {
                BinaryOp::EqualEqual
            } else {
                BinaryOp::BangEqual
            };
            self.pos = self.pos + 1;
            let right = self.comparison()?;
            return Result::Ok(Expr::Binary(Box::new(expr), op, Box::new(right)));
        }
        Result::Ok(expr)
    }

    fn expression(&mut self) -> (r: Result<Expr, ParserError>)
        requires
            old(self).wf(),
        ensures
            final(self).tokens@ == old(self).tokens@,
            final(self).statements@ == old(self).statements@,
            final(self).wf(),
            ({
                let o = sp_expression(old(self).toks(), old(self).pos as int);
                match r {
                    Result::Ok(e) => o matches Result::Ok((ev, p2)) && e@ == ev && final(self).pos as int == p2 && old(self).pos < final(self).pos,
                    Result::Err(er) => o matches Result::Err((ev, p2)) && er@ == ev && final(self).pos as int == p2,
                }
            }),
        decreases old(self).tokens@.len() - old(self).pos, 6int,
    {
        self.equality()
    }

    fn print_statement(&mut self) -> (r: Result<Stmt, ParserError>)
        requires
            old(self).wf(),
        ensures
            final(self).tokens@ == old(self).tokens@,
            final(self).statements@ == old(self).statements@,
            final(self).wf(),
            ({
                let o = sp_print_statement(old(self).toks(), old(self).pos as int);
                match r {
                    Result::Ok(s) => o matches Result::Ok((sv, p2)) && s@ == sv && final(self).pos as int == p2 && old(self).pos < final(self).pos,
                    Result::Err(er) => o matches Result::Err((ev, p2)) && er@ == ev && final(self).pos as int == p2,
                }
            }),
        decreases old(self).tokens@.len() - old(self).pos, 7int,
    {
        let expr = self.expression()?;
        self.consume(TokenType::Semicolon, String::from_str("Expected ';' after value"))?;
        self.pos = self.pos + 1;
        Result::Ok(Stmt::Print(expr))
    }

    fn expr_statement(&mut self) -> (r: Result<Stmt, ParserError>)
        requires
            old(self).wf(),
        ensures
            final(self).tokens@ == old(self).tokens@,
            final(self).statements@ == old(self).statements@,
            final(self).wf(),
            ({
                let o = sp_expr_statement(old(self).toks(), old(self).pos as int);
                match r {
                    Result::Ok(s) => o matches Result::Ok((sv, p2)) && s@ == sv && final(self).pos as int == p2 && old(self).pos < final(self).pos,
                    Result::Err(er) => o matches Result::Err((ev, p2)) && er@ == ev && final(self).pos as int == p2,
                }
            }),
        decreases old(self).tokens@.len() - old(self).pos, 7int,
    {
        let expr = self.expression()?;
        self.consume(TokenType::Semicolon, String::from_str("Expected ';' after value"))?;
        self.pos = self.pos + 1;
        Result::Ok(Stmt::ExprStmt(expr))
    }

    fn statement(&mut self) -> (r: Result<Stmt, ParserError>)
        requires
            old(self).wf(),
        ensures
            final(self).tokens@ == old(self).tokens@,
            final(self).statements@ == old(self).statements@,
            final(self).wf(),
            ({
                let o = sp_statement(old(self).toks(), old(self).pos as int);
                match r {
                    Result::Ok(s) => o matches Result::Ok((sv, p2)) && s@ == sv && final(self).pos as int == p2 && old(self).pos < final(self).pos,
                    Result::Err(er) => o matches Result::Err((ev, p2)) && er@ == ev && final(self).pos as int == p2,
                }
            }),
        decreases old(self).tokens@.len() - old(self).pos, 8int,
    {
        let tt = self.peek().ttype;
        if tt == TokenType::Print {
            self.pos = self.pos + 1;
            return self.print_statement();
        }
        self.expr_statement()
    }

    /// Advances past the current error token to the next statement
    /// boundary: just after a `;`, or at a statement-starting keyword.
    #[verifier::loop_isolation(false)]
    pub fn synchronize(&mut self)
        requires
            old(self).wf(),
        ensures
            final(self).tokens@ == old(self).tokens@,
            final(self).statements@ == old(self).statements@,
            final(self).wf(),
            final(self).pos as int == sp_synchronize(old(self).toks(), old(self).pos as int),
    {
        let ghost tv = self.toks();
        if self.at_end() {
            return ;
        }
        self.pos = self.pos + 1;
        loop
            invariant
                self.wf(),
                self.tokens@ == old(self).tokens@,
                self.statements@ == old(self).statements@,
                1 <= self.pos,
                sp_synchronize(tv, old(self).pos as int) == sync_from(tv, self.pos as int),
            decreases tv.len() - self.pos,
        {
            let tt = self.peek().ttype;
            if tt == TokenType::Eof {
                return ;
            }
            if self.previous().ttype == TokenType::Semicolon {
                return ;
            }
            match tt {
                TokenType::Class => { return ; },
                TokenType::Fn => { return ; },
                TokenType::Let => { return ; },
                TokenType::For => { return ; },
                TokenType::If => { return ; },
                TokenType::While => { return ; },
                TokenType::Print => { return ; },
                TokenType::Return => { return ; },
                _ => {},
            }
            self.pos = self.pos + 1;
        }
    }

    /// Parses the given token sequence from the current cursor, appending
    /// the statements to the ones already accumulated and returning a copy
    /// of the whole list — exactly what the `sp_parse` model gives.
    #[verifier::loop_isolation(false)]
    #[verifier::rlimit(60)]
    pub fn parse(&mut self, tokens: Vec<Token>) -> (r: Result<Vec<Stmt>, ParserError>)
        requires
            wf_tokens(tokens_view(tokens@)),
            tokens@.len() <= 0x4000_0000,
            (old(self).pos as int) < tokens@.len(),
        ensures
            ({
                let o = sp_parse(tokens_view(tokens@), old(self).pos as int);
                match r {
                    Result::Ok(stmts) => o matches Result::Ok((sv, p)) && stmts_view(stmts@)
                        == stmts_view(old(self).statements@) + sv,
                    Result::Err(e) => o matches Result::Err((ev, p)) && e@ == ev,
                }
            }),
    {
        self.tokens = tokens;
        let ghost tv = self.toks();
        let ghost pos0 = self.pos as int;
        let ghost n0 = self.statements@.len() as int;
        let ghost s0 = stmts_view(self.statements@);
        let ghost o = sp_parse(tv, pos0);
        let ghost toks_held = self.tokens@;
        while self.tokens[self.pos as usize].ttype != TokenType::Eof
            invariant
                self.wf(),
                self.tokens@ == toks_held,
                n0 <= self.statements@.len(),
                stmts_view(self.statements@).take(n0) == s0,
                ({
                    let cur = sp_parse(tv, self.pos as int);
                    &&& (cur matches Result::Ok((rest, p)) ==> o == Result::<
                        (Seq<StmtView>, int),
                        (ParseErrView, int),
                    >::Ok((stmts_view(self.statements@).skip(n0) + rest, p)))
                    &&& (cur matches Result::Err(e) ==> o == Result::<
                        (Seq<StmtView>, int),
                        (ParseErrView, int),
                    >::Err(e))
                }),
            decreases tv.len() - self.pos,
        {
            let ghost pre_pos = self.pos as int;
            let ghost pre_stmts = self.statements@;
            match self.statement() {
                Result::Ok(st) => {
                    self.statements.push(st);
                    proof {
                        assert(stmts_view(self.statements@) =~= stmts_view(pre_stmts).push(st@));
                        assert(stmts_view(self.statements@).take(n0) =~= stmts_view(
                            pre_stmts,
                        ).take(n0));
                        let cur2 = sp_parse(tv, self.pos as int);
                        match cur2 {
                            Result::Ok((rest2, p3)) => {
                                assert(stmts_view(self.statements@).skip(n0) + rest2 =~= stmts_view(
                                    pre_stmts,
                                ).skip(n0) + (seq![st@] + rest2));
                            },
                            Result::Err(_) => {},
                        }
                    }
                },
                Result::Err(e) => {
                    return Result::Err(e);
                },
            }
        }
        let out = duplicate_stmts(&self.statements);
        proof {
            assert(stmts_view(self.statements@) =~= s0 + stmts_view(self.statements@).skip(n0));
            assert(stmts_view(self.statements@).skip(n0) + Seq::<StmtView>::empty() =~= stmts_view(
                self.statements@,
            ).skip(n0));
        }
        Result::Ok(out)
    }
}

} // verus!
