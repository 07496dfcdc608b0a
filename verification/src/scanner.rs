//! The lexer: one left-to-right pass over the source characters, producing a
//! token sequence that always ends in `Eof`, or the first lexical error.
//!
//! The whole scan is specified by the spec functions in this module
//! (`spec_scan`, built from the per-token `step`); the executable scanner is
//! proved to return exactly what the model says, token views, positions and
//! error messages included.

use vstd::prelude::*;

use crate::error::ScanErrView;
use crate::error::ScannerError;
use vstd::string::StrSliceExecFns;
use vstd::string::StringExecFns;

use crate::strutil::chars_string;
use crate::strutil::dec_digits;
use crate::strutil::str_chars_vec;
use crate::strutil::u32_to_string;
use crate::token::LitView;
use crate::token::Token;
use crate::token::TokenLiteral;
use crate::token::TokenType;
use crate::token::TokenView;
use crate::token::tokens_view;

verus! {

/// The largest source length the scanner accepts; keeps every line and
/// column counter comfortably inside `u32`.
pub open spec fn src_fits(n: int) -> bool {
    n <= 0x3FFF_FFFF
}

/// Result of `char::is_alphabetic`, Unicode's `Alphabetic` property. The
/// full definition is the Unicode table; only its (documented) restriction
/// to ASCII is spelled out below.
pub uninterp spec fn is_alpha(c: char) -> bool;

/// Whether `c` is an ASCII letter.
pub open spec fn is_ascii_letter(c: char) -> bool {
    (0x41 <= c as u32 && c as u32 <= 0x5A) || (0x61 <= c as u32 && c as u32 <= 0x7A)
}

/// Relies on `char::is_alphabetic`: a pure character classifier; on ASCII
/// it holds exactly for the letters.
#[verifier::external_body]
fn char_is_alphabetic(c: char) -> (r: bool)
    ensures
        r == is_alpha(c),
        (c as u32) < 0x80 ==> r == is_ascii_letter(c),
{
    c.is_alphabetic()
}

/// Whether `c` is a decimal digit.
pub open spec fn is_digit(c: char) -> bool {
    0x30 <= c as u32 && c as u32 <= 0x39
}

/// The index of the first newline at or after `pos`, or the source length.
pub open spec fn find_line_end(src: Seq<char>, pos: int) -> int
    decreases src.len() - pos + 1,
{
    if pos >= src.len() {
        src.len() as int
    } else if src[pos] == '\n' {
        pos
    } else {
        find_line_end(src, pos + 1)
    }
}

proof fn lemma_find_line_end(src: Seq<char>, pos: int)
    requires
        0 <= pos <= src.len(),
    ensures
        pos <= find_line_end(src, pos) <= src.len(),
        find_line_end(src, pos) < src.len() ==> src[find_line_end(src, pos)] == '\n',
        forall|j: int| pos <= j < find_line_end(src, pos) ==> src[j] != '\n',
    decreases src.len() - pos,
{
    if pos < src.len() && src[pos] != '\n' {
        lemma_find_line_end(src, pos + 1);
    }
}

/// The text of 1-based line `l`, counting from position `pos`.
pub open spec fn line_text_from(src: Seq<char>, pos: int, l: int) -> Seq<char>
    decreases src.len() - pos + 1,
{
    if pos >= src.len() {
        Seq::empty()
    } else if l <= 1 {
        src.subrange(pos, find_line_end(src, pos))
    } else if src[pos] == '\n' {
        line_text_from(src, pos + 1, l - 1)
    } else {
        line_text_from(src, pos + 1, l)
    }
}

/// The source line quoted in a scanner error for 1-based line `l`.
pub open spec fn source_line_of(src: Seq<char>, l: int) -> Seq<char> {
    line_text_from(src, 0, l)
}

// Error message texts.
pub open spec fn comment_msg(l: int) -> Seq<char> {
    "Comment in line "@ + dec_digits(l) + " is not closed"@
}

pub open spec fn string_msg(l: int) -> Seq<char> {
    "String in line "@ + dec_digits(l) + " is not closed"@
}

pub open spec fn invalid_syntax_msg(l: int) -> Seq<char> {
    "Invalid syntax in line "@ + dec_digits(l)
}

pub open spec fn invalid_number_msg(buf: Seq<char>, l: int) -> Seq<char> {
    "Invalid syntax '"@ + buf + "' in line "@ + dec_digits(l)
}

pub open spec fn unexpected_char_msg(c: char, l: int) -> Seq<char> {
    "Unexpected character '"@ + seq![c] + "' in line "@ + dec_digits(l)
}

/// Outcome of skipping a block comment, entered at a `/*`.
pub enum BlockOutcome {
    Closed { pos: int, line: int, lpos: int },
    Unclosed { open_line: int, line: int, lpos: int },
}

/// Skipping a (nesting) block comment. `stack` holds the opening line of
/// each comment still open, outermost first.
pub open spec fn scan_block(
    src: Seq<char>,
    pos: int,
    line: int,
    lpos: int,
    stack: Seq<int>,
) -> BlockOutcome
    decreases src.len() - pos + 2,
{
    if pos >= src.len() {
        BlockOutcome::Unclosed {
            open_line: if stack.len() > 0 {
                stack[0]
            } else {
                0
            },
            line,
            lpos,
        }
    } else if src[pos] == '/' && pos + 1 < src.len() && src[pos + 1] == '*' {
        scan_block(src, pos + 2, line, lpos + 2, stack.push(line))
    } else if src[pos] == '*' && pos + 1 < src.len() && src[pos + 1] == '/' {
        if stack.len() <= 1 {
            BlockOutcome::Closed { pos: pos + 2, line, lpos: lpos + 2 }
        } else {
            scan_block(src, pos + 2, line, lpos + 2, stack.drop_last())
        }
    } else if src[pos] == '\n' {
        scan_block(src, pos + 1, line + 1, lpos + 2, stack)
    } else {
        scan_block(src, pos + 1, line, lpos + 1, stack)
    }
}

/// Outcome of scanning a string literal's body, entered just after the
/// opening quote. `line`/`lpos` track the running position; on success they
/// are the position just past the closing quote.
pub enum StrOutcome {
    Closed { buf: Seq<char>, pos: int, line: int, lpos: int },
    Unclosed,
}

pub open spec fn scan_string(
    src: Seq<char>,
    pos: int,
    line: int,
    lpos: int,
    buf: Seq<char>,
) -> StrOutcome
    decreases src.len() - pos + 1,
{
    if pos >= src.len() {
        StrOutcome::Unclosed
    } else if src[pos] == '"' {
        StrOutcome::Closed { buf, pos: pos + 1, line, lpos: lpos + 1 }
    } else if src[pos] == '\n' {
        scan_string(src, pos + 1, line + 1, 1, buf.push(src[pos]))
    } else {
        scan_string(src, pos + 1, line, lpos + 1, buf.push(src[pos]))
    }
}

/// Outcome of consuming a numeral: the digit/dot buffer and end position,
/// or a trailing-dot syntax error (with the column where it was noticed).
pub enum NumOutcome {
    Buf { buf: Seq<char>, pos: int, lpos: int },
    TrailingDot { lpos: int },
}

pub open spec fn scan_number(src: Seq<char>, pos: int, lpos: int, buf: Seq<char>) -> NumOutcome
    decreases src.len() - pos + 1,
{
    if pos < src.len() && (is_digit(src[pos]) || src[pos] == '.') {
        scan_number(src, pos + 1, lpos + 1, buf.push(src[pos]))
    } else if buf.len() > 0 && buf.last() == '.' {
        NumOutcome::TrailingDot { lpos }
    } else {
        NumOutcome::Buf { buf, pos, lpos }
    }
}

/// Consuming an identifier or keyword: letters and underscores.
pub open spec fn scan_ident(src: Seq<char>, pos: int, lpos: int, buf: Seq<char>) -> (Seq<
    char,
>, int, int)
    decreases src.len() - pos + 1,
{
    if pos < src.len() && (is_alpha(src[pos]) || src[pos] == '_') {
        scan_ident(src, pos + 1, lpos + 1, buf.push(src[pos]))
    } else {
        (buf, pos, lpos)
    }
}

/// The number of decimal points in a numeral buffer.
pub open spec fn count_dots(buf: Seq<char>) -> int
    decreases buf.len(),
{
    if buf.len() == 0 {
        0
    } else {
        count_dots(buf.drop_last()) + if buf.last() == '.' {
            1int
        } else {
            0int
        }
    }
}

/// The value of a digit string, most significant digit first.
pub open spec fn digits_val(buf: Seq<char>) -> int
    decreases buf.len(),
{
    if buf.len() == 0 {
        0
    } else {
        digits_val(buf.drop_last()) * 10 + (buf.last() as u32 - 0x30)
    }
}

/// The token kind and literal that an identifier word resolves to.
pub open spec fn keyword_result(word: Seq<char>) -> (TokenType, Option<LitView>) {
    if word == "if"@ {
        (TokenType::If, Option::<LitView>::None)
    } else if word == "else"@ {
        (TokenType::Else, Option::<LitView>::None)
    } else if word == "class"@ {
        (TokenType::Class, Option::<LitView>::None)
    } else if word == "fn"@ {
        (TokenType::Fn, Option::<LitView>::None)
    } else if word == "for"@ {
        (TokenType::For, Option::<LitView>::None)
    } else if word == "while"@ {
        (TokenType::While, Option::<LitView>::None)
    } else if word == "null"@ {
        (TokenType::Null, Option::<LitView>::None)
    } else if word == "print"@ {
        (TokenType::Print, Option::<LitView>::None)
    } else if word == "return"@ {
        (TokenType::Return, Option::<LitView>::None)
    } else if word == "super"@ {
        (TokenType::Super, Option::<LitView>::None)
    } else if word == "this"@ {
        (TokenType::This, Option::<LitView>::None)
    } else if word == "let"@ {
        (TokenType::Let, Option::<LitView>::None)
    } else if word == "and"@ {
        (TokenType::And, Option::<LitView>::None)
    } else if word == "or"@ {
        (TokenType::Or, Option::<LitView>::None)
    } else if word == "true"@ {
        (TokenType::Bool, Option::Some(LitView::Bool(true)))
    } else if word == "false"@ {
        (TokenType::Bool, Option::Some(LitView::Bool(false)))
    } else {
        (TokenType::Identifier, Option::<LitView>::None)
    }
}

/// One token of lookahead: whether the character after `pos` is `c`.
pub open spec fn next_is(src: Seq<char>, pos: int, c: char) -> bool {
    pos + 1 < src.len() && src[pos + 1] == c
}

/// What one call of the token scanner does from a given position: the
/// (possibly empty) token views it appends and the next cursor position, or
/// an error with the message and the position it reports.
pub enum StepRes {
    Toks { toks: Seq<TokenView>, pos: int, line: int, lpos: int },
    Fail { msg: Seq<char>, line: int, lpos: int },
}

pub open spec fn one_tok(
    tt: TokenType,
    lexeme: Seq<char>,
    lit: Option<LitView>,
    line: int,
    lpos: int,
) -> Seq<TokenView> {
    seq![TokenView { ttype: tt, lexeme: lexeme, literal: lit, line: line, pos: lpos }]
}

pub open spec fn punct_step(
    tt: TokenType,
    lexeme: Seq<char>,
    pos: int,
    line: int,
    lpos: int,
    width: int,
) -> StepRes {
    StepRes::Toks {
        toks: one_tok(tt, lexeme, Option::None, line, lpos),
        pos: pos + width,
        line,
        lpos: lpos + width,
    }
}

pub open spec fn step(src: Seq<char>, pos: int, line: int, lpos: int) -> StepRes {
    let c = src[pos];
    if c == '(' {
        punct_step(TokenType::LeftParen, "("@, pos, line, lpos, 1)
    } else if c == ')' {
        punct_step(TokenType::RightParen, ")"@, pos, line, lpos, 1)
    } else if c == '{' {
        punct_step(TokenType::LeftBrace, "{"@, pos, line, lpos, 1)
    } else if c == '}' {
        punct_step(TokenType::RightBrace, "}"@, pos, line, lpos, 1)
    } else if c == ',' {
        punct_step(TokenType::Comma, ","@, pos, line, lpos, 1)
    } else if c == '.' {
        punct_step(TokenType::Dot, "."@, pos, line, lpos, 1)
    } else if c == '-' {
        punct_step(TokenType::Minus, "-"@, pos, line, lpos, 1)
    } else if c == '+' {
        punct_step(TokenType::Plus, "+"@, pos, line, lpos, 1)
    } else if c == ';' {
        punct_step(TokenType::Semicolon, ";"@, pos, line, lpos, 1)
    } else if c == '*' {
        punct_step(TokenType::Star, "*"@, pos, line, lpos, 1)
    } else if c == '!' {
        if next_is(src, pos, '=') {
            punct_step(TokenType::BangEqual, "!="@, pos, line, lpos, 2)
        } else {
            punct_step(TokenType::Bang, "!"@, pos, line, lpos, 1)
        }
    } else if c == '=' {
        if next_is(src, pos, '=') {
            punct_step(TokenType::EqualEqual, "=="@, pos, line, lpos, 2)
        } else {
            punct_step(TokenType::Equal, "="@, pos, line, lpos, 1)
        }
    } else if c == '<' {
        if next_is(src, pos, '=') {
            punct_step(TokenType::LessEqual, "<="@, pos, line, lpos, 2)
        } else {
            punct_step(TokenType::Less, "<"@, pos, line, lpos, 1)
        }
    } else if c == '>' {
        if next_is(src, pos, '=') {
            punct_step(TokenType::GreaterEqual, ">="@, pos, line, lpos, 2)
        } else {
            punct_step(TokenType::Greater, ">"@, pos, line, lpos, 1)
        }
    } else if c == '/' {
        if next_is(src, pos, '/') {
            let end = find_line_end(src, pos);
            StepRes::Toks { toks: Seq::empty(), pos: end, line, lpos: lpos + (end - pos) }
        } else if next_is(src, pos, '*') {
            match scan_block(src, pos, line, lpos, Seq::empty()) {
                BlockOutcome::Closed { pos: p2, line: l2, lpos: lp2 } => StepRes::Toks {
                    toks: Seq::empty(),
                    pos: p2,
                    line: l2,
                    lpos: lp2,
                },
                BlockOutcome::Unclosed { open_line, line: l2, lpos: lp2 } => StepRes::Fail {
                    msg: comment_msg(open_line),
                    line: l2,
                    lpos: lp2,
                },
            }
        } else {
            punct_step(TokenType::Slash, "/"@, pos, line, lpos, 1)
        }
    } else if c == '"' {
        match scan_string(src, pos + 1, line, lpos, Seq::empty()) {
            StrOutcome::Closed { buf, pos: p2, line: l2, lpos: lp2 } => StepRes::Toks {
                toks: one_tok(
                    TokenType::String,
                    seq!['"'] + buf + seq!['"'],
                    Option::Some(LitView::Str(buf)),
                    line,
                    lpos,
                ),
                pos: p2,
                line: l2,
                lpos: lp2,
            },
            StrOutcome::Unclosed => StepRes::Fail { msg: string_msg(line), line, lpos },
        }
    } else if c == '\n' {
        StepRes::Toks { toks: Seq::empty(), pos: pos + 1, line: line + 1, lpos: 0 }
    } else if is_digit(c) {
        match scan_number(src, pos, lpos, Seq::empty()) {
            NumOutcome::TrailingDot { lpos: lp2 } => StepRes::Fail {
                msg: invalid_syntax_msg(line),
                line,
                lpos: lp2,
            },
            NumOutcome::Buf { buf, pos: p2, lpos: lp2 } => {
                let dots = count_dots(buf);
                if dots == 0 {
                    if digits_val(buf) > i64::MAX as int {
                        StepRes::Fail { msg: invalid_number_msg(buf, line), line, lpos: lp2 }
                    } else {
                        StepRes::Toks {
                            toks: one_tok(
                                TokenType::Number,
                                buf,
                                Option::Some(LitView::Int(digits_val(buf) as i64)),
                                line,
                                lp2,
                            ),
                            pos: p2,
                            line,
                            lpos: lp2,
                        }
                    }
                } else if dots == 1 {
                    StepRes::Toks {
                        toks: one_tok(
                            TokenType::Number,
                            buf,
                            Option::Some(LitView::Float(buf)),
                            line,
                            lp2,
                        ),
                        pos: p2,
                        line,
                        lpos: lp2,
                    }
                } else {
                    StepRes::Fail { msg: invalid_number_msg(buf, line), line, lpos: lp2 }
                }
            },
        }
    } else if is_alpha(c) || c == '_' {
        let (word, p2, lp2) = scan_ident(src, pos, lpos, Seq::empty());
        let (tt, lit) = keyword_result(word);
        StepRes::Toks {
            toks: one_tok(tt, word, lit, line, lp2 - word.len()),
            pos: p2,
            line,
            lpos: lp2,
        }
    } else if c == ' ' || c == '\r' || c == '\t' {
        StepRes::Toks { toks: Seq::empty(), pos: pos + 1, line, lpos: lpos + 1 }
    } else {
        StepRes::Fail { msg: unexpected_char_msg(c, line), line, lpos }
    }
}

/// The trailing end-of-input token.
pub open spec fn eof_tok(line: int, lpos: int) -> TokenView {
    TokenView {
        ttype: TokenType::Eof,
        lexeme: "eof"@,
        literal: Option::None,
        line,
        pos: lpos,
    }
}

/// The whole scan from a given cursor state: the token views produced from
/// here on (ending in `Eof`), or the first error.
pub open spec fn scan_from(src: Seq<char>, pos: int, line: int, lpos: int) -> Result<
    Seq<TokenView>,
    ScanErrView,
>
    decreases src.len() - pos + 1,
{
    if pos >= src.len() {
        Result::Ok(seq![eof_tok(line, lpos)])
    } else {
        match step(src, pos, line, lpos) {
            StepRes::Fail { msg, line: el, lpos: elp } => Result::Err(
                ScanErrView { msg, line: el, pos: elp, source_line: source_line_of(src, el) },
            ),
            StepRes::Toks { toks, pos: p2, line: l2, lpos: lp2 } => {
                if pos < p2 <= src.len() {
                    match scan_from(src, p2, l2, lp2) {
                        Result::Ok(rest) => Result::Ok(toks + rest),
                        Result::Err(e) => Result::Err(e),
                    }
                } else {
                    // a step always advances and stays inside the source;
                    // this branch only keeps the recursion well-founded
                    Result::Err(arbitrary())
                }
            },
        }
    }
}

/// The scan of a whole source text from a fresh scanner.
pub open spec fn spec_scan(src: Seq<char>) -> Result<Seq<TokenView>, ScanErrView> {
    scan_from(src, 0, 1, 0)
}

/// A literal payload fits the token kind that carries it.
pub open spec fn lit_matches(tt: TokenType, lit: Option<LitView>) -> bool {
    match tt {
        TokenType::Number => lit matches Option::Some(l) && (l matches LitView::Int(_) || l
            matches LitView::Float(_)),
        TokenType::String => lit matches Option::Some(l) && l matches LitView::Str(_),
        TokenType::Bool => lit matches Option::Some(l) && l matches LitView::Bool(_),
        _ => lit is None,
    }
}

/// A token the scanner can emit before the trailing `Eof`.
pub open spec fn wf_token(t: TokenView) -> bool {
    &&& lit_matches(t.ttype, t.literal)
    &&& t.ttype != TokenType::Eof
}

/// A well-formed scan result: non-empty, `Eof` exactly at the end, every
/// earlier token carrying the literal its kind calls for.
pub open spec fn wf_tokens(ts: Seq<TokenView>) -> bool {
    &&& ts.len() > 0
    &&& ts.last().ttype == TokenType::Eof
    &&& ts.last().literal is None
    &&& forall|i: int| 0 <= i < ts.len() - 1 ==> wf_token(#[trigger] ts[i])
}

/// The characters that scan to a single punctuation token on their own.
pub open spec fn is_single_punct(c: char) -> bool {
    c == '(' || c == ')' || c == '{' || c == '}' || c == ',' || c == '.' || c == '-' || c == '+'
        || c == ';' || c == '*'
}

pub open spec fn single_punct_kind(c: char) -> TokenType {
    if c == '(' {
        TokenType::LeftParen
    } else if c == ')' {
        TokenType::RightParen
    } else if c == '{' {
        TokenType::LeftBrace
    } else if c == '}' {
        TokenType::RightBrace
    } else if c == ',' {
        TokenType::Comma
    } else if c == '.' {
        TokenType::Dot
    } else if c == '-' {
        TokenType::Minus
    } else if c == '+' {
        TokenType::Plus
    } else if c == ';' {
        TokenType::Semicolon
    } else if c == '*' {
        TokenType::Star
    } else {
        TokenType::Eof
    }
}

/// Scanning any single punctuation character on its own yields exactly one
/// token of the matching kind — at line 1, column 0, with the character as
/// its lexeme and no literal — followed by the trailing `Eof`.
pub proof fn lemma_scan_single_punct(c: char)
    requires
        is_single_punct(c),
    ensures
        spec_scan(seq![c]) == Result::<Seq<TokenView>, ScanErrView>::Ok(
            seq![
                TokenView {
                    ttype: single_punct_kind(c),
                    lexeme: seq![c],
                    literal: Option::None,
                    line: 1,
                    pos: 0,
                },
                eof_tok(1, 1),
            ],
        ),
{
    reveal_strlit("(");
    reveal_strlit(")");
    reveal_strlit("{");
    reveal_strlit("}");
    reveal_strlit(",");
    reveal_strlit(".");
    reveal_strlit("-");
    reveal_strlit("+");
    reveal_strlit(";");
    reveal_strlit("*");
    let src = seq![c];
    let tok = TokenView {
        ttype: single_punct_kind(c),
        lexeme: seq![c],
        literal: Option::None,
        line: 1,
        pos: 0,
    };
    assert(src.len() == 1 && src[0] == c);
    assert(scan_from(src, 1, 1, 1) == Result::<Seq<TokenView>, ScanErrView>::Ok(
        seq![eof_tok(1, 1)],
    ));
    if c == '(' {
        assert("("@ =~= seq![c]);
    } else if c == ')' {
        assert(")"@ =~= seq![c]);
    } else if c == '{' {
        assert("{"@ =~= seq![c]);
    } else if c == '}' {
        assert("}"@ =~= seq![c]);
    } else if c == ',' {
        assert(","@ =~= seq![c]);
    } else if c == '.' {
        assert("."@ =~= seq![c]);
    } else if c == '-' {
        assert("-"@ =~= seq![c]);
    } else if c == '+' {
        assert("+"@ =~= seq![c]);
    } else if c == ';' {
        assert(";"@ =~= seq![c]);
    } else {
        assert("*"@ =~= seq![c]);
    }
    assert(step(src, 0, 1, 0) == StepRes::Toks { toks: seq![tok], pos: 1, line: 1, lpos: 1 });
    assert(seq![tok] + seq![eof_tok(1, 1)] =~= seq![tok, eof_tok(1, 1)]);
}

/// Every token a successful `step` emits is well-formed.
proof fn lemma_step_wf(src: Seq<char>, pos: int, line: int, lpos: int)
    ensures
        step(src, pos, line, lpos) matches StepRes::Toks { toks, .. } ==> forall|i: int|
            0 <= i < toks.len() ==> wf_token(#[trigger] toks[i]),
{
    match step(src, pos, line, lpos) {
        StepRes::Toks { toks, .. } => {
            assert forall|i: int| 0 <= i < toks.len() implies wf_token(#[trigger] toks[i]) by {
                let c = src[pos];
                if is_alpha(c) || c == '_' {
                }
            }
        },
        StepRes::Fail { .. } => {
        },
    }
}

// ---------------------------------------------------------------------------
// Executable scanner
// ---------------------------------------------------------------------------

fn msg_comment(l: u32) -> (m: String)
    ensures
        m@ == comment_msg(l as int),
{
    let mut m = String::from_str("Comment in line ");
    let n = u32_to_string(l);
    m.append(n.as_str());
    m.append(" is not closed");
    m
}

fn msg_string(l: u32) -> (m: String)
    ensures
        m@ == string_msg(l as int),
{
    let mut m = String::from_str("String in line ");
    let n = u32_to_string(l);
    m.append(n.as_str());
    m.append(" is not closed");
    m
}

fn msg_invalid_syntax(l: u32) -> (m: String)
    ensures
        m@ == invalid_syntax_msg(l as int),
{
    let mut m = String::from_str("Invalid syntax in line ");
    let n = u32_to_string(l);
    m.append(n.as_str());
    m
}

fn msg_invalid_number(buf: &Vec<char>, l: u32) -> (m: String)
    ensures
        m@ == invalid_number_msg(buf@, l as int),
{
    let mut m = String::from_str("Invalid syntax '");
    let b = chars_string(buf);
    m.append(b.as_str());
    m.append("' in line ");
    let n = u32_to_string(l);
    m.append(n.as_str());
    m
}

fn msg_unexpected(c: char, l: u32) -> (m: String)
    ensures
        m@ == unexpected_char_msg(c, l as int),
{
    let mut m = String::from_str("Unexpected character '");
    let mut cv: Vec<char> = Vec::new();
    cv.push(c);
    let cs = chars_string(&cv);
    m.append(cs.as_str());
    m.append("' in line ");
    let n = u32_to_string(l);
    m.append(n.as_str());
    proof {
        assert(cv@ =~= seq![c]);
    }
    m
}

#[verifier::loop_isolation(false)]
fn find_line_end_exec(src: &Vec<char>, pos: usize) -> (r: usize)
    requires
        pos <= src@.len(),
    ensures
        r as int == find_line_end(src@, pos as int),
        pos <= r <= src@.len(),
{
    let mut i = pos;
    while i < src.len() && src[i] != '\n'
        invariant
            pos <= i <= src@.len(),
            find_line_end(src@, pos as int) == find_line_end(src@, i as int),
        decreases src@.len() - i,
    {
        i += 1;
    }
    proof {
        lemma_find_line_end(src@, i as int);
    }
    i
}

#[verifier::loop_isolation(false)]
fn take_line(src: &Vec<char>, start: usize) -> (r: Vec<char>)
    requires
        start <= src@.len(),
    ensures
        r@ == src@.subrange(start as int, find_line_end(src@, start as int)),
{
    let mut buf: Vec<char> = Vec::new();
    let mut i = start;
    while i < src.len() && src[i] != '\n'
        invariant
            start <= i <= src@.len(),
            buf@ == src@.subrange(start as int, i as int),
            find_line_end(src@, start as int) == find_line_end(src@, i as int),
        decreases src@.len() - i,
    {
        buf.push(src[i]);
        i += 1;
        proof {
            assert(buf@ =~= src@.subrange(start as int, i as int));
        }
    }
    proof {
        lemma_find_line_end(src@, i as int);
    }
    buf
}

#[verifier::loop_isolation(false)]
fn line_text(src: &Vec<char>, l: u32) -> (r: String)
    ensures
        r@ == line_text_from(src@, 0, l as int),
{
    let mut pos: usize = 0;
    let mut ll = l;
    while pos < src.len() && ll > 1
        invariant
            pos <= src@.len(),
            line_text_from(src@, 0, l as int) == line_text_from(src@, pos as int, ll as int),
        decreases src@.len() - pos,
    {
        if src[pos] == '\n' {
            ll = ll - 1;
        }
        pos += 1;
    }
    if pos >= src.len() {
        String::new()
    } else {
        let buf = take_line(src, pos);
        chars_string(&buf)
    }
}

/// Builds the error value for a failed scan: message, position, and the
/// text of the line it points into.
fn mk_error(src: &Vec<char>, msg: String, line: u32, lpos: u32) -> (e: ScannerError)
    ensures
        e@ == (ScanErrView {
            msg: msg@,
            line: line as int,
            pos: lpos as int,
            source_line: source_line_of(src@, line as int),
        }),
{
    let source_line = line_text(src, line);
    ScannerError { msg, line, pos: lpos, source_line }
}

enum BlockScan {
    Closed { pos: usize, line: u32, lpos: u32 },
    Unclosed { open_line: u32, line: u32, lpos: u32 },
}

spec fn stack_view(s: Seq<u32>) -> Seq<int> {
    s.map_values(|x: u32| x as int)
}

#[verifier::loop_isolation(false)]
fn scan_block_exec(src: &Vec<char>, pos0: usize, line0: u32, lpos0: u32) -> (r: BlockScan)
    requires
        src_fits(src@.len() as int),
        pos0 + 1 < src@.len(),
        src@[pos0 as int] == '/',
        src@[pos0 + 1] == '*',
        1 <= line0,
        line0 as int <= pos0 as int + 1,
        lpos0 as int <= 2 * pos0 as int + 2,
    ensures
        ({
            let o = scan_block(src@, pos0 as int, line0 as int, lpos0 as int, Seq::empty());
            match r {
                BlockScan::Closed { pos, line, lpos } => {
                    &&& o == (BlockOutcome::Closed {
                        pos: pos as int,
                        line: line as int,
                        lpos: lpos as int,
                    })
                    &&& pos0 < pos <= src@.len()
                    &&& 1 <= line
                    &&& line as int <= pos as int + 1
                    &&& lpos as int <= 2 * pos as int + 2
                },
                BlockScan::Unclosed { open_line, line, lpos } => o == (BlockOutcome::Unclosed {
                    open_line: open_line as int,
                    line: line as int,
                    lpos: lpos as int,
                }),
            }
        }),
{
    let ghost orig = scan_block(src@, pos0 as int, line0 as int, lpos0 as int, Seq::empty());
    let mut stack: Vec<u32> = Vec::new();
    stack.push(line0);
    let mut pos = pos0 + 2;
    let mut line = line0;
    let mut lpos = lpos0 + 2;
    proof {
        assert(stack_view(stack@) =~= Seq::<int>::empty().push(line0 as int));
    }
    while pos < src.len()
        invariant
            src_fits(src@.len() as int),
            pos0 < pos <= src@.len(),
            1 <= line,
            line as int <= pos as int + 1,
            lpos as int <= 2 * pos as int + 2,
            stack@.len() >= 1,
            orig == scan_block(src@, pos as int, line as int, lpos as int, stack_view(stack@)),
        decreases src@.len() - pos,
    {
        let c = src[pos];
        if c == '/' && pos + 1 < src.len() && src[pos + 1] == '*' {
            let ghost s_old = stack@;
            stack.push(line);
            proof {
                assert(stack_view(stack@) =~= stack_view(s_old).push(line as int));
            }
            pos += 2;
            lpos += 2;
        } else if c == '*' && pos + 1 < src.len() && src[pos + 1] == '/' {
            if stack.len() <= 1 {
                return BlockScan::Closed { pos: pos + 2, line, lpos: lpos + 2 };
            }
            let ghost s_old = stack@;
            stack.pop();
            proof {
                assert(stack_view(stack@) =~= stack_view(s_old).drop_last());
            }
            pos += 2;
            lpos += 2;
        } else if c == '\n' {
            line += 1;
            lpos += 2;
            pos += 1;
        } else {
            lpos += 1;
            pos += 1;
        }
    }
    BlockScan::Unclosed { open_line: stack[0], line, lpos }
}

enum StrScan {
    Closed { buf: Vec<char>, pos: usize, line: u32, lpos: u32 },
    Unclosed,
}

#[verifier::loop_isolation(false)]
fn scan_string_exec(src: &Vec<char>, pos0: usize, line0: u32, lpos0: u32) -> (r: StrScan)
    requires
        src_fits(src@.len() as int),
        pos0 <= src@.len(),
        1 <= line0,
        line0 as int <= pos0 as int,
        lpos0 as int <= 2 * pos0 as int,
    ensures
        ({
            let o = scan_string(src@, pos0 as int, line0 as int, lpos0 as int, Seq::empty());
            match r {
                StrScan::Closed { buf, pos, line, lpos } => {
                    &&& o == (StrOutcome::Closed {
                        buf: buf@,
                        pos: pos as int,
                        line: line as int,
                        lpos: lpos as int,
                    })
                    &&& pos0 < pos <= src@.len()
                    &&& 1 <= line
                    &&& line as int <= pos as int
                    &&& lpos as int <= 2 * pos as int
                },
                StrScan::Unclosed => o == StrOutcome::Unclosed,
            }
        }),
{
    let ghost orig = scan_string(src@, pos0 as int, line0 as int, lpos0 as int, Seq::empty());
    let mut buf: Vec<char> = Vec::new();
    let mut pos = pos0;
    let mut line = line0;
    let mut lpos = lpos0;
    while pos < src.len()
        invariant
            src_fits(src@.len() as int),
            pos0 <= pos <= src@.len(),
            1 <= line,
            line as int <= pos as int,
            lpos as int <= 2 * pos as int,
            orig == scan_string(src@, pos as int, line as int, lpos as int, buf@),
        decreases src@.len() - pos,
    {
        let c = src[pos];
        if c == '"' {
            return StrScan::Closed { buf, pos: pos + 1, line, lpos: lpos + 1 };
        }
        if c == '\n' {
            line += 1;
            lpos = 0;
        }
        buf.push(c);
        pos += 1;
        lpos += 1;
    }
    StrScan::Unclosed
}

enum NumScan {
    Buf { buf: Vec<char>, pos: usize, lpos: u32 },
    TrailingDot { lpos: u32 },
}

#[verifier::loop_isolation(false)]
fn scan_number_exec(src: &Vec<char>, pos0: usize, lpos0: u32) -> (r: NumScan)
    requires
        src_fits(src@.len() as int),
        pos0 < src@.len(),
        is_digit(src@[pos0 as int]),
        lpos0 as int <= 2 * pos0 as int + 2,
    ensures
        ({
            let o = scan_number(src@, pos0 as int, lpos0 as int, Seq::empty());
            match r {
                NumScan::Buf { buf, pos, lpos } => {
                    &&& o == (NumOutcome::Buf { buf: buf@, pos: pos as int, lpos: lpos as int })
                    &&& pos0 < pos <= src@.len()
                    &&& lpos as int <= 2 * pos as int + 2
                    &&& buf@.len() > 0
                    &&& forall|j: int|
                        0 <= j < buf@.len() ==> is_digit(#[trigger] buf@[j]) || buf@[j] == '.'
                },
                NumScan::TrailingDot { lpos } => o == (NumOutcome::TrailingDot {
                    lpos: lpos as int,
                }),
            }
        }),
{
    let ghost orig = scan_number(src@, pos0 as int, lpos0 as int, Seq::empty());
    let mut buf: Vec<char> = Vec::new();
    let mut pos = pos0;
    let mut lpos = lpos0;
    loop
        invariant
            src_fits(src@.len() as int),
            pos0 <= pos <= src@.len(),
            pos > pos0 || buf@.len() == 0,
            buf@.len() > 0 || pos == pos0,
            pos0 < src@.len(),
            is_digit(src@[pos0 as int]),
            lpos as int <= 2 * pos as int + 2,
            orig == scan_number(src@, pos as int, lpos as int, buf@),
            forall|j: int| 0 <= j < buf@.len() ==> is_digit(#[trigger] buf@[j]) || buf@[j] == '.',
        decreases src@.len() - pos,
    {
        if pos < src.len() {
            let c = src[pos];
            if (c as u32) >= 0x30 && (c as u32) <= 0x39 || c == '.' {
                buf.push(c);
                pos += 1;
                lpos += 1;
                continue;
            }
        }
        if buf.len() > 0 && buf[buf.len() - 1] == '.' {
            return NumScan::TrailingDot { lpos };
        }
        return NumScan::Buf { buf, pos, lpos };
    }
}

#[verifier::loop_isolation(false)]
fn scan_ident_exec(src: &Vec<char>, pos0: usize, lpos0: u32) -> (r: (Vec<char>, usize, u32))
    requires
        src_fits(src@.len() as int),
        pos0 < src@.len(),
        is_alpha(src@[pos0 as int]) || src@[pos0 as int] == '_',
        lpos0 as int <= 2 * pos0 as int + 2,
    ensures
        ({
            let (word, pos, lpos) = scan_ident(src@, pos0 as int, lpos0 as int, Seq::empty());
            &&& word == r.0@
            &&& pos == r.1 as int
            &&& lpos == r.2 as int
            &&& pos0 < r.1 <= src@.len()
            &&& r.2 as int <= 2 * r.1 as int + 2
            &&& r.0@.len() > 0
            &&& r.2 as int == lpos0 as int + r.0@.len()
        }),
{
    let ghost orig = scan_ident(src@, pos0 as int, lpos0 as int, Seq::empty());
    let mut buf: Vec<char> = Vec::new();
    let mut pos = pos0;
    let mut lpos = lpos0;
    loop
        invariant
            src_fits(src@.len() as int),
            pos0 <= pos <= src@.len(),
            pos0 < src@.len(),
            buf@.len() > 0 || pos == pos0,
            is_alpha(src@[pos0 as int]) || src@[pos0 as int] == '_',
            lpos as int <= 2 * pos as int + 2,
            lpos as int == lpos0 as int + buf@.len(),
            orig == scan_ident(src@, pos as int, lpos as int, buf@),
        decreases src@.len() - pos,
    {
        if pos < src.len() {
            let c = src[pos];
            if char_is_alphabetic(c) || c == '_' {
                buf.push(c);
                pos += 1;
                lpos += 1;
                continue;
            }
        }
        return (buf, pos, lpos);
    }
}

proof fn lemma_digits_val_nonneg(buf: Seq<char>)
    requires
        forall|j: int| 0 <= j < buf.len() ==> is_digit(#[trigger] buf[j]),
    ensures
        digits_val(buf) >= 0,
    decreases buf.len(),
{
    if buf.len() > 0 {
        lemma_digits_val_nonneg(buf.drop_last());
    }
}

/// A digit string's value only grows as more digits are appended.
proof fn lemma_digits_val_prefix(buf: Seq<char>, i: int)
    requires
        0 <= i <= buf.len(),
        forall|j: int| 0 <= j < buf.len() ==> is_digit(#[trigger] buf[j]),
    ensures
        digits_val(buf.take(i)) <= digits_val(buf),
    decreases buf.len() - i,
{
    if i == buf.len() {
        assert(buf.take(i) =~= buf);
    } else {
        assert(buf.drop_last().take(i) =~= buf.take(i));
        lemma_digits_val_prefix(buf.drop_last(), i);
        lemma_digits_val_nonneg(buf.drop_last());
    }
}

#[verifier::loop_isolation(false)]
fn parse_int_digits(buf: &Vec<char>) -> (r: Option<i64>)
    requires
        buf@.len() > 0,
        forall|j: int| 0 <= j < buf@.len() ==> is_digit(#[trigger] buf@[j]),
    ensures
        match r {
            Option::Some(v) => digits_val(buf@) <= i64::MAX as int && v as int == digits_val(
                buf@,
            ),
            Option::None => digits_val(buf@) > i64::MAX as int,
        },
{
    let mut acc: i64 = 0;
    let mut i: usize = 0;
    while i < buf.len()
        invariant
            0 <= i <= buf@.len(),
            forall|j: int| 0 <= j < buf@.len() ==> is_digit(#[trigger] buf@[j]),
            acc >= 0,
            acc as int == digits_val(buf@.take(i as int)),
        decreases buf@.len() - i,
    {
        let d: u64 = (buf[i] as u32) as u64 - 0x30;
        if (acc as u64) > (i64::MAX as u64 - d) / 10 {
            proof {
                assert(acc as int * 10 + d as int > i64::MAX as int) by (nonlinear_arith)
                    requires
                        acc as int > (i64::MAX as int - d as int) / 10,
                        acc >= 0,
                        0 <= d <= 9,
                ;
                assert(buf@.take(i + 1).drop_last() =~= buf@.take(i as int));
                assert(buf@.take(i + 1).last() == buf@[i as int]);
                assert(digits_val(buf@.take(i + 1)) > i64::MAX as int);
                lemma_digits_val_prefix(buf@, i + 1);
            }
            return Option::None;
        }
        proof {
            assert(acc as int * 10 + d as int <= i64::MAX as int) by (nonlinear_arith)
                requires
                    acc as int <= (i64::MAX as int - d as int) / 10,
                    acc >= 0,
                    0 <= d <= 9,
            ;
        }
        acc = acc * 10 + (d as i64);
        i += 1;
        proof {
            assert(buf@.take(i as int).drop_last() =~= buf@.take(i - 1));
            assert(buf@.take(i as int).last() == buf@[i - 1]);
        }
    }
    proof {
        assert(buf@.take(buf@.len() as int) =~= buf@);
    }
    Option::Some(acc)
}

#[verifier::loop_isolation(false)]
fn count_dots_exec(buf: &Vec<char>) -> (r: usize)
    ensures
        r as int == count_dots(buf@),
{
    let mut cnt: usize = 0;
    let mut i: usize = 0;
    while i < buf.len()
        invariant
            0 <= i <= buf@.len(),
            cnt <= i,
            cnt as int == count_dots(buf@.take(i as int)),
        decreases buf@.len() - i,
    {
        if buf[i] == '.' {
            cnt += 1;
        }
        i += 1;
        proof {
            assert(buf@.take(i as int).drop_last() =~= buf@.take(i - 1));
            assert(buf@.take(i as int).last() == buf@[i - 1]);
        }
    }
    proof {
        assert(buf@.take(buf@.len() as int) =~= buf@);
    }
    cnt
}

#[verifier::loop_isolation(false)]
fn chars_eq_lit(word: &Vec<char>, s: &str) -> (r: bool)
    ensures
        r == (word@ == s@),
{
    let n = s.unicode_len();
    if word.len() != n {
        proof {
            if word@ == s@ {
                assert(word@.len() == s@.len());
            }
        }
        return false;
    }
    let mut i: usize = 0;
    while i < n
        invariant
            0 <= i <= n,
            n == s@.len(),
            n == word@.len(),
            forall|j: int| 0 <= j < i ==> word@[j] == s@[j],
        decreases n - i,
    {
        if word[i] != s.get_char(i) {
            proof {
                if word@ == s@ {
                    assert(word@[i as int] == s@[i as int]);
                }
            }
            return false;
        }
        i += 1;
    }
    proof {
        assert(word@ =~= s@);
    }
    true
}

fn check_keyword_exec(word: &Vec<char>) -> (r: (TokenType, Option<TokenLiteral>))
    ensures
        ({
            let (tt, lit) = keyword_result(word@);
            &&& r.0 == tt
            &&& match (r.1, lit) {
                (Option::Some(l), Option::Some(lv)) => l@ == lv,
                (Option::None, Option::None) => true,
                _ => false,
            }
        }),
{
    if chars_eq_lit(word, "if") {
        (TokenType::If, Option::None)
    } else if chars_eq_lit(word, "else") {
        (TokenType::Else, Option::None)
    } else if chars_eq_lit(word, "class") {
        (TokenType::Class, Option::None)
    } else if chars_eq_lit(word, "fn") {
        (TokenType::Fn, Option::None)
    } else if chars_eq_lit(word, "for") {
        (TokenType::For, Option::None)
    } else if chars_eq_lit(word, "while") {
        (TokenType::While, Option::None)
    } else if chars_eq_lit(word, "null") {
        (TokenType::Null, Option::None)
    } else if chars_eq_lit(word, "print") {
        (TokenType::Print, Option::None)
    } else if chars_eq_lit(word, "return") {
        (TokenType::Return, Option::None)
    } else if chars_eq_lit(word, "super") {
        (TokenType::Super, Option::None)
    } else if chars_eq_lit(word, "this") {
        (TokenType::This, Option::None)
    } else if chars_eq_lit(word, "let") {
        (TokenType::Let, Option::None)
    } else if chars_eq_lit(word, "and") {
        (TokenType::And, Option::None)
    } else if chars_eq_lit(word, "or") {
        (TokenType::Or, Option::None)
    } else if chars_eq_lit(word, "true") {
        (TokenType::Bool, Option::Some(TokenLiteral::Bool(true)))
    } else if chars_eq_lit(word, "false") {
        (TokenType::Bool, Option::Some(TokenLiteral::Bool(false)))
    } else {
        (TokenType::Identifier, Option::None)
    }
}

proof fn lemma_count_dots_nonneg(buf: Seq<char>)
    ensures
        count_dots(buf) >= 0,
    decreases buf.len(),
{
    if buf.len() > 0 {
        lemma_count_dots_nonneg(buf.drop_last());
    }
}

proof fn lemma_no_dots(buf: Seq<char>)
    requires
        count_dots(buf) == 0,
    ensures
        forall|j: int| 0 <= j < buf.len() ==> buf[j] != '.',
    decreases buf.len(),
{
    if buf.len() > 0 {
        lemma_count_dots_nonneg(buf.drop_last());
        lemma_no_dots(buf.drop_last());
        assert forall|j: int| 0 <= j < buf.len() implies buf[j] != '.' by {
            if j < buf.len() - 1 {
                assert(buf.drop_last()[j] == buf[j]);
            }
        }
    }
}

proof fn lemma_tokens_view_push(ts: Seq<Token>, t: Token)
    ensures
        tokens_view(ts.push(t)) == tokens_view(ts).push(t@),
{
    assert(tokens_view(ts.push(t)) =~= tokens_view(ts).push(t@));
}

fn duplicate_tokens(v: &Vec<Token>) -> (r: Vec<Token>)
    ensures
        tokens_view(r@) == tokens_view(v@),
{
    let mut r: Vec<Token> = Vec::new();
    let mut i: usize = 0;
    while i < v.len()
        invariant
            0 <= i <= v@.len(),
            r@.len() == i,
            forall|j: int| 0 <= j < i ==> #[trigger] r@[j]@ == v@[j]@,
        decreases v@.len() - i,
    {
        let t = v[i].duplicate();
        r.push(t);
        i += 1;
    }
    proof {
        assert(tokens_view(r@) =~= tokens_view(v@));
    }
    r
}

/// The lexer. `pos` is the cursor into `source`; `line` and `line_pos` are
/// the 1-based line and 0-based column of the cursor; `tokens` accumulates
/// the output of the current run.
pub struct Scanner {
    pub source: Vec<char>,
    pub pos: usize,
    pub line: u32,
    pub line_pos: u32,
    pub tokens: Vec<Token>,
}

impl Scanner {
    /// The scanner's well-formedness: the source fits the length limit and
    /// the position counters are within the bounds one pass can produce.
    pub open spec fn wf(&self) -> bool {
        &&& src_fits(self.source@.len() as int)
        &&& 1 <= self.line
        &&& self.line as int <= self.pos as int + 1
        &&& self.line_pos as int <= 2 * self.pos as int + 2
    }

    /// The tokens accumulated so far are all well-formed (no `Eof` yet).
    pub open spec fn tokens_wf(&self) -> bool {
        forall|i: int|
            0 <= i < self.tokens@.len() ==> wf_token(#[trigger] tokens_view(self.tokens@)[i])
    }

    pub fn new() -> (s: Scanner)
        ensures
            s.wf(),
            s.tokens_wf(),
            s.source@ == Seq::<char>::empty(),
            s.pos == 0,
            s.line == 1,
            s.line_pos == 0,
            s.tokens@ == Seq::<Token>::empty(),
    {
        Scanner { source: Vec::new(), pos: 0, line: 1, line_pos: 0, tokens: Vec::new() }
    }

    /// Returns the scanner to its initial cursor state and discards the
    /// accumulated tokens; the source is kept.
    pub fn reset(&mut self)
        requires
            old(self).wf(),
        ensures
            final(self).wf(),
            final(self).tokens_wf(),
            final(self).source@ == old(self).source@,
            final(self).pos == 0,
            final(self).line == 1,
            final(self).line_pos == 0,
            final(self).tokens@ == Seq::<Token>::empty(),
    {
        self.pos = 0;
        self.line = 1;
        self.line_pos = 0;
        self.tokens.clear();
    }

    fn check_next(&self, c: char) -> (r: bool)
        requires
            src_fits(self.source@.len() as int),
            self.pos < self.source@.len(),
        ensures
            r == next_is(self.source@, self.pos as int, c),
    {
        if self.pos + 1 < self.source.len() {
            self.source[self.pos + 1] == c
        } else {
            false
        }
    }

    /// Scans one lexical item at the cursor, appending its token (if any)
    /// and advancing, exactly as the `step` model says.
    fn scan_token(&mut self) -> (r: Result<(), ScannerError>)
        requires
            old(self).wf(),
            old(self).pos < old(self).source@.len(),
        ensures
            final(self).wf(),
            final(self).source@ == old(self).source@,
            ({
                let o = step(
                    old(self).source@,
                    old(self).pos as int,
                    old(self).line as int,
                    old(self).line_pos as int,
                );
                match r {
                    Result::Ok(()) => o matches StepRes::Toks { toks, pos: p2, line: l2, lpos: lp2 }
                        && {
                        &&& final(self).pos as int == p2
                        &&& final(self).line as int == l2
                        &&& final(self).line_pos as int == lp2
                        &&& tokens_view(final(self).tokens@) == tokens_view(old(self).tokens@)
                            + toks
                        &&& old(self).pos < final(self).pos <= old(self).source@.len()
                    },
                    Result::Err(e) => o matches StepRes::Fail { msg, line, lpos } && {
                        &&& e@ == (ScanErrView {
                            msg,
                            line,
                            pos: lpos,
                            source_line: source_line_of(old(self).source@, line),
                        })
                        &&& final(self).pos == old(self).pos
                        &&& final(self).tokens@ == old(self).tokens@
                    },
                }
            }),
    {
        let ghost src = self.source@;
        let ghost t0 = self.tokens@;
        let c = self.source[self.pos];
        let r: Result<(), ScannerError> = if c == '(' {
            self.emit1(TokenType::LeftParen, "(");
            Result::Ok(())
        } else if c == ')' {
            self.emit1(TokenType::RightParen, ")");
            Result::Ok(())
        } else if c == '{' {
            self.emit1(TokenType::LeftBrace, "{");
            Result::Ok(())
        } else if c == '}' {
            self.emit1(TokenType::RightBrace, "}");
            Result::Ok(())
        } else if c == ',' {
            self.emit1(TokenType::Comma, ",");
            Result::Ok(())
        } else if c == '.' {
            self.emit1(TokenType::Dot, ".");
            Result::Ok(())
        } else if c == '-' {
            self.emit1(TokenType::Minus, "-");
            Result::Ok(())
        } else if c == '+' {
            self.emit1(TokenType::Plus, "+");
            Result::Ok(())
        } else if c == ';' {
            self.emit1(TokenType::Semicolon, ";");
            Result::Ok(())
        } else if c == '*' {
            self.emit1(TokenType::Star, "*");
            Result::Ok(())
        } else if c == '!' {
            if self.check_next('=') {
                self.emit2(TokenType::BangEqual, "!=");
            } else {
                self.emit1(TokenType::Bang, "!");
            }
            Result::Ok(())
        } else if c == '=' {
            if self.check_next('=') {
                self.emit2(TokenType::EqualEqual, "==");
            } else {
                self.emit1(TokenType::Equal, "=");
            }
            Result::Ok(())
        } else if c == '<' {
            if self.check_next('=') {
                self.emit2(TokenType::LessEqual, "<=");
            } else {
                self.emit1(TokenType::Less, "<");
            }
            Result::Ok(())
        } else if c == '>' {
            if self.check_next('=') {
                self.emit2(TokenType::GreaterEqual, ">=");
            } else {
                self.emit1(TokenType::Greater, ">");
            }
            Result::Ok(())
        } else if c == '/' {
            if self.check_next('/') {
                let end = find_line_end_exec(&self.source, self.pos);
                proof {
                    lemma_find_line_end(src, self.pos as int + 1);
                    assert(find_line_end(src, self.pos as int) == find_line_end(
                        src,
                        self.pos as int + 1,
                    ));
                }
                self.line_pos = self.line_pos + ((end - self.pos) as u32);
                self.pos = end;
                Result::Ok(())
            } else if self.check_next('*') {
                match scan_block_exec(&self.source, self.pos, self.line, self.line_pos) {
                    BlockScan::Closed { pos, line, lpos } => {
                        self.pos = pos;
                        self.line = line;
                        self.line_pos = lpos;
                        Result::Ok(())
                    },
                    BlockScan::Unclosed { open_line, line, lpos } => {
                        let msg = msg_comment(open_line);
                        Result::Err(mk_error(&self.source, msg, line, lpos))
                    },
                }
            } else {
                self.emit1(TokenType::Slash, "/");
                Result::Ok(())
            }
        } else if c == '"' {
            match scan_string_exec(&self.source, self.pos + 1, self.line, self.line_pos) {
                StrScan::Closed { buf, pos, line, lpos } => {
                    let lit = chars_string(&buf);
                    let ghost bufv = buf@;
                    let mut lexv = buf;
                    lexv.insert(0, '"');
                    lexv.push('"');
                    let lex = chars_string(&lexv);
                    proof {
                        assert(lexv@ =~= seq!['"'] + bufv + seq!['"']);
                    }
                    let t = Token::new(
                        TokenType::String,
                        lex,
                        Option::Some(TokenLiteral::Str(lit)),
                        self.line,
                        self.line_pos,
                    );
                    self.tokens.push(t);
                    self.line = line;
                    self.line_pos = lpos;
                    self.pos = pos;
                    proof {
                        lemma_tokens_view_push(t0, t);
                        assert(tokens_view(t0).push(t@) =~= tokens_view(t0) + seq![t@]);
                    }
                    Result::Ok(())
                },
                StrScan::Unclosed => {
                    let msg = msg_string(self.line);
                    Result::Err(mk_error(&self.source, msg, self.line, self.line_pos))
                },
            }
        } else if c == '\n' {
            self.pos += 1;
            self.line += 1;
            self.line_pos = 0;
            Result::Ok(())
        } else if (c as u32) >= 0x30 && (c as u32) <= 0x39 {
            match scan_number_exec(&self.source, self.pos, self.line_pos) {
                NumScan::TrailingDot { lpos } => {
                    let msg = msg_invalid_syntax(self.line);
                    Result::Err(mk_error(&self.source, msg, self.line, lpos))
                },
                NumScan::Buf { buf, pos, lpos } => {
                    let dots = count_dots_exec(&buf);
                    if dots == 0 {
                        proof {
                            lemma_no_dots(buf@);
                        }
                        match parse_int_digits(&buf) {
                            Option::Some(v) => {
                                let lex = chars_string(&buf);
                                self.pos = pos;
                                self.line_pos = lpos;
                                let t = Token::new(
                                    TokenType::Number,
                                    lex,
                                    Option::Some(TokenLiteral::Int(v)),
                                    self.line,
                                    self.line_pos,
                                );
                                self.tokens.push(t);
                                proof {
                                    lemma_tokens_view_push(t0, t);
                                    assert(tokens_view(t0).push(t@) =~= tokens_view(t0) + seq![
                                        t@,
                                    ]);
                                }
                                Result::Ok(())
                            },
                            Option::None => {
                                let msg = msg_invalid_number(&buf, self.line);
                                Result::Err(mk_error(&self.source, msg, self.line, lpos))
                            },
                        }
                    } else if dots == 1 {
                        let lex = chars_string(&buf);
                        let lit = chars_string(&buf);
                        self.pos = pos;
                        self.line_pos = lpos;
                        let t = Token::new(
                            TokenType::Number,
                            lex,
                            Option::Some(TokenLiteral::Float(lit)),
                            self.line,
                            self.line_pos,
                        );
                        self.tokens.push(t);
                        proof {
                            lemma_tokens_view_push(t0, t);
                            assert(tokens_view(t0).push(t@) =~= tokens_view(t0) + seq![t@]);
                        }
                        Result::Ok(())
                    } else {
                        let msg = msg_invalid_number(&buf, self.line);
                        Result::Err(mk_error(&self.source, msg, self.line, lpos))
                    }
                },
            }
        } else if char_is_alphabetic(c) || c == '_' {
            let (word, pos, lpos) = scan_ident_exec(&self.source, self.pos, self.line_pos);
            let kw = check_keyword_exec(&word);
            let lex = chars_string(&word);
            let tok_pos = lpos - (word.len() as u32);
            self.pos = pos;
            self.line_pos = lpos;
            let t = Token::new(kw.0, lex, kw.1, self.line, tok_pos);
            self.tokens.push(t);
            proof {
                lemma_tokens_view_push(t0, t);
                assert(tokens_view(t0).push(t@) =~= tokens_view(t0) + seq![t@]);
            }
            Result::Ok(())
        } else if c == ' ' || c == '\r' || c == '\t' {
            self.pos += 1;
            self.line_pos += 1;
            Result::Ok(())
        } else {
            let msg = msg_unexpected(c, self.line);
            Result::Err(mk_error(&self.source, msg, self.line, self.line_pos))
        };
        r
    }

    fn emit1(&mut self, tt: TokenType, lex: &str)
        requires
            old(self).wf(),
            old(self).pos < old(self).source@.len(),
        ensures
            final(self).wf(),
            final(self).source@ == old(self).source@,
            final(self).pos == old(self).pos + 1,
            final(self).line == old(self).line,
            final(self).line_pos == old(self).line_pos + 1,
            tokens_view(final(self).tokens@) == tokens_view(old(self).tokens@) + one_tok(
                tt,
                lex@,
                Option::None,
                old(self).line as int,
                old(self).line_pos as int,
            ),
    {
        let ghost t0 = self.tokens@;
        let t = Token::new(tt, String::from_str(lex), Option::None, self.line, self.line_pos);
        self.tokens.push(t);
        self.pos += 1;
        self.line_pos += 1;
        proof {
            lemma_tokens_view_push(t0, t);
            assert(tokens_view(t0).push(t@) =~= tokens_view(t0) + seq![t@]);
        }
    }

    fn emit2(&mut self, tt: TokenType, lex: &str)
        requires
            old(self).wf(),
            old(self).pos + 1 < old(self).source@.len(),
        ensures
            final(self).wf(),
            final(self).source@ == old(self).source@,
            final(self).pos == old(self).pos + 2,
            final(self).line == old(self).line,
            final(self).line_pos == old(self).line_pos + 2,
            tokens_view(final(self).tokens@) == tokens_view(old(self).tokens@) + one_tok(
                tt,
                lex@,
                Option::None,
                old(self).line as int,
                old(self).line_pos as int,
            ),
    {
        let ghost t0 = self.tokens@;
        let t = Token::new(tt, String::from_str(lex), Option::None, self.line, self.line_pos);
        self.tokens.push(t);
        self.pos += 2;
        self.line_pos += 2;
        proof {
            lemma_tokens_view_push(t0, t);
            assert(tokens_view(t0).push(t@) =~= tokens_view(t0) + seq![t@]);
        }
    }

    /// Scans from the current cursor to the end of the source, appending
    /// the trailing `Eof` token, and returns a copy of the accumulated
    /// token list — exactly the sequence the `scan_from` model gives.
    #[verifier::loop_isolation(false)]
    pub fn scan_tokens(&mut self) -> (r: Result<Vec<Token>, ScannerError>)
        requires
            old(self).wf(),
        ensures
            final(self).wf(),
            final(self).source@ == old(self).source@,
            ({
                let o = scan_from(
                    old(self).source@,
                    old(self).pos as int,
                    old(self).line as int,
                    old(self).line_pos as int,
                );
                match r {
                    Result::Ok(toks) => o matches Result::Ok(ts) && tokens_view(toks@)
                        == tokens_view(old(self).tokens@) + ts && (old(self).tokens_wf()
                        ==> wf_tokens(tokens_view(toks@))),
                    Result::Err(e) => o matches Result::Err(ev) && e@ == ev,
                }
            }),
    {
        let ghost src = self.source@;
        let ghost n0 = self.tokens@.len() as int;
        let ghost t0 = tokens_view(self.tokens@);
        let ghost o = scan_from(src, self.pos as int, self.line as int, self.line_pos as int);
        while self.pos < self.source.len()
            invariant
                self.wf(),
                self.source@ == src,
                n0 <= self.tokens@.len(),
                tokens_view(self.tokens@).take(n0) == t0,
                forall|i: int|
                    n0 <= i < self.tokens@.len() ==> wf_token(
                        #[trigger] tokens_view(self.tokens@)[i],
                    ),
                ({
                    let cur = scan_from(
                        src,
                        self.pos as int,
                        self.line as int,
                        self.line_pos as int,
                    );
                    &&& (cur matches Result::Ok(rest) ==> o == Result::<
                        Seq<TokenView>,
                        ScanErrView,
                    >::Ok(tokens_view(self.tokens@).skip(n0) + rest))
                    &&& (cur matches Result::Err(e) ==> o == Result::<
                        Seq<TokenView>,
                        ScanErrView,
                    >::Err(e))
                }),
            decreases src.len() - self.pos,
        {
            let ghost pre = *self;
            match self.scan_token() {
                Result::Ok(()) => {
                    proof {
                        lemma_step_wf(src, pre.pos as int, pre.line as int, pre.line_pos as int);
                        let stp = step(src, pre.pos as int, pre.line as int, pre.line_pos as int);
                        match stp {
                            StepRes::Toks { toks, pos: p2, line: l2, lpos: lp2 } => {
                                let pv = tokens_view(pre.tokens@);
                                let nv = tokens_view(self.tokens@);
                                assert(nv == pv + toks);
                                assert(nv.take(n0) =~= pv.take(n0));
                                assert(nv.skip(n0) =~= pv.skip(n0) + toks);
                                assert forall|i: int| n0 <= i < self.tokens@.len() implies wf_token(
                                    #[trigger] tokens_view(self.tokens@)[i],
                                ) by {
                                    if i < pre.tokens@.len() {
                                        assert(nv[i] == pv[i]);
                                    } else {
                                        assert(nv[i] == toks[i - pv.len()]);
                                    }
                                }
                                let cur2 = scan_from(
                                    src,
                                    self.pos as int,
                                    self.line as int,
                                    self.line_pos as int,
                                );
                                match cur2 {
                                    Result::Ok(rest2) => {
                                        assert(nv.skip(n0) + rest2 =~= pv.skip(n0) + (toks
                                            + rest2));
                                    },
                                    Result::Err(_) => {},
                                }
                            },
                            StepRes::Fail { .. } => {
                                assert(false);
                            },
                        }
                    }
                },
                Result::Err(e) => {
                    return Result::Err(e);
                },
            }
        }
        let eof_lex = String::from_str("eof");
        let ghost tpre = self.tokens@;
        let t = Token::new(TokenType::Eof, eof_lex, Option::None, self.line, self.line_pos);
        self.tokens.push(t);
        let out = duplicate_tokens(&self.tokens);
        proof {
            lemma_tokens_view_push(tpre, t);
            let ts = tokens_view(self.tokens@);
            assert(t@ == eof_tok(self.line as int, self.line_pos as int));
            assert(ts =~= tokens_view(tpre) + seq![t@]);
            assert(ts.skip(n0) =~= tokens_view(tpre).skip(n0) + seq![t@]);
            assert(o == Result::<Seq<TokenView>, ScanErrView>::Ok(ts.skip(n0)));
            assert(ts =~= t0 + ts.skip(n0));
            if old(self).tokens_wf() {
                assert forall|i: int| 0 <= i < ts.len() - 1 implies wf_token(#[trigger] ts[i]) by {
                    if i < n0 {
                        assert(ts[i] == t0[i]);
                        assert(tokens_view(old(self).tokens@)[i] == t0[i]);
                    } else {
                        assert(ts[i] == tokens_view(tpre)[i]);
                    }
                }
                assert(wf_tokens(ts));
            }
        }
        Result::Ok(out)
    }

    /// Replaces the source text and scans it from the current cursor state.
    pub fn scan_from_string(&mut self, source: String) -> (r: Result<Vec<Token>, ScannerError>)
        requires
            old(self).wf(),
            src_fits(source@.len() as int),
        ensures
            final(self).wf(),
            final(self).source@ == source@,
            ({
                let o = scan_from(
                    source@,
                    old(self).pos as int,
                    old(self).line as int,
                    old(self).line_pos as int,
                );
                match r {
                    Result::Ok(toks) => o matches Result::Ok(ts) && tokens_view(toks@)
                        == tokens_view(old(self).tokens@) + ts && (old(self).tokens_wf()
                        ==> wf_tokens(tokens_view(toks@))),
                    Result::Err(e) => o matches Result::Err(ev) && e@ == ev,
                }
            }),
    {
        self.source = str_chars_vec(source.as_str());
        self.scan_tokens()
    }
}

} // verus!
