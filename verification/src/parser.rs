//! The parser: a 2-token lookahead cursor over the lexer's token stream,
//! statement dispatch by token kind, and precedence-climbing expression
//! parsing.
//!
//! [`Parser::new`] drains the lexer and is proved to hold exactly the token
//! stream the scan specification produces ([`crate::lexer::spec_tokens`]).
//! Parsing itself is specified by the `spec_parse_*` functions below, one
//! per parse rule, over the token stream alone; every executable parse
//! function is proved to return exactly the node, cursor position and error
//! list its spec function gives. [`Parser::parse_program`] therefore yields
//! precisely the statements and errors of [`spec_parse_program`], and
//! returns a program if and only if that error list is empty; parsing never
//! moves the cursor backwards and resynchronizes at statement boundaries so
//! one pass reports every independent error.

use vstd::prelude::*;
use vstd::seq_lib::*;
use vstd::string::StringExecFns;

use crate::ast::{
    abs_block, abs_expr, abs_expr_list, abs_ident, abs_ident_list, abs_stmt, abs_stmts, wf_block,
    wf_expr, wf_ident,
    wf_stmt, BlockStatement, BooleanLiteral, CallExpression, ExpressionNode, ExpressionStatement,
    FunctionLiteral, Identifier, IfExpression, InfixExpression, IntegerLiteral, LetStatement,
    PrefixExpression, Program, ReturnStatement, SpecBlock, SpecExpr, SpecIdent, SpecStmt,
    StatementNode,
};
use crate::lexer::{lemma_scan_progress, spec_tokens, Lexer};
use crate::token::{
    lemma_digits_val_prefix, spec_all_digits, spec_digits_val, spec_is_digit, spec_kind_name,
    SpecToken, Token, TokenKind,
};

verus! {

/// The lowest binding strength: what a token that can never stand in infix
/// position binds with.
pub const LOWEST: u8 = 0;

/// The binding strength of `==` and `!=`.
pub const EQUALS: u8 = 1;

/// The binding strength of `<` and `>`.
pub const LESSGREATER: u8 = 2;

/// The binding strength of `+` and binary `-`.
pub const SUM: u8 = 3;

/// The binding strength of `*` and `/`.
pub const PRODUCT: u8 = 4;

/// The binding strength of the unary prefix operators `!` and `-`.
pub const PREFIX: u8 = 5;

/// The binding strength of a call: `(` after a callee expression.
pub const CALL: u8 = 6;

/// The binding strength a token kind has in infix position; kinds with no
/// infix rule bind lowest.
pub open spec fn spec_precedence(k: TokenKind) -> u8 {
    match k {
        TokenKind::Eq => EQUALS,
        TokenKind::NotEq => EQUALS,
        TokenKind::Lt => LESSGREATER,
        TokenKind::Gt => LESSGREATER,
        TokenKind::Plus => SUM,
        TokenKind::Minus => SUM,
        TokenKind::Asterisk => PRODUCT,
        TokenKind::Slash => PRODUCT,
        TokenKind::Lparen => CALL,
        _ => LOWEST,
    }
}

/// The binding strength a token kind has in infix position.
pub fn precedence_of(k: TokenKind) -> (p: u8)
    ensures
        p == spec_precedence(k),
{
    match k {
        TokenKind::Eq => EQUALS,
        TokenKind::NotEq => EQUALS,
        TokenKind::Lt => LESSGREATER,
        TokenKind::Gt => LESSGREATER,
        TokenKind::Plus => SUM,
        TokenKind::Minus => SUM,
        TokenKind::Asterisk => PRODUCT,
        TokenKind::Slash => PRODUCT,
        TokenKind::Lparen => CALL,
        _ => LOWEST,
    }
}

/// A syntax error, carrying what was expected against what was found and
/// the index of the offending token in the token stream.
#[derive(Debug, Clone, Copy, PartialEq, Eq, Structural)]
pub enum ParseError {
    /// A required token class was missing.
    Expected { position: usize, expected: TokenKind, found: TokenKind },
    /// The token at `position` cannot start an expression.
    NoPrefixRule { position: usize, found: TokenKind },
    /// The integer literal at `position` is malformed or does not fit the
    /// value range.
    InvalidInteger { position: usize },
}

impl ParseError {
    /// The text of this error's description.
    pub open spec fn spec_message(&self) -> Seq<char> {
        match *self {
            ParseError::Expected { position, expected, found } => "expected "@ + spec_kind_name(
                expected,
            ) + ", found "@ + spec_kind_name(found),
            ParseError::NoPrefixRule { position, found } => "no prefix parse rule for "@
                + spec_kind_name(found),
            ParseError::InvalidInteger { position } => "invalid integer literal"@,
        }
    }

    /// Describe this error: the expected and found token classes by name.
    pub fn message(&self) -> (r: String)
        ensures
            r@ == self.spec_message(),
    {
        match *self {
            ParseError::Expected { position, expected, found } => {
                let mut out = String::from_str("expected ");
                let e = expected.name();
                out.append(e.as_str());
                out.append(", found ");
                let f = found.name();
                out.append(f.as_str());
                out
            },
            ParseError::NoPrefixRule { position, found } => {
                let mut out = String::from_str("no prefix parse rule for ");
                let f = found.name();
                out.append(f.as_str());
                out
            },
            ParseError::InvalidInteger { position } => String::from_str(
                "invalid integer literal",
            ),
        }
    }
}

/// What every parse step guarantees: the cursor stays well formed over the
/// same token stream, never moves backwards, keeps every error already
/// recorded, and records at least one new error whenever it produces
/// nothing.
pub open spec fn parse_step(pre: Parser, post: Parser, produced: bool) -> bool {
    &&& post.wf()
    &&& post.toks() == pre.toks()
    &&& pre.pos() <= post.pos()
    &&& pre.errs().is_prefix_of(post.errs())
    &&& (!produced ==> post.errs().len() > pre.errs().len())
}

/// The token under a cursor position of a token stream.
pub open spec fn spec_cur_tok(toks: Seq<SpecToken>, pos: int) -> SpecToken
    recommends
        0 <= pos < toks.len(),
{
    toks[pos]
}

/// The token one ahead of a cursor position; at the last token the stream
/// repeats it.
pub open spec fn spec_peek_tok(toks: Seq<SpecToken>, pos: int) -> SpecToken
    recommends
        0 <= pos < toks.len(),
{
    if pos + 1 < toks.len() {
        toks[pos + 1]
    } else {
        toks[toks.len() - 1]
    }
}

/// The cursor position after one advance; it saturates at the last token.
pub open spec fn spec_advance(toks: Seq<SpecToken>, pos: int) -> int {
    if pos + 1 < toks.len() {
        pos + 1
    } else {
        pos
    }
}

/// The outcome of demanding a token class of the next token: whether it was
/// there, the cursor position after, and the error recorded if it was not.
pub struct SpecStep {
    pub ok: bool,
    pub next: int,
    pub errs: Seq<ParseError>,
}

/// What `expect_peek` does: advance onto a matching next token, or record
/// an expected-vs-found error and stay put.
pub open spec fn spec_expect(toks: Seq<SpecToken>, pos: int, kind: TokenKind) -> SpecStep {
    if spec_peek_tok(toks, pos).kind == kind {
        SpecStep { ok: true, next: spec_advance(toks, pos), errs: Seq::<ParseError>::empty() }
    } else {
        SpecStep {
            ok: false,
            next: pos,
            errs: seq![
                ParseError::Expected {
                    position: (pos + 1) as usize,
                    expected: kind,
                    found: spec_peek_tok(toks, pos).kind,
                },
            ],
        }
    }
}

/// The position of the next statement boundary (`;`, `}` or `Eof`) at or
/// after `pos`: where error recovery resumes.
pub open spec fn spec_sync(toks: Seq<SpecToken>, pos: int) -> int
    decreases toks.len() - pos,
{
    if spec_cur_tok(toks, pos).kind == TokenKind::Semicolon || spec_cur_tok(toks, pos).kind
        == TokenKind::Rbrace || spec_cur_tok(toks, pos).kind == TokenKind::Eof {
        pos
    } else if pos + 1 < toks.len() {
        spec_sync(toks, pos + 1)
    } else {
        pos
    }
}

/// One parse step's mathematical outcome: the node produced (if any), the
/// cursor position after the step, and the errors the step records, in
/// order.
pub struct SpecParsed<T> {
    pub node: Option<T>,
    pub next: int,
    pub errs: Seq<ParseError>,
}

/// The outcome of a statement loop: the statements parsed, the position
/// after, and the errors recorded, in order.
pub struct SpecParsedStmts {
    pub stmts: Seq<SpecStmt>,
    pub next: int,
    pub errs: Seq<ParseError>,
}

// The spec parser below mirrors the executable parser exactly, one function
// per parse rule, over the token stream alone. Each recursive call stands
// under a bounds guard (the callee's position strictly advanced and within
// the stream), which the lexicographic measure needs; on a well-formed
// stream the guards always hold, and the executable parser is proved to
// return exactly these results.

/// What parsing an integer literal at `pos` yields: the denoted number when
/// the token text is all digits and fits the value range, else one error.
pub open spec fn spec_parse_int(toks: Seq<SpecToken>, pos: int) -> SpecParsed<SpecExpr> {
    let tok = spec_cur_tok(toks, pos);
    if spec_all_digits(tok.literal) && spec_digits_val(tok.literal) <= u64::MAX {
        SpecParsed {
            node: Some(SpecExpr::IntLit { token: tok, value: spec_digits_val(tok.literal) }),
            next: pos,
            errs: Seq::<ParseError>::empty(),
        }
    } else {
        SpecParsed {
            node: None,
            next: pos,
            errs: seq![ParseError::InvalidInteger { position: pos as usize }],
        }
    }
}

/// What parsing a unary prefix expression at `pos` yields.
pub open spec fn spec_parse_prefix(toks: Seq<SpecToken>, pos: int) -> SpecParsed<SpecExpr>
    decreases toks.len() - pos, 2int,
{
    let tok = spec_cur_tok(toks, pos);
    let p1 = spec_advance(toks, pos);
    if pos < p1 <= toks.len() {
        let inner = spec_parse_expression(toks, p1, PREFIX);
        match inner.node {
            Some(right) => SpecParsed {
                node: Some(
                    SpecExpr::Prefix {
                        token: tok,
                        operator: tok.literal,
                        right: Box::new(right),
                    },
                ),
                next: inner.next,
                errs: inner.errs,
            },
            None => SpecParsed { node: None, next: inner.next, errs: inner.errs },
        }
    } else {
        SpecParsed { node: None, next: pos, errs: Seq::<ParseError>::empty() }
    }
}

/// What parsing a parenthesized expression at `pos` yields.
pub open spec fn spec_parse_grouped(toks: Seq<SpecToken>, pos: int) -> SpecParsed<SpecExpr>
    decreases toks.len() - pos, 2int,
{
    let p1 = spec_advance(toks, pos);
    if pos < p1 <= toks.len() {
        let inner = spec_parse_expression(toks, p1, LOWEST);
        match inner.node {
            None => SpecParsed { node: None, next: inner.next, errs: inner.errs },
            Some(exp) => {
                let st = spec_expect(toks, inner.next, TokenKind::Rparen);
                if st.ok {
                    SpecParsed { node: Some(exp), next: st.next, errs: inner.errs + st.errs }
                } else {
                    SpecParsed { node: None, next: st.next, errs: inner.errs + st.errs }
                }
            },
        }
    } else {
        SpecParsed { node: None, next: pos, errs: Seq::<ParseError>::empty() }
    }
}

/// What parsing an `if` expression at `pos` yields.
pub open spec fn spec_parse_if(toks: Seq<SpecToken>, pos: int) -> SpecParsed<SpecExpr>
    decreases toks.len() - pos, 2int,
{
    let tok = spec_cur_tok(toks, pos);
    let st1 = spec_expect(toks, pos, TokenKind::Lparen);
    if !st1.ok {
        SpecParsed { node: None, next: st1.next, errs: st1.errs }
    } else {
        let p1 = spec_advance(toks, st1.next);
        if pos < p1 <= toks.len() {
            let cnd = spec_parse_expression(toks, p1, LOWEST);
            match cnd.node {
                None => SpecParsed { node: None, next: cnd.next, errs: cnd.errs },
                Some(condition) => {
                    let st2 = spec_expect(toks, cnd.next, TokenKind::Rparen);
                    if !st2.ok {
                        SpecParsed { node: None, next: st2.next, errs: cnd.errs + st2.errs }
                    } else {
                        let st3 = spec_expect(toks, st2.next, TokenKind::Lbrace);
                        if !st3.ok {
                            SpecParsed { node: None, next: st3.next, errs: cnd.errs + st3.errs }
                        } else if pos < st3.next <= toks.len() {
                            let cons = spec_parse_block(toks, st3.next);
                            match cons.node {
                                None => SpecParsed {
                                    node: None,
                                    next: cons.next,
                                    errs: cnd.errs + cons.errs,
                                },
                                Some(consequence) => {
                                    if spec_peek_tok(toks, cons.next).kind == TokenKind::Else {
                                        let p2 = spec_advance(toks, cons.next);
                                        let st4 = spec_expect(toks, p2, TokenKind::Lbrace);
                                        if !st4.ok {
                                            SpecParsed {
                                                node: None,
                                                next: st4.next,
                                                errs: cnd.errs + cons.errs + st4.errs,
                                            }
                                        } else if pos < st4.next <= toks.len() {
                                            let alt = spec_parse_block(toks, st4.next);
                                            match alt.node {
                                                None => SpecParsed {
                                                    node: None,
                                                    next: alt.next,
                                                    errs: cnd.errs + cons.errs + alt.errs,
                                                },
                                                Some(a) => SpecParsed {
                                                    node: Some(
                                                        SpecExpr::If {
                                                            token: tok,
                                                            condition: Box::new(condition),
                                                            consequence,
                                                            alternative: Some(a),
                                                        },
                                                    ),
                                                    next: alt.next,
                                                    errs: cnd.errs + cons.errs + alt.errs,
                                                },
                                            }
                                        } else {
                                            SpecParsed {
                                                node: None,
                                                next: st4.next,
                                                errs: cnd.errs + cons.errs,
                                            }
                                        }
                                    } else {
                                        SpecParsed {
                                            node: Some(
                                                SpecExpr::If {
                                                    token: tok,
                                                    condition: Box::new(condition),
                                                    consequence,
                                                    alternative: None,
                                                },
                                            ),
                                            next: cons.next,
                                            errs: cnd.errs + cons.errs,
                                        }
                                    }
                                },
                            }
                        } else {
                            SpecParsed { node: None, next: st3.next, errs: cnd.errs }
                        }
                    }
                },
            }
        } else {
            SpecParsed { node: None, next: st1.next, errs: Seq::<ParseError>::empty() }
        }
    }
}

/// What parsing a function literal's parameter list at `pos` (the `(`)
/// yields, up to and including the closing `)`.
pub open spec fn spec_parse_params(toks: Seq<SpecToken>, pos: int) -> SpecParsed<Seq<SpecIdent>>
    decreases toks.len() - pos, 1int,
{
    if spec_peek_tok(toks, pos).kind == TokenKind::Rparen {
        SpecParsed {
            node: Some(Seq::<SpecIdent>::empty()),
            next: spec_advance(toks, pos),
            errs: Seq::<ParseError>::empty(),
        }
    } else {
        let st = spec_expect(toks, pos, TokenKind::Ident);
        if !st.ok {
            SpecParsed { node: None, next: st.next, errs: st.errs }
        } else if pos < st.next <= toks.len() {
            let id = SpecIdent {
                token: spec_cur_tok(toks, st.next),
                name: spec_cur_tok(toks, st.next).literal,
            };
            spec_params_loop(toks, st.next, seq![id])
        } else {
            SpecParsed { node: None, next: st.next, errs: Seq::<ParseError>::empty() }
        }
    }
}

/// The parameter list's comma loop: one identifier per `,`, then the
/// closing `)`.
pub open spec fn spec_params_loop(toks: Seq<SpecToken>, pos: int, acc: Seq<SpecIdent>) -> SpecParsed<
    Seq<SpecIdent>,
>
    decreases toks.len() - pos, 0int,
{
    if spec_peek_tok(toks, pos).kind != TokenKind::Comma {
        let st = spec_expect(toks, pos, TokenKind::Rparen);
        if st.ok {
            SpecParsed { node: Some(acc), next: st.next, errs: Seq::<ParseError>::empty() }
        } else {
            SpecParsed { node: None, next: st.next, errs: st.errs }
        }
    } else {
        let p1 = spec_advance(toks, pos);
        let st = spec_expect(toks, p1, TokenKind::Ident);
        if !st.ok {
            SpecParsed { node: None, next: st.next, errs: st.errs }
        } else if pos < st.next <= toks.len() {
            let id = SpecIdent {
                token: spec_cur_tok(toks, st.next),
                name: spec_cur_tok(toks, st.next).literal,
            };
            spec_params_loop(toks, st.next, acc.push(id))
        } else {
            SpecParsed { node: None, next: st.next, errs: Seq::<ParseError>::empty() }
        }
    }
}

/// What parsing a function literal at `pos` yields.
pub open spec fn spec_parse_function(toks: Seq<SpecToken>, pos: int) -> SpecParsed<SpecExpr>
    decreases toks.len() - pos, 2int,
{
    let tok = spec_cur_tok(toks, pos);
    let st1 = spec_expect(toks, pos, TokenKind::Lparen);
    if !st1.ok {
        SpecParsed { node: None, next: st1.next, errs: st1.errs }
    } else {
        let ps = spec_parse_params(toks, st1.next);
        match ps.node {
            None => SpecParsed { node: None, next: ps.next, errs: ps.errs },
            Some(parameters) => {
                let st2 = spec_expect(toks, ps.next, TokenKind::Lbrace);
                if !st2.ok {
                    SpecParsed { node: None, next: st2.next, errs: ps.errs + st2.errs }
                } else if pos < st2.next <= toks.len() {
                    let b = spec_parse_block(toks, st2.next);
                    match b.node {
                        None => SpecParsed { node: None, next: b.next, errs: ps.errs + b.errs },
                        Some(body) => SpecParsed {
                            node: Some(SpecExpr::Function { token: tok, parameters, body }),
                            next: b.next,
                            errs: ps.errs + b.errs,
                        },
                    }
                } else {
                    SpecParsed { node: None, next: st2.next, errs: ps.errs }
                }
            },
        }
    }
}

/// What parsing a call's argument list at `pos` (the `(`) yields, up to and
/// including the closing token.
pub open spec fn spec_parse_list(toks: Seq<SpecToken>, pos: int, end: TokenKind) -> SpecParsed<
    Seq<SpecExpr>,
>
    decreases toks.len() - pos, 1int,
{
    if spec_peek_tok(toks, pos).kind == end {
        SpecParsed {
            node: Some(Seq::<SpecExpr>::empty()),
            next: spec_advance(toks, pos),
            errs: Seq::<ParseError>::empty(),
        }
    } else {
        let p1 = spec_advance(toks, pos);
        if pos < p1 <= toks.len() {
            let first = spec_parse_expression(toks, p1, LOWEST);
            match first.node {
                None => SpecParsed { node: None, next: first.next, errs: first.errs },
                Some(e) => {
                    if pos < first.next <= toks.len() {
                        let lp = spec_list_loop(toks, first.next, end, seq![e]);
                        SpecParsed { node: lp.node, next: lp.next, errs: first.errs + lp.errs }
                    } else {
                        SpecParsed { node: None, next: first.next, errs: first.errs }
                    }
                },
            }
        } else {
            SpecParsed { node: None, next: pos, errs: Seq::<ParseError>::empty() }
        }
    }
}

/// The argument list's comma loop: one expression per `,`, then the closing
/// token.
pub open spec fn spec_list_loop(
    toks: Seq<SpecToken>,
    pos: int,
    end: TokenKind,
    acc: Seq<SpecExpr>,
) -> SpecParsed<Seq<SpecExpr>>
    decreases toks.len() - pos, 0int,
{
    if spec_peek_tok(toks, pos).kind != TokenKind::Comma {
        let st = spec_expect(toks, pos, end);
        if st.ok {
            SpecParsed { node: Some(acc), next: st.next, errs: Seq::<ParseError>::empty() }
        } else {
            SpecParsed { node: None, next: st.next, errs: st.errs }
        }
    } else {
        let q = spec_advance(toks, spec_advance(toks, pos));
        if pos < q <= toks.len() {
            let nx = spec_parse_expression(toks, q, LOWEST);
            match nx.node {
                None => SpecParsed { node: None, next: nx.next, errs: nx.errs },
                Some(e) => {
                    if pos < nx.next <= toks.len() {
                        let lp = spec_list_loop(toks, nx.next, end, acc.push(e));
                        SpecParsed { node: lp.node, next: lp.next, errs: nx.errs + lp.errs }
                    } else {
                        SpecParsed { node: None, next: nx.next, errs: nx.errs }
                    }
                },
            }
        } else {
            SpecParsed { node: None, next: pos, errs: Seq::<ParseError>::empty() }
        }
    }
}

/// What parsing a call expression at `pos` (the `(` after the callee)
/// yields, the callee `left` given.
pub open spec fn spec_parse_call(toks: Seq<SpecToken>, pos: int, left: SpecExpr) -> SpecParsed<
    SpecExpr,
>
    decreases toks.len() - pos, 2int,
{
    let tok = spec_cur_tok(toks, pos);
    let lst = spec_parse_list(toks, pos, TokenKind::Rparen);
    match lst.node {
        Some(arguments) => SpecParsed {
            node: Some(
                SpecExpr::Call { token: tok, function: Box::new(left), arguments },
            ),
            next: lst.next,
            errs: lst.errs,
        },
        None => SpecParsed { node: None, next: lst.next, errs: lst.errs },
    }
}

/// What parsing an infix expression at `pos` (the operator) yields, the
/// left operand given; the right side is parsed at the operator's own
/// binding strength, so equal strengths associate to the left.
pub open spec fn spec_parse_infix(toks: Seq<SpecToken>, pos: int, left: SpecExpr) -> SpecParsed<
    SpecExpr,
>
    decreases toks.len() - pos, 2int,
{
    let tok = spec_cur_tok(toks, pos);
    let p1 = spec_advance(toks, pos);
    if pos < p1 <= toks.len() {
        let rhs = spec_parse_expression(toks, p1, spec_precedence(tok.kind));
        match rhs.node {
            Some(right) => SpecParsed {
                node: Some(
                    SpecExpr::Infix {
                        token: tok,
                        left: Box::new(left),
                        operator: tok.literal,
                        right: Box::new(right),
                    },
                ),
                next: rhs.next,
                errs: rhs.errs,
            },
            None => SpecParsed { node: None, next: rhs.next, errs: rhs.errs },
        }
    } else {
        SpecParsed { node: None, next: pos, errs: Seq::<ParseError>::empty() }
    }
}

/// The infix loop: while the next token binds strictly tighter than `prec`,
/// fold one infix or call rule into the running left operand.
pub open spec fn spec_infix_loop(
    toks: Seq<SpecToken>,
    pos: int,
    prec: u8,
    left: SpecExpr,
) -> SpecParsed<SpecExpr>
    decreases toks.len() - pos, 2int,
{
    let pk = spec_peek_tok(toks, pos).kind;
    if !(prec < spec_precedence(pk)) {
        SpecParsed { node: Some(left), next: pos, errs: Seq::<ParseError>::empty() }
    } else {
        let p1 = spec_advance(toks, pos);
        if pos < p1 <= toks.len() {
            let step = if pk == TokenKind::Lparen {
                spec_parse_call(toks, p1, left)
            } else {
                spec_parse_infix(toks, p1, left)
            };
            match step.node {
                None => SpecParsed { node: None, next: step.next, errs: step.errs },
                Some(left2) => {
                    if pos < step.next <= toks.len() {
                        let rest = spec_infix_loop(toks, step.next, prec, left2);
                        SpecParsed {
                            node: rest.node,
                            next: rest.next,
                            errs: step.errs + rest.errs,
                        }
                    } else {
                        SpecParsed { node: Some(left2), next: step.next, errs: step.errs }
                    }
                },
            }
        } else {
            SpecParsed { node: Some(left), next: pos, errs: Seq::<ParseError>::empty() }
        }
    }
}

/// What one prefix rule yields at `pos`: the expression the token under
/// the cursor can start, or a no-prefix-rule error.
pub open spec fn spec_parse_prefix_rule(toks: Seq<SpecToken>, pos: int) -> SpecParsed<SpecExpr>
    decreases toks.len() - pos, 3int,
{
    let k = spec_cur_tok(toks, pos).kind;
    if k == TokenKind::Ident {
        SpecParsed {
            node: Some(
                SpecExpr::Ident {
                    token: spec_cur_tok(toks, pos),
                    name: spec_cur_tok(toks, pos).literal,
                },
            ),
            next: pos,
            errs: Seq::<ParseError>::empty(),
        }
    } else if k == TokenKind::Int {
        spec_parse_int(toks, pos)
    } else if k == TokenKind::True || k == TokenKind::False {
        SpecParsed {
            node: Some(
                SpecExpr::BoolLit {
                    token: spec_cur_tok(toks, pos),
                    value: k == TokenKind::True,
                },
            ),
            next: pos,
            errs: Seq::<ParseError>::empty(),
        }
    } else if k == TokenKind::Bang || k == TokenKind::Minus {
        spec_parse_prefix(toks, pos)
    } else if k == TokenKind::Lparen {
        spec_parse_grouped(toks, pos)
    } else if k == TokenKind::If {
        spec_parse_if(toks, pos)
    } else if k == TokenKind::Function {
        spec_parse_function(toks, pos)
    } else {
        SpecParsed {
            node: None,
            next: pos,
            errs: seq![ParseError::NoPrefixRule { position: pos as usize, found: k }],
        }
    }
}

/// What parsing one expression at minimum binding strength `prec` from
/// `pos` yields: one prefix rule, then the infix loop.
pub open spec fn spec_parse_expression(toks: Seq<SpecToken>, pos: int, prec: u8) -> SpecParsed<
    SpecExpr,
>
    decreases toks.len() - pos, 4int,
{
    let first = spec_parse_prefix_rule(toks, pos);
    match first.node {
        None => SpecParsed { node: None, next: first.next, errs: first.errs },
        Some(left) => {
            if pos <= first.next <= toks.len() {
                let lp = spec_infix_loop(toks, first.next, prec, left);
                SpecParsed { node: lp.node, next: lp.next, errs: first.errs + lp.errs }
            } else {
                SpecParsed { node: Some(left), next: first.next, errs: first.errs }
            }
        },
    }
}

/// What parsing a `{`…`}` block at `pos` (the `{`) yields; a block the
/// input ends inside is an error.
pub open spec fn spec_parse_block(toks: Seq<SpecToken>, pos: int) -> SpecParsed<SpecBlock>
    decreases toks.len() - pos, 2int,
{
    let tok = spec_cur_tok(toks, pos);
    let p1 = spec_advance(toks, pos);
    if pos < p1 <= toks.len() {
        let bs = spec_block_stmts(toks, p1);
        if spec_cur_tok(toks, bs.next).kind == TokenKind::Rbrace {
            SpecParsed {
                node: Some(SpecBlock { token: tok, statements: bs.stmts }),
                next: bs.next,
                errs: bs.errs,
            }
        } else {
            SpecParsed {
                node: None,
                next: bs.next,
                errs: bs.errs + seq![
                    ParseError::Expected {
                        position: bs.next as usize,
                        expected: TokenKind::Rbrace,
                        found: spec_cur_tok(toks, bs.next).kind,
                    },
                ],
            }
        }
    } else {
        SpecParsed { node: None, next: pos, errs: Seq::<ParseError>::empty() }
    }
}

/// The statement loop of a block: statements until `}` or end of input,
/// with resynchronization after a failed statement.
#[verifier::opaque]
pub open spec fn spec_block_stmts(toks: Seq<SpecToken>, pos: int) -> SpecParsedStmts
    decreases toks.len() - pos, 7int,
{
    let k = spec_cur_tok(toks, pos).kind;
    if k == TokenKind::Rbrace || k == TokenKind::Eof {
        SpecParsedStmts { stmts: Seq::<SpecStmt>::empty(), next: pos, errs: Seq::<ParseError>::empty() }
    } else {
        let st = spec_parse_statement(toks, pos);
        match st.node {
            Some(s) => {
                let p2 = spec_advance(toks, st.next);
                if pos < p2 <= toks.len() {
                    let rest = spec_block_stmts(toks, p2);
                    SpecParsedStmts {
                        stmts: seq![s] + rest.stmts,
                        next: rest.next,
                        errs: st.errs + rest.errs,
                    }
                } else {
                    SpecParsedStmts { stmts: seq![s], next: p2, errs: st.errs }
                }
            },
            None => {
                let pb = spec_sync(toks, st.next);
                let p2 = if spec_cur_tok(toks, pb).kind == TokenKind::Semicolon {
                    spec_advance(toks, pb)
                } else {
                    pb
                };
                if pos < p2 <= toks.len() {
                    let rest = spec_block_stmts(toks, p2);
                    SpecParsedStmts {
                        stmts: rest.stmts,
                        next: rest.next,
                        errs: st.errs + rest.errs,
                    }
                } else {
                    SpecParsedStmts { stmts: Seq::<SpecStmt>::empty(), next: p2, errs: st.errs }
                }
            },
        }
    }
}

/// What parsing a `let` statement at `pos` yields.
pub open spec fn spec_parse_let(toks: Seq<SpecToken>, pos: int) -> SpecParsed<SpecStmt>
    decreases toks.len() - pos, 5int,
{
    let tok = spec_cur_tok(toks, pos);
    let st1 = spec_expect(toks, pos, TokenKind::Ident);
    if !st1.ok {
        SpecParsed { node: None, next: st1.next, errs: st1.errs }
    } else {
        let name = SpecIdent {
            token: spec_cur_tok(toks, st1.next),
            name: spec_cur_tok(toks, st1.next).literal,
        };
        let st2 = spec_expect(toks, st1.next, TokenKind::Assign);
        if !st2.ok {
            SpecParsed { node: None, next: st2.next, errs: st2.errs }
        } else {
            let p1 = spec_advance(toks, st2.next);
            if pos < p1 <= toks.len() {
                let v = spec_parse_expression(toks, p1, LOWEST);
                match v.node {
                    None => SpecParsed { node: None, next: v.next, errs: v.errs },
                    Some(value) => {
                        let p2 = if spec_peek_tok(toks, v.next).kind == TokenKind::Semicolon {
                            spec_advance(toks, v.next)
                        } else {
                            v.next
                        };
                        SpecParsed {
                            node: Some(SpecStmt::Let { token: tok, name, value }),
                            next: p2,
                            errs: v.errs,
                        }
                    },
                }
            } else {
                SpecParsed { node: None, next: st2.next, errs: Seq::<ParseError>::empty() }
            }
        }
    }
}

/// What parsing a `return` statement at `pos` yields.
pub open spec fn spec_parse_return(toks: Seq<SpecToken>, pos: int) -> SpecParsed<SpecStmt>
    decreases toks.len() - pos, 5int,
{
    let tok = spec_cur_tok(toks, pos);
    let p1 = spec_advance(toks, pos);
    if pos < p1 <= toks.len() {
        let v = spec_parse_expression(toks, p1, LOWEST);
        match v.node {
            None => SpecParsed { node: None, next: v.next, errs: v.errs },
            Some(value) => {
                let p2 = if spec_peek_tok(toks, v.next).kind == TokenKind::Semicolon {
                    spec_advance(toks, v.next)
                } else {
                    v.next
                };
                SpecParsed {
                    node: Some(SpecStmt::Return { token: tok, value }),
                    next: p2,
                    errs: v.errs,
                }
            },
        }
    } else {
        SpecParsed { node: None, next: pos, errs: Seq::<ParseError>::empty() }
    }
}

/// What parsing a bare expression statement at `pos` yields.
pub open spec fn spec_parse_exprstmt(toks: Seq<SpecToken>, pos: int) -> SpecParsed<SpecStmt>
    decreases toks.len() - pos, 5int,
{
    let tok = spec_cur_tok(toks, pos);
    let e = spec_parse_expression(toks, pos, LOWEST);
    match e.node {
        None => SpecParsed { node: None, next: e.next, errs: e.errs },
        Some(expression) => {
            let p2 = if spec_peek_tok(toks, e.next).kind == TokenKind::Semicolon {
                spec_advance(toks, e.next)
            } else {
                e.next
            };
            SpecParsed {
                node: Some(SpecStmt::Expression { token: tok, expression }),
                next: p2,
                errs: e.errs,
            }
        },
    }
}

/// What parsing one statement at `pos` yields: dispatch on the token under
/// the cursor.
pub open spec fn spec_parse_statement(toks: Seq<SpecToken>, pos: int) -> SpecParsed<SpecStmt>
    decreases toks.len() - pos, 6int,
{
    let k = spec_cur_tok(toks, pos).kind;
    if k == TokenKind::Let {
        spec_parse_let(toks, pos)
    } else if k == TokenKind::Return {
        spec_parse_return(toks, pos)
    } else {
        spec_parse_exprstmt(toks, pos)
    }
}

/// What parsing a whole program from `pos` yields: statements until `Eof`,
/// with resynchronization after each failed statement, and every error in
/// source order.
#[verifier::opaque]
pub open spec fn spec_parse_program(toks: Seq<SpecToken>, pos: int) -> SpecParsedStmts
    decreases toks.len() - pos, 8int,
{
    if spec_cur_tok(toks, pos).kind == TokenKind::Eof {
        SpecParsedStmts { stmts: Seq::<SpecStmt>::empty(), next: pos, errs: Seq::<ParseError>::empty() }
    } else {
        let st = spec_parse_statement(toks, pos);
        match st.node {
            Some(s) => {
                let p2 = spec_advance(toks, st.next);
                if pos < p2 <= toks.len() {
                    let rest = spec_parse_program(toks, p2);
                    SpecParsedStmts {
                        stmts: seq![s] + rest.stmts,
                        next: rest.next,
                        errs: st.errs + rest.errs,
                    }
                } else {
                    SpecParsedStmts { stmts: seq![s], next: p2, errs: st.errs }
                }
            },
            None => {
                let pb = spec_sync(toks, st.next);
                let k2 = spec_cur_tok(toks, pb).kind;
                let p2 = if k2 == TokenKind::Semicolon || k2 == TokenKind::Rbrace {
                    spec_advance(toks, pb)
                } else {
                    pb
                };
                if pos < p2 <= toks.len() {
                    let rest = spec_parse_program(toks, p2);
                    SpecParsedStmts {
                        stmts: rest.stmts,
                        next: rest.next,
                        errs: st.errs + rest.errs,
                    }
                } else {
                    SpecParsedStmts { stmts: Seq::<SpecStmt>::empty(), next: p2, errs: st.errs }
                }
            },
        }
    }
}

/// The parser: the materialized token stream, the cursor position in it
/// (`current` is the token under the position, `peek` the one after), and
/// the syntax errors recorded so far.
pub struct Parser {
    tokens: Vec<Token>,
    position: usize,
    errors: Vec<ParseError>,
}

impl Parser {
    /// The token stream under parse.
    pub closed spec fn toks(&self) -> Seq<SpecToken> {
        self.tokens@.map_values(|t: Token| t@)
    }

    /// The cursor position in the token stream.
    pub closed spec fn pos(&self) -> int {
        self.position as int
    }

    /// The syntax errors recorded so far, in source order.
    pub closed spec fn errs(&self) -> Seq<ParseError> {
        self.errors@
    }

    /// The token under the cursor.
    pub open spec fn spec_cur(&self) -> SpecToken {
        self.toks()[self.pos()]
    }

    /// The token one ahead of the cursor; at the last token (always `Eof`)
    /// the stream repeats it.
    pub open spec fn spec_peek(&self) -> SpecToken {
        if self.pos() + 1 < self.toks().len() {
            self.toks()[self.pos() + 1]
        } else {
            self.toks()[self.toks().len() - 1]
        }
    }

    /// The cursor invariant: the stream is non-empty, exactly its last token
    /// is `Eof`, and the cursor stands on some token of the stream.
    pub open spec fn wf(&self) -> bool {
        &&& self.toks().len() >= 1
        &&& 0 <= self.pos() < self.toks().len()
        &&& self.toks()[self.toks().len() - 1].kind == TokenKind::Eof
        &&& forall|i: int|
            0 <= i < self.toks().len() - 1 ==> (#[trigger] self.toks()[i]).kind != TokenKind::Eof
    }

    /// Build a parser by draining the given lexer: the parser holds exactly
    /// the token stream the scan produces from the lexer's position, stands
    /// on its first token, and has no errors recorded.
    pub fn new(lexer: Lexer) -> (parser: Parser)
        requires
            lexer.wf(),
        ensures
            parser.wf(),
            parser.pos() == 0,
            parser.errs() == Seq::<ParseError>::empty(),
            parser.toks() == spec_tokens(lexer.src(), lexer.pos()),
    {
        let ghost src = lexer.src();
        let ghost start = lexer.pos();
        proof {
            lexer.lemma_wf_pos();
        }
        let mut lexer = lexer;
        let mut tokens: Vec<Token> = Vec::new();
        #[verifier::loop_isolation(true)]
        loop
            invariant_except_break
                tokens@.map_values(|t: Token| t@) + spec_tokens(src, lexer.pos()) == spec_tokens(
                    src,
                    start,
                ),
                forall|k: int|
                    0 <= k < tokens@.len() ==> (#[trigger] tokens@[k])@.kind != TokenKind::Eof,
            invariant
                lexer.wf(),
                lexer.src() == src,
                0 <= lexer.pos() <= src.len(),
            ensures
                tokens@.map_values(|t: Token| t@) == spec_tokens(src, start),
                tokens@.len() >= 1,
                tokens@[tokens@.len() - 1]@.kind == TokenKind::Eof,
                forall|k: int|
                    0 <= k < tokens@.len() - 1 ==> (#[trigger] tokens@[k])@.kind != TokenKind::Eof,
            decreases src.len() - lexer.pos(),
        {
            let ghost before = lexer.pos();
            let tok = lexer.next_token();
            proof {
                lemma_scan_progress(src, before);
            }
            let is_eof = tok.kind == TokenKind::Eof;
            tokens.push(tok);
            proof {
                assert(tokens@.map_values(|t: Token| t@) =~= tokens@.subrange(
                    0,
                    tokens@.len() - 1,
                ).map_values(|t: Token| t@) + seq![tok@]);
                assert(tokens@.subrange(0, tokens@.len() - 1) =~= tokens@.drop_last());
            }
            if is_eof {
                break;
            }
        }
        let parser = Parser { tokens, position: 0, errors: Vec::new() };
        proof {
            assert(parser.toks() == spec_tokens(src, start));
        }
        parser
    }

    /// The class of the token under the cursor.
    fn cur_kind(&self) -> (k: TokenKind)
        requires
            self.wf(),
        ensures
            k == self.spec_cur().kind,
    {
        self.tokens[self.position].kind
    }

    /// The class of the token one ahead of the cursor.
    fn peek_kind(&self) -> (k: TokenKind)
        requires
            self.wf(),
        ensures
            k == self.spec_peek().kind,
    {
        let n = self.tokens.len();
        proof {
            assert(self.tokens@.len() == self.toks().len());
        }
        if self.position + 1 < n {
            self.tokens[self.position + 1].kind
        } else {
            self.tokens[n - 1].kind
        }
    }

    /// A copy of the token under the cursor.
    fn clone_cur(&self) -> (t: Token)
        requires
            self.wf(),
        ensures
            t@ == self.spec_cur(),
    {
        let tok = &self.tokens[self.position];
        Token { kind: tok.kind, literal: tok.literal.clone() }
    }

    /// The syntax errors recorded so far, in source order.
    pub fn errors(&self) -> (r: &Vec<ParseError>)
        ensures
            r@ == self.errs(),
    {
        &self.errors
    }

    /// Advance the cursor: `peek` becomes `current`. At the final `Eof` the
    /// cursor stays put: the stream's terminal state is idempotent.
    fn next_token(&mut self)
        requires
            old(self).wf(),
        ensures
            final(self).wf(),
            final(self).toks() == old(self).toks(),
            final(self).errs() == old(self).errs(),
            old(self).spec_cur().kind != TokenKind::Eof ==> final(self).pos() == old(self).pos()
                + 1,
            old(self).spec_cur().kind == TokenKind::Eof ==> final(self).pos() == old(self).pos(),
            final(self).pos() == spec_advance(old(self).toks(), old(self).pos()),
    {
        let n = self.tokens.len();
        proof {
            assert(self.tokens@.len() == self.toks().len());
        }
        if self.position + 1 < n {
            self.position = self.position + 1;
        }
    }

    /// Record that `expected` was required but the token at `position` has
    /// class `found`.
    fn push_expected_error(&mut self, position: usize, expected: TokenKind, found: TokenKind)
        requires
            old(self).wf(),
        ensures
            final(self).wf(),
            final(self).toks() == old(self).toks(),
            final(self).pos() == old(self).pos(),
            final(self).errs() == old(self).errs().push(
                ParseError::Expected { position, expected, found },
            ),
    {
        self.errors.push(ParseError::Expected { position, expected, found });
    }

    /// If the next token has the required class, advance onto it; otherwise
    /// record an expected-vs-found error and stay put.
    fn expect_peek(&mut self, kind: TokenKind) -> (ok: bool)
        requires
            old(self).wf(),
            kind != TokenKind::Eof,
        ensures
            final(self).wf(),
            final(self).toks() == old(self).toks(),
            ok == (old(self).spec_peek().kind == kind),
            ok ==> final(self).pos() == old(self).pos() + 1 && final(self).errs() == old(
                self,
            ).errs() && final(self).spec_cur().kind == kind,
            !ok ==> final(self).pos() == old(self).pos() && final(self).errs() == old(
                self,
            ).errs().push(
                ParseError::Expected {
                    position: (old(self).pos() + 1) as usize,
                    expected: kind,
                    found: old(self).spec_peek().kind,
                },
            ),
            ok == spec_expect(old(self).toks(), old(self).pos(), kind).ok,
            final(self).pos() == spec_expect(old(self).toks(), old(self).pos(), kind).next,
            final(self).errs() == old(self).errs() + spec_expect(
                old(self).toks(),
                old(self).pos(),
                kind,
            ).errs,
    {
        let found = self.peek_kind();
        if found == kind {
            self.next_token();
            proof {
                assert(self.errs() =~= old(self).errs() + Seq::<ParseError>::empty());
            }
            true
        } else {
            let n = self.tokens.len();
            proof {
                assert(self.tokens@.len() == self.toks().len());
                assert(self.position < n);
            }
            let position = self.position + 1;
            self.push_expected_error(position, kind, found);
            proof {
                assert(self.errs() =~= old(self).errs() + spec_expect(
                    old(self).toks(),
                    old(self).pos(),
                    kind,
                ).errs);
            }
            false
        }
    }

    /// Skip tokens up to the next statement boundary: a `;`, a block-closing
    /// `}`, or end of input. Error recovery resumes parsing there.
    fn synchronize(&mut self)
        requires
            old(self).wf(),
        ensures
            final(self).wf(),
            final(self).toks() == old(self).toks(),
            final(self).errs() == old(self).errs(),
            final(self).pos() >= old(self).pos(),
            final(self).spec_cur().kind == TokenKind::Semicolon || final(self).spec_cur().kind
                == TokenKind::Rbrace || final(self).spec_cur().kind == TokenKind::Eof,
            final(self).pos() == spec_sync(old(self).toks(), old(self).pos()),
    {
        #[verifier::loop_isolation(true)]
        loop
            invariant
                self.wf(),
                self.toks() == old(self).toks(),
                self.errs() == old(self).errs(),
                self.pos() >= old(self).pos(),
                spec_sync(self.toks(), self.pos()) == spec_sync(old(self).toks(), old(self).pos()),
            ensures
                self.spec_cur().kind == TokenKind::Semicolon || self.spec_cur().kind
                    == TokenKind::Rbrace || self.spec_cur().kind == TokenKind::Eof,
                self.pos() == spec_sync(old(self).toks(), old(self).pos()),
            decreases self.toks().len() - self.pos(),
        {
            let k = self.cur_kind();
            if k == TokenKind::Semicolon || k == TokenKind::Rbrace || k == TokenKind::Eof {
                break;
            }
            self.next_token();
        }
    }

    /// Record that the token under the cursor can start no expression.
    fn push_no_prefix_error(&mut self)
        requires
            old(self).wf(),
        ensures
            final(self).wf(),
            final(self).toks() == old(self).toks(),
            final(self).pos() == old(self).pos(),
            final(self).errs() == old(self).errs().push(
                ParseError::NoPrefixRule {
                    position: old(self).pos() as usize,
                    found: old(self).spec_cur().kind,
                },
            ),
    {
        let position = self.position;
        let found = self.cur_kind();
        self.errors.push(ParseError::NoPrefixRule { position, found });
    }

    /// An identifier expression from the token under the cursor; the cursor
    /// stays on it.
    fn parse_identifier(&self) -> (e: ExpressionNode)
        requires
            self.wf(),
            self.spec_cur().kind == TokenKind::Ident,
        ensures
            e matches ExpressionNode::IdentifierNode(id) && id.token@ == self.spec_cur()
                && id.value@ == self.spec_cur().literal,
            wf_expr(e),
    {
        let token = self.clone_cur();
        let value = token.literal.clone();
        ExpressionNode::IdentifierNode(Identifier { token, value })
    }

    /// A boolean literal from the token under the cursor; the cursor stays
    /// on it.
    fn parse_boolean(&self) -> (e: ExpressionNode)
        requires
            self.wf(),
            self.spec_cur().kind == TokenKind::True || self.spec_cur().kind == TokenKind::False,
        ensures
            e matches ExpressionNode::BooleanNode(b) && b.token@ == self.spec_cur() && b.value == (
            self.spec_cur().kind == TokenKind::True),
            wf_expr(e),
    {
        let token = self.clone_cur();
        let value = token.kind == TokenKind::True;
        ExpressionNode::BooleanNode(BooleanLiteral { token, value })
    }

    /// An integer literal from the token under the cursor, which stays put.
    /// Succeeds exactly when the token's text is all digits and its value
    /// fits in the value range; otherwise records an error.
    fn parse_integer_literal(&mut self) -> (r: Option<ExpressionNode>)
        requires
            old(self).wf(),
            old(self).spec_cur().kind == TokenKind::Int,
        ensures
            parse_step(*old(self), *final(self), r is Some),
            final(self).pos() == old(self).pos(),
            r matches Some(e) ==> wf_expr(e),
            (r is Some) <==> spec_all_digits(old(self).spec_cur().literal) && spec_digits_val(
                old(self).spec_cur().literal,
            ) <= u64::MAX,
            final(self).errs() == old(self).errs() + spec_parse_int(
                old(self).toks(),
                old(self).pos(),
            ).errs,
            r matches Some(e) ==> spec_parse_int(old(self).toks(), old(self).pos()).node == Some(
                abs_expr(e),
            ),
            r is None ==> spec_parse_int(old(self).toks(), old(self).pos()).node is None,
            r matches Some(e) ==> e matches ExpressionNode::IntegerLiteralNode(il) && il.token@
                == old(self).spec_cur() && il.value == spec_digits_val(
                old(self).spec_cur().literal,
            ),
    {
        let token = self.clone_cur();
        let ghost lit = token.literal@;
        let n = token.literal.unicode_len();
        let mut value: u64 = 0;
        let mut i: usize = 0;
        proof {
            assert(lit.subrange(0, 0) =~= Seq::<char>::empty());
        }
        while i < n
            invariant
                i <= n,
                n == lit.len(),
                token.literal@ == lit,
                value == spec_digits_val(lit.subrange(0, i as int)),
                forall|j: int| 0 <= j < i ==> spec_is_digit(#[trigger] lit[j]),
                self == old(self),
            decreases n - i,
        {
            let ch = token.literal.as_str().get_char(i);
            let u = ch as u32;
            if u < '0' as u32 || u > '9' as u32 {
                proof {
                    assert(!spec_is_digit(lit[i as int]));
                    assert(self.errs().push(ParseError::InvalidInteger { position: old(self).pos() as usize })
                        =~= old(self).errs() + spec_parse_int(old(self).toks(), old(self).pos()).errs);
                }
                let position = self.position;
                self.errors.push(ParseError::InvalidInteger { position });
                return None;
            }
            let d = (u - '0' as u32) as u64;
            let ghost prefix = lit.subrange(0, i as int);
            let ghost extended = lit.subrange(0, i as int + 1);
            proof {
                assert(extended.drop_last() =~= prefix);
                assert(extended.last() == lit[i as int]);
            }
            let stepped = match value.checked_mul(10) {
                Some(v) => v.checked_add(d),
                None => None,
            };
            match stepped {
                Some(v) => {
                    value = v;
                },
                None => {
                    proof {
                        assert(spec_digits_val(extended) > u64::MAX);
                        if spec_all_digits(lit) {
                            lemma_digits_val_prefix(lit, i as int + 1);
                        }
                    }
                    proof {
                        assert(self.errs().push(ParseError::InvalidInteger { position: old(self).pos() as usize })
                            =~= old(self).errs() + spec_parse_int(old(self).toks(), old(self).pos()).errs);
                    }
                    let position = self.position;
                    self.errors.push(ParseError::InvalidInteger { position });
                    return None;
                },
            }
            i = i + 1;
        }
        proof {
            assert(lit.subrange(0, n as int) =~= lit);
            assert(self.errs() =~= old(self).errs() + spec_parse_int(
                old(self).toks(),
                old(self).pos(),
            ).errs);
        }
        Some(ExpressionNode::IntegerLiteralNode(IntegerLiteral { token, value }))
    }

    /// A unary prefix expression: the operator under the cursor applied to
    /// the expression after it.
    fn parse_prefix_expression(&mut self) -> (r: Option<ExpressionNode>)
        requires
            old(self).wf(),
            old(self).spec_cur().kind == TokenKind::Bang || old(self).spec_cur().kind
                == TokenKind::Minus,
        ensures
            parse_step(*old(self), *final(self), r is Some),
            r matches Some(e) ==> wf_expr(e),
            final(self).pos() == spec_parse_prefix(old(self).toks(), old(self).pos()).next,
            final(self).errs() == old(self).errs() + spec_parse_prefix(
                old(self).toks(),
                old(self).pos(),
            ).errs,
            r matches Some(e) ==> spec_parse_prefix(old(self).toks(), old(self).pos()).node
                == Some(abs_expr(e)),
            r is None ==> spec_parse_prefix(old(self).toks(), old(self).pos()).node is None,
        decreases old(self).toks().len() - old(self).pos(), 2int,
    {
        let token = self.clone_cur();
        let operator = token.literal.clone();
        self.next_token();
        match self.parse_expression(PREFIX) {
            Some(right) => Some(
                ExpressionNode::PrefixNode(
                    PrefixExpression { token, operator, right: Box::new(right) },
                ),
            ),
            None => None,
        }
    }

    /// A parenthesized expression: `(` inner `)`; the grouping leaves no
    /// node of its own.
    fn parse_grouped_expression(&mut self) -> (r: Option<ExpressionNode>)
        requires
            old(self).wf(),
            old(self).spec_cur().kind == TokenKind::Lparen,
        ensures
            parse_step(*old(self), *final(self), r is Some),
            r matches Some(e) ==> wf_expr(e),
            final(self).pos() == spec_parse_grouped(old(self).toks(), old(self).pos()).next,
            final(self).errs() == old(self).errs() + spec_parse_grouped(
                old(self).toks(),
                old(self).pos(),
            ).errs,
            r matches Some(e) ==> spec_parse_grouped(old(self).toks(), old(self).pos()).node
                == Some(abs_expr(e)),
            r is None ==> spec_parse_grouped(old(self).toks(), old(self).pos()).node is None,
        decreases old(self).toks().len() - old(self).pos(), 2int,
    {
        let ghost t = old(self).toks();
        let ghost p0 = old(self).pos();
        let ghost sinner = spec_parse_expression(t, spec_advance(t, p0), LOWEST);
        let ghost sst = spec_expect(t, sinner.next, TokenKind::Rparen);
        self.next_token();
        match self.parse_expression(LOWEST) {
            Some(exp) => {
                if self.expect_peek(TokenKind::Rparen) {
                    proof {
                        assert(self.errs() =~= old(self).errs() + (sinner.errs + sst.errs));
                    }
                    Some(exp)
                } else {
                    proof {
                        assert(self.errs() =~= old(self).errs() + (sinner.errs + sst.errs));
                    }
                    None
                }
            },
            None => None,
        }
    }

    /// `if (<condition>) <consequence>`, optionally followed by
    /// `else <alternative>`.
    #[verifier::rlimit(100)]
    fn parse_if_expression(&mut self) -> (r: Option<ExpressionNode>)
        requires
            old(self).wf(),
            old(self).spec_cur().kind == TokenKind::If,
        ensures
            parse_step(*old(self), *final(self), r is Some),
            r matches Some(e) ==> wf_expr(e),
            final(self).pos() == spec_parse_if(old(self).toks(), old(self).pos()).next,
            final(self).errs() == old(self).errs() + spec_parse_if(
                old(self).toks(),
                old(self).pos(),
            ).errs,
            r matches Some(e) ==> spec_parse_if(old(self).toks(), old(self).pos()).node == Some(
                abs_expr(e),
            ),
            r is None ==> spec_parse_if(old(self).toks(), old(self).pos()).node is None,
        decreases old(self).toks().len() - old(self).pos(), 2int,
    {
        let ghost t = old(self).toks();
        let ghost p0 = old(self).pos();
        let ghost sst1 = spec_expect(t, p0, TokenKind::Lparen);
        let ghost scnd = spec_parse_expression(t, spec_advance(t, sst1.next), LOWEST);
        let ghost sst2 = spec_expect(t, scnd.next, TokenKind::Rparen);
        let ghost sst3 = spec_expect(t, sst2.next, TokenKind::Lbrace);
        let ghost scons = spec_parse_block(t, sst3.next);
        let ghost sst4 = spec_expect(t, spec_advance(t, scons.next), TokenKind::Lbrace);
        let ghost salt = spec_parse_block(t, sst4.next);
        let token = self.clone_cur();
        if !self.expect_peek(TokenKind::Lparen) {
            return None;
        }
        self.next_token();
        let condition = match self.parse_expression(LOWEST) {
            Some(e) => e,
            None => {
                return None;
            },
        };
        if !self.expect_peek(TokenKind::Rparen) {
            proof {
                assert(self.errs() =~= old(self).errs() + (scnd.errs + sst2.errs));
            }
            return None;
        }
        if !self.expect_peek(TokenKind::Lbrace) {
            proof {
                assert(self.errs() =~= old(self).errs() + (scnd.errs + sst3.errs));
            }
            return None;
        }
        let consequence = match self.parse_block_statement() {
            Some(b) => b,
            None => {
                proof {
                    assert(self.errs() =~= old(self).errs() + (scnd.errs + scons.errs));
                }
                return None;
            },
        };
        proof {
            assert(self.errs() =~= old(self).errs() + (scnd.errs + scons.errs));
        }
        let alternative: Option<BlockStatement>;
        if self.peek_kind() == TokenKind::Else {
            self.next_token();
            if !self.expect_peek(TokenKind::Lbrace) {
                proof {
                    assert(self.errs() =~= old(self).errs() + (scnd.errs + scons.errs
                        + sst4.errs));
                }
                return None;
            }
            alternative = match self.parse_block_statement() {
                Some(b) => Some(b),
                None => {
                    proof {
                        assert(self.errs() =~= old(self).errs() + (scnd.errs + scons.errs
                            + salt.errs));
                    }
                    return None;
                },
            };
            proof {
                assert(self.errs() =~= old(self).errs() + (scnd.errs + scons.errs + salt.errs));
            }
        } else {
            alternative = None;
        }
        Some(
            ExpressionNode::IfNode(
                IfExpression { token, condition: Box::new(condition), consequence, alternative },
            ),
        )
    }

    /// `fn(<parameters>) <body>`.
    fn parse_function_literal(&mut self) -> (r: Option<ExpressionNode>)
        requires
            old(self).wf(),
            old(self).spec_cur().kind == TokenKind::Function,
        ensures
            parse_step(*old(self), *final(self), r is Some),
            r matches Some(e) ==> wf_expr(e),
            final(self).pos() == spec_parse_function(old(self).toks(), old(self).pos()).next,
            final(self).errs() == old(self).errs() + spec_parse_function(
                old(self).toks(),
                old(self).pos(),
            ).errs,
            r matches Some(e) ==> spec_parse_function(old(self).toks(), old(self).pos()).node
                == Some(abs_expr(e)),
            r is None ==> spec_parse_function(old(self).toks(), old(self).pos()).node is None,
        decreases old(self).toks().len() - old(self).pos(), 2int,
    {
        let ghost t = old(self).toks();
        let ghost p0 = old(self).pos();
        let ghost sst1 = spec_expect(t, p0, TokenKind::Lparen);
        let ghost sps = spec_parse_params(t, sst1.next);
        let ghost sst2 = spec_expect(t, sps.next, TokenKind::Lbrace);
        let ghost sb = spec_parse_block(t, sst2.next);
        let token = self.clone_cur();
        if !self.expect_peek(TokenKind::Lparen) {
            return None;
        }
        let parameters = match self.parse_function_parameters() {
            Some(p) => p,
            None => {
                return None;
            },
        };
        if !self.expect_peek(TokenKind::Lbrace) {
            proof {
                assert(self.errs() =~= old(self).errs() + (sps.errs + sst2.errs));
            }
            return None;
        }
        let body = match self.parse_block_statement() {
            Some(b) => b,
            None => {
                proof {
                    assert(self.errs() =~= old(self).errs() + (sps.errs + sb.errs));
                }
                return None;
            },
        };
        proof {
            assert(self.errs() =~= old(self).errs() + (sps.errs + sb.errs));
        }
        Some(ExpressionNode::FunctionNode(FunctionLiteral { token, parameters, body }))
    }

    /// The comma-separated identifier list of a function literal, up to and
    /// including the closing `)`.
    fn parse_function_parameters(&mut self) -> (r: Option<Vec<Identifier>>)
        requires
            old(self).wf(),
            old(self).spec_cur().kind == TokenKind::Lparen,
        ensures
            parse_step(*old(self), *final(self), r is Some),
            r matches Some(ps) ==> forall|i: int|
                0 <= i < ps@.len() ==> wf_ident(#[trigger] ps@[i]),
            final(self).pos() == spec_parse_params(old(self).toks(), old(self).pos()).next,
            final(self).errs() == old(self).errs() + spec_parse_params(
                old(self).toks(),
                old(self).pos(),
            ).errs,
            r matches Some(ps) ==> spec_parse_params(old(self).toks(), old(self).pos()).node
                == Some(abs_ident_list(ps@)),
            r is None ==> spec_parse_params(old(self).toks(), old(self).pos()).node is None,
    {
        let ghost t = old(self).toks();
        let ghost p0 = old(self).pos();
        let mut params: Vec<Identifier> = Vec::new();
        if self.peek_kind() == TokenKind::Rparen {
            self.next_token();
            proof {
                assert(abs_ident_list(params@) == Seq::<SpecIdent>::empty());
                assert(self.errs() =~= old(self).errs() + spec_parse_params(t, p0).errs);
            }
            return Some(params);
        }
        if !self.expect_peek(TokenKind::Ident) {
            return None;
        }
        let token = self.clone_cur();
        let value = token.literal.clone();
        params.push(Identifier { token, value });
        proof {
            assert(params@.drop_last() =~= Seq::<Identifier>::empty());
            assert(abs_ident_list(Seq::<Identifier>::empty()) == Seq::<SpecIdent>::empty());
            assert(abs_ident_list(params@) == abs_ident_list(params@.drop_last()).push(
                abs_ident(params@.last()),
            ));
            assert(abs_ident_list(params@) =~= seq![abs_ident(params@[0])]);
        }
        let r = self.parse_function_parameters_rest(params);
        proof {
            assert(self.errs() =~= old(self).errs() + spec_parse_params(t, p0).errs);
        }
        r
    }

    /// The comma loop of a parameter list: one identifier per `,`, then the
    /// closing `)`.
    fn parse_function_parameters_rest(&mut self, params: Vec<Identifier>) -> (r: Option<
        Vec<Identifier>,
    >)
        requires
            old(self).wf(),
            forall|i: int| 0 <= i < params@.len() ==> wf_ident(#[trigger] params@[i]),
        ensures
            parse_step(*old(self), *final(self), r is Some),
            r matches Some(ps) ==> forall|i: int|
                0 <= i < ps@.len() ==> wf_ident(#[trigger] ps@[i]),
            final(self).pos() == spec_params_loop(
                old(self).toks(),
                old(self).pos(),
                abs_ident_list(params@),
            ).next,
            final(self).errs() == old(self).errs() + spec_params_loop(
                old(self).toks(),
                old(self).pos(),
                abs_ident_list(params@),
            ).errs,
            r matches Some(ps) ==> spec_params_loop(
                old(self).toks(),
                old(self).pos(),
                abs_ident_list(params@),
            ).node == Some(abs_ident_list(ps@)),
            r is None ==> spec_params_loop(
                old(self).toks(),
                old(self).pos(),
                abs_ident_list(params@),
            ).node is None,
        decreases old(self).toks().len() - old(self).pos(),
    {
        let ghost t = old(self).toks();
        let ghost p0 = old(self).pos();
        if self.peek_kind() != TokenKind::Comma {
            if self.expect_peek(TokenKind::Rparen) {
                proof {
                    assert(self.errs() =~= old(self).errs() + spec_params_loop(
                        t,
                        p0,
                        abs_ident_list(params@),
                    ).errs);
                }
                Some(params)
            } else {
                None
            }
        } else {
            self.next_token();
            if !self.expect_peek(TokenKind::Ident) {
                proof {
                    assert(self.errs() =~= old(self).errs() + spec_params_loop(
                        t,
                        p0,
                        abs_ident_list(params@),
                    ).errs);
                }
                return None;
            }
            let token = self.clone_cur();
            let value = token.literal.clone();
            let mut params = params;
            let ghost base = params@;
            params.push(Identifier { token, value });
            proof {
                assert(params@.drop_last() =~= base);
            }
            self.parse_function_parameters_rest(params)
        }
    }

    /// The comma-separated expression list of a call, up to and including
    /// the closing token.
    fn parse_expression_list(&mut self, end: TokenKind) -> (r: Option<Vec<ExpressionNode>>)
        requires
            old(self).wf(),
            old(self).spec_cur().kind == TokenKind::Lparen,
            end != TokenKind::Eof,
        ensures
            parse_step(*old(self), *final(self), r is Some),
            r matches Some(list) ==> forall|i: int|
                0 <= i < list@.len() ==> wf_expr(#[trigger] list@[i]),
            final(self).pos() > old(self).pos(),
            final(self).pos() == spec_parse_list(old(self).toks(), old(self).pos(), end).next,
            final(self).errs() == old(self).errs() + spec_parse_list(
                old(self).toks(),
                old(self).pos(),
                end,
            ).errs,
            r matches Some(list) ==> spec_parse_list(old(self).toks(), old(self).pos(), end).node
                == Some(abs_expr_list(list@)),
            r is None ==> spec_parse_list(old(self).toks(), old(self).pos(), end).node is None,
        decreases old(self).toks().len() - old(self).pos(), 1int,
    {
        let ghost t = old(self).toks();
        let ghost p0 = old(self).pos();
        let mut list: Vec<ExpressionNode> = Vec::new();
        if self.peek_kind() == end {
            self.next_token();
            proof {
                assert(abs_expr_list(list@) == Seq::<SpecExpr>::empty());
                assert(self.errs() =~= old(self).errs() + spec_parse_list(t, p0, end).errs);
            }
            return Some(list);
        }
        let ghost sfirst = spec_parse_expression(t, spec_advance(t, p0), LOWEST);
        self.next_token();
        match self.parse_expression(LOWEST) {
            Some(e) => list.push(e),
            None => {
                return None;
            },
        }
        proof {
            assert(list@.drop_last() =~= Seq::<ExpressionNode>::empty());
            assert(abs_expr_list(Seq::<ExpressionNode>::empty()) == Seq::<SpecExpr>::empty());
            assert(abs_expr_list(list@) == abs_expr_list(list@.drop_last()).push(
                abs_expr(list@.last()),
            ));
            assert(abs_expr_list(list@) =~= seq![abs_expr(list@[0])]);
        }
        let ghost acc0 = abs_expr_list(list@);
        let r = self.parse_expression_list_rest(end, list);
        proof {
            let lp = spec_list_loop(t, sfirst.next, end, acc0);
            assert(self.errs() =~= old(self).errs() + (sfirst.errs + lp.errs));
        }
        r
    }

    /// The comma loop of an expression list: one expression per `,`, then
    /// the closing token.
    fn parse_expression_list_rest(&mut self, end: TokenKind, list: Vec<ExpressionNode>) -> (r:
        Option<Vec<ExpressionNode>>)
        requires
            old(self).wf(),
            end != TokenKind::Eof,
            forall|i: int| 0 <= i < list@.len() ==> wf_expr(#[trigger] list@[i]),
        ensures
            parse_step(*old(self), *final(self), r is Some),
            r matches Some(l2) ==> forall|i: int|
                0 <= i < l2@.len() ==> wf_expr(#[trigger] l2@[i]),
            final(self).pos() == spec_list_loop(
                old(self).toks(),
                old(self).pos(),
                end,
                abs_expr_list(list@),
            ).next,
            final(self).errs() == old(self).errs() + spec_list_loop(
                old(self).toks(),
                old(self).pos(),
                end,
                abs_expr_list(list@),
            ).errs,
            r matches Some(l2) ==> spec_list_loop(
                old(self).toks(),
                old(self).pos(),
                end,
                abs_expr_list(list@),
            ).node == Some(abs_expr_list(l2@)),
            r is None ==> spec_list_loop(
                old(self).toks(),
                old(self).pos(),
                end,
                abs_expr_list(list@),
            ).node is None,
        decreases old(self).toks().len() - old(self).pos(), 1int,
    {
        let ghost t = old(self).toks();
        let ghost p0 = old(self).pos();
        if self.peek_kind() != TokenKind::Comma {
            if self.expect_peek(end) {
                proof {
                    assert(self.errs() =~= old(self).errs() + spec_list_loop(
                        t,
                        p0,
                        end,
                        abs_expr_list(list@),
                    ).errs);
                }
                Some(list)
            } else {
                None
            }
        } else {
            let ghost snx = spec_parse_expression(t, spec_advance(t, spec_advance(t, p0)), LOWEST);
            self.next_token();
            self.next_token();
            let mut list = list;
            let ghost base = list@;
            match self.parse_expression(LOWEST) {
                Some(e) => list.push(e),
                None => {
                    return None;
                },
            }
            proof {
                assert(list@.drop_last() =~= base);
            }
            let ghost acc1 = abs_expr_list(list@);
            let r = self.parse_expression_list_rest(end, list);
            proof {
                let lp = spec_list_loop(t, snx.next, end, acc1);
                assert(self.errs() =~= old(self).errs() + (snx.errs + lp.errs));
            }
            r
        }
    }

    /// A call expression: the given callee applied to the argument list that
    /// starts at the `(` under the cursor.
    fn parse_call_expression(&mut self, function: ExpressionNode) -> (r: Option<ExpressionNode>)
        requires
            old(self).wf(),
            old(self).spec_cur().kind == TokenKind::Lparen,
            wf_expr(function),
        ensures
            parse_step(*old(self), *final(self), r is Some),
            r matches Some(e) ==> wf_expr(e),
            final(self).pos() > old(self).pos(),
            final(self).pos() == spec_parse_call(
                old(self).toks(),
                old(self).pos(),
                abs_expr(function),
            ).next,
            final(self).errs() == old(self).errs() + spec_parse_call(
                old(self).toks(),
                old(self).pos(),
                abs_expr(function),
            ).errs,
            r matches Some(e) ==> spec_parse_call(
                old(self).toks(),
                old(self).pos(),
                abs_expr(function),
            ).node == Some(abs_expr(e)),
            r is None ==> spec_parse_call(
                old(self).toks(),
                old(self).pos(),
                abs_expr(function),
            ).node is None,
        decreases old(self).toks().len() - old(self).pos(), 2int,
    {
        let token = self.clone_cur();
        match self.parse_expression_list(TokenKind::Rparen) {
            Some(arguments) => Some(
                ExpressionNode::CallNode(
                    CallExpression { token, function: Box::new(function), arguments },
                ),
            ),
            None => None,
        }
    }

    /// An infix expression: the given left operand, the operator under the
    /// cursor, and the expression after it, parsed at the operator's own
    /// binding strength so that equal strengths associate to the left.
    fn parse_infix_expression(&mut self, left: ExpressionNode) -> (r: Option<ExpressionNode>)
        requires
            old(self).wf(),
            old(self).spec_cur().kind != TokenKind::Eof,
            wf_expr(left),
        ensures
            parse_step(*old(self), *final(self), r is Some),
            r matches Some(e) ==> wf_expr(e),
            final(self).pos() > old(self).pos(),
            final(self).pos() == spec_parse_infix(
                old(self).toks(),
                old(self).pos(),
                abs_expr(left),
            ).next,
            final(self).errs() == old(self).errs() + spec_parse_infix(
                old(self).toks(),
                old(self).pos(),
                abs_expr(left),
            ).errs,
            r matches Some(e) ==> spec_parse_infix(
                old(self).toks(),
                old(self).pos(),
                abs_expr(left),
            ).node == Some(abs_expr(e)),
            r is None ==> spec_parse_infix(
                old(self).toks(),
                old(self).pos(),
                abs_expr(left),
            ).node is None,
        decreases old(self).toks().len() - old(self).pos(), 2int,
    {
        let token = self.clone_cur();
        let operator = token.literal.clone();
        let prec = precedence_of(token.kind);
        self.next_token();
        match self.parse_expression(prec) {
            Some(right) => Some(
                ExpressionNode::InfixNode(
                    InfixExpression {
                        token,
                        left: Box::new(left),
                        operator,
                        right: Box::new(right),
                    },
                ),
            ),
            None => None,
        }
    }

    /// An expression at the given minimum binding strength: one prefix rule,
    /// then every infix whose strength strictly exceeds `precedence`, folded
    /// to the left.
    #[verifier::rlimit(100)]
    #[verifier::spinoff_prover]
    fn parse_expression(&mut self, precedence: u8) -> (r: Option<ExpressionNode>)
        requires
            old(self).wf(),
        ensures
            parse_step(*old(self), *final(self), r is Some),
            r matches Some(e) ==> wf_expr(e),
            final(self).pos() == spec_parse_expression(
                old(self).toks(),
                old(self).pos(),
                precedence,
            ).next,
            final(self).errs() == old(self).errs() + spec_parse_expression(
                old(self).toks(),
                old(self).pos(),
                precedence,
            ).errs,
            r matches Some(e) ==> spec_parse_expression(
                old(self).toks(),
                old(self).pos(),
                precedence,
            ).node == Some(abs_expr(e)),
            r is None ==> spec_parse_expression(
                old(self).toks(),
                old(self).pos(),
                precedence,
            ).node is None,
        decreases old(self).toks().len() - old(self).pos(), 3int,
    {
        let ghost t = old(self).toks();
        let ghost p0 = old(self).pos();
        let k = self.cur_kind();
        let mut left: ExpressionNode;
        if k == TokenKind::Ident {
            left = self.parse_identifier();
        } else if k == TokenKind::Int {
            match self.parse_integer_literal() {
                Some(e) => {
                    left = e;
                },
                None => {
                    return None;
                },
            }
        } else if k == TokenKind::True || k == TokenKind::False {
            left = self.parse_boolean();
        } else if k == TokenKind::Bang || k == TokenKind::Minus {
            match self.parse_prefix_expression() {
                Some(e) => {
                    left = e;
                },
                None => {
                    return None;
                },
            }
        } else if k == TokenKind::Lparen {
            match self.parse_grouped_expression() {
                Some(e) => {
                    left = e;
                },
                None => {
                    return None;
                },
            }
        } else if k == TokenKind::If {
            match self.parse_if_expression() {
                Some(e) => {
                    left = e;
                },
                None => {
                    return None;
                },
            }
        } else if k == TokenKind::Function {
            match self.parse_function_literal() {
                Some(e) => {
                    left = e;
                },
                None => {
                    return None;
                },
            }
        } else {
            self.push_no_prefix_error();
            proof {
                assert(self.errs() =~= old(self).errs() + spec_parse_expression(
                    t,
                    p0,
                    precedence,
                ).errs);
            }
            return None;
        }
        let ghost sfr = spec_parse_prefix_rule(t, p0);
        let ghost labs = abs_expr(left);
        proof {
            assert(sfr.node == Some(labs));
            assert(sfr.next == self.pos());
            assert(self.errs() =~= old(self).errs() + sfr.errs);
        }
        let r = self.parse_infix_loop(precedence, left);
        proof {
            let lp = spec_infix_loop(t, sfr.next, precedence, labs);
            assert(self.errs() =~= old(self).errs() + (sfr.errs + lp.errs));
        }
        r
    }

    /// The infix loop: while the next token binds strictly tighter than the
    /// given strength, fold one infix or call rule into the running left
    /// operand.
    fn parse_infix_loop(&mut self, precedence: u8, left: ExpressionNode) -> (r: Option<
        ExpressionNode,
    >)
        requires
            old(self).wf(),
            wf_expr(left),
        ensures
            parse_step(*old(self), *final(self), r is Some),
            r matches Some(e) ==> wf_expr(e),
            final(self).pos() == spec_infix_loop(
                old(self).toks(),
                old(self).pos(),
                precedence,
                abs_expr(left),
            ).next,
            final(self).errs() == old(self).errs() + spec_infix_loop(
                old(self).toks(),
                old(self).pos(),
                precedence,
                abs_expr(left),
            ).errs,
            r matches Some(e) ==> spec_infix_loop(
                old(self).toks(),
                old(self).pos(),
                precedence,
                abs_expr(left),
            ).node == Some(abs_expr(e)),
            r is None ==> spec_infix_loop(
                old(self).toks(),
                old(self).pos(),
                precedence,
                abs_expr(left),
            ).node is None,
        decreases old(self).toks().len() - old(self).pos(), 2int,
    {
        let ghost t = old(self).toks();
        let ghost p0 = old(self).pos();
        let pk = self.peek_kind();
        let pprec = precedence_of(pk);
        if !(precedence < pprec) {
            proof {
                assert(self.errs() =~= old(self).errs() + spec_infix_loop(
                    t,
                    p0,
                    precedence,
                    abs_expr(left),
                ).errs);
            }
            return Some(left);
        }
        if pk == TokenKind::Lparen {
            let ghost sstep = spec_parse_call(t, spec_advance(t, p0), abs_expr(left));
            self.next_token();
            match self.parse_call_expression(left) {
                Some(left2) => {
                    let ghost l2 = abs_expr(left2);
                    let r = self.parse_infix_loop(precedence, left2);
                    proof {
                        let rest = spec_infix_loop(t, sstep.next, precedence, l2);
                        assert(self.errs() =~= old(self).errs() + (sstep.errs + rest.errs));
                    }
                    r
                },
                None => None,
            }
        } else {
            let ghost sstep = spec_parse_infix(t, spec_advance(t, p0), abs_expr(left));
            self.next_token();
            match self.parse_infix_expression(left) {
                Some(left2) => {
                    let ghost l2 = abs_expr(left2);
                    let r = self.parse_infix_loop(precedence, left2);
                    proof {
                        let rest = spec_infix_loop(t, sstep.next, precedence, l2);
                        assert(self.errs() =~= old(self).errs() + (sstep.errs + rest.errs));
                    }
                    r
                },
                None => None,
            }
        }
    }

    /// A `{`…`}` block: the statement loop of `parse_program`, ended by the
    /// closing `}`. A block the input ends inside is an error.
    fn parse_block_statement(&mut self) -> (r: Option<BlockStatement>)
        requires
            old(self).wf(),
            old(self).spec_cur().kind == TokenKind::Lbrace,
        ensures
            parse_step(*old(self), *final(self), r is Some),
            r matches Some(b) ==> wf_block(b),
            final(self).pos() == spec_parse_block(old(self).toks(), old(self).pos()).next,
            final(self).errs() == old(self).errs() + spec_parse_block(
                old(self).toks(),
                old(self).pos(),
            ).errs,
            r matches Some(b) ==> spec_parse_block(old(self).toks(), old(self).pos()).node
                == Some(abs_block(b)),
            r is None ==> spec_parse_block(old(self).toks(), old(self).pos()).node is None,
        decreases old(self).toks().len() - old(self).pos(), 2int,
    {
        let ghost t = old(self).toks();
        let ghost p0 = old(self).pos();
        let ghost sbs = spec_block_stmts(t, spec_advance(t, p0));
        proof {
            reveal_with_fuel(spec_block_stmts, 1);
        }
        let token = self.clone_cur();
        self.next_token();
        let statements = self.parse_block_stmts(Vec::new());
        proof {
            assert(abs_stmts(statements@) =~= sbs.stmts);
        }
        if self.cur_kind() == TokenKind::Rbrace {
            Some(BlockStatement { token, statements })
        } else {
            let position = self.position;
            let found = self.cur_kind();
            self.push_expected_error(position, TokenKind::Rbrace, found);
            proof {
                assert(self.errs() =~= old(self).errs() + (sbs.errs + seq![
                    ParseError::Expected {
                        position: sbs.next as usize,
                        expected: TokenKind::Rbrace,
                        found: spec_cur_tok(t, sbs.next).kind,
                    },
                ]));
            }
            None
        }
    }

    /// The statement loop of a block: statements until `}` or end of input,
    /// with resynchronization after a failed statement, appended to `acc`.
    #[verifier::rlimit(100)]
    #[verifier::spinoff_prover]
    fn parse_block_stmts(&mut self, acc: Vec<StatementNode>) -> (r: Vec<StatementNode>)
        requires
            old(self).wf(),
            forall|i: int| 0 <= i < acc@.len() ==> wf_stmt(#[trigger] acc@[i]),
        ensures
            final(self).wf(),
            final(self).toks() == old(self).toks(),
            old(self).pos() <= final(self).pos(),
            old(self).errs().is_prefix_of(final(self).errs()),
            forall|i: int| 0 <= i < r@.len() ==> wf_stmt(#[trigger] r@[i]),
            final(self).pos() == spec_block_stmts(old(self).toks(), old(self).pos()).next,
            final(self).errs() == old(self).errs() + spec_block_stmts(
                old(self).toks(),
                old(self).pos(),
            ).errs,
            abs_stmts(r@) == abs_stmts(acc@) + spec_block_stmts(
                old(self).toks(),
                old(self).pos(),
            ).stmts,
        decreases old(self).toks().len() - old(self).pos(), 6int,
    {
        let ghost t = old(self).toks();
        let ghost p0 = old(self).pos();
        proof {
            reveal_with_fuel(spec_block_stmts, 1);
        }
        let k = self.cur_kind();
        if k == TokenKind::Rbrace || k == TokenKind::Eof {
            proof {
                assert(self.errs() =~= old(self).errs() + spec_block_stmts(t, p0).errs);
                assert(abs_stmts(acc@) =~= abs_stmts(acc@) + spec_block_stmts(t, p0).stmts);
            }
            return acc;
        }
        let ghost sst = spec_parse_statement(t, p0);
        match self.parse_statement() {
            Some(stmt) => {
                let ghost sabs = abs_stmt(stmt);
                let mut acc = acc;
                let ghost base = acc@;
                acc.push(stmt);
                proof {
                    assert(acc@.drop_last() =~= base);
                }
                self.next_token();
                proof {
                    assert(self.pos() > p0);
                }
                let r = self.parse_block_stmts(acc);
                proof {
                    let rest = spec_block_stmts(t, spec_advance(t, sst.next));
                    lemma_concat_associative(old(self).errs(), sst.errs, rest.errs);
                    assert(abs_stmts(base).push(sabs) =~= abs_stmts(base) + seq![sabs]);
                    lemma_concat_associative(abs_stmts(base), seq![sabs], rest.stmts);
                }
                r
            },
            None => {
                self.synchronize();
                if self.cur_kind() == TokenKind::Semicolon {
                    self.next_token();
                }
                proof {
                    assert(self.pos() > p0);
                }
                let r = self.parse_block_stmts(acc);
                proof {
                    let pb = spec_sync(t, sst.next);
                    let p2 = if spec_cur_tok(t, pb).kind == TokenKind::Semicolon {
                        spec_advance(t, pb)
                    } else {
                        pb
                    };
                    let rest = spec_block_stmts(t, p2);
                    lemma_concat_associative(old(self).errs(), sst.errs, rest.errs);
                }
                r
            },
        }
    }

    /// `let <name> = <expression>`, with an optional trailing `;`.
    fn parse_let_statement(&mut self) -> (r: Option<StatementNode>)
        requires
            old(self).wf(),
            old(self).spec_cur().kind == TokenKind::Let,
        ensures
            parse_step(*old(self), *final(self), r is Some),
            r matches Some(st) ==> st matches StatementNode::Let(ls) && ls.token@ == old(
                self,
            ).spec_cur() && ls.name.value@ == old(self).spec_peek().literal,
            r matches Some(st) ==> wf_stmt(st),
            final(self).pos() == spec_parse_let(old(self).toks(), old(self).pos()).next,
            final(self).errs() == old(self).errs() + spec_parse_let(
                old(self).toks(),
                old(self).pos(),
            ).errs,
            r matches Some(st) ==> spec_parse_let(old(self).toks(), old(self).pos()).node == Some(
                abs_stmt(st),
            ),
            r is None ==> spec_parse_let(old(self).toks(), old(self).pos()).node is None,
        decreases old(self).toks().len() - old(self).pos(), 4int,
    {
        let token = self.clone_cur();
        if !self.expect_peek(TokenKind::Ident) {
            return None;
        }
        let name_token = self.clone_cur();
        let name_value = name_token.literal.clone();
        let name = Identifier { token: name_token, value: name_value };
        if !self.expect_peek(TokenKind::Assign) {
            return None;
        }
        self.next_token();
        let value = match self.parse_expression(LOWEST) {
            Some(e) => e,
            None => {
                return None;
            },
        };
        if self.peek_kind() == TokenKind::Semicolon {
            self.next_token();
        }
        Some(StatementNode::Let(LetStatement { token, name, value }))
    }

    /// `return <expression>`, with an optional trailing `;`.
    fn parse_return_statement(&mut self) -> (r: Option<StatementNode>)
        requires
            old(self).wf(),
            old(self).spec_cur().kind == TokenKind::Return,
        ensures
            parse_step(*old(self), *final(self), r is Some),
            r matches Some(st) ==> st matches StatementNode::Return(rs) && rs.token@ == old(
                self,
            ).spec_cur(),
            r matches Some(st) ==> wf_stmt(st),
            final(self).pos() == spec_parse_return(old(self).toks(), old(self).pos()).next,
            final(self).errs() == old(self).errs() + spec_parse_return(
                old(self).toks(),
                old(self).pos(),
            ).errs,
            r matches Some(st) ==> spec_parse_return(old(self).toks(), old(self).pos()).node
                == Some(abs_stmt(st)),
            r is None ==> spec_parse_return(old(self).toks(), old(self).pos()).node is None,
        decreases old(self).toks().len() - old(self).pos(), 4int,
    {
        let token = self.clone_cur();
        self.next_token();
        let value = match self.parse_expression(LOWEST) {
            Some(e) => e,
            None => {
                return None;
            },
        };
        if self.peek_kind() == TokenKind::Semicolon {
            self.next_token();
        }
        Some(StatementNode::Return(ReturnStatement { token, value }))
    }

    /// A bare expression standing as a statement, with an optional trailing
    /// `;`.
    fn parse_expression_statement(&mut self) -> (r: Option<StatementNode>)
        requires
            old(self).wf(),
        ensures
            parse_step(*old(self), *final(self), r is Some),
            r matches Some(st) ==> st matches StatementNode::Expression(es) && es.token@ == old(
                self,
            ).spec_cur(),
            r matches Some(st) ==> wf_stmt(st),
            final(self).pos() == spec_parse_exprstmt(old(self).toks(), old(self).pos()).next,
            final(self).errs() == old(self).errs() + spec_parse_exprstmt(
                old(self).toks(),
                old(self).pos(),
            ).errs,
            r matches Some(st) ==> spec_parse_exprstmt(old(self).toks(), old(self).pos()).node
                == Some(abs_stmt(st)),
            r is None ==> spec_parse_exprstmt(old(self).toks(), old(self).pos()).node is None,
        decreases old(self).toks().len() - old(self).pos(), 4int,
    {
        let token = self.clone_cur();
        let expression = match self.parse_expression(LOWEST) {
            Some(e) => e,
            None => {
                return None;
            },
        };
        if self.peek_kind() == TokenKind::Semicolon {
            self.next_token();
        }
        Some(StatementNode::Expression(ExpressionStatement { token, expression }))
    }

    /// One statement, dispatched on the token under the cursor: `let`,
    /// `return`, or a bare expression.
    fn parse_statement(&mut self) -> (r: Option<StatementNode>)
        requires
            old(self).wf(),
        ensures
            parse_step(*old(self), *final(self), r is Some),
            r matches Some(st) ==> wf_stmt(st),
            final(self).pos() == spec_parse_statement(old(self).toks(), old(self).pos()).next,
            final(self).errs() == old(self).errs() + spec_parse_statement(
                old(self).toks(),
                old(self).pos(),
            ).errs,
            r matches Some(st) ==> spec_parse_statement(old(self).toks(), old(self).pos()).node
                == Some(abs_stmt(st)),
            r is None ==> spec_parse_statement(old(self).toks(), old(self).pos()).node is None,
        decreases old(self).toks().len() - old(self).pos(), 5int,
    {
        let k = self.cur_kind();
        if k == TokenKind::Let {
            self.parse_let_statement()
        } else if k == TokenKind::Return {
            self.parse_return_statement()
        } else {
            self.parse_expression_statement()
        }
    }

    /// Parse statements until end of input. A failed statement is recorded
    /// as a syntax error and parsing resynchronizes at the next statement
    /// boundary, so one pass surfaces every independent error. Returns a
    /// program exactly when the error list ends up empty.
    pub fn parse_program(&mut self) -> (r: Option<Program>)
        requires
            old(self).wf(),
        ensures
            final(self).wf(),
            final(self).toks() == old(self).toks(),
            old(self).pos() <= final(self).pos(),
            old(self).errs().is_prefix_of(final(self).errs()),
            (r is Some) <==> final(self).errs().len() == 0,
            r matches Some(p) ==> forall|i: int|
                0 <= i < p.statements@.len() ==> wf_stmt(#[trigger] p.statements@[i]),
            final(self).pos() == spec_parse_program(old(self).toks(), old(self).pos()).next,
            final(self).errs() == old(self).errs() + spec_parse_program(
                old(self).toks(),
                old(self).pos(),
            ).errs,
            r matches Some(p) ==> abs_stmts(p.statements@) == spec_parse_program(
                old(self).toks(),
                old(self).pos(),
            ).stmts,
    {
        let ghost t = old(self).toks();
        let ghost p0 = old(self).pos();
        let statements = self.parse_program_stmts(Vec::new());
        proof {
            assert(abs_stmts(statements@) =~= spec_parse_program(t, p0).stmts);
        }
        if self.errors.len() == 0 {
            Some(Program { statements })
        } else {
            None
        }
    }

    /// The top-level statement loop: statements until end of input, with
    /// resynchronization after a failed statement, appended to `acc`.
    #[verifier::rlimit(100)]
    #[verifier::spinoff_prover]
    fn parse_program_stmts(&mut self, acc: Vec<StatementNode>) -> (r: Vec<StatementNode>)
        requires
            old(self).wf(),
            forall|i: int| 0 <= i < acc@.len() ==> wf_stmt(#[trigger] acc@[i]),
        ensures
            final(self).wf(),
            final(self).toks() == old(self).toks(),
            old(self).pos() <= final(self).pos(),
            old(self).errs().is_prefix_of(final(self).errs()),
            forall|i: int| 0 <= i < r@.len() ==> wf_stmt(#[trigger] r@[i]),
            final(self).pos() == spec_parse_program(old(self).toks(), old(self).pos()).next,
            final(self).errs() == old(self).errs() + spec_parse_program(
                old(self).toks(),
                old(self).pos(),
            ).errs,
            abs_stmts(r@) == abs_stmts(acc@) + spec_parse_program(
                old(self).toks(),
                old(self).pos(),
            ).stmts,
        decreases old(self).toks().len() - old(self).pos(), 7int,
    {
        let ghost t = old(self).toks();
        let ghost p0 = old(self).pos();
        proof {
            reveal_with_fuel(spec_parse_program, 1);
        }
        if self.cur_kind() == TokenKind::Eof {
            proof {
                assert(self.errs() =~= old(self).errs() + spec_parse_program(t, p0).errs);
                assert(abs_stmts(acc@) =~= abs_stmts(acc@) + spec_parse_program(t, p0).stmts);
            }
            return acc;
        }
        let ghost sst = spec_parse_statement(t, p0);
        match self.parse_statement() {
            Some(stmt) => {
                let ghost sabs = abs_stmt(stmt);
                let mut acc = acc;
                let ghost base = acc@;
                acc.push(stmt);
                proof {
                    assert(acc@.drop_last() =~= base);
                }
                self.next_token();
                proof {
                    assert(self.pos() > p0);
                }
                let r = self.parse_program_stmts(acc);
                proof {
                    let rest = spec_parse_program(t, spec_advance(t, sst.next));
                    assert(self.errs() =~= old(self).errs() + (sst.errs + rest.errs));
                    assert(abs_stmts(base).push(sabs) + rest.stmts =~= abs_stmts(base) + (seq![
                        sabs,
                    ] + rest.stmts));
                }
                r
            },
            None => {
                self.synchronize();
                let k2 = self.cur_kind();
                if k2 == TokenKind::Semicolon || k2 == TokenKind::Rbrace {
                    self.next_token();
                }
                proof {
                    assert(self.pos() > p0);
                }
                let r = self.parse_program_stmts(acc);
                proof {
                    let pb = spec_sync(t, sst.next);
                    let kk = spec_cur_tok(t, pb).kind;
                    let p2 = if kk == TokenKind::Semicolon || kk == TokenKind::Rbrace {
                        spec_advance(t, pb)
                    } else {
                        pb
                    };
                    let rest = spec_parse_program(t, p2);
                    assert(self.errs() =~= old(self).errs() + (sst.errs + rest.errs));
                }
                r
            },
        }
    }
}

} // verus!

