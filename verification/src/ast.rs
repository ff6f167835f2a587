//! The abstract syntax tree: closed statement and expression families, a
//! `Program` as an ordered statement sequence, and canonical rendering.
//!
//! Every node reports the literal text of its defining token (for
//! diagnostics) and renders a canonical textual form; prefix and infix
//! expressions render fully parenthesized so that operator precedence can be
//! read off the text. The rendering is specified by the `spec_render_*`
//! functions and the executable renderers are proved to follow them exactly.

use vstd::prelude::*;
use vstd::string::StringExecFns;

use crate::token::{spec_all_digits, spec_digits_val, SpecToken, Token, TokenKind};

verus! {

/// A name standing for a bound or free variable.
#[derive(Debug, PartialEq, Eq)]
pub struct Identifier {
    pub token: Token,
    pub value: String,
}

/// An unsigned integer literal; `value` is the number the scanned digits
/// denote, `token` preserves their exact text.
#[derive(Debug, PartialEq, Eq)]
pub struct IntegerLiteral {
    pub token: Token,
    pub value: u64,
}

/// A `true` or `false` literal.
#[derive(Debug, PartialEq, Eq)]
pub struct BooleanLiteral {
    pub token: Token,
    pub value: bool,
}

/// A unary operator applied to an operand: `!x`, `-x`.
#[derive(Debug, PartialEq, Eq)]
pub struct PrefixExpression {
    pub token: Token,
    pub operator: String,
    pub right: Box<ExpressionNode>,
}

/// A binary operator between two operands: `a + b`, `a == b`.
#[derive(Debug, PartialEq, Eq)]
pub struct InfixExpression {
    pub token: Token,
    pub left: Box<ExpressionNode>,
    pub operator: String,
    pub right: Box<ExpressionNode>,
}

/// A `{`…`}`-delimited ordered statement sequence.
#[derive(Debug, PartialEq, Eq)]
pub struct BlockStatement {
    pub token: Token,
    pub statements: Vec<StatementNode>,
}

/// `if (<condition>) <consequence>` with an optional `else <alternative>`.
#[derive(Debug, PartialEq, Eq)]
pub struct IfExpression {
    pub token: Token,
    pub condition: Box<ExpressionNode>,
    pub consequence: BlockStatement,
    pub alternative: Option<BlockStatement>,
}

/// A function literal: `fn(<parameters>) <body>`.
#[derive(Debug, PartialEq, Eq)]
pub struct FunctionLiteral {
    pub token: Token,
    pub parameters: Vec<Identifier>,
    pub body: BlockStatement,
}

/// A call: a callee expression applied to comma-separated arguments.
#[derive(Debug, PartialEq, Eq)]
pub struct CallExpression {
    pub token: Token,
    pub function: Box<ExpressionNode>,
    pub arguments: Vec<ExpressionNode>,
}

/// The closed family of expressions.
#[derive(Debug, PartialEq, Eq)]
pub enum ExpressionNode {
    IdentifierNode(Identifier),
    IntegerLiteralNode(IntegerLiteral),
    BooleanNode(BooleanLiteral),
    PrefixNode(PrefixExpression),
    InfixNode(InfixExpression),
    IfNode(IfExpression),
    FunctionNode(FunctionLiteral),
    CallNode(CallExpression),
}

/// `let <name> = <value>;`
#[derive(Debug, PartialEq, Eq)]
pub struct LetStatement {
    pub token: Token,
    pub name: Identifier,
    pub value: ExpressionNode,
}

/// `return <value>;`
#[derive(Debug, PartialEq, Eq)]
pub struct ReturnStatement {
    pub token: Token,
    pub value: ExpressionNode,
}

/// A bare expression standing as a statement.
#[derive(Debug, PartialEq, Eq)]
pub struct ExpressionStatement {
    pub token: Token,
    pub expression: ExpressionNode,
}

/// The closed family of statements.
#[derive(Debug, PartialEq, Eq)]
pub enum StatementNode {
    Let(LetStatement),
    Return(ReturnStatement),
    Expression(ExpressionStatement),
}

/// A whole source file: its statements in source order.
#[derive(Debug, PartialEq, Eq)]
pub struct Program {
    pub statements: Vec<StatementNode>,
}

/// The mathematical content of an [`Identifier`].
pub struct SpecIdent {
    pub token: SpecToken,
    pub name: Seq<char>,
}

/// The mathematical content of a [`BlockStatement`].
pub struct SpecBlock {
    pub token: SpecToken,
    pub statements: Seq<SpecStmt>,
}

/// The mathematical content of an [`ExpressionNode`].
pub enum SpecExpr {
    Ident { token: SpecToken, name: Seq<char> },
    IntLit { token: SpecToken, value: int },
    BoolLit { token: SpecToken, value: bool },
    Prefix { token: SpecToken, operator: Seq<char>, right: Box<SpecExpr> },
    Infix { token: SpecToken, left: Box<SpecExpr>, operator: Seq<char>, right: Box<SpecExpr> },
    If { token: SpecToken, condition: Box<SpecExpr>, consequence: SpecBlock, alternative: Option<SpecBlock> },
    Function { token: SpecToken, parameters: Seq<SpecIdent>, body: SpecBlock },
    Call { token: SpecToken, function: Box<SpecExpr>, arguments: Seq<SpecExpr> },
}

/// The mathematical content of a [`StatementNode`].
pub enum SpecStmt {
    Let { token: SpecToken, name: SpecIdent, value: SpecExpr },
    Return { token: SpecToken, value: SpecExpr },
    Expression { token: SpecToken, expression: SpecExpr },
}

/// The mathematical content of an [`Identifier`].
pub open spec fn abs_ident(id: Identifier) -> SpecIdent {
    SpecIdent { token: id.token@, name: id.value@ }
}

/// The mathematical content of a parameter list.
pub open spec fn abs_ident_list(params: Seq<Identifier>) -> Seq<SpecIdent>
    decreases params.len(),
{
    if params.len() == 0 {
        Seq::<SpecIdent>::empty()
    } else {
        abs_ident_list(params.drop_last()).push(abs_ident(params.last()))
    }
}

/// The mathematical content of an argument list.
pub open spec fn abs_expr_list(args: Seq<ExpressionNode>) -> Seq<SpecExpr>
    decreases args,
{
    if args.len() == 0 {
        Seq::<SpecExpr>::empty()
    } else {
        abs_expr_list(args.drop_last()).push(abs_expr(args.last()))
    }
}

/// The mathematical content of an [`ExpressionNode`]: the same tree over
/// token views and character sequences.
pub open spec fn abs_expr(e: ExpressionNode) -> SpecExpr
    decreases e,
{
    match e {
        ExpressionNode::IdentifierNode(id) => SpecExpr::Ident {
            token: id.token@,
            name: id.value@,
        },
        ExpressionNode::IntegerLiteralNode(il) => SpecExpr::IntLit {
            token: il.token@,
            value: il.value as int,
        },
        ExpressionNode::BooleanNode(b) => SpecExpr::BoolLit { token: b.token@, value: b.value },
        ExpressionNode::PrefixNode(p) => SpecExpr::Prefix {
            token: p.token@,
            operator: p.operator@,
            right: Box::new(abs_expr(*p.right)),
        },
        ExpressionNode::InfixNode(ix) => SpecExpr::Infix {
            token: ix.token@,
            left: Box::new(abs_expr(*ix.left)),
            operator: ix.operator@,
            right: Box::new(abs_expr(*ix.right)),
        },
        ExpressionNode::IfNode(f) => SpecExpr::If {
            token: f.token@,
            condition: Box::new(abs_expr(*f.condition)),
            consequence: abs_block(f.consequence),
            alternative: match f.alternative {
                Some(alt) => Some(abs_block(alt)),
                None => None,
            },
        },
        ExpressionNode::FunctionNode(fl) => SpecExpr::Function {
            token: fl.token@,
            parameters: abs_ident_list(fl.parameters@),
            body: abs_block(fl.body),
        },
        ExpressionNode::CallNode(c) => SpecExpr::Call {
            token: c.token@,
            function: Box::new(abs_expr(*c.function)),
            arguments: abs_expr_list(c.arguments@),
        },
    }
}

/// The mathematical content of a [`StatementNode`].
pub open spec fn abs_stmt(s: StatementNode) -> SpecStmt
    decreases s,
{
    match s {
        StatementNode::Let(ls) => SpecStmt::Let {
            token: ls.token@,
            name: abs_ident(ls.name),
            value: abs_expr(ls.value),
        },
        StatementNode::Return(rs) => SpecStmt::Return {
            token: rs.token@,
            value: abs_expr(rs.value),
        },
        StatementNode::Expression(es) => SpecStmt::Expression {
            token: es.token@,
            expression: abs_expr(es.expression),
        },
    }
}

/// The mathematical content of a [`BlockStatement`].
pub open spec fn abs_block(b: BlockStatement) -> SpecBlock
    decreases b,
{
    SpecBlock { token: b.token@, statements: abs_stmts(b.statements@) }
}

/// The mathematical content of a statement sequence.
pub open spec fn abs_stmts(stmts: Seq<StatementNode>) -> Seq<SpecStmt>
    decreases stmts,
{
    if stmts.len() == 0 {
        Seq::<SpecStmt>::empty()
    } else {
        abs_stmts(stmts.drop_last()).push(abs_stmt(stmts.last()))
    }
}

/// Canonical rendering of an expression. Prefix and infix nodes are fully
/// parenthesized; literals render their scanned text verbatim.
pub open spec fn spec_render_expr(e: ExpressionNode) -> Seq<char>
    decreases e, 1int,
{
    match e {
        ExpressionNode::IdentifierNode(id) => id.value@,
        ExpressionNode::IntegerLiteralNode(il) => il.token.literal@,
        ExpressionNode::BooleanNode(b) => b.token.literal@,
        ExpressionNode::PrefixNode(p) => "("@ + p.operator@ + spec_render_expr(*p.right) + ")"@,
        ExpressionNode::InfixNode(ix) => "("@ + spec_render_expr(*ix.left) + " "@ + ix.operator@
            + " "@ + spec_render_expr(*ix.right) + ")"@,
        ExpressionNode::IfNode(f) => "if ("@ + spec_render_expr(*f.condition) + ") "@
            + spec_render_block(f.consequence) + (match f.alternative {
            Some(alt) => " else "@ + spec_render_block(alt),
            None => Seq::<char>::empty(),
        }),
        ExpressionNode::FunctionNode(fl) => "fn("@ + spec_render_params(fl.parameters@, 0) + ") "@
            + spec_render_block(fl.body),
        ExpressionNode::CallNode(c) => spec_render_expr(*c.function) + "("@ + spec_render_args(
            c.arguments@,
            0,
        ) + ")"@,
    }
}

/// Canonical rendering of a comma-separated argument list, from index `i` on.
pub open spec fn spec_render_args(args: Seq<ExpressionNode>, i: int) -> Seq<char>
    recommends
        0 <= i <= args.len(),
    decreases args, 0int, args.len() - i,
{
    if i < 0 || i >= args.len() {
        Seq::<char>::empty()
    } else if i == args.len() - 1 {
        spec_render_expr(args[i])
    } else {
        spec_render_expr(args[i]) + ", "@ + spec_render_args(args, i + 1)
    }
}

/// Canonical rendering of a comma-separated parameter list, from index `i` on.
pub open spec fn spec_render_params(params: Seq<Identifier>, i: int) -> Seq<char>
    recommends
        0 <= i <= params.len(),
    decreases params.len() - i,
{
    if i < 0 || i >= params.len() {
        Seq::<char>::empty()
    } else if i == params.len() - 1 {
        params[i].value@
    } else {
        params[i].value@ + ", "@ + spec_render_params(params, i + 1)
    }
}

/// Canonical rendering of a statement. `let` and `return` statements end in
/// `;`; an expression statement renders its bare expression.
pub open spec fn spec_render_stmt(s: StatementNode) -> Seq<char>
    decreases s, 1int,
{
    match s {
        StatementNode::Let(ls) => "let "@ + ls.name.value@ + " = "@ + spec_render_expr(ls.value)
            + ";"@,
        StatementNode::Return(rs) => "return "@ + spec_render_expr(rs.value) + ";"@,
        StatementNode::Expression(es) => spec_render_expr(es.expression),
    }
}

/// Canonical rendering of the statements of a block from index `i` on,
/// separated by single spaces.
pub open spec fn spec_render_stmts(stmts: Seq<StatementNode>, i: int) -> Seq<char>
    recommends
        0 <= i <= stmts.len(),
    decreases stmts, 0int, stmts.len() - i,
{
    if i < 0 || i >= stmts.len() {
        Seq::<char>::empty()
    } else if i == stmts.len() - 1 {
        spec_render_stmt(stmts[i])
    } else {
        spec_render_stmt(stmts[i]) + " "@ + spec_render_stmts(stmts, i + 1)
    }
}

/// Canonical rendering of a block: its statements between braces.
pub open spec fn spec_render_block(b: BlockStatement) -> Seq<char>
    decreases b, 2int,
{
    "{ "@ + spec_render_stmts(b.statements@, 0) + " }"@
}

/// Canonical rendering of a whole program: its statements concatenated in
/// source order.
pub open spec fn spec_render_program(stmts: Seq<StatementNode>, i: int) -> Seq<char>
    recommends
        0 <= i <= stmts.len(),
    decreases stmts.len() - i,
{
    if i < 0 || i >= stmts.len() {
        Seq::<char>::empty()
    } else {
        spec_render_stmt(stmts[i]) + spec_render_program(stmts, i + 1)
    }
}

/// Well-formedness of an identifier: its token is an `Ident` and its name
/// is exactly the token's scanned text.
pub open spec fn wf_ident(id: Identifier) -> bool {
    id.token.kind == TokenKind::Ident && id.value@ == id.token.literal@
}

/// Well-formedness of an expression: every node's defining token has the
/// class the node stands for, and every field that repeats token text — an
/// identifier's name, an operator's spelling, a literal's value — agrees
/// with the scanned text of that token. The parser only builds well-formed
/// nodes.
pub open spec fn wf_expr(e: ExpressionNode) -> bool
    decreases e,
{
    match e {
        ExpressionNode::IdentifierNode(id) => wf_ident(id),
        ExpressionNode::IntegerLiteralNode(il) => il.token.kind == TokenKind::Int
            && spec_all_digits(il.token.literal@) && il.value == spec_digits_val(
            il.token.literal@,
        ),
        ExpressionNode::BooleanNode(b) => (b.token.kind == TokenKind::True || b.token.kind
            == TokenKind::False) && b.value == (b.token.kind == TokenKind::True),
        ExpressionNode::PrefixNode(p) => (p.token.kind == TokenKind::Bang || p.token.kind
            == TokenKind::Minus) && p.operator@ == p.token.literal@ && wf_expr(*p.right),
        ExpressionNode::InfixNode(ix) => ix.operator@ == ix.token.literal@ && wf_expr(*ix.left)
            && wf_expr(*ix.right),
        ExpressionNode::IfNode(f) => f.token.kind == TokenKind::If && wf_expr(*f.condition)
            && wf_block(f.consequence) && (match f.alternative {
            Some(alt) => wf_block(alt),
            None => true,
        }),
        ExpressionNode::FunctionNode(fl) => fl.token.kind == TokenKind::Function && (forall|i: int|
            0 <= i < fl.parameters@.len() ==> wf_ident(#[trigger] fl.parameters@[i])) && wf_block(
            fl.body,
        ),
        ExpressionNode::CallNode(c) => c.token.kind == TokenKind::Lparen && wf_expr(*c.function)
            && (forall|i: int|
            0 <= i < c.arguments@.len() ==> wf_expr(#[trigger] c.arguments@[i])),
    }
}

/// Well-formedness of a statement: its defining token has the statement's
/// class and its expressions are well formed.
pub open spec fn wf_stmt(s: StatementNode) -> bool
    decreases s,
{
    match s {
        StatementNode::Let(ls) => ls.token.kind == TokenKind::Let && wf_ident(ls.name) && wf_expr(
            ls.value,
        ),
        StatementNode::Return(rs) => rs.token.kind == TokenKind::Return && wf_expr(rs.value),
        StatementNode::Expression(es) => wf_expr(es.expression),
    }
}

/// Well-formedness of a block: it is defined by its opening brace and holds
/// well-formed statements.
pub open spec fn wf_block(b: BlockStatement) -> bool
    decreases b,
{
    b.token.kind == TokenKind::Lbrace && (forall|i: int|
        0 <= i < b.statements@.len() ==> wf_stmt(#[trigger] b.statements@[i]))
}

/// The literal text of a statement's defining token.
pub open spec fn spec_stmt_token_literal(s: StatementNode) -> Seq<char> {
    match s {
        StatementNode::Let(ls) => ls.token.literal@,
        StatementNode::Return(rs) => rs.token.literal@,
        StatementNode::Expression(es) => es.token.literal@,
    }
}

/// The literal text of an expression's defining token.
pub open spec fn spec_expr_token_literal(e: ExpressionNode) -> Seq<char> {
    match e {
        ExpressionNode::IdentifierNode(id) => id.token.literal@,
        ExpressionNode::IntegerLiteralNode(il) => il.token.literal@,
        ExpressionNode::BooleanNode(b) => b.token.literal@,
        ExpressionNode::PrefixNode(p) => p.token.literal@,
        ExpressionNode::InfixNode(ix) => ix.token.literal@,
        ExpressionNode::IfNode(f) => f.token.literal@,
        ExpressionNode::FunctionNode(fl) => fl.token.literal@,
        ExpressionNode::CallNode(c) => c.token.literal@,
    }
}

/// What every AST node offers: the literal text of its defining token and
/// its canonical rendering, each pinned to the spec-level text.
pub trait Node {
    /// The literal text of the node's defining token.
    spec fn spec_token_literal(&self) -> Seq<char>;

    /// The node's canonical rendering.
    spec fn spec_render(&self) -> Seq<char>;

    /// The literal text of the node's defining token.
    fn token_literal(&self) -> (r: String)
        ensures
            r@ == self.spec_token_literal(),
    ;

    /// Render the node's canonical textual form.
    fn print_string(&self) -> (r: String)
        ensures
            r@ == self.spec_render(),
    ;
}

impl ExpressionNode {
    /// Render this expression canonically.
    pub fn render(&self) -> (r: String)
        ensures
            r@ == spec_render_expr(*self),
        decreases *self, 1int,
    {
        match self {
            ExpressionNode::IdentifierNode(id) => id.value.clone(),
            ExpressionNode::IntegerLiteralNode(il) => il.token.literal.clone(),
            ExpressionNode::BooleanNode(b) => b.token.literal.clone(),
            ExpressionNode::PrefixNode(p) => {
                let mut out = String::from_str("(");
                out.append(p.operator.as_str());
                let right = p.right.render();
                out.append(right.as_str());
                out.append(")");
                out
            },
            ExpressionNode::InfixNode(ix) => {
                let mut out = String::from_str("(");
                let left = ix.left.render();
                out.append(left.as_str());
                out.append(" ");
                out.append(ix.operator.as_str());
                out.append(" ");
                let right = ix.right.render();
                out.append(right.as_str());
                out.append(")");
                out
            },
            ExpressionNode::IfNode(f) => {
                let mut out = String::from_str("if (");
                let cond = f.condition.render();
                out.append(cond.as_str());
                out.append(") ");
                let cons = f.consequence.render();
                out.append(cons.as_str());
                match &f.alternative {
                    Some(alt) => {
                        out.append(" else ");
                        let a = alt.render();
                        out.append(a.as_str());
                    },
                    None => {},
                }
                out
            },
            ExpressionNode::FunctionNode(fl) => {
                let mut out = String::from_str("fn(");
                let n = fl.parameters.len();
                let mut i: usize = 0;
                while i < n
                    invariant
                        i <= n,
                        n == fl.parameters@.len(),
                        out@ + spec_render_params(fl.parameters@, i as int) == "fn("@
                            + spec_render_params(fl.parameters@, 0),
                    decreases n - i,
                {
                    out.append(fl.parameters[i].value.as_str());
                    if i + 1 < n {
                        out.append(", ");
                    }
                    i = i + 1;
                    proof {
                        assert(out@ + spec_render_params(fl.parameters@, i as int) =~= "fn("@
                            + spec_render_params(fl.parameters@, 0));
                    }
                }
                proof {
                    assert(out@ =~= "fn("@ + spec_render_params(fl.parameters@, 0));
                }
                out.append(") ");
                let body = fl.body.render();
                out.append(body.as_str());
                out
            },
            ExpressionNode::CallNode(c) => {
                let mut out = c.function.render();
                out.append("(");
                let n = c.arguments.len();
                let mut i: usize = 0;
                while i < n
                    invariant
                        i <= n,
                        n == c.arguments@.len(),
                        out@ + spec_render_args(c.arguments@, i as int) == spec_render_expr(
                            *c.function,
                        ) + "("@ + spec_render_args(c.arguments@, 0),
                    decreases n - i,
                {
                    let a = c.arguments[i].render();
                    out.append(a.as_str());
                    if i + 1 < n {
                        out.append(", ");
                    }
                    i = i + 1;
                    proof {
                        assert(out@ + spec_render_args(c.arguments@, i as int)
                            =~= spec_render_expr(*c.function) + "("@ + spec_render_args(
                            c.arguments@,
                            0,
                        ));
                    }
                }
                proof {
                    assert(out@ =~= spec_render_expr(*c.function) + "("@ + spec_render_args(
                        c.arguments@,
                        0,
                    ));
                }
                out.append(")");
                out
            },
        }
    }
}

impl BlockStatement {
    /// Render this block canonically: its statements between braces.
    pub fn render(&self) -> (r: String)
        ensures
            r@ == spec_render_block(*self),
        decreases *self, 2int,
    {
        let mut out = String::from_str("{ ");
        let n = self.statements.len();
        let mut i: usize = 0;
        while i < n
            invariant
                i <= n,
                n == self.statements@.len(),
                out@ + spec_render_stmts(self.statements@, i as int) == "{ "@
                    + spec_render_stmts(self.statements@, 0),
            decreases n - i,
        {
            let s = self.statements[i].render();
            out.append(s.as_str());
            if i + 1 < n {
                out.append(" ");
            }
            i = i + 1;
            proof {
                assert(out@ + spec_render_stmts(self.statements@, i as int) =~= "{ "@
                    + spec_render_stmts(self.statements@, 0));
            }
        }
        proof {
            assert(out@ =~= "{ "@ + spec_render_stmts(self.statements@, 0));
        }
        out.append(" }");
        out
    }
}

impl StatementNode {
    /// Render this statement canonically.
    pub fn render(&self) -> (r: String)
        ensures
            r@ == spec_render_stmt(*self),
        decreases *self, 1int,
    {
        match self {
            StatementNode::Let(ls) => {
                let mut out = String::from_str("let ");
                out.append(ls.name.value.as_str());
                out.append(" = ");
                let v = ls.value.render();
                out.append(v.as_str());
                out.append(";");
                out
            },
            StatementNode::Return(rs) => {
                let mut out = String::from_str("return ");
                let v = rs.value.render();
                out.append(v.as_str());
                out.append(";");
                out
            },
            StatementNode::Expression(es) => es.expression.render(),
        }
    }
}

impl Program {
    /// Render the whole program: its statements concatenated in source order.
    pub fn render(&self) -> (r: String)
        ensures
            r@ == spec_render_program(self.statements@, 0),
    {
        let mut out = String::new();
        let n = self.statements.len();
        let mut i: usize = 0;
        while i < n
            invariant
                i <= n,
                n == self.statements@.len(),
                out@ + spec_render_program(self.statements@, i as int) == spec_render_program(
                    self.statements@,
                    0,
                ),
            decreases n - i,
        {
            let s = self.statements[i].render();
            out.append(s.as_str());
            i = i + 1;
            proof {
                assert(out@ + spec_render_program(self.statements@, i as int)
                    =~= spec_render_program(self.statements@, 0));
            }
        }
        proof {
            assert(out@ =~= spec_render_program(self.statements@, 0));
        }
        out
    }
}

impl Node for Identifier {
    open spec fn spec_token_literal(&self) -> Seq<char> {
        self.token.literal@
    }

    open spec fn spec_render(&self) -> Seq<char> {
        self.value@
    }

    fn token_literal(&self) -> (r: String) {
        self.token.literal.clone()
    }

    fn print_string(&self) -> (r: String) {
        self.value.clone()
    }
}

impl Node for LetStatement {
    open spec fn spec_token_literal(&self) -> Seq<char> {
        self.token.literal@
    }

    open spec fn spec_render(&self) -> Seq<char> {
        spec_render_stmt(StatementNode::Let(
            LetStatement { token: self.token, name: self.name, value: self.value },
        ))
    }

    fn token_literal(&self) -> (r: String) {
        self.token.literal.clone()
    }

    fn print_string(&self) -> (r: String) {
        let mut out = String::from_str("let ");
        out.append(self.name.value.as_str());
        out.append(" = ");
        let v = self.value.render();
        out.append(v.as_str());
        out.append(";");
        out
    }
}

impl Node for StatementNode {
    open spec fn spec_token_literal(&self) -> Seq<char> {
        spec_stmt_token_literal(*self)
    }

    open spec fn spec_render(&self) -> Seq<char> {
        spec_render_stmt(*self)
    }

    fn token_literal(&self) -> (r: String) {
        match self {
            StatementNode::Let(ls) => ls.token.literal.clone(),
            StatementNode::Return(rs) => rs.token.literal.clone(),
            StatementNode::Expression(es) => es.token.literal.clone(),
        }
    }

    fn print_string(&self) -> (r: String) {
        self.render()
    }
}

impl Node for ExpressionNode {
    open spec fn spec_token_literal(&self) -> Seq<char> {
        spec_expr_token_literal(*self)
    }

    open spec fn spec_render(&self) -> Seq<char> {
        spec_render_expr(*self)
    }

    fn token_literal(&self) -> (r: String) {
        match self {
            ExpressionNode::IdentifierNode(id) => id.token.literal.clone(),
            ExpressionNode::IntegerLiteralNode(il) => il.token.literal.clone(),
            ExpressionNode::BooleanNode(b) => b.token.literal.clone(),
            ExpressionNode::PrefixNode(p) => p.token.literal.clone(),
            ExpressionNode::InfixNode(ix) => ix.token.literal.clone(),
            ExpressionNode::IfNode(f) => f.token.literal.clone(),
            ExpressionNode::FunctionNode(fl) => fl.token.literal.clone(),
            ExpressionNode::CallNode(c) => c.token.literal.clone(),
        }
    }

    fn print_string(&self) -> (r: String) {
        self.render()
    }
}

impl Node for Program {
    open spec fn spec_token_literal(&self) -> Seq<char> {
        if self.statements@.len() == 0 {
            Seq::<char>::empty()
        } else {
            spec_stmt_token_literal(self.statements@[0])
        }
    }

    open spec fn spec_render(&self) -> Seq<char> {
        spec_render_program(self.statements@, 0)
    }

    fn token_literal(&self) -> (r: String) {
        if self.statements.len() == 0 {
            String::new()
        } else {
            self.statements[0].token_literal()
        }
    }

    fn print_string(&self) -> (r: String) {
        self.render()
    }
}

} // verus!
