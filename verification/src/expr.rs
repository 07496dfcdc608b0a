//! The abstract syntax tree: expressions, the two statement forms, and their
//! mathematical views.

use vstd::prelude::*;

use vstd::string::StringExecFns;

use crate::token::LitView;

verus! {

/// A literal expression payload. As in the token stream, a fractional
/// numeral is carried as its verbatim digit text; the verified evaluator
/// works on the other variants.
#[derive(Clone, Debug)]
pub enum ExprLiteral {
    Int(i64),
    Float(String),
    Str(String),
    Bool(bool),
}

#[derive(Clone, Copy, Debug, PartialEq, Eq, Structural)]
pub enum UnaryOp {
    Minus,
    Bang,
}

#[derive(Clone, Copy, Debug, PartialEq, Eq, Structural)]
pub enum BinaryOp {
    EqualEqual,
    BangEqual,
    Less,
    LessEqual,
    Greater,
    GreaterEqual,
    Plus,
    Minus,
    Star,
    Slash,
}

/// An expression tree. `Literal(None)` is the null literal; every node owns
/// its children outright.
#[derive(Debug)]
pub enum Expr {
    Literal(Option<ExprLiteral>),
    Grouping(Box<Expr>),
    Unary(UnaryOp, Box<Expr>),
    Binary(Box<Expr>, BinaryOp, Box<Expr>),
}

/// A statement: print an expression's value, or evaluate and discard it.
#[derive(Debug)]
pub enum Stmt {
    Print(Expr),
    ExprStmt(Expr),
}

/// Mathematical view of an expression tree.
pub enum ExprView {
    Literal(Option<LitView>),
    Grouping(Box<ExprView>),
    Unary(UnaryOp, Box<ExprView>),
    Binary(Box<ExprView>, BinaryOp, Box<ExprView>),
}

/// Mathematical view of a statement.
pub enum StmtView {
    Print(ExprView),
    ExprStmt(ExprView),
}

pub open spec fn lit_of_expr_lit(l: ExprLiteral) -> LitView {
    match l {
        ExprLiteral::Int(i) => LitView::Int(i),
        ExprLiteral::Float(s) => LitView::Float(s@),
        ExprLiteral::Str(s) => LitView::Str(s@),
        ExprLiteral::Bool(b) => LitView::Bool(b),
    }
}

pub open spec fn expr_view(e: Expr) -> ExprView
    decreases e,
{
    match e {
        Expr::Literal(l) => ExprView::Literal(
            match l {
                Option::Some(l) => Option::Some(lit_of_expr_lit(l)),
                Option::None => Option::None,
            },
        ),
        Expr::Grouping(inner) => ExprView::Grouping(Box::new(expr_view(*inner))),
        Expr::Unary(op, inner) => ExprView::Unary(op, Box::new(expr_view(*inner))),
        Expr::Binary(l, op, r) => ExprView::Binary(
            Box::new(expr_view(*l)),
            op,
            Box::new(expr_view(*r)),
        ),
    }
}

impl View for ExprLiteral {
    type V = LitView;

    open spec fn view(&self) -> LitView {
        lit_of_expr_lit(*self)
    }
}

impl View for Expr {
    type V = ExprView;

    open spec fn view(&self) -> ExprView {
        expr_view(*self)
    }
}

impl View for Stmt {
    type V = StmtView;

    open spec fn view(&self) -> StmtView {
        match self {
            Stmt::Print(e) => StmtView::Print(expr_view(*e)),
            Stmt::ExprStmt(e) => StmtView::ExprStmt(expr_view(*e)),
        }
    }
}

/// The views of a statement sequence.
pub open spec fn stmts_view(s: Seq<Stmt>) -> Seq<StmtView> {
    s.map_values(|st: Stmt| st@)
}

/// Whether the tree contains a fractional (float) literal anywhere.
pub open spec fn expr_has_float(e: ExprView) -> bool
    decreases e,
{
    match e {
        ExprView::Literal(l) => l matches Option::Some(LitView::Float(_)),
        ExprView::Grouping(inner) => expr_has_float(*inner),
        ExprView::Unary(_, inner) => expr_has_float(*inner),
        ExprView::Binary(l, _, r) => expr_has_float(*l) || expr_has_float(*r),
    }
}

pub open spec fn stmt_has_float(s: StmtView) -> bool {
    match s {
        StmtView::Print(e) => expr_has_float(e),
        StmtView::ExprStmt(e) => expr_has_float(e),
    }
}

pub open spec fn stmts_have_float(s: Seq<StmtView>) -> bool {
    exists|i: int| 0 <= i < s.len() && stmt_has_float(s[i])
}

impl Expr {
    /// Whether this tree contains a fractional (float) literal. Trees with
    /// one are evaluated by the embedding shell, not the verified evaluator.
    pub fn contains_float(&self) -> (r: bool)
        ensures
            r == expr_has_float(self@),
        decreases *self,
    {
        match self {
            Expr::Literal(l) => match l {
                Option::Some(ExprLiteral::Float(_)) => true,
                _ => false,
            },
            Expr::Grouping(inner) => inner.contains_float(),
            Expr::Unary(_, inner) => inner.contains_float(),
            Expr::Binary(l, _, r) => l.contains_float() || r.contains_float(),
        }
    }

    /// Whether this tree holds a null literal; the prefix rendering
    /// `tree_text` is not defined on those.
    pub fn contains_null_literal(&self) -> (r: bool)
        ensures
            r == has_null_literal(self@),
        decreases *self,
    {
        match self {
            Expr::Literal(l) => l.is_none(),
            Expr::Grouping(inner) => inner.contains_null_literal(),
            Expr::Unary(_, inner) => inner.contains_null_literal(),
            Expr::Binary(l, _, r) => l.contains_null_literal() || r.contains_null_literal(),
        }
    }

    /// A deep copy whose view is unchanged.
    pub fn duplicate(&self) -> (e: Expr)
        ensures
            e@ == self@,
        decreases *self,
    {
        match self {
            Expr::Literal(l) => Expr::Literal(
                match l {
                    Option::Some(ExprLiteral::Int(i)) => Option::Some(ExprLiteral::Int(*i)),
                    Option::Some(ExprLiteral::Float(s)) => Option::Some(
                        ExprLiteral::Float(s.clone()),
                    ),
                    Option::Some(ExprLiteral::Str(s)) => Option::Some(ExprLiteral::Str(s.clone())),
                    Option::Some(ExprLiteral::Bool(b)) => Option::Some(ExprLiteral::Bool(*b)),
                    Option::None => Option::None,
                },
            ),
            Expr::Grouping(inner) => Expr::Grouping(Box::new(inner.duplicate())),
            Expr::Unary(op, inner) => Expr::Unary(*op, Box::new(inner.duplicate())),
            Expr::Binary(l, op, r) => Expr::Binary(
                Box::new(l.duplicate()),
                *op,
                Box::new(r.duplicate()),
            ),
        }
    }
}

impl Stmt {
    pub fn contains_float(&self) -> (r: bool)
        ensures
            r == stmt_has_float(self@),
    {
        match self {
            Stmt::Print(e) => e.contains_float(),
            Stmt::ExprStmt(e) => e.contains_float(),
        }
    }

    /// A deep copy whose view is unchanged.
    pub fn duplicate(&self) -> (s: Stmt)
        ensures
            s@ == self@,
    {
        match self {
            Stmt::Print(e) => Stmt::Print(e.duplicate()),
            Stmt::ExprStmt(e) => Stmt::ExprStmt(e.duplicate()),
        }
    }
}

/// A binary tree over expressions with explicitly linked children, for
/// callers that build trees node by node rather than through the parser.
pub struct Node {
    pub value: Expr,
    pub left_child: Option<Box<Node>>,
    pub right_child: Option<Box<Node>>,
}

impl Node {
    pub fn new(value: Expr) -> (n: Self)
        ensures
            n.value == value,
            n.left_child is None,
            n.right_child is None,
    {
        Node { value, left_child: Option::None, right_child: Option::None }
    }

    /// Mutably borrows the left child, if there is one.
    pub fn get_left(&mut self) -> (r: Option<&mut Box<Node>>)
        ensures
            match old(self).left_child {
                Option::None => r is None && *final(self) == *old(self),
                Option::Some(c) => r is Some && **r.unwrap() == *c && *final(self) == (Node {
                    value: old(self).value,
                    left_child: Option::Some(*final(r.unwrap())),
                    right_child: old(self).right_child,
                }),
            },
    {
        self.left_child.as_mut()
    }

    /// Mutably borrows the right child, if there is one.
    pub fn get_right(&mut self) -> (r: Option<&mut Box<Node>>)
        ensures
            match old(self).right_child {
                Option::None => r is None && *final(self) == *old(self),
                Option::Some(c) => r is Some && **r.unwrap() == *c && *final(self) == (Node {
                    value: old(self).value,
                    left_child: old(self).left_child,
                    right_child: Option::Some(*final(r.unwrap())),
                }),
            },
    {
        self.right_child.as_mut()
    }

    pub fn set_left(&mut self, child: Box<Node>)
        ensures
            final(self).left_child == Option::Some(child),
            final(self).right_child == old(self).right_child,
            final(self).value == old(self).value,
    {
        self.left_child = Option::Some(child);
    }

    pub fn set_right(&mut self, child: Box<Node>)
        ensures
            final(self).right_child == Option::Some(child),
            final(self).left_child == old(self).left_child,
            final(self).value == old(self).value,
    {
        self.right_child = Option::Some(child);
    }
}

/// How a literal is rendered in a tree dump.
pub open spec fn render_lit(l: LitView) -> Seq<char> {
    match l {
        LitView::Int(i) => "Int("@ + crate::strutil::dec_int(i as int) + ")"@,
        LitView::Float(s) => "Float("@ + s + ")"@,
        LitView::Str(s) => "Str(\""@ + s + "\")"@,
        LitView::Bool(b) => if b {
            "Bool(true)"@
        } else {
            "Bool(false)"@
        },
    }
}

pub open spec fn unary_op_text(op: UnaryOp) -> Seq<char> {
    match op {
        UnaryOp::Minus => "-"@,
        UnaryOp::Bang => "!"@,
    }
}

pub open spec fn binary_op_text(op: BinaryOp) -> Seq<char> {
    match op {
        BinaryOp::EqualEqual => "=="@,
        BinaryOp::BangEqual => "!="@,
        BinaryOp::Less => "<"@,
        BinaryOp::LessEqual => "<="@,
        BinaryOp::Greater => ">"@,
        BinaryOp::GreaterEqual => ">="@,
        BinaryOp::Plus => "+"@,
        BinaryOp::Minus => "-"@,
        BinaryOp::Star => "*"@,
        BinaryOp::Slash => "/"@,
    }
}

/// The infix rendering of a tree: groupings in `( .. )`, operators between
/// their operands, the null literal as nothing.
pub open spec fn pretty_text(e: ExprView) -> Seq<char>
    decreases e,
{
    match e {
        ExprView::Literal(l) => match l {
            Option::Some(l) => render_lit(l),
            Option::None => Seq::empty(),
        },
        ExprView::Grouping(inner) => "( "@ + pretty_text(*inner) + " )"@,
        ExprView::Unary(op, inner) => unary_op_text(op) + pretty_text(*inner),
        ExprView::Binary(l, op, r) => pretty_text(*l) + " "@ + binary_op_text(op) + " "@
            + pretty_text(*r),
    }
}

/// Whether the tree holds a null literal anywhere; the prefix rendering is
/// not defined on those.
pub open spec fn has_null_literal(e: ExprView) -> bool
    decreases e,
{
    match e {
        ExprView::Literal(l) => l is None,
        ExprView::Grouping(inner) => has_null_literal(*inner),
        ExprView::Unary(_, inner) => has_null_literal(*inner),
        ExprView::Binary(l, _, r) => has_null_literal(*l) || has_null_literal(*r),
    }
}

/// The prefix rendering of a tree: each operator before its parenthesised
/// operands.
pub open spec fn prefix_text(e: ExprView) -> Seq<char>
    decreases e,
{
    match e {
        ExprView::Literal(l) => match l {
            Option::Some(l) => render_lit(l),
            Option::None => arbitrary(),
        },
        ExprView::Grouping(inner) => "( "@ + prefix_text(*inner) + " )"@,
        ExprView::Unary(op, inner) => unary_op_text(op) + prefix_text(*inner),
        ExprView::Binary(l, op, r) => binary_op_text(op) + " ("@ + prefix_text(*l) + " "@
            + prefix_text(*r) + ")"@,
    }
}

fn render_lit_exec(l: &ExprLiteral) -> (r: String)
    ensures
        r@ == render_lit(l@),
{
    match l {
        ExprLiteral::Int(i) => {
            let mut m = String::from_str("Int(");
            let d = crate::strutil::i64_to_string(*i);
            m.append(d.as_str());
            m.append(")");
            m
        },
        ExprLiteral::Float(s) => {
            let mut m = String::from_str("Float(");
            m.append(s.as_str());
            m.append(")");
            m
        },
        ExprLiteral::Str(s) => {
            let mut m = String::from_str("Str(\"");
            m.append(s.as_str());
            m.append("\")");
            m
        },
        ExprLiteral::Bool(b) => {
            if *b {
                String::from_str("Bool(true)")
            } else {
                String::from_str("Bool(false)")
            }
        },
    }
}

fn unary_op_string(op: UnaryOp) -> (r: String)
    ensures
        r@ == unary_op_text(op),
{
    match op {
        UnaryOp::Minus => String::from_str("-"),
        UnaryOp::Bang => String::from_str("!"),
    }
}

fn binary_op_string(op: BinaryOp) -> (r: String)
    ensures
        r@ == binary_op_text(op),
{
    match op {
        BinaryOp::EqualEqual => String::from_str("=="),
        BinaryOp::BangEqual => String::from_str("!="),
        BinaryOp::Less => String::from_str("<"),
        BinaryOp::LessEqual => String::from_str("<="),
        BinaryOp::Greater => String::from_str(">"),
        BinaryOp::GreaterEqual => String::from_str(">="),
        BinaryOp::Plus => String::from_str("+"),
        BinaryOp::Minus => String::from_str("-"),
        BinaryOp::Star => String::from_str("*"),
        BinaryOp::Slash => String::from_str("/"),
    }
}

/// The infix rendering of a tree, as `pretty_text` defines it.
pub fn tree_text_pretty(e: &Expr) -> (r: String)
    ensures
        r@ == pretty_text(e@),
    decreases *e,
{
    match e {
        Expr::Literal(l) => match l {
            Option::Some(l) => render_lit_exec(l),
            Option::None => String::new(),
        },
        Expr::Grouping(inner) => {
            let mut m = String::from_str("( ");
            let t = tree_text_pretty(inner);
            m.append(t.as_str());
            m.append(" )");
            m
        },
        Expr::Unary(op, inner) => {
            let mut m = unary_op_string(*op);
            let t = tree_text_pretty(inner);
            m.append(t.as_str());
            m
        },
        Expr::Binary(l, op, r) => {
            let mut m = tree_text_pretty(l);
            m.append(" ");
            let o = binary_op_string(*op);
            m.append(o.as_str());
            m.append(" ");
            let t = tree_text_pretty(r);
            m.append(t.as_str());
            m
        },
    }
}

/// The prefix rendering of a tree, as `prefix_text` defines it; not
/// defined on trees holding a null literal.
pub fn tree_text(e: &Expr) -> (r: String)
    requires
        !has_null_literal(e@),
    ensures
        r@ == prefix_text(e@),
    decreases *e,
{
    match e {
        Expr::Literal(l) => match l {
            Option::Some(l) => render_lit_exec(l),
            Option::None => {
                proof {
                    assert(false);
                }
                String::new()
            },
        },
        Expr::Grouping(inner) => {
            let mut m = String::from_str("( ");
            let t = tree_text(inner);
            m.append(t.as_str());
            m.append(" )");
            m
        },
        Expr::Unary(op, inner) => {
            let mut m = unary_op_string(*op);
            let t = tree_text(inner);
            m.append(t.as_str());
            m
        },
        Expr::Binary(l, op, r) => {
            let mut m = binary_op_string(*op);
            m.append(" (");
            let tl = tree_text(l);
            m.append(tl.as_str());
            m.append(" ");
            let tr = tree_text(r);
            m.append(tr.as_str());
            m.append(")");
            m
        },
    }
}

/// Whether any statement in the sequence contains a float literal.
pub fn stmts_contain_float(stmts: &Vec<Stmt>) -> (r: bool)
    ensures
        r == stmts_have_float(stmts_view(stmts@)),
{
    let mut i: usize = 0;
    while i < stmts.len()
        invariant
            i <= stmts@.len(),
            forall|j: int| 0 <= j < i ==> !stmt_has_float(stmts_view(stmts@)[j]),
        decreases stmts@.len() - i,
    {
        if stmts[i].contains_float() {
            assert(stmt_has_float(stmts_view(stmts@)[i as int]));
            return true;
        }
        i += 1;
    }
    false
}

} // verus!
