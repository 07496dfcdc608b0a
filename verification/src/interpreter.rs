//! The evaluator: a tree walk over the parsed statements, against a
//! dynamically typed value model.
//!
//! Evaluation is specified by the `sv_*` spec functions; the executable
//! evaluator is proved to return exactly the value — or exactly the error
//! message — that the model gives, and to append exactly the renderings the
//! model gives to the output sink. Trees carrying fractional (float)
//! literals are outside the verified model and are left to the embedding
//! shell, which is why the entry points require their absence.

use vstd::prelude::*;

use vstd::string::StrSliceExecFns;
use vstd::string::StringExecFns;

use crate::error::RuntimeError;
use crate::expr::BinaryOp;
use crate::expr::Expr;
use crate::expr::ExprLiteral;
use crate::expr::ExprView;
use crate::expr::Stmt;
use crate::expr::StmtView;
use crate::expr::UnaryOp;
use crate::expr::expr_has_float;
use crate::expr::stmt_has_float;
use crate::expr::stmts_have_float;
use crate::expr::stmts_view;
use crate::strutil::chars_lt;
use crate::strutil::dec_int;
use crate::strutil::i64_to_string;
use crate::strutil::lex_lt;
use crate::strutil::str_chars_vec;
use crate::token::LitView;

verus! {

/// A runtime value. There is no float variant: fractional arithmetic is
/// the embedding shell's business.
#[derive(Debug, PartialEq)]
pub enum Value {
    Int(i64),
    String(String),
    Bool(bool),
    Null,
}

/// Mathematical view of a runtime value.
pub enum ValueView {
    Int(i64),
    Str(Seq<char>),
    Bool(bool),
    Null,
}

impl View for Value {
    type V = ValueView;

    open spec fn view(&self) -> ValueView {
        match self {
            Value::Int(i) => ValueView::Int(*i),
            Value::String(s) => ValueView::Str(s@),
            Value::Bool(b) => ValueView::Bool(*b),
            Value::Null => ValueView::Null,
        }
    }
}

/// The name a value's type prints under in error messages.
pub open spec fn type_label(v: ValueView) -> Seq<char> {
    match v {
        ValueView::Int(_) => "Int"@,
        ValueView::Str(_) => "String"@,
        ValueView::Bool(_) => "Bool"@,
        ValueView::Null => "Null"@,
    }
}

impl Value {
    pub fn get_type(&self) -> (r: String)
        ensures
            r@ == type_label(self@),
    {
        match self {
            Value::Int(_) => String::from_str("Int"),
            Value::String(_) => String::from_str("String"),
            Value::Bool(_) => String::from_str("Bool"),
            Value::Null => String::from_str("Null"),
        }
    }
}

/// An evaluation outcome: a value, or an error message.
pub type EvalRes = Result<ValueView, Seq<char>>;

pub open spec fn cannot_msg(verb: Seq<char>, a: ValueView, b: ValueView) -> Seq<char> {
    verb + type_label(a) + " and "@ + type_label(b)
}

pub open spec fn overflow_msg() -> Seq<char> {
    "Integer overflow"@
}

pub open spec fn in_i64(n: int) -> bool {
    i64::MIN <= n <= i64::MAX
}

/// Lexicographic `<=`: the total order's complement of strict `>`.
pub open spec fn lex_le(a: Seq<char>, b: Seq<char>) -> bool {
    !lex_lt(b, a)
}

/// Truncating (round-toward-zero) division, as `/` behaves on machine
/// integers.
pub open spec fn trunc_div(a: int, b: int) -> int {
    let ua = if a < 0 {
        -a
    } else {
        a
    };
    let ub = if b < 0 {
        -b
    } else {
        b
    };
    if (a < 0) == (b < 0) {
        ua / ub
    } else {
        -(ua / ub)
    }
}

/// The string `s` repeated `n` times (empty for `n <= 0`).
pub open spec fn repeat_str(s: Seq<char>, n: int) -> Seq<char>
    decreases n,
{
    if n <= 0 {
        Seq::empty()
    } else {
        repeat_str(s, n - 1) + s
    }
}

/// The number of nodes in an expression tree, for termination measures.
pub open spec fn esize(e: ExprView) -> nat
    decreases e,
{
    match e {
        ExprView::Literal(_) => 1,
        ExprView::Grouping(inner) => 1 + esize(*inner),
        ExprView::Unary(_, inner) => 1 + esize(*inner),
        ExprView::Binary(l, _, r) => 1 + esize(*l) + esize(*r),
    }
}

/// A value's truthiness: `Null` is false, a boolean is itself, everything
/// else is true.
pub open spec fn truthy(v: ValueView) -> bool {
    match v {
        ValueView::Null => false,
        ValueView::Bool(b) => b,
        _ => true,
    }
}

pub open spec fn sv_unary(op: UnaryOp, v: ValueView) -> EvalRes {
    match op {
        UnaryOp::Minus => match v {
            ValueView::Int(i) => if i == i64::MIN {
                Result::Err(overflow_msg())
            } else {
                Result::Ok(ValueView::Int((-(i as int)) as i64))
            },
            _ => Result::Err("Cannot apply '-' unary operator to "@ + type_label(v)),
        },
        UnaryOp::Bang => match v {
            ValueView::Bool(b) => Result::Ok(ValueView::Bool(!b)),
            _ => Result::Err("Cannot apply '!' unary operator to "@ + type_label(v)),
        },
    }
}

pub open spec fn sv_binary(op: BinaryOp, l: ValueView, r: ValueView) -> EvalRes {
    match op {
        BinaryOp::EqualEqual => match (l, r) {
            (ValueView::Int(a), ValueView::Int(b)) => Result::Ok(ValueView::Bool(a == b)),
            (ValueView::Str(a), ValueView::Str(b)) => Result::Ok(ValueView::Bool(a == b)),
            (ValueView::Bool(a), ValueView::Bool(b)) => Result::Ok(ValueView::Bool(a == b)),
            (ValueView::Null, ValueView::Null) => Result::Ok(ValueView::Bool(true)),
            (ValueView::Null, _) => Result::Ok(ValueView::Bool(false)),
            (_, ValueView::Null) => Result::Ok(ValueView::Bool(false)),
            _ => Result::Err(cannot_msg("Cannot compare "@, l, r)),
        },
        BinaryOp::BangEqual => match (l, r) {
            (ValueView::Int(a), ValueView::Int(b)) => Result::Ok(ValueView::Bool(a != b)),
            (ValueView::Str(a), ValueView::Str(b)) => Result::Ok(ValueView::Bool(a != b)),
            (ValueView::Bool(a), ValueView::Bool(b)) => Result::Ok(ValueView::Bool(a != b)),
            (ValueView::Null, ValueView::Null) => Result::Ok(ValueView::Bool(false)),
            (ValueView::Null, _) => Result::Ok(ValueView::Bool(true)),
            (_, ValueView::Null) => Result::Ok(ValueView::Bool(true)),
            _ => Result::Err(cannot_msg("Cannot compare "@, l, r)),
        },
        BinaryOp::Less => match (l, r) {
            (ValueView::Int(a), ValueView::Int(b)) => Result::Ok(ValueView::Bool(a < b)),
            (ValueView::Str(a), ValueView::Str(b)) => Result::Ok(ValueView::Bool(lex_lt(a, b))),
            (ValueView::Bool(a), ValueView::Bool(b)) => Result::Ok(ValueView::Bool(!a && b)),
            _ => Result::Err(cannot_msg("Cannot compare "@, l, r)),
        },
        BinaryOp::LessEqual => match (l, r) {
            (ValueView::Int(a), ValueView::Int(b)) => Result::Ok(ValueView::Bool(a <= b)),
            (ValueView::Str(a), ValueView::Str(b)) => Result::Ok(ValueView::Bool(lex_le(a, b))),
            (ValueView::Bool(a), ValueView::Bool(b)) => Result::Ok(ValueView::Bool(!(a && !b))),
            _ => Result::Err(cannot_msg("Cannot compare "@, l, r)),
        },
        BinaryOp::Greater => match (l, r) {
            (ValueView::Int(a), ValueView::Int(b)) => Result::Ok(ValueView::Bool(a > b)),
            (ValueView::Str(a), ValueView::Str(b)) => Result::Ok(ValueView::Bool(lex_lt(b, a))),
            (ValueView::Bool(a), ValueView::Bool(b)) => Result::Ok(ValueView::Bool(a && !b)),
            _ => Result::Err(cannot_msg("Cannot compare "@, l, r)),
        },
        BinaryOp::GreaterEqual => match (l, r) {
            (ValueView::Int(a), ValueView::Int(b)) => Result::Ok(ValueView::Bool(a >= b)),
            (ValueView::Str(a), ValueView::Str(b)) => Result::Ok(ValueView::Bool(lex_le(b, a))),
            (ValueView::Bool(a), ValueView::Bool(b)) => Result::Ok(ValueView::Bool(!(!a && b))),
            _ => Result::Err(cannot_msg("Cannot compare "@, l, r)),
        },
        BinaryOp::Plus => match (l, r) {
            (ValueView::Int(a), ValueView::Int(b)) => if in_i64(a as int + b as int) {
                Result::Ok(ValueView::Int((a as int + b as int) as i64))
            } else {
                Result::Err(overflow_msg())
            },
            (ValueView::Str(a), ValueView::Str(b)) => Result::Ok(ValueView::Str(a + b)),
            _ => Result::Err(cannot_msg("Cannot add "@, l, r)),
        },
        BinaryOp::Minus => match (l, r) {
            (ValueView::Int(a), ValueView::Int(b)) => if in_i64(a as int - b as int) {
                Result::Ok(ValueView::Int((a as int - b as int) as i64))
            } else {
                Result::Err(overflow_msg())
            },
            _ => Result::Err(cannot_msg("Cannot subtract "@, l, r)),
        },
        BinaryOp::Star => match (l, r) {
            (ValueView::Int(a), ValueView::Int(b)) => if in_i64(a as int * b as int) {
                Result::Ok(ValueView::Int((a as int * b as int) as i64))
            } else {
                Result::Err(overflow_msg())
            },
            (ValueView::Str(s), ValueView::Int(n)) => Result::Ok(ValueView::Str(repeat_str(s, n as int))),
            (ValueView::Int(n), ValueView::Str(s)) => Result::Ok(ValueView::Str(repeat_str(s, n as int))),
            _ => Result::Err(cannot_msg("Cannot multiply "@, l, r)),
        },
        BinaryOp::Slash => match (l, r) {
            (ValueView::Int(a), ValueView::Int(b)) => if b == 0 {
                Result::Err("Cannot divide by zero"@)
            } else if a == i64::MIN && b == -1 {
                Result::Err(overflow_msg())
            } else {
                Result::Ok(ValueView::Int(trunc_div(a as int, b as int) as i64))
            },
            _ => Result::Err(cannot_msg("Cannot divide "@, l, r)),
        },
    }
}

pub open spec fn sv_literal(l: Option<LitView>) -> EvalRes {
    match l {
        Option::None => Result::Ok(ValueView::Null),
        Option::Some(LitView::Int(i)) => Result::Ok(ValueView::Int(i)),
        Option::Some(LitView::Str(s)) => Result::Ok(ValueView::Str(s)),
        Option::Some(LitView::Bool(b)) => Result::Ok(ValueView::Bool(b)),
        // float literals never reach the verified evaluator
        Option::Some(LitView::Float(_)) => arbitrary(),
    }
}

pub open spec fn sv_expr(e: ExprView) -> EvalRes
    decreases e,
{
    match e {
        ExprView::Literal(l) => sv_literal(l),
        ExprView::Grouping(inner) => sv_expr(*inner),
        ExprView::Unary(op, inner) => match sv_expr(*inner) {
            Result::Ok(v) => sv_unary(op, v),
            Result::Err(m) => Result::Err(m),
        },
        ExprView::Binary(l, op, r) => match sv_expr(*l) {
            Result::Err(m) => Result::Err(m),
            Result::Ok(lv) => match sv_expr(*r) {
                Result::Err(m) => Result::Err(m),
                Result::Ok(rv) => sv_binary(op, lv, rv),
            },
        },
    }
}

/// How a printed value is rendered on the output sink.
pub open spec fn render_value(v: ValueView) -> Seq<char> {
    match v {
        ValueView::Int(i) => "Int("@ + dec_int(i as int) + ")"@,
        ValueView::Str(s) => "String(\""@ + s + "\")"@,
        ValueView::Bool(b) => if b {
            "Bool(true)"@
        } else {
            "Bool(false)"@
        },
        ValueView::Null => "Null"@,
    }
}

/// What one statement contributes to the output sink, or the error that
/// stops it.
pub open spec fn sv_stmt(s: StmtView) -> Result<Seq<Seq<char>>, Seq<char>> {
    match s {
        StmtView::Print(e) => match sv_expr(e) {
            Result::Ok(v) => Result::Ok(seq![render_value(v)]),
            Result::Err(m) => Result::Err(m),
        },
        StmtView::ExprStmt(e) => match sv_expr(e) {
            Result::Ok(_) => Result::Ok(Seq::empty()),
            Result::Err(m) => Result::Err(m),
        },
    }
}

/// Running a statement sequence: the renderings printed before the first
/// error, and the overall outcome.
pub open spec fn sv_stmts(ss: Seq<StmtView>) -> (Seq<Seq<char>>, Result<(), Seq<char>>)
    decreases ss.len(),
{
    if ss.len() == 0 {
        (Seq::empty(), Result::Ok(()))
    } else {
        match sv_stmt(ss[0]) {
            Result::Err(m) => (Seq::empty(), Result::Err(m)),
            Result::Ok(out) => {
                let (rest, res) = sv_stmts(ss.skip(1));
                (out + rest, res)
            },
        }
    }
}

/// Multiplying a string by a count is the same in either operand order:
/// `s * n` and `n * s` evaluate to the same repetition.
pub proof fn lemma_star_string_int_commutes(s: Seq<char>, n: i64)
    ensures
        sv_binary(BinaryOp::Star, ValueView::Str(s), ValueView::Int(n)) == sv_binary(
            BinaryOp::Star,
            ValueView::Int(n),
            ValueView::Str(s),
        ),
{
}

// ---------------------------------------------------------------------------
// Executable evaluator
// ---------------------------------------------------------------------------

/// The views of the output sink's lines.
pub open spec fn outputs_view(s: Seq<String>) -> Seq<Seq<char>> {
    s.map_values(|x: String| x@)
}

fn mk_rt_error(msg: String) -> (e: RuntimeError)
    ensures
        e@.msg == msg@,
        e@.token is None,
{
    RuntimeError { msg, token: Option::None }
}

fn unary_msg_exec(prefix: &str, v: &Value) -> (m: String)
    ensures
        m@ == prefix@ + type_label(v@),
{
    let mut m = String::from_str(prefix);
    let t = v.get_type();
    m.append(t.as_str());
    m
}

fn cannot_msg_exec(verb: &str, a: &Value, b: &Value) -> (m: String)
    ensures
        m@ == cannot_msg(verb@, a@, b@),
{
    let mut m = String::from_str(verb);
    let ta = a.get_type();
    m.append(ta.as_str());
    m.append(" and ");
    let tb = b.get_type();
    m.append(tb.as_str());
    m
}

proof fn lemma_div_le(x: int, y: int)
    requires
        x >= 0,
        y >= 1,
    ensures
        0 <= x / y <= x,
{
    assert(0 <= x / y <= x) by (nonlinear_arith)
        requires
            x >= 0,
            y >= 1,
    ;
}

fn div_trunc(a: i64, b: i64) -> (q: i64)
    requires
        b != 0,
        !(a == i64::MIN && b == -1),
    ensures
        q as int == trunc_div(a as int, b as int),
{
    let neg = (a < 0) != (b < 0);
    let ua: u64 = if a >= 0 {
        a as u64
    } else {
        ((-(a + 1)) as u64) + 1
    };
    let ub: u64 = if b >= 0 {
        b as u64
    } else {
        ((-(b + 1)) as u64) + 1
    };
    proof {
        lemma_div_le(ua as int, ub as int);
    }
    let uq = ua / ub;
    if neg {
        if uq == 0x8000_0000_0000_0000u64 {
            i64::MIN
        } else {
            -(uq as i64)
        }
    } else {
        proof {
            if ua == 0x8000_0000_0000_0000u64 {
                assert(b < 0 && b != -1);
                assert(ub >= 2);
                assert(uq as int <= ua as int / 2) by (nonlinear_arith)
                    requires
                        uq as int == ua as int / ub as int,
                        ub >= 2,
                        ua >= 0,
                ;
            }
        }
        uq as i64
    }
}

#[verifier::loop_isolation(false)]
fn repeat_string(s: &String, n: i64) -> (r: String)
    ensures
        r@ == repeat_str(s@, n as int),
{
    let mut out = String::new();
    let mut i: i64 = 0;
    while i < n
        invariant
            0 <= i,
            i <= if n > 0 { n as int } else { 0 },
            out@ == repeat_str(s@, i as int),
        decreases n - i,
    {
        out.append(s.as_str());
        i = i + 1;
    }
    out
}

fn str_less(a: &String, b: &String) -> (r: bool)
    ensures
        r == lex_lt(a@, b@),
{
    let av = str_chars_vec(a.as_str());
    let bv = str_chars_vec(b.as_str());
    chars_lt(&av, &bv)
}

/// The evaluator. `output` is the sink that `print` statements append
/// their renderings to.
pub struct Interpreter {
    pub output: Vec<String>,
}

impl Interpreter {
    pub fn new() -> (s: Self)
        ensures
            s.output@ == Seq::<String>::empty(),
    {
        Interpreter { output: Vec::new() }
    }

    fn gen_error(&self, msg: &str) -> (e: RuntimeError)
        ensures
            e@.msg == msg@,
            e@.token is None,
    {
        RuntimeError { msg: String::from_str(msg), token: Option::None }
    }

    fn is_truthy(&self, literal: Value) -> (r: bool)
        ensures
            r == truthy(literal@),
    {
        match literal {
            Value::Null => false,
            Value::Bool(val) => val,
            _ => true,
        }
    }

    /// Applies a unary operator to an evaluated operand, exactly as the
    /// `sv_unary` model says.
    pub fn eval_unary_value(&self, op: UnaryOp, value: Value) -> (r: Result<Value, RuntimeError>)
        ensures
            match r {
                Result::Ok(v) => sv_unary(op, value@) == Result::<ValueView, Seq<char>>::Ok(v@),
                Result::Err(e) => sv_unary(op, value@) == Result::<ValueView, Seq<char>>::Err(
                    e@.msg,
                ) && e@.token is None,
            },
    {
        match op {
            UnaryOp::Minus => match value {
                Value::Int(val) => {
                    if val == i64::MIN {
                        Result::Err(self.gen_error("Integer overflow"))
                    } else {
                        Result::Ok(Value::Int(-val))
                    }
                },
                v => Result::Err(
                    mk_rt_error(unary_msg_exec("Cannot apply '-' unary operator to ", &v)),
                ),
            },
            UnaryOp::Bang => match value {
                Value::Bool(val) => Result::Ok(Value::Bool(!val)),
                v => Result::Err(
                    mk_rt_error(unary_msg_exec("Cannot apply '!' unary operator to ", &v)),
                ),
            },
        }
    }

    /// Applies a binary operator to two evaluated operands, exactly as the
    /// `sv_binary` model says.
    pub fn eval_binary_values(&self, op: BinaryOp, left: Value, right: Value) -> (r: Result<
        Value,
        RuntimeError,
    >)
        ensures
            match r {
                Result::Ok(v) => sv_binary(op, left@, right@) == Result::<
                    ValueView,
                    Seq<char>,
                >::Ok(v@),
                Result::Err(e) => sv_binary(op, left@, right@) == Result::<
                    ValueView,
                    Seq<char>,
                >::Err(e@.msg) && e@.token is None,
            },
    {
        match op {
            BinaryOp::EqualEqual => match (left, right) {
                (Value::Int(a), Value::Int(b)) => Result::Ok(Value::Bool(a == b)),
                (Value::String(a), Value::String(b)) => Result::Ok(Value::Bool(a == b)),
                (Value::Bool(a), Value::Bool(b)) => Result::Ok(Value::Bool(a == b)),
                (Value::Null, Value::Null) => Result::Ok(Value::Bool(true)),
                (Value::Null, _) => Result::Ok(Value::Bool(false)),
                (_, Value::Null) => Result::Ok(Value::Bool(false)),
                (a, b) => {
                    let msg = cannot_msg_exec("Cannot compare ", &a, &b);
                    Result::Err(mk_rt_error(msg))
                },
            },
            BinaryOp::BangEqual => match (left, right) {
                (Value::Int(a), Value::Int(b)) => Result::Ok(Value::Bool(a != b)),
                (Value::String(a), Value::String(b)) => Result::Ok(Value::Bool(!(a == b))),
                (Value::Bool(a), Value::Bool(b)) => Result::Ok(Value::Bool(a != b)),
                (Value::Null, Value::Null) => Result::Ok(Value::Bool(false)),
                (Value::Null, _) => Result::Ok(Value::Bool(true)),
                (_, Value::Null) => Result::Ok(Value::Bool(true)),
                (a, b) => {
                    let msg = cannot_msg_exec("Cannot compare ", &a, &b);
                    Result::Err(mk_rt_error(msg))
                },
            },
            BinaryOp::Less => match (left, right) {
                (Value::Int(a), Value::Int(b)) => Result::Ok(Value::Bool(a < b)),
                (Value::String(a), Value::String(b)) => Result::Ok(Value::Bool(str_less(&a, &b))),
                (Value::Bool(a), Value::Bool(b)) => Result::Ok(Value::Bool(!a && b)),
                (a, b) => {
                    let msg = cannot_msg_exec("Cannot compare ", &a, &b);
                    Result::Err(mk_rt_error(msg))
                },
            },
            BinaryOp::LessEqual => match (left, right) {
                (Value::Int(a), Value::Int(b)) => Result::Ok(Value::Bool(a <= b)),
                (Value::String(a), Value::String(b)) => Result::Ok(Value::Bool(!str_less(&b, &a))),
                (Value::Bool(a), Value::Bool(b)) => Result::Ok(Value::Bool(!(a && !b))),
                (a, b) => {
                    let msg = cannot_msg_exec("Cannot compare ", &a, &b);
                    Result::Err(mk_rt_error(msg))
                },
            },
            BinaryOp::Greater => match (left, right) {
                (Value::Int(a), Value::Int(b)) => Result::Ok(Value::Bool(a > b)),
                (Value::String(a), Value::String(b)) => Result::Ok(Value::Bool(str_less(&b, &a))),
                (Value::Bool(a), Value::Bool(b)) => Result::Ok(Value::Bool(a && !b)),
                (a, b) => {
                    let msg = cannot_msg_exec("Cannot compare ", &a, &b);
                    Result::Err(mk_rt_error(msg))
                },
            },
            BinaryOp::GreaterEqual => match (left, right) {
                (Value::Int(a), Value::Int(b)) => Result::Ok(Value::Bool(a >= b)),
                (Value::String(a), Value::String(b)) => Result::Ok(Value::Bool(!str_less(&a, &b))),
                (Value::Bool(a), Value::Bool(b)) => Result::Ok(Value::Bool(!(!a && b))),
                (a, b) => {
                    let msg = cannot_msg_exec("Cannot compare ", &a, &b);
                    Result::Err(mk_rt_error(msg))
                },
            },
            BinaryOp::Plus => match (left, right) {
                (Value::Int(a), Value::Int(b)) => match a.checked_add(b) {
                    Option::Some(v) => Result::Ok(Value::Int(v)),
                    Option::None => Result::Err(self.gen_error("Integer overflow")),
                },
                (Value::String(a), Value::String(b)) => Result::Ok(
                    Value::String(a.concat(b.as_str())),
                ),
                (a, b) => {
                    let msg = cannot_msg_exec("Cannot add ", &a, &b);
                    Result::Err(mk_rt_error(msg))
                },
            },
            BinaryOp::Minus => match (left, right) {
                (Value::Int(a), Value::Int(b)) => match a.checked_sub(b) {
                    Option::Some(v) => Result::Ok(Value::Int(v)),
                    Option::None => Result::Err(self.gen_error("Integer overflow")),
                },
                (a, b) => {
                    let msg = cannot_msg_exec("Cannot subtract ", &a, &b);
                    Result::Err(mk_rt_error(msg))
                },
            },
            BinaryOp::Star => match (left, right) {
                (Value::Int(a), Value::Int(b)) => match a.checked_mul(b) {
                    Option::Some(v) => Result::Ok(Value::Int(v)),
                    Option::None => Result::Err(self.gen_error("Integer overflow")),
                },
                (Value::String(s), Value::Int(n)) => Result::Ok(
                    Value::String(repeat_string(&s, n)),
                ),
                (Value::Int(n), Value::String(s)) => Result::Ok(
                    Value::String(repeat_string(&s, n)),
                ),
                (a, b) => {
                    let msg = cannot_msg_exec("Cannot multiply ", &a, &b);
                    Result::Err(mk_rt_error(msg))
                },
            },
            BinaryOp::Slash => match (left, right) {
                (Value::Int(a), Value::Int(b)) => {
                    if b == 0 {
                        Result::Err(self.gen_error("Cannot divide by zero"))
                    } else if a == i64::MIN && b == -1 {
                        Result::Err(self.gen_error("Integer overflow"))
                    } else {
                        Result::Ok(Value::Int(div_trunc(a, b)))
                    }
                },
                (a, b) => {
                    let msg = cannot_msg_exec("Cannot divide ", &a, &b);
                    Result::Err(mk_rt_error(msg))
                },
            },
        }
    }

    fn interpret_literal(&self, literal: Option<ExprLiteral>) -> (r: Result<Value, RuntimeError>)
        requires
            !(literal matches Option::Some(ExprLiteral::Float(_))),
        ensures
            ({
                let lv = match literal {
                    Option::Some(l) => Option::Some(l@),
                    Option::None => Option::None,
                };
                r matches Result::Ok(v) && sv_literal(lv) == Result::<ValueView, Seq<char>>::Ok(
                    v@,
                )
            }),
    {
        match literal {
            Option::None => Result::Ok(Value::Null),
            Option::Some(ExprLiteral::Int(val)) => Result::Ok(Value::Int(val)),
            Option::Some(ExprLiteral::Str(val)) => Result::Ok(Value::String(val)),
            Option::Some(ExprLiteral::Bool(val)) => Result::Ok(Value::Bool(val)),
            Option::Some(ExprLiteral::Float(_)) => {
                proof {
                    assert(false);
                }
                Result::Ok(Value::Null)
            },
        }
    }

    fn interpret_unary(&self, op: UnaryOp, expr: Expr) -> (r: Result<Value, RuntimeError>)
        requires
            !expr_has_float(expr@),
        ensures
            ({
                let o = match sv_expr(expr@) {
                    Result::Ok(v) => sv_unary(op, v),
                    Result::Err(m) => Result::Err(m),
                };
                match r {
                    Result::Ok(v) => o == Result::<ValueView, Seq<char>>::Ok(v@),
                    Result::Err(e) => o == Result::<ValueView, Seq<char>>::Err(e@.msg)
                        && e@.token is None,
                }
            }),
        decreases esize(expr@), 1int,
    {
        let value = self.interpret_expr(expr)?;
        self.eval_unary_value(op, value)
    }

    fn interpret_binary(&self, left: Expr, op: BinaryOp, right: Expr) -> (r: Result<
        Value,
        RuntimeError,
    >)
        requires
            !expr_has_float(left@),
            !expr_has_float(right@),
        ensures
            ({
                let o = match sv_expr(left@) {
                    Result::Err(m) => Result::Err(m),
                    Result::Ok(lv) => match sv_expr(right@) {
                        Result::Err(m) => Result::Err(m),
                        Result::Ok(rv) => sv_binary(op, lv, rv),
                    },
                };
                match r {
                    Result::Ok(v) => o == Result::<ValueView, Seq<char>>::Ok(v@),
                    Result::Err(e) => o == Result::<ValueView, Seq<char>>::Err(e@.msg)
                        && e@.token is None,
                }
            }),
        decreases esize(left@) + esize(right@), 1int,
    {
        let left = self.interpret_expr(left)?;
        let right = self.interpret_expr(right)?;
        self.eval_binary_values(op, left, right)
    }

    /// Evaluates one expression tree, exactly as the `sv_expr` model says.
    /// Verification guarantees it cannot panic on any float-free tree: it
    /// always returns a value or a runtime error.
    pub fn interpret_expr(&self, expr: Expr) -> (r: Result<Value, RuntimeError>)
        requires
            !expr_has_float(expr@),
        ensures
            match r {
                Result::Ok(v) => sv_expr(expr@) == Result::<ValueView, Seq<char>>::Ok(v@),
                Result::Err(e) => sv_expr(expr@) == Result::<ValueView, Seq<char>>::Err(e@.msg)
                    && e@.token is None,
            },
        decreases esize(expr@), 0int,
    {
        match expr {
            Expr::Literal(val) => self.interpret_literal(val),
            Expr::Grouping(val) => self.interpret_expr(*val),
            Expr::Unary(op, val) => self.interpret_unary(op, *val),
            Expr::Binary(val1, op, val2) => self.interpret_binary(*val1, op, *val2),
        }
    }

    fn interpret_stmt(&mut self, stmt: Stmt) -> (r: Result<(), RuntimeError>)
        requires
            !stmt_has_float(stmt@),
        ensures
            match r {
                Result::Ok(()) => sv_stmt(stmt@) matches Result::Ok(out) && outputs_view(
                    final(self).output@,
                ) == outputs_view(old(self).output@) + out,
                Result::Err(e) => sv_stmt(stmt@) == Result::<Seq<Seq<char>>, Seq<char>>::Err(
                    e@.msg,
                ) && e@.token is None && final(self).output@ == old(self).output@,
            },
    {
        let ghost out0 = self.output@;
        match stmt {
            Stmt::Print(expr) => {
                let value = self.interpret_expr(expr)?;
                let line = render_value_exec(&value);
                self.output.push(line);
                proof {
                    assert(outputs_view(self.output@) =~= outputs_view(out0) + seq![
                        render_value(value@),
                    ]);
                }
                Result::Ok(())
            },
            Stmt::ExprStmt(expr) => {
                let _value = self.interpret_expr(expr)?;
                proof {
                    assert(outputs_view(self.output@) =~= outputs_view(out0) + Seq::<
                        Seq<char>,
                    >::empty());
                }
                Result::Ok(())
            },
        }
    }

    /// Runs the statements in order against the output sink, exactly as
    /// the `sv_stmts` model says: the renderings of every `print` executed
    /// before the first error are appended, and the first error aborts the
    /// rest.
    #[verifier::loop_isolation(false)]
    pub fn interpret(&mut self, statements: Vec<Stmt>) -> (r: Result<(), RuntimeError>)
        requires
            !stmts_have_float(stmts_view(statements@)),
        ensures
            ({
                let (outs, res) = sv_stmts(stmts_view(statements@));
                match r {
                    Result::Ok(()) => res is Ok && outputs_view(final(self).output@)
                        == outputs_view(old(self).output@) + outs,
                    Result::Err(e) => res matches Result::Err(m) && e@.msg == m
                        && e@.token is None && outputs_view(final(self).output@)
                        == outputs_view(old(self).output@) + outs,
                }
            }),
    {
        let ghost sv = stmts_view(statements@);
        let ghost out0 = outputs_view(old(self).output@);
        let mut statements = statements;
        while statements.len() > 0
            invariant
                !stmts_have_float(stmts_view(statements@)),
                out0.len() <= outputs_view(self.output@).len(),
                outputs_view(self.output@).take(out0.len() as int) == out0,
                sv_stmts(sv).1 == sv_stmts(stmts_view(statements@)).1,
                sv_stmts(sv).0 == outputs_view(self.output@).skip(out0.len() as int) + sv_stmts(
                    stmts_view(statements@),
                ).0,
            decreases statements@.len(),
        {
            let ghost pre_out = self.output@;
            let ghost pre_sv = stmts_view(statements@);
            let stmt = statements.remove(0);
            proof {
                assert(stmts_view(statements@) =~= pre_sv.skip(1));
                assert(stmt@ == pre_sv[0]);
                assert(!stmt_has_float(stmt@));
                assert(!stmts_have_float(stmts_view(statements@)));
            }
            match self.interpret_stmt(stmt) {
                Result::Ok(()) => {
                    proof {
                        match sv_stmt(stmt@) {
                            Result::Ok(out) => {
                                assert(outputs_view(self.output@) =~= outputs_view(pre_out) + out);
                                assert(outputs_view(self.output@).take(out0.len() as int)
                                    =~= outputs_view(pre_out).take(out0.len() as int));
                                assert(outputs_view(self.output@).skip(out0.len() as int)
                                    + sv_stmts(pre_sv.skip(1)).0 =~= outputs_view(pre_out).skip(
                                    out0.len() as int,
                                ) + (out + sv_stmts(pre_sv.skip(1)).0));
                            },
                            Result::Err(_) => {
                                assert(false);
                            },
                        }
                    }
                },
                Result::Err(e) => {
                    proof {
                        assert(outputs_view(self.output@) =~= out0 + outputs_view(
                            self.output@,
                        ).skip(out0.len() as int));
                        assert(sv_stmts(pre_sv).0 =~= Seq::<Seq<char>>::empty());
                        assert(outputs_view(self.output@).skip(out0.len() as int) + sv_stmts(
                            pre_sv,
                        ).0 =~= outputs_view(self.output@).skip(out0.len() as int));
                    }
                    return Result::Err(e);
                },
            }
        }
        proof {
            assert(stmts_view(statements@).len() == 0);
            assert(stmts_view(statements@) =~= Seq::<StmtView>::empty());
            assert(outputs_view(self.output@).skip(out0.len() as int) + Seq::<
                Seq<char>,
            >::empty() =~= outputs_view(self.output@).skip(out0.len() as int));
            assert(outputs_view(self.output@) =~= out0 + outputs_view(self.output@).skip(
                out0.len() as int,
            ));
        }
        Result::Ok(())
    }
}

/// The rendering a printed value puts on the output sink.
fn render_value_exec(v: &Value) -> (r: String)
    ensures
        r@ == render_value(v@),
{
    match v {
        Value::Int(i) => {
            let mut m = String::from_str("Int(");
            let d = i64_to_string(*i);
            m.append(d.as_str());
            m.append(")");
            m
        },
        Value::String(s) => {
            let mut m = String::from_str("String(\"");
            m.append(s.as_str());
            m.append("\")");
            m
        },
        Value::Bool(b) => {
            if *b {
                String::from_str("Bool(true)")
            } else {
                String::from_str("Bool(false)")
            }
        },
        Value::Null => String::from_str("Null"),
    }
}

} // verus!
