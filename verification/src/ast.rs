//! The typed syntax tree.
//!
//! The grammar's central invariant is kept by the types themselves: the top
//! level of an expression is always a `BooleanExpr`, and a `ValueExpr` can
//! only appear inside a `RelationalExpr`. The parser additionally enforces
//! the static rules on BETWEEN bounds and IN lists; `bool_expr_valid` states
//! them, and `parse` guarantees them of every tree it returns.

use vstd::prelude::*;
use crate::float::float_lt;
use crate::float::float_neg;
use crate::float::float_of_i64;
use crate::strutil::chars_lt;
use crate::strutil::wrap_neg_i64;

verus! {

/// Operator of an equality test: `=` or `<>` / `!=`.
#[derive(Debug, Clone, Copy, PartialEq, Eq, Structural)]
pub enum EqualityOp {
    Equal,
    NotEqual,
}

/// Operator of an ordering comparison: `>`, `>=`, `<`, `<=`.
#[derive(Debug, Clone, Copy, PartialEq, Eq, Structural)]
pub enum ComparisonOp {
    GreaterThan,
    GreaterOrEqual,
    LessThan,
    LessOrEqual,
}

/// A constant appearing in source text. A float literal carries the bit
/// pattern of its IEEE binary64 value.
#[derive(Debug, PartialEq)]
pub enum ValueLiteral {
    Integer(i64),
    Float(u64),
    String(String),
    Null,
    Boolean(bool),
}

/// A scalar-valued expression: arithmetic over literals and variables.
#[derive(Debug, PartialEq)]
pub enum ValueExpr {
    Add(Box<ValueExpr>, Box<ValueExpr>),
    Subtract(Box<ValueExpr>, Box<ValueExpr>),
    Multiply(Box<ValueExpr>, Box<ValueExpr>),
    Divide(Box<ValueExpr>, Box<ValueExpr>),
    Modulo(Box<ValueExpr>, Box<ValueExpr>),
    UnaryPlus(Box<ValueExpr>),
    UnaryMinus(Box<ValueExpr>),
    Literal(ValueLiteral),
    Variable(String),
}

/// A comparison that bridges value expressions into the boolean world.
#[derive(Debug, PartialEq)]
pub enum RelationalExpr {
    Equality { left: ValueExpr, op: EqualityOp, right: ValueExpr },
    Comparison { left: ValueExpr, op: ComparisonOp, right: ValueExpr },
    Like { expr: ValueExpr, pattern: String, escape: Option<String>, negated: bool },
    Between { expr: ValueExpr, lower: ValueExpr, upper: ValueExpr, negated: bool },
    In { expr: ValueExpr, values: Vec<ValueLiteral>, negated: bool },
    IsNull { expr: ValueExpr, negated: bool },
}

/// The root expression type: every complete program is one of these.
#[derive(Debug, PartialEq)]
pub enum BooleanExpr {
    Or(Box<BooleanExpr>, Box<BooleanExpr>),
    And(Box<BooleanExpr>, Box<BooleanExpr>),
    Not(Box<BooleanExpr>),
    Literal(bool),
    Variable(String),
    Relational(RelationalExpr),
}

impl Clone for ValueLiteral {
    /// A copy equal to the original.
    fn clone(&self) -> (r: Self)
        ensures
            r == *self,
    {
        match self {
            ValueLiteral::Integer(n) => ValueLiteral::Integer(*n),
            ValueLiteral::Float(b) => ValueLiteral::Float(*b),
            ValueLiteral::String(s) => ValueLiteral::String(s.clone()),
            ValueLiteral::Null => ValueLiteral::Null,
            ValueLiteral::Boolean(b) => ValueLiteral::Boolean(*b),
        }
    }
}

/// The literal-type name used in diagnostics.
pub open spec fn lit_type_str(l: ValueLiteral) -> Seq<char> {
    match l {
        ValueLiteral::Integer(_) => "integer"@,
        ValueLiteral::Float(_) => "float"@,
        ValueLiteral::String(_) => "string"@,
        ValueLiteral::Null => "NULL"@,
        ValueLiteral::Boolean(_) => "boolean"@,
    }
}

/// A literal the grammar allows as a BETWEEN bound: not NULL, not boolean.
pub open spec fn bound_allowed(l: ValueLiteral) -> bool {
    !(l is Null) && !(l is Boolean)
}

/// A literal the grammar allows inside an IN list.
pub open spec fn in_lit_allowed(l: ValueLiteral) -> bool {
    l is Integer || l is Float || l is String
}

/// Exactly the same literal type; integers and floats do not mix.
pub open spec fn same_exact_type(a: ValueLiteral, b: ValueLiteral) -> bool {
    match (a, b) {
        (ValueLiteral::Integer(_), ValueLiteral::Integer(_)) => true,
        (ValueLiteral::Float(_), ValueLiteral::Float(_)) => true,
        (ValueLiteral::String(_), ValueLiteral::String(_)) => true,
        _ => false,
    }
}

/// Type compatibility of BETWEEN bounds: both numeric, in any mix of integer
/// and float, or both strings.
pub open spec fn between_compatible(lo: ValueLiteral, hi: ValueLiteral) -> bool {
    match (lo, hi) {
        (ValueLiteral::Integer(_), ValueLiteral::Integer(_)) => true,
        (ValueLiteral::Integer(_), ValueLiteral::Float(_)) => true,
        (ValueLiteral::Float(_), ValueLiteral::Integer(_)) => true,
        (ValueLiteral::Float(_), ValueLiteral::Float(_)) => true,
        (ValueLiteral::String(_), ValueLiteral::String(_)) => true,
        _ => false,
    }
}

/// BETWEEN bounds in order: the lower bound does not exceed the upper one,
/// under same-type comparison with integer-to-float coercion where the two
/// numeric kinds mix. Only compatible pairs are meaningfully ordered.
pub open spec fn between_ordered(lo: ValueLiteral, hi: ValueLiteral) -> bool {
    match (lo, hi) {
        (ValueLiteral::Integer(a), ValueLiteral::Integer(b)) => a <= b,
        (ValueLiteral::Float(a), ValueLiteral::Float(b)) => !float_lt(b, a),
        (ValueLiteral::Integer(a), ValueLiteral::Float(b)) => !float_lt(b, float_of_i64(a)),
        (ValueLiteral::Float(a), ValueLiteral::Integer(b)) => !float_lt(float_of_i64(b), a),
        (ValueLiteral::String(a), ValueLiteral::String(b)) => !chars_lt(b@, a@),
        _ => true,
    }
}

/// The literal a BETWEEN bound expression folds to: a plain literal, or one
/// unary minus or plus applied directly to a literal. A minus is folded into
/// the literal's value; anything else is not a valid bound.
pub open spec fn extract_lit(e: ValueExpr) -> Option<ValueLiteral> {
    match e {
        ValueExpr::Literal(l) => Some(l),
        ValueExpr::UnaryMinus(inner) => match *inner {
            ValueExpr::Literal(l) => match l {
                ValueLiteral::Integer(n) => Some(ValueLiteral::Integer(wrap_neg_i64(n))),
                ValueLiteral::Float(f) => Some(ValueLiteral::Float(float_neg(f))),
                _ => None,
            },
            _ => None,
        },
        ValueExpr::UnaryPlus(inner) => match *inner {
            ValueExpr::Literal(l) => Some(l),
            _ => None,
        },
        _ => None,
    }
}

/// The static rules on one BETWEEN node's bound expressions.
pub open spec fn between_bounds_valid(lower: ValueExpr, upper: ValueExpr) -> bool {
    &&& extract_lit(lower) is Some
    &&& extract_lit(upper) is Some
    &&& {
        let lo = extract_lit(lower)->Some_0;
        let hi = extract_lit(upper)->Some_0;
        &&& bound_allowed(lo)
        &&& bound_allowed(hi)
        &&& between_compatible(lo, hi)
        &&& between_ordered(lo, hi)
    }
}

/// The static rules on one IN node's literal list: nonempty, every element an
/// integer, float or string, and all of one exact type.
pub open spec fn in_list_valid(values: Seq<ValueLiteral>) -> bool {
    &&& values.len() >= 1
    &&& forall|i: int|
        0 <= i < values.len() ==> #[trigger] in_lit_allowed(values[i]) && same_exact_type(
            values[0],
            values[i],
        )
}

/// The statically checked rules on one relational node.
pub open spec fn rel_expr_valid(r: RelationalExpr) -> bool {
    match r {
        RelationalExpr::Between { expr, lower, upper, negated } => between_bounds_valid(
            lower,
            upper,
        ),
        RelationalExpr::In { expr, values, negated } => in_list_valid(values@),
        _ => true,
    }
}

/// Every BETWEEN node of a statically valid tree has literal bounds, neither
/// NULL nor boolean, of one compatible type, with the lower bound not
/// exceeding the upper one; `parse` returns only such trees.
pub proof fn lemma_valid_between_is_ordered(r: RelationalExpr)
    requires
        rel_expr_valid(r),
        r is Between,
    ensures
        r matches RelationalExpr::Between { lower, upper, .. } ==> {
            &&& between_bounds_valid(lower, upper)
            &&& between_compatible(extract_lit(lower)->Some_0, extract_lit(upper)->Some_0)
            &&& between_ordered(extract_lit(lower)->Some_0, extract_lit(upper)->Some_0)
        },
{
}

/// Every IN node of a statically valid tree holds a nonempty list whose
/// elements are integer, float or string literals of one exact type - the
/// two numeric kinds never mix; `parse` returns only such trees.
pub proof fn lemma_valid_in_list_single_typed(r: RelationalExpr)
    requires
        rel_expr_valid(r),
        r is In,
    ensures
        r matches RelationalExpr::In { values, .. } ==> in_list_valid(values@),
{
}


/// The view of a literal: a string literal is its character sequence.
pub ghost enum GLit {
    Int(i64),
    Fl(u64),
    Str(Seq<char>),
    Null,
    Bool(bool),
}

/// The view of a scalar expression.
pub ghost enum GVal {
    Add(Box<GVal>, Box<GVal>),
    Subtract(Box<GVal>, Box<GVal>),
    Multiply(Box<GVal>, Box<GVal>),
    Divide(Box<GVal>, Box<GVal>),
    Modulo(Box<GVal>, Box<GVal>),
    UnaryPlus(Box<GVal>),
    UnaryMinus(Box<GVal>),
    Literal(GLit),
    Variable(Seq<char>),
}

/// The view of a relational expression; an IN list is a sequence.
pub ghost enum GRel {
    Equality { left: GVal, op: EqualityOp, right: GVal },
    Comparison { left: GVal, op: ComparisonOp, right: GVal },
    Like { expr: GVal, pattern: Seq<char>, escape: Option<Seq<char>>, negated: bool },
    Between { expr: GVal, lower: GVal, upper: GVal, negated: bool },
    In { expr: GVal, values: Seq<GLit>, negated: bool },
    IsNull { expr: GVal, negated: bool },
}

/// The view of a boolean expression: the tree with every string replaced by
/// its character sequence. The parser's specification speaks of trees up to
/// this view.
pub ghost enum GBool {
    Or(Box<GBool>, Box<GBool>),
    And(Box<GBool>, Box<GBool>),
    Not(Box<GBool>),
    Literal(bool),
    Variable(Seq<char>),
    Relational(GRel),
}

pub open spec fn view_lit(l: ValueLiteral) -> GLit {
    match l {
        ValueLiteral::Integer(n) => GLit::Int(n),
        ValueLiteral::Float(b) => GLit::Fl(b),
        ValueLiteral::String(s) => GLit::Str(s@),
        ValueLiteral::Null => GLit::Null,
        ValueLiteral::Boolean(b) => GLit::Bool(b),
    }
}

pub open spec fn view_val(e: ValueExpr) -> GVal
    decreases e,
{
    match e {
        ValueExpr::Add(l, r) => GVal::Add(Box::new(view_val(*l)), Box::new(view_val(*r))),
        ValueExpr::Subtract(l, r) => GVal::Subtract(Box::new(view_val(*l)), Box::new(view_val(*r))),
        ValueExpr::Multiply(l, r) => GVal::Multiply(Box::new(view_val(*l)), Box::new(view_val(*r))),
        ValueExpr::Divide(l, r) => GVal::Divide(Box::new(view_val(*l)), Box::new(view_val(*r))),
        ValueExpr::Modulo(l, r) => GVal::Modulo(Box::new(view_val(*l)), Box::new(view_val(*r))),
        ValueExpr::UnaryPlus(i) => GVal::UnaryPlus(Box::new(view_val(*i))),
        ValueExpr::UnaryMinus(i) => GVal::UnaryMinus(Box::new(view_val(*i))),
        ValueExpr::Literal(l) => GVal::Literal(view_lit(l)),
        ValueExpr::Variable(n) => GVal::Variable(n@),
    }
}

pub open spec fn view_rel(r: RelationalExpr) -> GRel {
    match r {
        RelationalExpr::Equality { left, op, right } => GRel::Equality {
            left: view_val(left),
            op,
            right: view_val(right),
        },
        RelationalExpr::Comparison { left, op, right } => GRel::Comparison {
            left: view_val(left),
            op,
            right: view_val(right),
        },
        RelationalExpr::Like { expr, pattern, escape, negated } => GRel::Like {
            expr: view_val(expr),
            pattern: pattern@,
            escape: match escape {
                Some(s) => Some(s@),
                None => None,
            },
            negated,
        },
        RelationalExpr::Between { expr, lower, upper, negated } => GRel::Between {
            expr: view_val(expr),
            lower: view_val(lower),
            upper: view_val(upper),
            negated,
        },
        RelationalExpr::In { expr, values, negated } => GRel::In {
            expr: view_val(expr),
            values: values@.map_values(|l: ValueLiteral| view_lit(l)),
            negated,
        },
        RelationalExpr::IsNull { expr, negated } => GRel::IsNull { expr: view_val(expr), negated },
    }
}

pub open spec fn view_bool(e: BooleanExpr) -> GBool
    decreases e,
{
    match e {
        BooleanExpr::Or(l, r) => GBool::Or(Box::new(view_bool(*l)), Box::new(view_bool(*r))),
        BooleanExpr::And(l, r) => GBool::And(Box::new(view_bool(*l)), Box::new(view_bool(*r))),
        BooleanExpr::Not(i) => GBool::Not(Box::new(view_bool(*i))),
        BooleanExpr::Literal(b) => GBool::Literal(b),
        BooleanExpr::Variable(n) => GBool::Variable(n@),
        BooleanExpr::Relational(r) => GBool::Relational(view_rel(r)),
    }
}

/// `extract_lit`, over views.
pub open spec fn g_extract(e: GVal) -> Option<GLit> {
    match e {
        GVal::Literal(l) => Some(l),
        GVal::UnaryMinus(inner) => match *inner {
            GVal::Literal(l) => match l {
                GLit::Int(n) => Some(GLit::Int(wrap_neg_i64(n))),
                GLit::Fl(f) => Some(GLit::Fl(float_neg(f))),
                _ => None,
            },
            _ => None,
        },
        GVal::UnaryPlus(inner) => match *inner {
            GVal::Literal(l) => Some(l),
            _ => None,
        },
        _ => None,
    }
}

/// `bound_allowed`, over views.
pub open spec fn g_bound_allowed(l: GLit) -> bool {
    !(l is Null) && !(l is Bool)
}

/// `in_lit_allowed`, over views.
pub open spec fn g_in_allowed(l: GLit) -> bool {
    l is Int || l is Fl || l is Str
}

/// `same_exact_type`, over views.
pub open spec fn g_same_type(a: GLit, b: GLit) -> bool {
    match (a, b) {
        (GLit::Int(_), GLit::Int(_)) => true,
        (GLit::Fl(_), GLit::Fl(_)) => true,
        (GLit::Str(_), GLit::Str(_)) => true,
        _ => false,
    }
}

/// `between_compatible`, over views.
pub open spec fn g_compatible(lo: GLit, hi: GLit) -> bool {
    match (lo, hi) {
        (GLit::Int(_), GLit::Int(_)) => true,
        (GLit::Int(_), GLit::Fl(_)) => true,
        (GLit::Fl(_), GLit::Int(_)) => true,
        (GLit::Fl(_), GLit::Fl(_)) => true,
        (GLit::Str(_), GLit::Str(_)) => true,
        _ => false,
    }
}

/// `between_ordered`, over views.
pub open spec fn g_ordered(lo: GLit, hi: GLit) -> bool {
    match (lo, hi) {
        (GLit::Int(a), GLit::Int(b)) => a <= b,
        (GLit::Fl(a), GLit::Fl(b)) => !float_lt(b, a),
        (GLit::Int(a), GLit::Fl(b)) => !float_lt(b, float_of_i64(a)),
        (GLit::Fl(a), GLit::Int(b)) => !float_lt(float_of_i64(b), a),
        (GLit::Str(a), GLit::Str(b)) => !chars_lt(b, a),
        _ => true,
    }
}

/// `between_bounds_valid`, over views.
pub open spec fn g_between_valid(lower: GVal, upper: GVal) -> bool {
    &&& g_extract(lower) is Some
    &&& g_extract(upper) is Some
    &&& {
        let lo = g_extract(lower)->Some_0;
        let hi = g_extract(upper)->Some_0;
        &&& g_bound_allowed(lo)
        &&& g_bound_allowed(hi)
        &&& g_compatible(lo, hi)
        &&& g_ordered(lo, hi)
    }
}

/// Extraction commutes with the view, so the two statements of BETWEEN
/// validity agree.
pub proof fn lemma_between_valid_view(l: ValueExpr, u: ValueExpr)
    ensures
        g_between_valid(view_val(l), view_val(u)) == between_bounds_valid(l, u),
{
    lemma_extract_view(l);
    lemma_extract_view(u);
}

proof fn lemma_extract_view(e: ValueExpr)
    ensures
        g_extract(view_val(e)) == (match extract_lit(e) {
            Some(l) => Some(view_lit(l)),
            None => None::<GLit>,
        }),
{
    match e {
        ValueExpr::UnaryMinus(inner) => {
            assert(*view_val(e)->UnaryMinus_0 == view_val(*inner));
        },
        ValueExpr::UnaryPlus(inner) => {
            assert(*view_val(e)->UnaryPlus_0 == view_val(*inner));
        },
        _ => {},
    }
}

/// The statically checked rules, over a whole tree: every BETWEEN node's
/// bounds are in-range literals of compatible type, and every IN list is a
/// nonempty single-type list of plain literals.
pub open spec fn bool_expr_valid(e: BooleanExpr) -> bool
    decreases e,
{
    match e {
        BooleanExpr::Or(l, r) => bool_expr_valid(*l) && bool_expr_valid(*r),
        BooleanExpr::And(l, r) => bool_expr_valid(*l) && bool_expr_valid(*r),
        BooleanExpr::Not(inner) => bool_expr_valid(*inner),
        BooleanExpr::Literal(_) => true,
        BooleanExpr::Variable(_) => true,
        BooleanExpr::Relational(rel) => rel_expr_valid(rel),
    }
}

} // verus!
