//! The tree-walking evaluator, and the mathematical semantics it implements.
//!
//! The spec functions here are the meaning of the language: a recursive
//! interpreter over the syntax tree and a binding map, yielding either a
//! value or an abstract error kind. Every executable evaluation function is
//! proved to agree with it - the same value on success, an error of the same
//! kind (and, for an unbound variable, the same name) on failure. Floating
//! point operations appear in the semantics as the named IEEE operations of
//! `crate::float`.

use vstd::prelude::*;
use vstd::string::*;
use crate::ast::BooleanExpr;
use crate::ast::ComparisonOp;
use crate::ast::EqualityOp;
use crate::ast::RelationalExpr;
use crate::ast::ValueExpr;
use crate::ast::ValueLiteral;
use crate::errors::err_kind;
use crate::errors::ErrKind;
use crate::errors::EvalError;
use crate::float::f64_add;
use crate::float::f64_div;
use crate::float::f64_eq;
use crate::float::f64_le;
use crate::float::f64_lt;
use crate::float::f64_mul;
use crate::float::f64_of_i64;
use crate::float::f64_rem;
use crate::float::f64_sub;
use crate::float::float_add;
use crate::float::float_div;
use crate::float::float_eq;
use crate::float::float_is_zero;
use crate::float::float_le;
use crate::float::float_lt;
use crate::float::float_mul;
use crate::float::float_neg;
use crate::float::float_of_i64;
use crate::float::float_rem;
use crate::float::float_sub;
use crate::float::F64_MAGNITUDE_BITS;
use crate::float::F64_SIGN_BIT;
use crate::like::esc_char;
use crate::like::like_match;
use crate::like::match_pattern;
use crate::strutil::chars_lt;
use crate::strutil::neg_i64;
use crate::strutil::str_eq;
use crate::strutil::str_lt;
use crate::strutil::wrap_neg_i64;
use crate::token::Token;
use crate::value::lit_spec;
use crate::value::rv_spec;
use crate::value::sv_spec;
use crate::value::type_str;
use crate::value::Bindings;
use crate::value::RuntimeValue;
use crate::value::SpecVal;
use crate::value::SubValue;

verus! {

/// The arithmetic operators that keep integer operands integer.
#[derive(Debug, Clone, Copy, PartialEq, Eq, Structural)]
pub enum NumOp {
    Add,
    Subtract,
    Multiply,
}

/// The wrapping 64-bit integer result of one of the three operators.
pub open spec fn iop(op: NumOp, a: i64, b: i64) -> i64 {
    match op {
        NumOp::Add => a.wrapping_add(b),
        NumOp::Subtract => a.wrapping_sub(b),
        NumOp::Multiply => a.wrapping_mul(b),
    }
}

/// The IEEE binary64 result of one of the three operators.
pub open spec fn fop(op: NumOp, a: u64, b: u64) -> u64 {
    match op {
        NumOp::Add => float_add(a, b),
        NumOp::Subtract => float_sub(a, b),
        NumOp::Multiply => float_mul(a, b),
    }
}

/// Truncated 64-bit remainder, with the machine's wraparound on the one
/// overflowing case: the minimum value modulo -1 is 0.
pub open spec fn wrap_rem_i64(a: i64, b: i64) -> i64
    recommends
        b != 0,
{
    if a == i64::MIN && b == -1 {
        0
    } else {
        let x = a as int;
        let d = b as int;
        (if x == 0 {
            0
        } else if x > 0 && d > 0 {
            x % d
        } else if x < 0 && d < 0 {
            ((x * -1) % (d * -1)) * -1
        } else if x < 0 {
            ((x * -1) % d) * -1
        } else {
            x % (d * -1)
        }) as i64
    }
}

/// Truncated remainder as the `%` operator computes it.
pub fn rem_i64(a: i64, b: i64) -> (r: i64)
    requires
        b != 0,
    ensures
        r == wrap_rem_i64(a, b),
{
    match a.checked_rem(b) {
        Some(v) => v,
        None => 0,
    }
}

/// A value is numeric: an integer or a float.
pub open spec fn numeric(v: SpecVal) -> bool {
    v is Int || v is Fl
}

/// The float a numeric value coerces to: an integer is converted, a float is
/// itself.
pub open spec fn to_float_bits(v: SpecVal) -> u64
    recommends
        numeric(v),
{
    match v {
        SpecVal::Int(i) => float_of_i64(i),
        SpecVal::Fl(b) => b,
        _ => 0,
    }
}

/// Addition, subtraction or multiplication of two values: NULL is an error,
/// integers stay integer with wraparound, any float operand coerces the
/// other side to float, and anything else is a type error.
pub open spec fn num_bin_vals(op: NumOp, x: SpecVal, y: SpecVal) -> Result<SpecVal, ErrKind> {
    if x is Null || y is Null {
        Err(ErrKind::NullFail)
    } else {
        match (x, y) {
            (SpecVal::Int(a), SpecVal::Int(b)) => Ok(SpecVal::Int(iop(op, a, b))),
            (SpecVal::Fl(a), SpecVal::Fl(b)) => Ok(SpecVal::Fl(fop(op, a, b))),
            (SpecVal::Int(a), SpecVal::Fl(b)) => Ok(SpecVal::Fl(fop(op, float_of_i64(a), b))),
            (SpecVal::Fl(a), SpecVal::Int(b)) => Ok(SpecVal::Fl(fop(op, a, float_of_i64(b)))),
            _ => Err(ErrKind::TypeFail),
        }
    }
}

/// Division of two values: always float, both operands coerced, and a zero
/// divisor (of either zero's bit pattern) a division-by-zero error.
pub open spec fn div_vals(x: SpecVal, y: SpecVal) -> Result<SpecVal, ErrKind> {
    if x is Null || y is Null {
        Err(ErrKind::NullFail)
    } else if !numeric(x) {
        Err(ErrKind::TypeFail)
    } else if !numeric(y) {
        Err(ErrKind::TypeFail)
    } else {
        let xb = to_float_bits(x);
        let yb = to_float_bits(y);
        if float_is_zero(yb) {
            Err(ErrKind::DivZero)
        } else {
            Ok(SpecVal::Fl(float_div(xb, yb)))
        }
    }
}

/// Modulo of two values, following division's coercion pattern but keeping
/// integer-integer remainders integer.
pub open spec fn mod_vals(x: SpecVal, y: SpecVal) -> Result<SpecVal, ErrKind> {
    if x is Null || y is Null {
        Err(ErrKind::NullFail)
    } else {
        match (x, y) {
            (SpecVal::Int(a), SpecVal::Int(b)) => if b == 0 {
                Err(ErrKind::DivZero)
            } else {
                Ok(SpecVal::Int(wrap_rem_i64(a, b)))
            },
            (SpecVal::Fl(a), SpecVal::Fl(b)) => if float_is_zero(b) {
                Err(ErrKind::DivZero)
            } else {
                Ok(SpecVal::Fl(float_rem(a, b)))
            },
            (SpecVal::Int(a), SpecVal::Fl(b)) => if float_is_zero(b) {
                Err(ErrKind::DivZero)
            } else {
                Ok(SpecVal::Fl(float_rem(float_of_i64(a), b)))
            },
            (SpecVal::Fl(a), SpecVal::Int(b)) => if b == 0 {
                Err(ErrKind::DivZero)
            } else {
                Ok(SpecVal::Fl(float_rem(a, float_of_i64(b))))
            },
            _ => Err(ErrKind::TypeFail),
        }
    }
}

/// Unary plus: a pass-through for numeric operands.
pub open spec fn unary_plus_val(x: SpecVal) -> Result<SpecVal, ErrKind> {
    match x {
        SpecVal::Int(i) => Ok(SpecVal::Int(i)),
        SpecVal::Fl(f) => Ok(SpecVal::Fl(f)),
        SpecVal::Null => Err(ErrKind::NullFail),
        _ => Err(ErrKind::TypeFail),
    }
}

/// Unary minus: negation of a numeric operand.
pub open spec fn unary_minus_val(x: SpecVal) -> Result<SpecVal, ErrKind> {
    match x {
        SpecVal::Int(i) => Ok(SpecVal::Int(wrap_neg_i64(i))),
        SpecVal::Fl(f) => Ok(SpecVal::Fl(float_neg(f))),
        SpecVal::Null => Err(ErrKind::NullFail),
        _ => Err(ErrKind::TypeFail),
    }
}

/// The value of a scalar expression under a binding map.
pub open spec fn eval_value_spec(e: ValueExpr, env: Map<Seq<char>, SpecVal>) -> Result<
    SpecVal,
    ErrKind,
>
    decreases e,
{
    match e {
        ValueExpr::Literal(l) => Ok(lit_spec(l)),
        ValueExpr::Variable(name) => if env.contains_key(name@) {
            Ok(env[name@])
        } else {
            Err(ErrKind::Unbound(name@))
        },
        ValueExpr::Add(l, r) => match eval_value_spec(*l, env) {
            Err(k) => Err(k),
            Ok(x) => match eval_value_spec(*r, env) {
                Err(k) => Err(k),
                Ok(y) => num_bin_vals(NumOp::Add, x, y),
            },
        },
        ValueExpr::Subtract(l, r) => match eval_value_spec(*l, env) {
            Err(k) => Err(k),
            Ok(x) => match eval_value_spec(*r, env) {
                Err(k) => Err(k),
                Ok(y) => num_bin_vals(NumOp::Subtract, x, y),
            },
        },
        ValueExpr::Multiply(l, r) => match eval_value_spec(*l, env) {
            Err(k) => Err(k),
            Ok(x) => match eval_value_spec(*r, env) {
                Err(k) => Err(k),
                Ok(y) => num_bin_vals(NumOp::Multiply, x, y),
            },
        },
        ValueExpr::Divide(l, r) => match eval_value_spec(*l, env) {
            Err(k) => Err(k),
            Ok(x) => match eval_value_spec(*r, env) {
                Err(k) => Err(k),
                Ok(y) => div_vals(x, y),
            },
        },
        ValueExpr::Modulo(l, r) => match eval_value_spec(*l, env) {
            Err(k) => Err(k),
            Ok(x) => match eval_value_spec(*r, env) {
                Err(k) => Err(k),
                Ok(y) => mod_vals(x, y),
            },
        },
        ValueExpr::UnaryPlus(inner) => match eval_value_spec(*inner, env) {
            Err(k) => Err(k),
            Ok(x) => unary_plus_val(x),
        },
        ValueExpr::UnaryMinus(inner) => match eval_value_spec(*inner, env) {
            Err(k) => Err(k),
            Ok(x) => unary_minus_val(x),
        },
    }
}

/// Whether `equal` operands satisfy an equality operator.
pub open spec fn eq_apply(op: EqualityOp, equal: bool) -> bool {
    match op {
        EqualityOp::Equal => equal,
        EqualityOp::NotEqual => !equal,
    }
}

/// Equality of two values: NULL is an error, numeric kinds mix by coercion,
/// strings and booleans compare within their own kind, and any other pairing
/// is a type error.
pub open spec fn equality_vals(x: SpecVal, y: SpecVal, op: EqualityOp) -> Result<bool, ErrKind> {
    if x is Null || y is Null {
        Err(ErrKind::NullFail)
    } else {
        match (x, y) {
            (SpecVal::Int(a), SpecVal::Int(b)) => Ok(eq_apply(op, a == b)),
            (SpecVal::Fl(a), SpecVal::Fl(b)) => Ok(eq_apply(op, float_eq(a, b))),
            (SpecVal::Int(a), SpecVal::Fl(b)) => Ok(eq_apply(op, float_eq(float_of_i64(a), b))),
            (SpecVal::Fl(a), SpecVal::Int(b)) => Ok(eq_apply(op, float_eq(a, float_of_i64(b)))),
            (SpecVal::Str(a), SpecVal::Str(b)) => Ok(eq_apply(op, a == b)),
            (SpecVal::Bool(a), SpecVal::Bool(b)) => Ok(eq_apply(op, a == b)),
            _ => Err(ErrKind::TypeFail),
        }
    }
}

/// An ordering comparison on 64-bit integers.
pub open spec fn cmp_ints(op: ComparisonOp, a: i64, b: i64) -> bool {
    match op {
        ComparisonOp::GreaterThan => a > b,
        ComparisonOp::GreaterOrEqual => a >= b,
        ComparisonOp::LessThan => a < b,
        ComparisonOp::LessOrEqual => a <= b,
    }
}

/// An ordering comparison on IEEE binary64 values.
pub open spec fn cmp_floats(op: ComparisonOp, a: u64, b: u64) -> bool {
    match op {
        ComparisonOp::GreaterThan => float_lt(b, a),
        ComparisonOp::GreaterOrEqual => float_le(b, a),
        ComparisonOp::LessThan => float_lt(a, b),
        ComparisonOp::LessOrEqual => float_le(a, b),
    }
}

/// A lexicographic ordering comparison on strings.
pub open spec fn cmp_chars(op: ComparisonOp, a: Seq<char>, b: Seq<char>) -> bool {
    match op {
        ComparisonOp::GreaterThan => chars_lt(b, a),
        ComparisonOp::GreaterOrEqual => !chars_lt(a, b),
        ComparisonOp::LessThan => chars_lt(a, b),
        ComparisonOp::LessOrEqual => !chars_lt(b, a),
    }
}

/// An ordering comparison of two values: NULL is an error, numeric kinds mix
/// by coercion, strings compare lexicographically, and booleans are not
/// ordered at all.
pub open spec fn comparison_vals(x: SpecVal, y: SpecVal, op: ComparisonOp) -> Result<
    bool,
    ErrKind,
> {
    if x is Null || y is Null {
        Err(ErrKind::NullFail)
    } else {
        match (x, y) {
            (SpecVal::Int(a), SpecVal::Int(b)) => Ok(cmp_ints(op, a, b)),
            (SpecVal::Fl(a), SpecVal::Fl(b)) => Ok(cmp_floats(op, a, b)),
            (SpecVal::Int(a), SpecVal::Fl(b)) => Ok(cmp_floats(op, float_of_i64(a), b)),
            (SpecVal::Fl(a), SpecVal::Int(b)) => Ok(cmp_floats(op, a, float_of_i64(b))),
            (SpecVal::Str(a), SpecVal::Str(b)) => Ok(cmp_chars(op, a, b)),
            _ => Err(ErrKind::TypeFail),
        }
    }
}

/// `negated` applied to a test's outcome.
pub open spec fn neg_apply(negated: bool, hit: bool) -> bool {
    if negated {
        !hit
    } else {
        hit
    }
}

/// A LIKE test on a value: only a string may be matched, and the pattern's
/// verdict comes from the translated regular expression.
pub open spec fn like_vals(
    x: SpecVal,
    pattern: String,
    escape: Option<String>,
    negated: bool,
) -> Result<bool, ErrKind> {
    match x {
        SpecVal::Str(s) => match like_match(s, pattern@, esc_char(escape)) {
            Some(m) => Ok(neg_apply(negated, m)),
            None => Err(ErrKind::PatternFail),
        },
        SpecVal::Null => Err(ErrKind::NullFail),
        _ => Err(ErrKind::TypeFail),
    }
}

/// A BETWEEN test: NULL anywhere is an error; three values of one comparable
/// kind compare directly, inclusively on both ends, and any other mix falls
/// back to numeric coercion of all three.
pub open spec fn between_vals(v: SpecVal, l: SpecVal, h: SpecVal, negated: bool) -> Result<
    bool,
    ErrKind,
> {
    if v is Null || l is Null || h is Null {
        Err(ErrKind::NullFail)
    } else {
        match (v, l, h) {
            (SpecVal::Int(x), SpecVal::Int(a), SpecVal::Int(b)) => Ok(
                neg_apply(negated, a <= x && x <= b),
            ),
            (SpecVal::Fl(x), SpecVal::Fl(a), SpecVal::Fl(b)) => Ok(
                neg_apply(negated, float_le(a, x) && float_le(x, b)),
            ),
            (SpecVal::Str(x), SpecVal::Str(a), SpecVal::Str(b)) => Ok(
                neg_apply(negated, !chars_lt(x, a) && !chars_lt(b, x)),
            ),
            _ => if !numeric(v) {
                Err(ErrKind::TypeFail)
            } else if !numeric(l) {
                Err(ErrKind::TypeFail)
            } else if !numeric(h) {
                Err(ErrKind::TypeFail)
            } else {
                let xv = to_float_bits(v);
                let av = to_float_bits(l);
                let bv = to_float_bits(h);
                Ok(neg_apply(negated, float_le(av, xv) && float_le(xv, bv)))
            },
        }
    }
}

/// Type compatibility of a tested value with an IN list's element kind:
/// exact by kind, except that the two numeric kinds mix.
pub open spec fn in_compat(x: SpecVal, y: SpecVal) -> bool {
    match (x, y) {
        (SpecVal::Int(_), SpecVal::Int(_)) => true,
        (SpecVal::Fl(_), SpecVal::Fl(_)) => true,
        (SpecVal::Str(_), SpecVal::Str(_)) => true,
        (SpecVal::Bool(_), SpecVal::Bool(_)) => true,
        (SpecVal::Null, SpecVal::Null) => true,
        (SpecVal::Int(_), SpecVal::Fl(_)) => true,
        (SpecVal::Fl(_), SpecVal::Int(_)) => true,
        _ => false,
    }
}

/// Membership equality inside IN: numeric kinds mix by coercion, other kinds
/// match exactly, and a kind mismatch is simply no match.
pub open spec fn in_eq(x: SpecVal, y: SpecVal) -> bool {
    match (x, y) {
        (SpecVal::Int(a), SpecVal::Int(b)) => a == b,
        (SpecVal::Fl(a), SpecVal::Fl(b)) => float_eq(a, b),
        (SpecVal::Int(a), SpecVal::Fl(b)) => float_eq(float_of_i64(a), b),
        (SpecVal::Fl(a), SpecVal::Int(b)) => float_eq(a, float_of_i64(b)),
        (SpecVal::Str(a), SpecVal::Str(b)) => a == b,
        (SpecVal::Bool(a), SpecVal::Bool(b)) => a == b,
        (SpecVal::Null, SpecVal::Null) => true,
        _ => false,
    }
}

/// Whether the value matches any list element at or after position `i`.
pub open spec fn in_scan(x: SpecVal, values: Seq<ValueLiteral>, i: int) -> bool
    decreases values.len() - i,
    when 0 <= i <= values.len()
{
    if i >= values.len() {
        false
    } else if in_eq(x, lit_spec(values[i])) {
        true
    } else {
        in_scan(x, values, i + 1)
    }
}

/// An IN test: NULL is an error, the tested value must be compatible with
/// the first list element's kind, and membership is scanned with coercing
/// equality.
pub open spec fn in_vals(x: SpecVal, values: Seq<ValueLiteral>, negated: bool) -> Result<
    bool,
    ErrKind,
> {
    if x is Null {
        Err(ErrKind::NullFail)
    } else if values.len() > 0 && !in_compat(x, lit_spec(values[0])) {
        Err(ErrKind::TypeFail)
    } else {
        Ok(neg_apply(negated, in_scan(x, values, 0)))
    }
}

/// The truth value of a relational expression under a binding map.
pub open spec fn eval_rel_spec(r: RelationalExpr, env: Map<Seq<char>, SpecVal>) -> Result<
    bool,
    ErrKind,
> {
    match r {
        RelationalExpr::Equality { left, op, right } => match eval_value_spec(left, env) {
            Err(k) => Err(k),
            Ok(x) => match eval_value_spec(right, env) {
                Err(k) => Err(k),
                Ok(y) => equality_vals(x, y, op),
            },
        },
        RelationalExpr::Comparison { left, op, right } => match eval_value_spec(left, env) {
            Err(k) => Err(k),
            Ok(x) => match eval_value_spec(right, env) {
                Err(k) => Err(k),
                Ok(y) => comparison_vals(x, y, op),
            },
        },
        RelationalExpr::Like { expr, pattern, escape, negated } => match eval_value_spec(
            expr,
            env,
        ) {
            Err(k) => Err(k),
            Ok(x) => like_vals(x, pattern, escape, negated),
        },
        RelationalExpr::Between { expr, lower, upper, negated } => match eval_value_spec(
            expr,
            env,
        ) {
            Err(k) => Err(k),
            Ok(x) => match eval_value_spec(lower, env) {
                Err(k) => Err(k),
                Ok(l) => match eval_value_spec(upper, env) {
                    Err(k) => Err(k),
                    Ok(h) => between_vals(x, l, h, negated),
                },
            },
        },
        RelationalExpr::In { expr, values, negated } => match eval_value_spec(expr, env) {
            Err(k) => Err(k),
            Ok(x) => in_vals(x, values@, negated),
        },
        RelationalExpr::IsNull { expr, negated } => match eval_value_spec(expr, env) {
            Err(k) => Err(k),
            Ok(x) => Ok(neg_apply(negated, x is Null)),
        },
    }
}

/// The truth value of a boolean expression under a binding map. AND and OR
/// are short-circuiting: a right-hand side that is never reached can raise
/// no error.
pub open spec fn eval_bool_spec(e: BooleanExpr, env: Map<Seq<char>, SpecVal>) -> Result<
    bool,
    ErrKind,
>
    decreases e,
{
    match e {
        BooleanExpr::Literal(b) => Ok(b),
        BooleanExpr::Variable(name) => if env.contains_key(name@) {
            match env[name@] {
                SpecVal::Bool(b) => Ok(b),
                _ => Err(ErrKind::TypeFail),
            }
        } else {
            Err(ErrKind::Unbound(name@))
        },
        BooleanExpr::And(l, r) => match eval_bool_spec(*l, env) {
            Err(k) => Err(k),
            Ok(false) => Ok(false),
            Ok(true) => eval_bool_spec(*r, env),
        },
        BooleanExpr::Or(l, r) => match eval_bool_spec(*l, env) {
            Err(k) => Err(k),
            Ok(true) => Ok(true),
            Ok(false) => eval_bool_spec(*r, env),
        },
        BooleanExpr::Not(inner) => match eval_bool_spec(*inner, env) {
            Err(k) => Err(k),
            Ok(b) => Ok(!b),
        },
        BooleanExpr::Relational(rel) => eval_rel_spec(rel, env),
    }
}

/// A division-by-zero failure always carries the whole expression being
/// evaluated, not just the offending subexpression.
pub open spec fn div_zero_names_input<T>(r: Result<T, EvalError>, input: Seq<char>) -> bool {
    match r {
        Err(EvalError::DivisionByZero { expression }) => expression@ == input,
        _ => true,
    }
}

/// The `operation` field of a type or NULL error names the operation that
/// raised it.
pub open spec fn op_field_named<T>(r: Result<T, EvalError>, name: Seq<char>) -> bool {
    match r {
        Err(EvalError::TypeError { operation, .. }) => operation@ == name,
        Err(EvalError::NullInOperation { operation, .. }) => operation@ == name,
        _ => true,
    }
}

/// The word naming an arithmetic operator in diagnostics.
pub open spec fn num_op_str(op: NumOp) -> Seq<char> {
    match op {
        NumOp::Add => "addition"@,
        NumOp::Subtract => "subtraction"@,
        NumOp::Multiply => "multiplication"@,
    }
}

/// The word naming an equality operator in diagnostics.
pub open spec fn eq_op_str(op: EqualityOp) -> Seq<char> {
    match op {
        EqualityOp::Equal => "Equal"@,
        EqualityOp::NotEqual => "NotEqual"@,
    }
}

/// The word naming an ordering operator in diagnostics.
pub open spec fn cmp_op_str(op: ComparisonOp) -> Seq<char> {
    match op {
        ComparisonOp::GreaterThan => "GreaterThan"@,
        ComparisonOp::GreaterOrEqual => "GreaterOrEqual"@,
        ComparisonOp::LessThan => "LessThan"@,
        ComparisonOp::LessOrEqual => "LessOrEqual"@,
    }
}

/// Agreement of an executable value outcome with the semantics: the same
/// value on success, the same error kind on failure.
pub open spec fn agrees_val(r: Result<SubValue, EvalError>, s: Result<SpecVal, ErrKind>) -> bool {
    match (r, s) {
        (Ok(v), Ok(sv)) => sv_spec(v) == sv,
        (Err(e), Err(k)) => err_kind(e) == k,
        _ => false,
    }
}

/// Agreement of an executable boolean outcome with the semantics.
pub open spec fn agrees_bool(r: Result<bool, EvalError>, s: Result<bool, ErrKind>) -> bool {
    match (r, s) {
        (Ok(b), Ok(sb)) => b == sb,
        (Err(e), Err(k)) => err_kind(e) == k,
        _ => false,
    }
}

/// A type error with the four context strings the taxonomy carries.
fn type_error(operation: &str, expected: &str, actual: &str, context: &str) -> (r: EvalError)
    ensures
        err_kind(r) == ErrKind::TypeFail,
        (r matches EvalError::TypeError { operation: o, expected: e, actual: a, context: c }
            && o@ == operation@ && e@ == expected@ && a@ == actual@ && c@ == context@),
{
    EvalError::TypeError {
        operation: String::from_str(operation),
        expected: String::from_str(expected),
        actual: String::from_str(actual),
        context: String::from_str(context),
    }
}

/// A NULL-in-operation error.
fn null_error(operation: &str, context: &str) -> (r: EvalError)
    ensures
        err_kind(r) == ErrKind::NullFail,
        (r matches EvalError::NullInOperation { operation: o, context: c } && o@ == operation@
            && c@ == context@),
{
    EvalError::NullInOperation {
        operation: String::from_str(operation),
        context: String::from_str(context),
    }
}

/// The type name of a bound value, used in diagnostics.
fn runtime_type_name(rv: &RuntimeValue) -> (r: &'static str)
    ensures
        r@ == type_str(rv_spec(*rv)),
{
    match rv {
        RuntimeValue::Integer(_) => "integer",
        RuntimeValue::Float(_) => "float",
        RuntimeValue::String(_) => "string",
        RuntimeValue::Boolean(_) => "boolean",
        RuntimeValue::Null => "NULL",
    }
}

/// The word naming an arithmetic operator in diagnostics.
fn num_op_name(op: NumOp) -> (r: &'static str)
    ensures
        r@ == num_op_str(op),
{
    match op {
        NumOp::Add => "addition",
        NumOp::Subtract => "subtraction",
        NumOp::Multiply => "multiplication",
    }
}

/// Addition, subtraction or multiplication of two evaluated operands.
fn eval_num_bin(op: NumOp, left: SubValue, right: SubValue) -> (r: Result<SubValue, EvalError>)
    ensures
        agrees_val(r, num_bin_vals(op, sv_spec(left), sv_spec(right))),
        op_field_named(r, num_op_str(op)),
{
    if left.is_null() || right.is_null() {
        let (opn, ctx): (&'static str, &'static str) = match op {
            NumOp::Add => ("addition", "cannot add NULL values"),
            NumOp::Subtract => ("subtraction", "cannot subtract NULL values"),
            NumOp::Multiply => ("multiplication", "cannot multiply NULL values"),
        };
        return Err(null_error(opn, ctx));
    }
    match (&left, &right) {
        (SubValue::Integer(a), SubValue::Integer(b)) => {
            let v: i64 = match op {
                NumOp::Add => (*a).wrapping_add(*b),
                NumOp::Subtract => (*a).wrapping_sub(*b),
                NumOp::Multiply => (*a).wrapping_mul(*b),
            };
            Ok(SubValue::Integer(v))
        },
        (SubValue::Float(a), SubValue::Float(b)) => {
            let v: u64 = match op {
                NumOp::Add => f64_add(*a, *b),
                NumOp::Subtract => f64_sub(*a, *b),
                NumOp::Multiply => f64_mul(*a, *b),
            };
            Ok(SubValue::Float(v))
        },
        (SubValue::Integer(a), SubValue::Float(b)) => {
            let af = f64_of_i64(*a);
            let v: u64 = match op {
                NumOp::Add => f64_add(af, *b),
                NumOp::Subtract => f64_sub(af, *b),
                NumOp::Multiply => f64_mul(af, *b),
            };
            Ok(SubValue::Float(v))
        },
        (SubValue::Float(a), SubValue::Integer(b)) => {
            let bf = f64_of_i64(*b);
            let v: u64 = match op {
                NumOp::Add => f64_add(*a, bf),
                NumOp::Subtract => f64_sub(*a, bf),
                NumOp::Multiply => f64_mul(*a, bf),
            };
            Ok(SubValue::Float(v))
        },
        _ => {
            let opn = num_op_name(op);
            let mut actual = String::from_str(left.kind_name());
            actual.append(" and ");
            actual.append(right.kind_name());
            Err(type_error(opn, "numeric types", actual.as_str(), "arithmetic operation"))
        },
    }
}

/// Addition with type checking and coercion.
pub fn eval_arithmetic_add(left: SubValue, right: SubValue) -> (r: Result<SubValue, EvalError>)
    ensures
        agrees_val(r, num_bin_vals(NumOp::Add, sv_spec(left), sv_spec(right))),
        op_field_named(r, num_op_str(NumOp::Add)),
{
    eval_num_bin(NumOp::Add, left, right)
}

/// Subtraction with type checking and coercion.
pub fn eval_arithmetic_subtract(left: SubValue, right: SubValue) -> (r: Result<
    SubValue,
    EvalError,
>)
    ensures
        agrees_val(r, num_bin_vals(NumOp::Subtract, sv_spec(left), sv_spec(right))),
        op_field_named(r, num_op_str(NumOp::Subtract)),
{
    eval_num_bin(NumOp::Subtract, left, right)
}

/// Multiplication with type checking and coercion.
pub fn eval_arithmetic_multiply(left: SubValue, right: SubValue) -> (r: Result<
    SubValue,
    EvalError,
>)
    ensures
        agrees_val(r, num_bin_vals(NumOp::Multiply, sv_spec(left), sv_spec(right))),
        op_field_named(r, num_op_str(NumOp::Multiply)),
{
    eval_num_bin(NumOp::Multiply, left, right)
}

/// Division: both operands coerce to float, the result is always a float,
/// and a zero divisor is an error naming the whole expression.
pub fn eval_arithmetic_divide(left: SubValue, right: SubValue, input: &str) -> (r: Result<
    SubValue,
    EvalError,
>)
    ensures
        agrees_val(r, div_vals(sv_spec(left), sv_spec(right))),
        div_zero_names_input(r, input@),
        op_field_named(r, "division"@),
{
    if left.is_null() || right.is_null() {
        return Err(null_error("division", "cannot divide NULL values"));
    }
    let lb: u64 = match &left {
        SubValue::Integer(i) => f64_of_i64(*i),
        SubValue::Float(f) => *f,
        _ => {
            return Err(type_error("division", "numeric", left.kind_name(), "left operand"));
        },
    };
    let rb: u64 = match &right {
        SubValue::Integer(i) => f64_of_i64(*i),
        SubValue::Float(f) => *f,
        _ => {
            return Err(type_error("division", "numeric", right.kind_name(), "right operand"));
        },
    };
    if rb & F64_MAGNITUDE_BITS == 0 {
        return Err(EvalError::DivisionByZero { expression: String::from_str(input) });
    }
    Ok(SubValue::Float(f64_div(lb, rb)))
}

/// Modulo, with division's coercion pattern but an integer result for two
/// integer operands.
pub fn eval_arithmetic_modulo(left: SubValue, right: SubValue, input: &str) -> (r: Result<
    SubValue,
    EvalError,
>)
    ensures
        agrees_val(r, mod_vals(sv_spec(left), sv_spec(right))),
        div_zero_names_input(r, input@),
        op_field_named(r, "modulo"@),
{
    if left.is_null() || right.is_null() {
        return Err(null_error("modulo", "cannot modulo NULL values"));
    }
    match (&left, &right) {
        (SubValue::Integer(a), SubValue::Integer(b)) => {
            if *b == 0 {
                return Err(EvalError::DivisionByZero { expression: String::from_str(input) });
            }
            Ok(SubValue::Integer(rem_i64(*a, *b)))
        },
        (SubValue::Float(a), SubValue::Float(b)) => {
            if *b & F64_MAGNITUDE_BITS == 0 {
                return Err(EvalError::DivisionByZero { expression: String::from_str(input) });
            }
            Ok(SubValue::Float(f64_rem(*a, *b)))
        },
        (SubValue::Integer(a), SubValue::Float(b)) => {
            if *b & F64_MAGNITUDE_BITS == 0 {
                return Err(EvalError::DivisionByZero { expression: String::from_str(input) });
            }
            let af = f64_of_i64(*a);
            Ok(SubValue::Float(f64_rem(af, *b)))
        },
        (SubValue::Float(a), SubValue::Integer(b)) => {
            if *b == 0 {
                return Err(EvalError::DivisionByZero { expression: String::from_str(input) });
            }
            let bf = f64_of_i64(*b);
            Ok(SubValue::Float(f64_rem(*a, bf)))
        },
        _ => {
            let mut actual = String::from_str(left.kind_name());
            actual.append(" and ");
            actual.append(right.kind_name());
            Err(type_error("modulo", "numeric types", actual.as_str(), "arithmetic operation"))
        },
    }
}

/// Unary plus on an evaluated operand.
pub fn eval_unary_plus(v: SubValue) -> (r: Result<SubValue, EvalError>)
    ensures
        agrees_val(r, unary_plus_val(sv_spec(v))),
        op_field_named(r, "unary plus"@),
{
    match v {
        SubValue::Integer(i) => Ok(SubValue::Integer(i)),
        SubValue::Float(f) => Ok(SubValue::Float(f)),
        SubValue::Null => Err(null_error("unary plus", "cannot apply unary plus to NULL")),
        _ => Err(type_error("unary plus", "numeric", v.kind_name(), "operand")),
    }
}

/// Unary minus on an evaluated operand.
pub fn eval_unary_minus(v: SubValue) -> (r: Result<SubValue, EvalError>)
    ensures
        agrees_val(r, unary_minus_val(sv_spec(v))),
        op_field_named(r, "unary minus"@),
{
    match v {
        SubValue::Integer(i) => Ok(SubValue::Integer(neg_i64(i))),
        SubValue::Float(f) => Ok(SubValue::Float(f ^ F64_SIGN_BIT)),
        SubValue::Null => Err(null_error("unary minus", "cannot apply unary minus to NULL")),
        _ => Err(type_error("unary minus", "numeric", v.kind_name(), "operand")),
    }
}

/// Evaluates a scalar expression under the bindings.
pub fn eval_value(e: &ValueExpr, env: &Bindings, input: &str) -> (r: Result<SubValue, EvalError>)
    ensures
        agrees_val(r, eval_value_spec(*e, env@)),
        div_zero_names_input(r, input@),
    decreases *e,
{
    match e {
        ValueExpr::Literal(lit) => Ok(SubValue::from_literal(lit)),
        ValueExpr::Variable(name) => match env.get(name.as_str()) {
            Some(rv) => Ok(SubValue::from_runtime(rv)),
            None => Err(EvalError::UnboundVariable { name: name.clone() }),
        },
        ValueExpr::Add(l, r) => {
            let x = eval_value(l, env, input)?;
            let y = eval_value(r, env, input)?;
            eval_arithmetic_add(x, y)
        },
        ValueExpr::Subtract(l, r) => {
            let x = eval_value(l, env, input)?;
            let y = eval_value(r, env, input)?;
            eval_arithmetic_subtract(x, y)
        },
        ValueExpr::Multiply(l, r) => {
            let x = eval_value(l, env, input)?;
            let y = eval_value(r, env, input)?;
            eval_arithmetic_multiply(x, y)
        },
        ValueExpr::Divide(l, r) => {
            let x = eval_value(l, env, input)?;
            let y = eval_value(r, env, input)?;
            eval_arithmetic_divide(x, y, input)
        },
        ValueExpr::Modulo(l, r) => {
            let x = eval_value(l, env, input)?;
            let y = eval_value(r, env, input)?;
            eval_arithmetic_modulo(x, y, input)
        },
        ValueExpr::UnaryPlus(inner) => {
            let v = eval_value(inner, env, input)?;
            eval_unary_plus(v)
        },
        ValueExpr::UnaryMinus(inner) => {
            let v = eval_value(inner, env, input)?;
            eval_unary_minus(v)
        },
    }
}

/// Equality of two evaluated operands.
pub fn eval_equality(left: SubValue, right: SubValue, op: EqualityOp) -> (r: Result<
    bool,
    EvalError,
>)
    ensures
        agrees_bool(r, equality_vals(sv_spec(left), sv_spec(right), op)),
        op_field_named(r, eq_op_str(op)),
{
    let opn: &'static str = match op {
        EqualityOp::Equal => "Equal",
        EqualityOp::NotEqual => "NotEqual",
    };
    if left.is_null() || right.is_null() {
        return Err(null_error(opn, "cannot compare NULL values (use IS NULL instead)"));
    }
    let equal: bool = match (&left, &right) {
        (SubValue::Integer(a), SubValue::Integer(b)) => *a == *b,
        (SubValue::Float(a), SubValue::Float(b)) => f64_eq(*a, *b),
        (SubValue::Integer(a), SubValue::Float(b)) => {
            let af = f64_of_i64(*a);
            f64_eq(af, *b)
        },
        (SubValue::Float(a), SubValue::Integer(b)) => {
            let bf = f64_of_i64(*b);
            f64_eq(*a, bf)
        },
        (SubValue::String(a), SubValue::String(b)) => str_eq(a.as_str(), b.as_str()),
        (SubValue::Boolean(a), SubValue::Boolean(b)) => *a == *b,
        _ => {
            let mut actual = String::from_str(left.kind_name());
            actual.append(" vs ");
            actual.append(right.kind_name());
            return Err(type_error(opn, "matching types", actual.as_str(), "equality comparison"));
        },
    };
    match op {
        EqualityOp::Equal => Ok(equal),
        EqualityOp::NotEqual => Ok(!equal),
    }
}

/// An ordering comparison of two evaluated operands.
pub fn eval_comparison(left: SubValue, right: SubValue, op: ComparisonOp) -> (r: Result<
    bool,
    EvalError,
>)
    ensures
        agrees_bool(r, comparison_vals(sv_spec(left), sv_spec(right), op)),
        op_field_named(r, cmp_op_str(op)),
{
    let opn: &'static str = match op {
        ComparisonOp::GreaterThan => "GreaterThan",
        ComparisonOp::GreaterOrEqual => "GreaterOrEqual",
        ComparisonOp::LessThan => "LessThan",
        ComparisonOp::LessOrEqual => "LessOrEqual",
    };
    if left.is_null() || right.is_null() {
        return Err(null_error(opn, "cannot compare NULL values"));
    }
    match (&left, &right) {
        (SubValue::Integer(a), SubValue::Integer(b)) => Ok(
            match op {
                ComparisonOp::GreaterThan => *a > *b,
                ComparisonOp::GreaterOrEqual => *a >= *b,
                ComparisonOp::LessThan => *a < *b,
                ComparisonOp::LessOrEqual => *a <= *b,
            },
        ),
        (SubValue::Float(a), SubValue::Float(b)) => Ok(
            match op {
                ComparisonOp::GreaterThan => f64_lt(*b, *a),
                ComparisonOp::GreaterOrEqual => f64_le(*b, *a),
                ComparisonOp::LessThan => f64_lt(*a, *b),
                ComparisonOp::LessOrEqual => f64_le(*a, *b),
            },
        ),
        (SubValue::Integer(a), SubValue::Float(b)) => {
            let af = f64_of_i64(*a);
            Ok(
                match op {
                    ComparisonOp::GreaterThan => f64_lt(*b, af),
                    ComparisonOp::GreaterOrEqual => f64_le(*b, af),
                    ComparisonOp::LessThan => f64_lt(af, *b),
                    ComparisonOp::LessOrEqual => f64_le(af, *b),
                },
            )
        },
        (SubValue::Float(a), SubValue::Integer(b)) => {
            let bf = f64_of_i64(*b);
            Ok(
                match op {
                    ComparisonOp::GreaterThan => f64_lt(bf, *a),
                    ComparisonOp::GreaterOrEqual => f64_le(bf, *a),
                    ComparisonOp::LessThan => f64_lt(*a, bf),
                    ComparisonOp::LessOrEqual => f64_le(*a, bf),
                },
            )
        },
        (SubValue::String(a), SubValue::String(b)) => Ok(
            match op {
                ComparisonOp::GreaterThan => str_lt(b.as_str(), a.as_str()),
                ComparisonOp::GreaterOrEqual => !str_lt(a.as_str(), b.as_str()),
                ComparisonOp::LessThan => str_lt(a.as_str(), b.as_str()),
                ComparisonOp::LessOrEqual => !str_lt(b.as_str(), a.as_str()),
            },
        ),
        (SubValue::Boolean(_), _) | (_, SubValue::Boolean(_)) => Err(
            type_error(opn, "numeric or string", "boolean", "comparison operand"),
        ),
        _ => {
            let mut actual = String::from_str(left.kind_name());
            actual.append(" vs ");
            actual.append(right.kind_name());
            Err(type_error(opn, "matching types", actual.as_str(), "comparison"))
        },
    }
}

/// A LIKE test on an evaluated operand.
pub fn eval_like(v: SubValue, pattern: &String, escape: &Option<String>, negated: bool) -> (r:
    Result<bool, EvalError>)
    ensures
        agrees_bool(r, like_vals(sv_spec(v), *pattern, *escape, negated)),
        op_field_named(r, "LIKE"@),
{
    match &v {
        SubValue::String(s) => {
            let esc: Option<&String> = match escape {
                Some(e) => Some(e),
                None => None,
            };
            let m = match_pattern(s.as_str(), pattern.as_str(), esc)?;
            if negated {
                Ok(!m)
            } else {
                Ok(m)
            }
        },
        SubValue::Null => Err(null_error("LIKE", "cannot apply LIKE to NULL")),
        _ => Err(type_error("LIKE", "string", v.kind_name(), "left operand")),
    }
}

/// The float a numeric operand coerces to; any other operand is a type
/// error.
fn to_numeric(val: &SubValue) -> (r: Result<u64, EvalError>)
    ensures
        match r {
            Ok(b) => numeric(sv_spec(*val)) && b == to_float_bits(sv_spec(*val)),
            Err(e) => !numeric(sv_spec(*val)) && err_kind(e) == ErrKind::TypeFail,
        },
        op_field_named(r, "numeric comparison"@),
{
    match val {
        SubValue::Integer(i) => Ok(f64_of_i64(*i)),
        SubValue::Float(f) => Ok(*f),
        _ => Err(type_error("numeric comparison", "numeric", val.kind_name(), "operand")),
    }
}

/// A BETWEEN test on three evaluated values.
pub fn eval_between(v: SubValue, low: SubValue, high: SubValue, negated: bool) -> (r: Result<
    bool,
    EvalError,
>)
    ensures
        agrees_bool(r, between_vals(sv_spec(v), sv_spec(low), sv_spec(high), negated)),
        (match r {
            Err(EvalError::TypeError { operation, .. }) => operation@ == "numeric comparison"@,
            Err(EvalError::NullInOperation { operation, .. }) => operation@ == "BETWEEN"@,
            _ => true,
        }),
{
    if v.is_null() || low.is_null() || high.is_null() {
        return Err(null_error("BETWEEN", "cannot use NULL in BETWEEN"));
    }
    let in_range: bool = match (&v, &low, &high) {
        (SubValue::Integer(x), SubValue::Integer(a), SubValue::Integer(b)) => *x >= *a && *x <= *b,
        (SubValue::Float(x), SubValue::Float(a), SubValue::Float(b)) => f64_le(*a, *x) && f64_le(
            *x,
            *b,
        ),
        (SubValue::String(x), SubValue::String(a), SubValue::String(b)) => !str_lt(
            x.as_str(),
            a.as_str(),
        ) && !str_lt(b.as_str(), x.as_str()),
        _ => {
            let xv = to_numeric(&v)?;
            let av = to_numeric(&low)?;
            let bv = to_numeric(&high)?;
            f64_le(av, xv) && f64_le(xv, bv)
        },
    };
    if negated {
        Ok(!in_range)
    } else {
        Ok(in_range)
    }
}

/// Whether an evaluated value's kind fits an IN list's element kind.
fn are_types_compatible_for_in(left: &SubValue, right: &SubValue) -> (r: bool)
    ensures
        r == in_compat(sv_spec(*left), sv_spec(*right)),
{
    match (left, right) {
        (SubValue::Integer(_), SubValue::Integer(_)) => true,
        (SubValue::Float(_), SubValue::Float(_)) => true,
        (SubValue::String(_), SubValue::String(_)) => true,
        (SubValue::Boolean(_), SubValue::Boolean(_)) => true,
        (SubValue::Null, SubValue::Null) => true,
        (SubValue::Integer(_), SubValue::Float(_)) => true,
        (SubValue::Float(_), SubValue::Integer(_)) => true,
        _ => false,
    }
}

/// Membership equality of two evaluated values inside IN.
fn in_values_equal(a: &SubValue, b: &SubValue) -> (r: bool)
    ensures
        r == in_eq(sv_spec(*a), sv_spec(*b)),
{
    match (a, b) {
        (SubValue::Integer(x), SubValue::Integer(y)) => *x == *y,
        (SubValue::Float(x), SubValue::Float(y)) => f64_eq(*x, *y),
        (SubValue::Integer(x), SubValue::Float(y)) => {
            let xf = f64_of_i64(*x);
            f64_eq(xf, *y)
        },
        (SubValue::Float(x), SubValue::Integer(y)) => {
            let yf = f64_of_i64(*y);
            f64_eq(*x, yf)
        },
        (SubValue::String(x), SubValue::String(y)) => str_eq(x.as_str(), y.as_str()),
        (SubValue::Boolean(x), SubValue::Boolean(y)) => *x == *y,
        (SubValue::Null, SubValue::Null) => true,
        _ => false,
    }
}

/// An IN test on an evaluated value against the literal list.
pub fn eval_in(v: SubValue, values: &Vec<ValueLiteral>, negated: bool) -> (r: Result<
    bool,
    EvalError,
>)
    ensures
        agrees_bool(r, in_vals(sv_spec(v), values@, negated)),
        op_field_named(r, "IN"@),
{
    if v.is_null() {
        return Err(null_error("IN", "cannot use NULL in IN"));
    }
    if values.len() > 0 {
        let first_list_val = SubValue::from_literal(&values[0]);
        if !are_types_compatible_for_in(&v, &first_list_val) {
            return Err(
                type_error(
                    "IN",
                    first_list_val.kind_name(),
                    v.kind_name(),
                    "left operand type doesn't match list element types",
                ),
            );
        }
    }
    let mut i: usize = 0;
    while i < values.len()
        invariant
            i <= values@.len(),
            !(sv_spec(v) is Null),
            values@.len() > 0 ==> in_compat(sv_spec(v), lit_spec(values@[0])),
            in_scan(sv_spec(v), values@, 0) == in_scan(sv_spec(v), values@, i as int),
        decreases values.len() - i,
    {
        let list_val = SubValue::from_literal(&values[i]);
        if in_values_equal(&v, &list_val) {
            proof {
                assert(in_scan(sv_spec(v), values@, i as int));
            }
            if negated {
                return Ok(false);
            } else {
                return Ok(true);
            }
        }
        i = i + 1;
    }
    proof {
        assert(in_scan(sv_spec(v), values@, values@.len() as int) == false);
    }
    if negated {
        Ok(true)
    } else {
        Ok(false)
    }
}

/// Evaluates one relational expression under the bindings.
pub fn eval_relational(rel: &RelationalExpr, env: &Bindings, input: &str) -> (r: Result<
    bool,
    EvalError,
>)
    ensures
        agrees_bool(r, eval_rel_spec(*rel, env@)),
        div_zero_names_input(r, input@),
{
    match rel {
        RelationalExpr::Equality { left, op, right } => {
            let x = eval_value(left, env, input)?;
            let y = eval_value(right, env, input)?;
            eval_equality(x, y, *op)
        },
        RelationalExpr::Comparison { left, op, right } => {
            let x = eval_value(left, env, input)?;
            let y = eval_value(right, env, input)?;
            eval_comparison(x, y, *op)
        },
        RelationalExpr::Like { expr, pattern, escape, negated } => {
            let x = eval_value(expr, env, input)?;
            eval_like(x, pattern, escape, *negated)
        },
        RelationalExpr::Between { expr, lower, upper, negated } => {
            let x = eval_value(expr, env, input)?;
            let l = eval_value(lower, env, input)?;
            let h = eval_value(upper, env, input)?;
            eval_between(x, l, h, *negated)
        },
        RelationalExpr::In { expr, values, negated } => {
            let x = eval_value(expr, env, input)?;
            eval_in(x, values, *negated)
        },
        RelationalExpr::IsNull { expr, negated } => {
            let x = eval_value(expr, env, input)?;
            let isn = x.is_null();
            if *negated {
                Ok(!isn)
            } else {
                Ok(isn)
            }
        },
    }
}

/// Evaluates a boolean expression under the bindings, with short-circuiting
/// AND and OR.
pub fn eval_boolean(e: &BooleanExpr, env: &Bindings, input: &str) -> (r: Result<bool, EvalError>)
    ensures
        agrees_bool(r, eval_bool_spec(*e, env@)),
        div_zero_names_input(r, input@),
        *e is Variable ==> op_field_named(r, "boolean variable"@),
    decreases *e,
{
    match e {
        BooleanExpr::Literal(b) => Ok(*b),
        BooleanExpr::Variable(name) => match env.get(name.as_str()) {
            Some(rv) => match rv {
                RuntimeValue::Boolean(b) => Ok(*b),
                _ => {
                    let mut ctx = String::from_str("variable '");
                    ctx.append(name.as_str());
                    ctx.append("'");
                    Err(
                        type_error(
                            "boolean variable",
                            "boolean",
                            runtime_type_name(rv),
                            ctx.as_str(),
                        ),
                    )
                },
            },
            None => Err(EvalError::UnboundVariable { name: name.clone() }),
        },
        BooleanExpr::And(l, r) => {
            let lv = eval_boolean(l, env, input)?;
            if !lv {
                return Ok(false);
            }
            eval_boolean(r, env, input)
        },
        BooleanExpr::Or(l, r) => {
            let lv = eval_boolean(l, env, input)?;
            if lv {
                return Ok(true);
            }
            eval_boolean(r, env, input)
        },
        BooleanExpr::Not(inner) => {
            let v = eval_boolean(inner, env, input)?;
            Ok(!v)
        },
        BooleanExpr::Relational(rel) => eval_relational(rel, env, input),
    }
}

/// Parses and evaluates a boolean expression under the given bindings: the
/// result is the semantics `eval_bool_spec` of the tree the grammar assigns
/// to the input's token sequence, and an input the grammar rejects (or that
/// does not lex) is a wrapped parse error.
pub fn evaluate(input: &str, map: &Bindings) -> (r: Result<bool, EvalError>)
    ensures
        (exists|toks: Seq<Token>, ast: BooleanExpr|
            #![auto]
            crate::lexer::lexed_from(input@, 0, toks) && (crate::parser::sp_bool_expr(toks, 0)
                matches Some(g) && g.0 == crate::ast::view_bool(ast) && crate::parser::tok_at(
                toks,
                g.1,
            ) is Eof) && crate::ast::bool_expr_valid(ast) && agrees_bool(
                r,
                eval_bool_spec(ast, map@),
            )) || (r is Err && err_kind(r->Err_0) == ErrKind::ParseFail && (!crate::lexer::lex_ok(
            input@,
            0,
        ) || (exists|toks: Seq<Token>|
            #![auto]
            crate::lexer::lexed_from(input@, 0, toks) && (crate::parser::sp_bool_expr(toks, 0)
                is None || (crate::parser::sp_bool_expr(toks, 0) matches Some(g) && !(
            crate::parser::tok_at(toks, g.1) is Eof)))))),
        div_zero_names_input(r, input@),
        !crate::lexer::lex_ok(input@, 0) ==> r is Err && err_kind(r->Err_0) == ErrKind::ParseFail,
{
    match crate::parser::parse(input) {
        Ok(ast) => {
            let res = eval_boolean(&ast, map, input);
            proof {
                let toks = choose|toks: Seq<Token>|
                    #![auto]
                    crate::lexer::lexed_from(input@, 0, toks) && (crate::parser::sp_bool_expr(
                        toks,
                        0,
                    ) matches Some(g) && g.0 == crate::ast::view_bool(ast) && crate::parser::tok_at(
                        toks,
                        g.1,
                    ) is Eof);
                assert(crate::lexer::lexed_from(input@, 0, toks) && (crate::parser::sp_bool_expr(
                    toks,
                    0,
                ) matches Some(g) && g.0 == crate::ast::view_bool(ast) && crate::parser::tok_at(
                    toks,
                    g.1,
                ) is Eof) && crate::ast::bool_expr_valid(ast) && agrees_bool(
                    res,
                    eval_bool_spec(ast, map@),
                ));
            }
            res
        },
        Err(pe) => Err(EvalError::EvalParseError(pe.message)),
    }
}

/// Division always yields a float: whenever a division node evaluates to a
/// value at all, that value is a float, even for two integer operands.
pub proof fn lemma_division_always_float(e: ValueExpr, env: Map<Seq<char>, SpecVal>)
    requires
        e is Divide,
    ensures
        eval_value_spec(e, env) matches Ok(v) ==> v is Fl,
{
}

/// AND short-circuits: a false left-hand side decides the result, whatever
/// the right-hand side would do - even fail.
pub proof fn lemma_and_short_circuit(e: BooleanExpr, env: Map<Seq<char>, SpecVal>)
    requires
        e matches BooleanExpr::And(l, r) && eval_bool_spec(*l, env) == Ok::<bool, ErrKind>(false),
    ensures
        eval_bool_spec(e, env) == Ok::<bool, ErrKind>(false),
{
}

/// OR short-circuits: a true left-hand side decides the result, whatever
/// the right-hand side would do - even fail.
pub proof fn lemma_or_short_circuit(e: BooleanExpr, env: Map<Seq<char>, SpecVal>)
    requires
        e matches BooleanExpr::Or(l, r) && eval_bool_spec(*l, env) == Ok::<bool, ErrKind>(true),
    ensures
        eval_bool_spec(e, env) == Ok::<bool, ErrKind>(true),
{
}

/// NULL is strict in arithmetic: every arithmetic operation with a NULL
/// operand fails with the NULL error kind.
pub proof fn lemma_arithmetic_null_strict(op: NumOp, x: SpecVal, y: SpecVal)
    requires
        x is Null || y is Null,
    ensures
        num_bin_vals(op, x, y) == Err::<SpecVal, ErrKind>(ErrKind::NullFail),
        div_vals(x, y) == Err::<SpecVal, ErrKind>(ErrKind::NullFail),
        mod_vals(x, y) == Err::<SpecVal, ErrKind>(ErrKind::NullFail),
{
}

/// NULL is strict in equality and ordering: every comparison with a NULL
/// operand fails with the NULL error kind.
pub proof fn lemma_comparison_null_strict(x: SpecVal, y: SpecVal, eop: EqualityOp, cop: ComparisonOp)
    requires
        x is Null || y is Null,
    ensures
        equality_vals(x, y, eop) == Err::<bool, ErrKind>(ErrKind::NullFail),
        comparison_vals(x, y, cop) == Err::<bool, ErrKind>(ErrKind::NullFail),
{
}

/// IS NULL itself never fails on a NULL value: it yields exactly true, and
/// IS NOT NULL yields false.
pub proof fn lemma_is_null_on_null(e: RelationalExpr, env: Map<Seq<char>, SpecVal>)
    requires
        e matches RelationalExpr::IsNull { expr, negated } && eval_value_spec(expr, env) == Ok::<
            SpecVal,
            ErrKind,
        >(SpecVal::Null),
    ensures
        e matches RelationalExpr::IsNull { expr, negated } ==> eval_rel_spec(e, env) == Ok::<
            bool,
            ErrKind,
        >(!negated),
{
}

} // verus!
