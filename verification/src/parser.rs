//! The recursive-descent parser.
//!
//! The whole input is tokenized up front; the parser walks the token array
//! with an explicit cursor it can save and restore, which the grammar's one
//! ambiguity needs: a `(` may open a parenthesized boolean expression or a
//! parenthesized value operand of an outer comparison, and only a trial parse
//! can tell. Static validation of BETWEEN bounds and IN lists happens here,
//! at parse time.
//!
//! The grammar itself is stated as the `sp_*` spec functions over the token
//! sequence, one per precedence level, yielding the view of the node built
//! and the cursor after it. Every parsing function is proved to return
//! exactly that outcome - success with the grammar's tree (up to the string
//! view) when the spec accepts, an error when it does not - so `parse` is
//! pinned end to end, from the characters of the input to the tree.

use vstd::prelude::*;
use vstd::string::*;
use crate::ast::between_bounds_valid;
use crate::ast::between_compatible;
use crate::ast::between_ordered;
use crate::ast::bool_expr_valid;
use crate::ast::extract_lit;
use crate::ast::g_between_valid;
use crate::ast::g_in_allowed;
use crate::ast::g_same_type;
use crate::ast::lemma_between_valid_view;
use crate::ast::view_bool;
use crate::ast::view_lit;
use crate::ast::view_rel;
use crate::ast::view_val;
use crate::ast::GBool;
use crate::ast::GLit;
use crate::ast::GRel;
use crate::ast::GVal;
use crate::ast::in_list_valid;
use crate::ast::in_lit_allowed;
use crate::ast::lit_type_str;
use crate::ast::rel_expr_valid;
use crate::ast::same_exact_type;
use crate::ast::BooleanExpr;
use crate::ast::ComparisonOp;
use crate::ast::EqualityOp;
use crate::ast::RelationalExpr;
use crate::ast::ValueExpr;
use crate::ast::ValueLiteral;
use crate::errors::ParseError;
use crate::float::f64_lt;
use crate::float::f64_of_i64;
use crate::float::f64_to_string;
use crate::float::float_neg;
use crate::float::F64_SIGN_BIT;
use crate::lexer::Lexer;
use crate::strutil::i64_to_string;
use crate::strutil::neg_i64;
use crate::strutil::wrap_neg_i64;
use crate::strutil::str_lt;
use crate::strutil::u64_to_string;
use crate::token::token_eq;
use crate::token::Token;

verus! {

/// A cursor moved one token forward, stopping at the end.
pub open spec fn advance_pos(p: int, len: int) -> int {
    if p < len {
        p + 1
    } else {
        p
    }
}

/// The token at a cursor position; past the end it is `Eof`.
pub open spec fn tok_at(toks: Seq<Token>, p: int) -> Token {
    if 0 <= p < toks.len() {
        toks[p]
    } else {
        Token::Eof
    }
}

/// A token that may continue a relational expression after an identifier.
pub open spec fn rel_op_token(t: Token) -> bool {
    match t {
        Token::Equal | Token::NotEqual | Token::GreaterThan | Token::GreaterOrEqual
            | Token::LessThan | Token::LessOrEqual | Token::Like | Token::Between | Token::In
            | Token::Is | Token::Not => true,
        _ => false,
    }
}

/// An arithmetic operator token.
pub open spec fn arith_op_token(t: Token) -> bool {
    match t {
        Token::Plus | Token::Minus | Token::Star | Token::Slash | Token::Percent => true,
        _ => false,
    }
}


// ---------------------------------------------------------------------
// the grammar, as a function over the token sequence
// ---------------------------------------------------------------------
// Each function mirrors one level of the grammar and yields the view of the
// node built and the cursor after it, or nothing where that level fails.
// Progress guards (`p < p1 <= t.len()`) bound the recursion; the executable
// parser is proved to return exactly these results, and its cursor always
// moves, so the guarded branches are the ones taken.

/// One literal of an IN list, with an optional minus folded into a numeric
/// value.
pub open spec fn sp_lit(t: Seq<Token>, p: int) -> Option<(GLit, int)> {
    let neg = tok_at(t, p) is Minus;
    let q = if neg {
        p + 1
    } else {
        p
    };
    match tok_at(t, q) {
        Token::StringLiteral(s) => if neg {
            None
        } else {
            Some((GLit::Str(s@), q + 1))
        },
        Token::IntegerLiteral(n) => Some(
            (
                GLit::Int(
                    if neg {
                        wrap_neg_i64(n)
                    } else {
                        n
                    },
                ),
                q + 1,
            ),
        ),
        Token::FloatLiteral(f) => Some(
            (
                GLit::Fl(
                    if neg {
                        float_neg(f)
                    } else {
                        f
                    },
                ),
                q + 1,
            ),
        ),
        Token::Null => if neg {
            None
        } else {
            Some((GLit::Null, q + 1))
        },
        Token::True => if neg {
            None
        } else {
            Some((GLit::Bool(true), q + 1))
        },
        Token::False => if neg {
            None
        } else {
            Some((GLit::Bool(false), q + 1))
        },
        _ => None,
    }
}

/// The later elements of an IN list: comma-separated literals of the first
/// element's exact type, closed by `)`.
pub open spec fn sp_list_rest(t: Seq<Token>, first: GLit, acc: Seq<GLit>, p: int) -> Option<
    (Seq<GLit>, int),
>
    decreases t.len() - p,
    when 0 <= p <= t.len()
{
    if tok_at(t, p) is Comma {
        match sp_lit(t, p + 1) {
            Some(lp) => if !g_in_allowed(lp.0) {
                None
            } else if !g_same_type(first, lp.0) {
                None
            } else if p < lp.1 <= t.len() {
                sp_list_rest(t, first, acc.push(lp.0), lp.1)
            } else {
                None
            },
            None => None,
        }
    } else if tok_at(t, p) is RightParen {
        Some((acc, p + 1))
    } else {
        None
    }
}

/// A parenthesized IN list: nonempty, no NULL or boolean element, one exact
/// element type.
pub open spec fn sp_list(t: Seq<Token>, p: int) -> Option<(Seq<GLit>, int)> {
    if tok_at(t, p) is LeftParen {
        match sp_lit(t, p + 1) {
            Some(fp) => if !g_in_allowed(fp.0) {
                None
            } else if p < fp.1 <= t.len() {
                sp_list_rest(t, fp.0, seq![fp.0], fp.1)
            } else {
                None
            },
            None => None,
        }
    } else {
        None
    }
}

/// ValuePrimary: a literal, a variable, or a parenthesized value expression.
pub open spec fn sp_primary(t: Seq<Token>, p: int) -> Option<(GVal, int)>
    decreases t.len() - p, 1int,
    when 0 <= p <= t.len()
{
    match tok_at(t, p) {
        Token::IntegerLiteral(n) => Some((GVal::Literal(GLit::Int(n)), p + 1)),
        Token::FloatLiteral(f) => Some((GVal::Literal(GLit::Fl(f)), p + 1)),
        Token::StringLiteral(s) => Some((GVal::Literal(GLit::Str(s@)), p + 1)),
        Token::Null => Some((GVal::Literal(GLit::Null), p + 1)),
        Token::True => Some((GVal::Literal(GLit::Bool(true)), p + 1)),
        Token::False => Some((GVal::Literal(GLit::Bool(false)), p + 1)),
        Token::Identifier(name) => Some((GVal::Variable(name@), p + 1)),
        Token::LeftParen => match sp_value(t, p + 1) {
            Some(ep) => if tok_at(t, ep.1) is RightParen && p < ep.1 <= t.len() {
                Some((ep.0, ep.1 + 1))
            } else {
                None
            },
            None => None,
        },
        _ => None,
    }
}

/// UnaryValueExpression: unary signs over a primary.
pub open spec fn sp_unary(t: Seq<Token>, p: int) -> Option<(GVal, int)>
    decreases t.len() - p, 2int,
    when 0 <= p <= t.len()
{
    match tok_at(t, p) {
        Token::Plus => match sp_unary(t, p + 1) {
            Some(ep) => Some((GVal::UnaryPlus(Box::new(ep.0)), ep.1)),
            None => None,
        },
        Token::Minus => match sp_unary(t, p + 1) {
            Some(ep) => Some((GVal::UnaryMinus(Box::new(ep.0)), ep.1)),
            None => None,
        },
        _ => sp_primary(t, p),
    }
}

/// The `* / %` chain after a first factor.
pub open spec fn sp_mult_rest(t: Seq<Token>, left: GVal, p: int) -> Option<(GVal, int)>
    decreases t.len() - p, 3int,
    when 0 <= p <= t.len()
{
    if tok_at(t, p) is Star {
        match sp_unary(t, p + 1) {
            Some(rp) => if p < rp.1 <= t.len() {
                sp_mult_rest(t, GVal::Multiply(Box::new(left), Box::new(rp.0)), rp.1)
            } else {
                None
            },
            None => None,
        }
    } else if tok_at(t, p) is Slash {
        match sp_unary(t, p + 1) {
            Some(rp) => if p < rp.1 <= t.len() {
                sp_mult_rest(t, GVal::Divide(Box::new(left), Box::new(rp.0)), rp.1)
            } else {
                None
            },
            None => None,
        }
    } else if tok_at(t, p) is Percent {
        match sp_unary(t, p + 1) {
            Some(rp) => if p < rp.1 <= t.len() {
                sp_mult_rest(t, GVal::Modulo(Box::new(left), Box::new(rp.0)), rp.1)
            } else {
                None
            },
            None => None,
        }
    } else {
        Some((left, p))
    }
}

/// MultExpression.
pub open spec fn sp_mult(t: Seq<Token>, p: int) -> Option<(GVal, int)>
    decreases t.len() - p, 4int,
    when 0 <= p <= t.len()
{
    match sp_unary(t, p) {
        Some(ep) => if p < ep.1 <= t.len() {
            sp_mult_rest(t, ep.0, ep.1)
        } else {
            None
        },
        None => None,
    }
}

/// The `+ -` chain after a first term.
pub open spec fn sp_add_rest(t: Seq<Token>, left: GVal, p: int) -> Option<(GVal, int)>
    decreases t.len() - p, 5int,
    when 0 <= p <= t.len()
{
    if tok_at(t, p) is Plus {
        match sp_mult(t, p + 1) {
            Some(rp) => if p < rp.1 <= t.len() {
                sp_add_rest(t, GVal::Add(Box::new(left), Box::new(rp.0)), rp.1)
            } else {
                None
            },
            None => None,
        }
    } else if tok_at(t, p) is Minus {
        match sp_mult(t, p + 1) {
            Some(rp) => if p < rp.1 <= t.len() {
                sp_add_rest(t, GVal::Subtract(Box::new(left), Box::new(rp.0)), rp.1)
            } else {
                None
            },
            None => None,
        }
    } else {
        Some((left, p))
    }
}

/// AddExpression.
pub open spec fn sp_add(t: Seq<Token>, p: int) -> Option<(GVal, int)>
    decreases t.len() - p, 6int,
    when 0 <= p <= t.len()
{
    match sp_mult(t, p) {
        Some(ep) => if p < ep.1 <= t.len() {
            sp_add_rest(t, ep.0, ep.1)
        } else {
            None
        },
        None => None,
    }
}

/// ValueExpression.
pub open spec fn sp_value(t: Seq<Token>, p: int) -> Option<(GVal, int)>
    decreases t.len() - p, 7int,
    when 0 <= p <= t.len()
{
    sp_add(t, p)
}

/// A LIKE pattern and its optional ESCAPE clause, after the keyword.
pub open spec fn sp_like_tail(t: Seq<Token>, left: GVal, neg: bool, p: int) -> Option<
    (GRel, int),
> {
    match tok_at(t, p) {
        Token::StringLiteral(pat) => if tok_at(t, p + 1) is Escape {
            match tok_at(t, p + 2) {
                Token::StringLiteral(esc) => Some(
                    (
                        GRel::Like {
                            expr: left,
                            pattern: pat@,
                            escape: Some(esc@),
                            negated: neg,
                        },
                        p + 3,
                    ),
                ),
                _ => None,
            }
        } else {
            Some((GRel::Like { expr: left, pattern: pat@, escape: None, negated: neg }, p + 1))
        },
        _ => None,
    }
}

/// BETWEEN bounds after the keyword: two literal-valued bound expressions
/// joined by AND, statically valid.
pub open spec fn sp_between_tail(t: Seq<Token>, left: GVal, neg: bool, p: int) -> Option<
    (GRel, int),
>
    decreases t.len() - p, 8int,
    when 0 <= p <= t.len()
{
    match sp_value(t, p) {
        None => None,
        Some(lo) => if !(p <= lo.1 <= t.len()) {
            None
        } else if !(tok_at(t, lo.1) is And) {
            None
        } else {
            match sp_value(t, lo.1 + 1) {
                None => None,
                Some(hi) => if g_between_valid(lo.0, hi.0) {
                    Some(
                        (
                            GRel::Between {
                                expr: left,
                                lower: lo.0,
                                upper: hi.0,
                                negated: neg,
                            },
                            hi.1,
                        ),
                    )
                } else {
                    None
                },
            }
        },
    }
}

/// RelationalExpression: a value expression followed by one relational
/// operator form.
pub open spec fn sp_rel(t: Seq<Token>, p: int) -> Option<(GRel, int)>
    decreases t.len() - p, 9int,
    when 0 <= p <= t.len()
{
    match sp_value(t, p) {
        None => None,
        Some(lp) => if !(p < lp.1 <= t.len()) {
            None
        } else {
            let left = lp.0;
            let p1 = lp.1;
            match tok_at(t, p1) {
                Token::Equal => match sp_value(t, p1 + 1) {
                    Some(rp) => Some(
                        (GRel::Equality { left, op: EqualityOp::Equal, right: rp.0 }, rp.1),
                    ),
                    None => None,
                },
                Token::NotEqual => match sp_value(t, p1 + 1) {
                    Some(rp) => Some(
                        (GRel::Equality { left, op: EqualityOp::NotEqual, right: rp.0 }, rp.1),
                    ),
                    None => None,
                },
                Token::GreaterThan => match sp_value(t, p1 + 1) {
                    Some(rp) => Some(
                        (
                            GRel::Comparison {
                                left,
                                op: ComparisonOp::GreaterThan,
                                right: rp.0,
                            },
                            rp.1,
                        ),
                    ),
                    None => None,
                },
                Token::GreaterOrEqual => match sp_value(t, p1 + 1) {
                    Some(rp) => Some(
                        (
                            GRel::Comparison {
                                left,
                                op: ComparisonOp::GreaterOrEqual,
                                right: rp.0,
                            },
                            rp.1,
                        ),
                    ),
                    None => None,
                },
                Token::LessThan => match sp_value(t, p1 + 1) {
                    Some(rp) => Some(
                        (
                            GRel::Comparison {
                                left,
                                op: ComparisonOp::LessThan,
                                right: rp.0,
                            },
                            rp.1,
                        ),
                    ),
                    None => None,
                },
                Token::LessOrEqual => match sp_value(t, p1 + 1) {
                    Some(rp) => Some(
                        (
                            GRel::Comparison {
                                left,
                                op: ComparisonOp::LessOrEqual,
                                right: rp.0,
                            },
                            rp.1,
                        ),
                    ),
                    None => None,
                },
                Token::Like => sp_like_tail(t, left, false, p1 + 1),
                Token::Not => match tok_at(t, p1 + 1) {
                    Token::Like => sp_like_tail(t, left, true, p1 + 2),
                    Token::Between => if p1 + 2 <= t.len() {
                        sp_between_tail(t, left, true, p1 + 2)
                    } else {
                        None
                    },
                    Token::In => match sp_list(t, p1 + 2) {
                        Some(vp) => Some(
                            (GRel::In { expr: left, values: vp.0, negated: true }, vp.1),
                        ),
                        None => None,
                    },
                    _ => None,
                },
                Token::Between => if p1 + 1 <= t.len() {
                    sp_between_tail(t, left, false, p1 + 1)
                } else {
                    None
                },
                Token::In => match sp_list(t, p1 + 1) {
                    Some(vp) => Some((GRel::In { expr: left, values: vp.0, negated: false }, vp.1)),
                    None => None,
                },
                Token::Is => {
                    let neg = tok_at(t, p1 + 1) is Not;
                    let p2 = if neg {
                        p1 + 2
                    } else {
                        p1 + 1
                    };
                    if tok_at(t, p2) is Null {
                        Some((GRel::IsNull { expr: left, negated: neg }, p2 + 1))
                    } else {
                        None
                    }
                },
                _ => None,
            }
        },
    }
}

/// BooleanTerm, with the parenthesis ambiguity resolved exactly as the
/// executable parser does: try the boolean reading first, fall back to a
/// relational expression from the `(` itself.
pub open spec fn sp_term(t: Seq<Token>, p: int) -> Option<(GBool, int)>
    decreases t.len() - p, 10int,
    when 0 <= p <= t.len()
{
    match tok_at(t, p) {
        Token::Not => match sp_term(t, p + 1) {
            Some(ep) => Some((GBool::Not(Box::new(ep.0)), ep.1)),
            None => None,
        },
        Token::LeftParen => match sp_bool_expr(t, p + 1) {
            Some(ep) => if tok_at(t, ep.1) is RightParen {
                Some((ep.0, ep.1 + 1))
            } else {
                match sp_rel(t, p) {
                    Some(rp) => Some((GBool::Relational(rp.0), rp.1)),
                    None => None,
                }
            },
            None => match sp_rel(t, p) {
                Some(rp) => Some((GBool::Relational(rp.0), rp.1)),
                None => None,
            },
        },
        Token::True => Some((GBool::Literal(true), p + 1)),
        Token::False => Some((GBool::Literal(false), p + 1)),
        Token::Identifier(name) => if rel_op_token(tok_at(t, p + 1)) || arith_op_token(
            tok_at(t, p + 1),
        ) {
            match sp_rel(t, p) {
                Some(rp) => Some((GBool::Relational(rp.0), rp.1)),
                None => None,
            }
        } else {
            Some((GBool::Variable(name@), p + 1))
        },
        _ => match sp_rel(t, p) {
            Some(rp) => Some((GBool::Relational(rp.0), rp.1)),
            None => None,
        },
    }
}

/// The AND chain after a first term.
pub open spec fn sp_and_rest(t: Seq<Token>, left: GBool, p: int) -> Option<(GBool, int)>
    decreases t.len() - p, 11int,
    when 0 <= p <= t.len()
{
    if tok_at(t, p) is And {
        match sp_term(t, p + 1) {
            Some(rp) => if p < rp.1 <= t.len() {
                sp_and_rest(t, GBool::And(Box::new(left), Box::new(rp.0)), rp.1)
            } else {
                None
            },
            None => None,
        }
    } else {
        Some((left, p))
    }
}

/// BooleanAndExpression.
pub open spec fn sp_and(t: Seq<Token>, p: int) -> Option<(GBool, int)>
    decreases t.len() - p, 12int,
    when 0 <= p <= t.len()
{
    match sp_term(t, p) {
        Some(ep) => if p < ep.1 <= t.len() {
            sp_and_rest(t, ep.0, ep.1)
        } else {
            None
        },
        None => None,
    }
}

/// The OR chain after a first conjunct.
pub open spec fn sp_or_rest(t: Seq<Token>, left: GBool, p: int) -> Option<(GBool, int)>
    decreases t.len() - p, 13int,
    when 0 <= p <= t.len()
{
    if tok_at(t, p) is Or {
        match sp_and(t, p + 1) {
            Some(rp) => if p < rp.1 <= t.len() {
                sp_or_rest(t, GBool::Or(Box::new(left), Box::new(rp.0)), rp.1)
            } else {
                None
            },
            None => None,
        }
    } else {
        Some((left, p))
    }
}

/// BooleanOrExpression.
pub open spec fn sp_or(t: Seq<Token>, p: int) -> Option<(GBool, int)>
    decreases t.len() - p, 14int,
    when 0 <= p <= t.len()
{
    match sp_and(t, p) {
        Some(ep) => if p < ep.1 <= t.len() {
            sp_or_rest(t, ep.0, ep.1)
        } else {
            None
        },
        None => None,
    }
}

/// BooleanExpression: the grammar's start symbol.
pub open spec fn sp_bool_expr(t: Seq<Token>, p: int) -> Option<(GBool, int)>
    decreases t.len() - p, 15int,
    when 0 <= p <= t.len()
{
    sp_or(t, p)
}

/// The parser's state: the token array, a cursor, and the original input
/// kept for diagnostics.
pub struct Parser {
    tokens: Vec<Token>,
    position: usize,
    input: String,
    eof: Token,
}

type ParseResult<T> = Result<T, ParseError>;

impl Parser {
    /// The token array.
    pub closed spec fn toks(&self) -> Seq<Token> {
        self.tokens@
    }

    /// The cursor.
    pub closed spec fn pos(&self) -> int {
        self.position as int
    }

    /// The input text.
    pub closed spec fn src(&self) -> Seq<char> {
        self.input@
    }

    /// The cursor stays within the token array, and the stand-in token for
    /// reads past the end is `Eof`.
    pub closed spec fn wf(&self) -> bool {
        self.pos() <= self.toks().len() && self.eof is Eof
    }

    /// Tokenizes the input and sets the cursor to the first token; it
    /// succeeds exactly when the input lexes without error.
    pub fn new(input: &str) -> (r: ParseResult<Parser>)
        ensures
            match r {
                Ok(p) => p.wf() && p.pos() == 0 && p.src() == input@ && crate::lexer::lex_ok(
                    input@,
                    0,
                ) && crate::lexer::lexed_from(input@, 0, p.toks()) && p.toks().len()
                    == crate::lexer::token_count(input@, 0) && p.toks().len() >= 1
                    && p.toks().last() is Eof,
                Err(_) => !crate::lexer::lex_ok(input@, 0),
            },
    {
        let mut lexer = Lexer::new(input);
        match lexer.tokenize() {
            Ok(tokens) => Ok(
                Parser {
                    tokens,
                    position: 0,
                    input: String::from_str(input),
                    eof: Token::Eof,
                },
            ),
            Err(e) => Err(ParseError { message: e }),
        }
    }

    /// The token under the cursor.
    fn current_token(&self) -> (r: &Token)
        requires
            self.wf(),
        ensures
            *r == tok_at(self.toks(), self.pos()),
    {
        if self.position < self.tokens.len() {
            &self.tokens[self.position]
        } else {
            &self.eof
        }
    }

    /// The token after the one under the cursor.
    fn peek_token(&self) -> (r: &Token)
        requires
            self.wf(),
        ensures
            *r == tok_at(self.toks(), self.pos() + 1),
    {
        if self.position < self.tokens.len() && self.position + 1 < self.tokens.len() {
            &self.tokens[self.position + 1]
        } else {
            &self.eof
        }
    }

    /// Moves the cursor one token forward, stopping at the end.
    fn advance(&mut self)
        requires
            old(self).wf(),
        ensures
            final(self).wf(),
            final(self).toks() == old(self).toks(),
            final(self).src() == old(self).src(),
            final(self).pos() == advance_pos(old(self).pos(), old(self).toks().len() as int),
    {
        if self.position < self.tokens.len() {
            self.position = self.position + 1;
        }
    }

    /// A diagnostic carrying the message, the token position and the input.
    fn error_here(&self, message: &str) -> (r: ParseError) {
        let mut m = String::from_str(message);
        m.append(" near position ");
        let p = u64_to_string(self.position as u64);
        m.append(p.as_str());
        m.append(" in:\n  ");
        m.append(self.input.as_str());
        ParseError { message: m }
    }

    /// Consumes the expected token, or fails naming what stood there.
    fn expect(&mut self, expected: Token) -> (r: ParseResult<()>)
        requires
            old(self).wf(),
        ensures
            final(self).wf(),
            final(self).toks() == old(self).toks(),
            final(self).src() == old(self).src(),
            match r {
                Ok(_) => token_eq(tok_at(old(self).toks(), old(self).pos()), expected)
                    && final(self).pos() == advance_pos(
                    old(self).pos(),
                    old(self).toks().len() as int,
                ),
                Err(_) => final(self).pos() == old(self).pos() && !token_eq(
                    tok_at(old(self).toks(), old(self).pos()),
                    expected,
                ),
            },
    {
        if self.current_token().same(&expected) {
            self.advance();
            Ok(())
        } else {
            let mut m = String::from_str("Expected ");
            let ed = expected.describe();
            m.append(ed.as_str());
            m.append(", got ");
            let cd = self.current_token().describe();
            m.append(cd.as_str());
            Err(self.error_here(m.as_str()))
        }
    }

    /// Whether a relational operator (or NOT) follows the current token.
    fn is_relational_operator_ahead(&self) -> (r: bool)
        requires
            self.wf(),
        ensures
            r == rel_op_token(tok_at(self.toks(), self.pos() + 1)),
    {
        match self.peek_token() {
            Token::Equal | Token::NotEqual | Token::GreaterThan | Token::GreaterOrEqual
                | Token::LessThan | Token::LessOrEqual | Token::Like | Token::Between | Token::In
                | Token::Is | Token::Not => true,
            _ => false,
        }
    }

    /// Whether an arithmetic operator follows the current token.
    fn is_arithmetic_operator_ahead(&self) -> (r: bool)
        requires
            self.wf(),
        ensures
            r == arith_op_token(tok_at(self.toks(), self.pos() + 1)),
    {
        match self.peek_token() {
            Token::Plus | Token::Minus | Token::Star | Token::Slash | Token::Percent => true,
            _ => false,
        }
    }

    // ------------------------------------------------------------------
    // static validation
    // ------------------------------------------------------------------

    /// Reduces a BETWEEN bound expression to its literal, folding one unary
    /// sign into the value; anything else is rejected.
    pub fn extract_literal(expr: &ValueExpr) -> (r: ParseResult<ValueLiteral>)
        ensures
            match r {
                Ok(l) => extract_lit(*expr) == Some(l),
                Err(_) => extract_lit(*expr) is None,
            },
    {
        match expr {
            ValueExpr::Literal(lit) => Ok(lit.clone()),
            ValueExpr::UnaryMinus(inner) => match &**inner {
                ValueExpr::Literal(ValueLiteral::Integer(n)) => Ok(
                    ValueLiteral::Integer(neg_i64(*n)),
                ),
                ValueExpr::Literal(ValueLiteral::Float(f)) => Ok(
                    ValueLiteral::Float(*f ^ F64_SIGN_BIT),
                ),
                ValueExpr::Literal(_) => Err(
                    ParseError {
                        message: String::from_str(
                            "Unary minus can only be applied to numeric literals in BETWEEN bounds",
                        ),
                    },
                ),
                _ => Err(
                    ParseError {
                        message: String::from_str(
                            "Complex expressions are not allowed here, only literal values",
                        ),
                    },
                ),
            },
            ValueExpr::UnaryPlus(inner) => match &**inner {
                ValueExpr::Literal(lit) => Ok(lit.clone()),
                _ => Err(
                    ParseError {
                        message: String::from_str(
                            "Complex expressions are not allowed here, only literal values",
                        ),
                    },
                ),
            },
            ValueExpr::Variable(_) => Err(
                ParseError {
                    message: String::from_str(
                        "Variables are not allowed here, only literal values",
                    ),
                },
            ),
            _ => Err(
                ParseError {
                    message: String::from_str(
                        "Complex expressions are not allowed here, only literal values",
                    ),
                },
            ),
        }
    }

    /// The literal-type name used in diagnostics.
    fn literal_type_name(lit: &ValueLiteral) -> (r: &'static str)
        ensures
            r@ == lit_type_str(*lit),
    {
        match lit {
            ValueLiteral::Integer(_) => "integer",
            ValueLiteral::Float(_) => "float",
            ValueLiteral::String(_) => "string",
            ValueLiteral::Null => "NULL",
            ValueLiteral::Boolean(_) => "boolean",
        }
    }

    /// Whether two literals may stand together as BETWEEN bounds.
    pub fn are_between_compatible(lower: &ValueLiteral, upper: &ValueLiteral) -> (r: bool)
        ensures
            r == between_compatible(*lower, *upper),
    {
        match (lower, upper) {
            (ValueLiteral::Integer(_), ValueLiteral::Integer(_)) => true,
            (ValueLiteral::Integer(_), ValueLiteral::Float(_)) => true,
            (ValueLiteral::Float(_), ValueLiteral::Integer(_)) => true,
            (ValueLiteral::Float(_), ValueLiteral::Float(_)) => true,
            (ValueLiteral::String(_), ValueLiteral::String(_)) => true,
            _ => false,
        }
    }

    /// Rejects NULL and boolean literals from an IN list.
    pub fn validate_in_literal(&self, lit: &ValueLiteral) -> (r: ParseResult<()>)
        ensures
            r is Ok <==> in_lit_allowed(*lit),
    {
        match lit {
            ValueLiteral::Null => Err(self.error_here("NULL is not allowed in IN list")),
            ValueLiteral::Boolean(_) => Err(
                self.error_here("Boolean literals are not allowed in IN list"),
            ),
            _ => Ok(()),
        }
    }

    /// Whether two literals have exactly the same type; integers and floats
    /// do not mix in an IN list.
    pub fn are_exact_same_type(a: &ValueLiteral, b: &ValueLiteral) -> (r: bool)
        ensures
            r == same_exact_type(*a, *b),
    {
        match (a, b) {
            (ValueLiteral::Integer(_), ValueLiteral::Integer(_)) => true,
            (ValueLiteral::Float(_), ValueLiteral::Float(_)) => true,
            (ValueLiteral::String(_), ValueLiteral::String(_)) => true,
            _ => false,
        }
    }

    /// Checks that BETWEEN bounds are in order, lower not exceeding upper
    /// under same-type comparison with numeric coercion. Incompatible pairs
    /// are not this check's concern.
    pub fn validate_between_bounds(
        lower: &ValueLiteral,
        upper: &ValueLiteral,
        input: &str,
        position: usize,
    ) -> (r: ParseResult<()>)
        ensures
            r is Ok <==> between_ordered(*lower, *upper),
    {
        let in_order: bool = match (lower, upper) {
            (ValueLiteral::Integer(l), ValueLiteral::Integer(u)) => !(*l > *u),
            (ValueLiteral::Float(l), ValueLiteral::Float(u)) => !f64_lt(*u, *l),
            (ValueLiteral::Integer(l), ValueLiteral::Float(u)) => {
                let lf = f64_of_i64(*l);
                !f64_lt(*u, lf)
            },
            (ValueLiteral::Float(l), ValueLiteral::Integer(u)) => {
                let uf = f64_of_i64(*u);
                !f64_lt(uf, *l)
            },
            (ValueLiteral::String(l), ValueLiteral::String(u)) => !str_lt(u.as_str(), l.as_str()),
            _ => true,
        };
        if in_order {
            Ok(())
        } else {
            let mut m = String::from_str("BETWEEN lower bound (");
            let ld = Self::render_literal(lower);
            m.append(ld.as_str());
            m.append(") must be less than or equal to upper bound (");
            let ud = Self::render_literal(upper);
            m.append(ud.as_str());
            m.append(") near position ");
            let p = u64_to_string(position as u64);
            m.append(p.as_str());
            m.append(" in:\n  ");
            m.append(input);
            Err(ParseError { message: m })
        }
    }

    /// A short rendering of a literal for diagnostics.
    fn render_literal(lit: &ValueLiteral) -> (r: String) {
        match lit {
            ValueLiteral::Integer(n) => i64_to_string(*n),
            ValueLiteral::Float(b) => f64_to_string(*b),
            ValueLiteral::String(s) => {
                let mut m = String::from_str("'");
                m.append(s.as_str());
                m.append("'");
                m
            },
            ValueLiteral::Null => String::from_str("NULL"),
            ValueLiteral::Boolean(b) => {
                if *b {
                    String::from_str("TRUE")
                } else {
                    String::from_str("FALSE")
                }
            },
        }
    }

    /// Checks all the static BETWEEN rules on a pair of bound expressions:
    /// both literal, neither NULL nor boolean, compatible, and in order.
    fn check_between_bounds(
        &self,
        lower_expr: &ValueExpr,
        upper_expr: &ValueExpr,
        negated: bool,
    ) -> (r: ParseResult<()>)
        requires
            self.wf(),
        ensures
            r is Ok <==> between_bounds_valid(*lower_expr, *upper_expr),
    {
        let op_name: &'static str = if negated {
            "NOT BETWEEN"
        } else {
            "BETWEEN"
        };
        let lower_lit = Self::extract_literal(lower_expr)?;
        let upper_lit = Self::extract_literal(upper_expr)?;
        match lower_lit {
            ValueLiteral::Null => {
                let mut m = String::from_str("NULL is not allowed as lower bound in ");
                m.append(op_name);
                return Err(self.error_here(m.as_str()));
            },
            ValueLiteral::Boolean(_) => {
                let mut m = String::from_str("Boolean literals are not allowed as lower bound in ");
                m.append(op_name);
                return Err(self.error_here(m.as_str()));
            },
            _ => {},
        }
        match upper_lit {
            ValueLiteral::Null => {
                let mut m = String::from_str("NULL is not allowed as upper bound in ");
                m.append(op_name);
                return Err(self.error_here(m.as_str()));
            },
            ValueLiteral::Boolean(_) => {
                let mut m = String::from_str("Boolean literals are not allowed as upper bound in ");
                m.append(op_name);
                return Err(self.error_here(m.as_str()));
            },
            _ => {},
        }
        if !Self::are_between_compatible(&lower_lit, &upper_lit) {
            let mut m = String::from_str(op_name);
            m.append(" bounds must be both numeric or both string, found ");
            m.append(Self::literal_type_name(&lower_lit));
            m.append(" and ");
            m.append(Self::literal_type_name(&upper_lit));
            return Err(self.error_here(m.as_str()));
        }
        Self::validate_between_bounds(&lower_lit, &upper_lit, self.input.as_str(), self.position)
    }
}

impl Parser {
    /// Parses a complete boolean expression and demands that nothing but the
    /// end of the input follows it.
    pub fn parse(&mut self) -> (r: ParseResult<BooleanExpr>)
        requires
            old(self).wf(),
        ensures
            final(self).wf(),
            final(self).toks() == old(self).toks(),
            final(self).src() == old(self).src(),
            match r {
                Ok(ast) => bool_expr_valid(ast) && tok_at(final(self).toks(), final(self).pos())
                    is Eof && sp_bool_expr(old(self).toks(), old(self).pos()) == Some(
                    (view_bool(ast), final(self).pos() as int),
                ),
                Err(_) => sp_bool_expr(old(self).toks(), old(self).pos()) is None || (sp_bool_expr(
                    old(self).toks(),
                    old(self).pos(),
                ) matches Some(g) && !(tok_at(old(self).toks(), g.1) is Eof)),
            },
    {
        let expr = self.parse_boolean_expression()?;
        match self.current_token() {
            Token::Eof => Ok(expr),
            _ => {
                let mut m = String::from_str("Unexpected token '");
                let d = self.current_token().describe();
                m.append(d.as_str());
                m.append("'");
                Err(self.error_here(m.as_str()))
            },
        }
    }

    /// BooleanExpression = BooleanOrExpression
    pub fn parse_boolean_expression(&mut self) -> (r: ParseResult<BooleanExpr>)
        requires
            old(self).wf(),
        ensures
            final(self).wf(),
            final(self).toks() == old(self).toks(),
            final(self).src() == old(self).src(),
            match r {
                Ok(e) => bool_expr_valid(e) && final(self).pos() > old(self).pos() && sp_bool_expr(
                    old(self).toks(),
                    old(self).pos(),
                ) == Some((view_bool(e), final(self).pos() as int)),
                Err(_) => sp_bool_expr(old(self).toks(), old(self).pos()) is None,
            },
        decreases self.toks().len() - self.pos(), 11int,
    {
        self.parse_boolean_or_expression()
    }

    /// BooleanOrExpression = BooleanAndExpression { "OR" BooleanAndExpression }
    fn parse_boolean_or_expression(&mut self) -> (r: ParseResult<BooleanExpr>)
        requires
            old(self).wf(),
        ensures
            final(self).wf(),
            final(self).toks() == old(self).toks(),
            final(self).src() == old(self).src(),
            match r {
                Ok(e) => bool_expr_valid(e) && final(self).pos() > old(self).pos() && sp_or(
                    old(self).toks(),
                    old(self).pos(),
                ) == Some((view_bool(e), final(self).pos() as int)),
                Err(_) => sp_or(old(self).toks(), old(self).pos()) is None,
            },
        decreases self.toks().len() - self.pos(), 10int,
    {
        let mut left = self.parse_boolean_and_expression()?;
        loop
            invariant
                self.wf(),
                self.toks() == old(self).toks(),
                self.src() == old(self).src(),
                old(self).pos() < self.pos(),
                bool_expr_valid(left),
                sp_or(old(self).toks(), old(self).pos()) == sp_or_rest(
                    old(self).toks(),
                    view_bool(left),
                    self.pos(),
                ),
            decreases self.toks().len() - self.pos(),
        {
            match self.current_token() {
                Token::Or => {
                    self.advance();
                    let right = self.parse_boolean_and_expression()?;
                    left = BooleanExpr::Or(Box::new(left), Box::new(right));
                },
                _ => {
                    return Ok(left);
                },
            }
        }
    }

    /// BooleanAndExpression = BooleanTerm { "AND" BooleanTerm }
    fn parse_boolean_and_expression(&mut self) -> (r: ParseResult<BooleanExpr>)
        requires
            old(self).wf(),
        ensures
            final(self).wf(),
            final(self).toks() == old(self).toks(),
            final(self).src() == old(self).src(),
            match r {
                Ok(e) => bool_expr_valid(e) && final(self).pos() > old(self).pos() && sp_and(
                    old(self).toks(),
                    old(self).pos(),
                ) == Some((view_bool(e), final(self).pos() as int)),
                Err(_) => sp_and(old(self).toks(), old(self).pos()) is None,
            },
        decreases self.toks().len() - self.pos(), 9int,
    {
        let mut left = self.parse_boolean_term()?;
        loop
            invariant
                self.wf(),
                self.toks() == old(self).toks(),
                self.src() == old(self).src(),
                old(self).pos() < self.pos(),
                bool_expr_valid(left),
                sp_and(old(self).toks(), old(self).pos()) == sp_and_rest(
                    old(self).toks(),
                    view_bool(left),
                    self.pos(),
                ),
            decreases self.toks().len() - self.pos(),
        {
            match self.current_token() {
                Token::And => {
                    self.advance();
                    let right = self.parse_boolean_term()?;
                    left = BooleanExpr::And(Box::new(left), Box::new(right));
                },
                _ => {
                    return Ok(left);
                },
            }
        }
    }

    /// BooleanTerm = "NOT" BooleanTerm | "(" BooleanExpression ")"
    ///             | BooleanLiteral | Variable | RelationalExpression
    ///
    /// A `(` is ambiguous: it may open a parenthesized boolean expression or
    /// a parenthesized value operand of an outer comparison. The parser
    /// tries the boolean reading first; if that fails, or succeeds without a
    /// `)` directly after, it rewinds to just before the `(` and reads a
    /// relational expression instead.
    fn parse_boolean_term(&mut self) -> (r: ParseResult<BooleanExpr>)
        requires
            old(self).wf(),
        ensures
            final(self).wf(),
            final(self).toks() == old(self).toks(),
            final(self).src() == old(self).src(),
            match r {
                Ok(e) => bool_expr_valid(e) && final(self).pos() > old(self).pos() && sp_term(
                    old(self).toks(),
                    old(self).pos(),
                ) == Some((view_bool(e), final(self).pos() as int)),
                Err(_) => sp_term(old(self).toks(), old(self).pos()) is None,
            },
        decreases self.toks().len() - self.pos(), 8int,
    {
        match self.current_token() {
            Token::Not => {
                self.advance();
                let e = self.parse_boolean_term()?;
                Ok(BooleanExpr::Not(Box::new(e)))
            },
            Token::LeftParen => {
                self.advance();
                let saved = self.position;
                match self.parse_boolean_expression() {
                    Ok(expr) => {
                        match self.current_token() {
                            Token::RightParen => {
                                self.advance();
                                Ok(expr)
                            },
                            _ => {
                                // no closing paren here: the parenthesis
                                // belonged to a value expression
                                self.position = saved - 1;
                                let rel = self.parse_relational_expression()?;
                                Ok(BooleanExpr::Relational(rel))
                            },
                        }
                    },
                    Err(_) => {
                        self.position = saved - 1;
                        let rel = self.parse_relational_expression()?;
                        Ok(BooleanExpr::Relational(rel))
                    },
                }
            },
            Token::True => {
                self.advance();
                Ok(BooleanExpr::Literal(true))
            },
            Token::False => {
                self.advance();
                Ok(BooleanExpr::Literal(false))
            },
            Token::Identifier(_) => {
                if self.is_relational_operator_ahead() || self.is_arithmetic_operator_ahead() {
                    let rel = self.parse_relational_expression()?;
                    Ok(BooleanExpr::Relational(rel))
                } else {
                    match self.current_token() {
                        Token::Identifier(name) => {
                            let n = name.clone();
                            self.advance();
                            Ok(BooleanExpr::Variable(n))
                        },
                        _ => Err(self.error_here("Expected identifier")),
                    }
                }
            },
            _ => {
                let rel = self.parse_relational_expression()?;
                Ok(BooleanExpr::Relational(rel))
            },
        }
    }

    /// RelationalExpression: a value expression followed by exactly one
    /// relational operator and its right-hand side.
    fn parse_relational_expression(&mut self) -> (r: ParseResult<RelationalExpr>)
        requires
            old(self).wf(),
        ensures
            final(self).wf(),
            final(self).toks() == old(self).toks(),
            final(self).src() == old(self).src(),
            match r {
                Ok(rel) => rel_expr_valid(rel) && final(self).pos() > old(self).pos() && sp_rel(
                    old(self).toks(),
                    old(self).pos(),
                ) == Some((view_rel(rel), final(self).pos() as int)),
                Err(_) => sp_rel(old(self).toks(), old(self).pos()) is None,
            },
        decreases self.toks().len() - self.pos(), 7int,
    {
        let left = self.parse_value_expression()?;
        match self.current_token() {
            Token::Equal => {
                self.advance();
                let right = self.parse_value_expression()?;
                Ok(RelationalExpr::Equality { left, op: EqualityOp::Equal, right })
            },
            Token::NotEqual => {
                self.advance();
                let right = self.parse_value_expression()?;
                Ok(RelationalExpr::Equality { left, op: EqualityOp::NotEqual, right })
            },
            Token::GreaterThan => {
                self.advance();
                let right = self.parse_value_expression()?;
                Ok(RelationalExpr::Comparison { left, op: ComparisonOp::GreaterThan, right })
            },
            Token::GreaterOrEqual => {
                self.advance();
                let right = self.parse_value_expression()?;
                Ok(RelationalExpr::Comparison { left, op: ComparisonOp::GreaterOrEqual, right })
            },
            Token::LessThan => {
                self.advance();
                let right = self.parse_value_expression()?;
                Ok(RelationalExpr::Comparison { left, op: ComparisonOp::LessThan, right })
            },
            Token::LessOrEqual => {
                self.advance();
                let right = self.parse_value_expression()?;
                Ok(RelationalExpr::Comparison { left, op: ComparisonOp::LessOrEqual, right })
            },
            Token::Like => {
                self.advance();
                let pattern = self.expect_string_literal()?;
                let escape = match self.current_token() {
                    Token::Escape => {
                        self.advance();
                        Some(self.expect_string_literal()?)
                    },
                    _ => None,
                };
                Ok(RelationalExpr::Like { expr: left, pattern, escape, negated: false })
            },
            Token::Not => {
                self.advance();
                match self.current_token() {
                    Token::Like => {
                        self.advance();
                        let pattern = self.expect_string_literal()?;
                        let escape = match self.current_token() {
                            Token::Escape => {
                                self.advance();
                                Some(self.expect_string_literal()?)
                            },
                            _ => None,
                        };
                        Ok(RelationalExpr::Like { expr: left, pattern, escape, negated: true })
                    },
                    Token::Between => {
                        self.advance();
                        self.parse_between_tail(left, true)
                    },
                    Token::In => {
                        self.advance();
                        self.parse_in_tail(left, true)
                    },
                    _ => {
                        let mut m = String::from_str("Expected LIKE, BETWEEN, or IN after NOT, got ");
                        let d = self.current_token().describe();
                        m.append(d.as_str());
                        Err(self.error_here(m.as_str()))
                    },
                }
            },
            Token::Between => {
                self.advance();
                self.parse_between_tail(left, false)
            },
            Token::In => {
                self.advance();
                self.parse_in_tail(left, false)
            },
            Token::Is => {
                self.advance();
                let negated = match self.current_token() {
                    Token::Not => {
                        self.advance();
                        true
                    },
                    _ => false,
                };
                self.expect(Token::Null)?;
                Ok(RelationalExpr::IsNull { expr: left, negated })
            },
            _ => {
                let mut m = String::from_str("Expected relational operator, got ");
                let d = self.current_token().describe();
                m.append(d.as_str());
                Err(self.error_here(m.as_str()))
            },
        }
    }

    /// The bounds of a BETWEEN, after its keyword: two literal-valued bound
    /// expressions joined by AND, statically validated.
    fn parse_between_tail(&mut self, left: ValueExpr, negated: bool) -> (r: ParseResult<
        RelationalExpr,
    >)
        requires
            old(self).wf(),
        ensures
            final(self).wf(),
            final(self).toks() == old(self).toks(),
            final(self).src() == old(self).src(),
            match r {
                Ok(rel) => rel_expr_valid(rel) && final(self).pos() >= old(self).pos()
                    && sp_between_tail(
                    old(self).toks(),
                    view_val(left),
                    negated,
                    old(self).pos(),
                ) == Some((view_rel(rel), final(self).pos() as int)),
                Err(_) => sp_between_tail(
                    old(self).toks(),
                    view_val(left),
                    negated,
                    old(self).pos(),
                ) is None,
            },
        decreases self.toks().len() - self.pos(), 6int,
    {
        let lower_expr = self.parse_value_expression()?;
        self.expect(Token::And)?;
        let upper_expr = self.parse_value_expression()?;
        proof {
            lemma_between_valid_view(lower_expr, upper_expr);
        }
        self.check_between_bounds(&lower_expr, &upper_expr, negated)?;
        Ok(RelationalExpr::Between { expr: left, lower: lower_expr, upper: upper_expr, negated })
    }

    /// The list of an IN, after its keyword.
    fn parse_in_tail(&mut self, left: ValueExpr, negated: bool) -> (r: ParseResult<RelationalExpr>)
        requires
            old(self).wf(),
        ensures
            final(self).wf(),
            final(self).toks() == old(self).toks(),
            final(self).src() == old(self).src(),
            match r {
                Ok(rel) => rel_expr_valid(rel) && final(self).pos() >= old(self).pos() && (sp_list(
                    old(self).toks(),
                    old(self).pos(),
                ) matches Some(vp) && view_rel(rel) == GRel::In {
                    expr: view_val(left),
                    values: vp.0,
                    negated,
                } && final(self).pos() == vp.1),
                Err(_) => sp_list(old(self).toks(), old(self).pos()) is None,
            },
    {
        let values = self.parse_string_list()?;
        Ok(RelationalExpr::In { expr: left, values, negated })
    }

    /// Consumes a string literal token, yielding its contents.
    fn expect_string_literal(&mut self) -> (r: ParseResult<String>)
        requires
            old(self).wf(),
        ensures
            final(self).wf(),
            final(self).toks() == old(self).toks(),
            final(self).src() == old(self).src(),
            match r {
                Ok(s2) => final(self).pos() == old(self).pos() + 1 && (tok_at(
                    old(self).toks(),
                    old(self).pos(),
                ) matches Token::StringLiteral(s) && s2@ == s@),
                Err(_) => !(tok_at(old(self).toks(), old(self).pos()) is StringLiteral),
            },
    {
        match self.current_token() {
            Token::StringLiteral(s) => {
                let s2 = s.clone();
                self.advance();
                Ok(s2)
            },
            _ => {
                let mut m = String::from_str("Expected string literal, got ");
                let d = self.current_token().describe();
                m.append(d.as_str());
                Err(self.error_here(m.as_str()))
            },
        }
    }

    /// The parenthesized literal list of an IN: nonempty, no NULL or boolean
    /// element, and all elements of one exact type.
    fn parse_string_list(&mut self) -> (r: ParseResult<Vec<ValueLiteral>>)
        requires
            old(self).wf(),
        ensures
            final(self).wf(),
            final(self).toks() == old(self).toks(),
            final(self).src() == old(self).src(),
            match r {
                Ok(values) => in_list_valid(values@) && final(self).pos() >= old(self).pos()
                    && sp_list(old(self).toks(), old(self).pos()) == Some(
                    (
                        values@.map_values(|l: ValueLiteral| view_lit(l)),
                        final(self).pos() as int,
                    ),
                ),
                Err(_) => sp_list(old(self).toks(), old(self).pos()) is None,
            },
    {
        self.expect(Token::LeftParen)?;
        let first = self.expect_value_literal()?;
        self.validate_in_literal(&first)?;
        let mut values: Vec<ValueLiteral> = Vec::new();
        values.push(first.clone());
        proof {
            assert(in_lit_allowed(values@[0]));
            assert(same_exact_type(values@[0], values@[0]));
            assert(values@.map_values(|l: ValueLiteral| view_lit(l)) =~= seq![view_lit(first)]);
        }
        loop
            invariant
                self.wf(),
                self.toks() == old(self).toks(),
                self.src() == old(self).src(),
                old(self).pos() <= self.pos(),
                values@.len() >= 1,
                values@[0] == first,
                in_list_valid(values@),
                sp_list(old(self).toks(), old(self).pos()) == sp_list_rest(
                    old(self).toks(),
                    view_lit(first),
                    values@.map_values(|l: ValueLiteral| view_lit(l)),
                    self.pos(),
                ),
            ensures
                self.wf(),
                self.toks() == old(self).toks(),
                self.src() == old(self).src(),
                old(self).pos() <= self.pos(),
                values@.len() >= 1,
                in_list_valid(values@),
                !(tok_at(self.toks(), self.pos()) is Comma),
                sp_list(old(self).toks(), old(self).pos()) == sp_list_rest(
                    old(self).toks(),
                    view_lit(first),
                    values@.map_values(|l: ValueLiteral| view_lit(l)),
                    self.pos(),
                ),
            decreases self.toks().len() - self.pos() + 1,
        {
            match self.current_token() {
                Token::Comma => {
                    self.advance();
                    let next = self.expect_value_literal()?;
                    self.validate_in_literal(&next)?;
                    if !Self::are_exact_same_type(&first, &next) {
                        let mut m = String::from_str(
                            "IN list values must all be the same type, found ",
                        );
                        m.append(Self::literal_type_name(&first));
                        m.append(" and ");
                        m.append(Self::literal_type_name(&next));
                        return Err(self.error_here(m.as_str()));
                    }
                    let ghost old_values = values@;
                    values.push(next);
                    proof {
                        assert(forall|i: int|
                            0 <= i < old_values.len() ==> values@[i] == old_values[i]);
                        assert(values@[values@.len() - 1] == next);
                        assert(values@.map_values(|l: ValueLiteral| view_lit(l)) =~= old_values.map_values(
                            |l: ValueLiteral| view_lit(l),
                        ).push(view_lit(next)));
                    }
                },
                _ => {
                    break ;
                },
            }
        }
        self.expect(Token::RightParen)?;
        Ok(values)
    }

    /// Consumes one literal token, with an optional leading minus folded
    /// into a numeric value; a minus on any other literal is an error.
    fn expect_value_literal(&mut self) -> (r: ParseResult<ValueLiteral>)
        requires
            old(self).wf(),
        ensures
            final(self).wf(),
            final(self).toks() == old(self).toks(),
            final(self).src() == old(self).src(),
            match r {
                Ok(lit) => final(self).pos() > old(self).pos() && sp_lit(
                    old(self).toks(),
                    old(self).pos(),
                ) == Some((view_lit(lit), final(self).pos())),
                Err(_) => sp_lit(old(self).toks(), old(self).pos()) is None,
            },
    {
        let is_negative = match self.current_token() {
            Token::Minus => true,
            _ => false,
        };
        if is_negative {
            self.advance();
        }
        match self.current_token() {
            Token::StringLiteral(s) => {
                if is_negative {
                    return Err(self.error_here("Cannot apply unary minus to string literal"));
                }
                let s2 = s.clone();
                self.advance();
                Ok(ValueLiteral::String(s2))
            },
            Token::IntegerLiteral(n) => {
                let v = *n;
                self.advance();
                Ok(
                    ValueLiteral::Integer(
                        if is_negative {
                            neg_i64(v)
                        } else {
                            v
                        },
                    ),
                )
            },
            Token::FloatLiteral(f) => {
                let b = *f;
                self.advance();
                Ok(
                    ValueLiteral::Float(
                        if is_negative {
                            b ^ F64_SIGN_BIT
                        } else {
                            b
                        },
                    ),
                )
            },
            Token::Null => {
                if is_negative {
                    return Err(self.error_here("Cannot apply unary minus to NULL"));
                }
                self.advance();
                Ok(ValueLiteral::Null)
            },
            Token::True => {
                if is_negative {
                    return Err(self.error_here("Cannot apply unary minus to boolean"));
                }
                self.advance();
                Ok(ValueLiteral::Boolean(true))
            },
            Token::False => {
                if is_negative {
                    return Err(self.error_here("Cannot apply unary minus to boolean"));
                }
                self.advance();
                Ok(ValueLiteral::Boolean(false))
            },
            _ => {
                let mut m = String::from_str("Expected literal value, got ");
                let d = self.current_token().describe();
                m.append(d.as_str());
                Err(self.error_here(m.as_str()))
            },
        }
    }

    /// ValueExpression = AddExpression
    fn parse_value_expression(&mut self) -> (r: ParseResult<ValueExpr>)
        requires
            old(self).wf(),
        ensures
            final(self).wf(),
            final(self).toks() == old(self).toks(),
            final(self).src() == old(self).src(),
            match r {
                Ok(e) => final(self).pos() > old(self).pos() && sp_value(
                    old(self).toks(),
                    old(self).pos(),
                ) == Some((view_val(e), final(self).pos())),
                Err(_) => sp_value(old(self).toks(), old(self).pos()) is None,
            },
        decreases self.toks().len() - self.pos(), 5int,
    {
        self.parse_add_expression()
    }

    /// AddExpression = MultExpression { ( "+" | "-" ) MultExpression }
    fn parse_add_expression(&mut self) -> (r: ParseResult<ValueExpr>)
        requires
            old(self).wf(),
        ensures
            final(self).wf(),
            final(self).toks() == old(self).toks(),
            final(self).src() == old(self).src(),
            match r {
                Ok(e) => final(self).pos() > old(self).pos() && sp_add(
                    old(self).toks(),
                    old(self).pos(),
                ) == Some((view_val(e), final(self).pos())),
                Err(_) => sp_add(old(self).toks(), old(self).pos()) is None,
            },
        decreases self.toks().len() - self.pos(), 4int,
    {
        let mut left = self.parse_mult_expression()?;
        loop
            invariant
                self.wf(),
                self.toks() == old(self).toks(),
                self.src() == old(self).src(),
                old(self).pos() < self.pos(),
                sp_add(old(self).toks(), old(self).pos()) == sp_add_rest(
                    old(self).toks(),
                    view_val(left),
                    self.pos(),
                ),
            decreases self.toks().len() - self.pos(),
        {
            match self.current_token() {
                Token::Plus => {
                    self.advance();
                    let right = self.parse_mult_expression()?;
                    left = ValueExpr::Add(Box::new(left), Box::new(right));
                },
                Token::Minus => {
                    self.advance();
                    let right = self.parse_mult_expression()?;
                    left = ValueExpr::Subtract(Box::new(left), Box::new(right));
                },
                _ => {
                    return Ok(left);
                },
            }
        }
    }

    /// MultExpression = UnaryValueExpression { ( "*" | "/" | "%" ) UnaryValueExpression }
    fn parse_mult_expression(&mut self) -> (r: ParseResult<ValueExpr>)
        requires
            old(self).wf(),
        ensures
            final(self).wf(),
            final(self).toks() == old(self).toks(),
            final(self).src() == old(self).src(),
            match r {
                Ok(e) => final(self).pos() > old(self).pos() && sp_mult(
                    old(self).toks(),
                    old(self).pos(),
                ) == Some((view_val(e), final(self).pos())),
                Err(_) => sp_mult(old(self).toks(), old(self).pos()) is None,
            },
        decreases self.toks().len() - self.pos(), 3int,
    {
        let mut left = self.parse_unary_value_expression()?;
        loop
            invariant
                self.wf(),
                self.toks() == old(self).toks(),
                self.src() == old(self).src(),
                old(self).pos() < self.pos(),
                sp_mult(old(self).toks(), old(self).pos()) == sp_mult_rest(
                    old(self).toks(),
                    view_val(left),
                    self.pos(),
                ),
            decreases self.toks().len() - self.pos(),
        {
            match self.current_token() {
                Token::Star => {
                    self.advance();
                    let right = self.parse_unary_value_expression()?;
                    left = ValueExpr::Multiply(Box::new(left), Box::new(right));
                },
                Token::Slash => {
                    self.advance();
                    let right = self.parse_unary_value_expression()?;
                    left = ValueExpr::Divide(Box::new(left), Box::new(right));
                },
                Token::Percent => {
                    self.advance();
                    let right = self.parse_unary_value_expression()?;
                    left = ValueExpr::Modulo(Box::new(left), Box::new(right));
                },
                _ => {
                    return Ok(left);
                },
            }
        }
    }

    /// UnaryValueExpression = ( "+" | "-" ) UnaryValueExpression | ValuePrimary
    fn parse_unary_value_expression(&mut self) -> (r: ParseResult<ValueExpr>)
        requires
            old(self).wf(),
        ensures
            final(self).wf(),
            final(self).toks() == old(self).toks(),
            final(self).src() == old(self).src(),
            match r {
                Ok(e) => final(self).pos() > old(self).pos() && sp_unary(
                    old(self).toks(),
                    old(self).pos(),
                ) == Some((view_val(e), final(self).pos())),
                Err(_) => sp_unary(old(self).toks(), old(self).pos()) is None,
            },
        decreases self.toks().len() - self.pos(), 2int,
    {
        match self.current_token() {
            Token::Plus => {
                self.advance();
                let e = self.parse_unary_value_expression()?;
                Ok(ValueExpr::UnaryPlus(Box::new(e)))
            },
            Token::Minus => {
                self.advance();
                let e = self.parse_unary_value_expression()?;
                Ok(ValueExpr::UnaryMinus(Box::new(e)))
            },
            _ => self.parse_value_primary(),
        }
    }

    /// ValuePrimary = ValueLiteral | Variable | "(" ValueExpression ")"
    fn parse_value_primary(&mut self) -> (r: ParseResult<ValueExpr>)
        requires
            old(self).wf(),
        ensures
            final(self).wf(),
            final(self).toks() == old(self).toks(),
            final(self).src() == old(self).src(),
            match r {
                Ok(e) => final(self).pos() > old(self).pos() && sp_primary(
                    old(self).toks(),
                    old(self).pos(),
                ) == Some((view_val(e), final(self).pos())),
                Err(_) => sp_primary(old(self).toks(), old(self).pos()) is None,
            },
        decreases self.toks().len() - self.pos(), 1int,
    {
        match self.current_token() {
            Token::IntegerLiteral(n) => {
                let v = *n;
                self.advance();
                Ok(ValueExpr::Literal(ValueLiteral::Integer(v)))
            },
            Token::FloatLiteral(f) => {
                let b = *f;
                self.advance();
                Ok(ValueExpr::Literal(ValueLiteral::Float(b)))
            },
            Token::StringLiteral(s) => {
                let s2 = s.clone();
                self.advance();
                Ok(ValueExpr::Literal(ValueLiteral::String(s2)))
            },
            Token::Null => {
                self.advance();
                Ok(ValueExpr::Literal(ValueLiteral::Null))
            },
            Token::True => {
                self.advance();
                Ok(ValueExpr::Literal(ValueLiteral::Boolean(true)))
            },
            Token::False => {
                self.advance();
                Ok(ValueExpr::Literal(ValueLiteral::Boolean(false)))
            },
            Token::Identifier(name) => {
                let n = name.clone();
                self.advance();
                Ok(ValueExpr::Variable(n))
            },
            Token::LeftParen => {
                self.advance();
                let e = self.parse_value_expression()?;
                self.expect(Token::RightParen)?;
                Ok(e)
            },
            _ => {
                let mut m = String::from_str("Expected value expression, got ");
                let d = self.current_token().describe();
                m.append(d.as_str());
                Err(ParseError { message: m })
            },
        }
    }
}

/// Parses a source string into a boolean expression tree. Every tree this
/// returns satisfies the grammar's static rules, `bool_expr_valid`; the
/// result is the grammar's verdict on the input's token sequence: success
/// with the tree `sp_bool_expr` builds (up to the string view) exactly when
/// the input lexes, the tokens form one boolean expression, and nothing but
/// the end of input follows it.
pub fn parse(input: &str) -> (r: Result<BooleanExpr, ParseError>)
    ensures
        match r {
            Ok(ast) => bool_expr_valid(ast) && crate::lexer::lex_ok(input@, 0) && (exists|
                toks: Seq<Token>,
            |
                #![auto]
                crate::lexer::lexed_from(input@, 0, toks) && (sp_bool_expr(toks, 0) matches Some(g)
                    && g.0 == view_bool(ast) && tok_at(toks, g.1) is Eof)),
            Err(_) => !crate::lexer::lex_ok(input@, 0) || (exists|toks: Seq<Token>|
                #![auto]
                crate::lexer::lexed_from(input@, 0, toks) && (sp_bool_expr(toks, 0) is None || (
                sp_bool_expr(toks, 0) matches Some(g) && !(tok_at(toks, g.1) is Eof)))),
        },
        !crate::lexer::lex_ok(input@, 0) ==> r is Err,
{
    let mut parser = Parser::new(input)?;
    let ghost toks = parser.toks();
    let r = parser.parse();
    proof {
        if r is Ok {
            assert(crate::lexer::lexed_from(input@, 0, toks) && (sp_bool_expr(toks, 0)
                matches Some(g) && g.0 == view_bool(r->Ok_0) && tok_at(toks, g.1) is Eof));
        } else {
            assert(crate::lexer::lexed_from(input@, 0, toks) && (sp_bool_expr(toks, 0) is None || (
            sp_bool_expr(toks, 0) matches Some(g) && !(tok_at(toks, g.1) is Eof))));
        }
    }
    r
}

} // verus!
