//! SQL LIKE patterns, translated into anchored regular expressions.
//!
//! The translation itself - `%` to `.*`, `_` to `.`, an escaped or plain
//! character to its escaped literal form - is this library's own logic and is
//! verified; compiling and running the resulting regular expression is the
//! regex crate's work, named by `regex_result`.

use vstd::prelude::*;
use vstd::string::*;
use crate::errors::EvalError;

verus! {

pub uninterp spec fn re_escape_char(c: char) -> Seq<char>;

pub uninterp spec fn regex_result(src: Seq<char>, text: Seq<char>) -> Option<bool>;

/// Relies on regex::escape: the escaped, literally-matching form of one
/// character.
#[verifier::external_body]
fn regex_escape_char(c: char) -> (r: String)
    ensures
        r@ == re_escape_char(c),
{
    regex::escape(&c.to_string())
}

/// Relies on regex::Regex::new and regex::Regex::is_match: `None` stands for
/// a pattern the crate refuses to compile, `Some(m)` for the match verdict.
#[verifier::external_body]
fn regex_match(src: &str, text: &str) -> (r: Result<bool, String>)
    ensures
        r is Ok <==> regex_result(src@, text@) is Some,
        r is Ok ==> r->Ok_0 == regex_result(src@, text@)->Some_0,
{
    match regex::Regex::new(src) {
        Ok(re) => Ok(re.is_match(text)),
        Err(e) => Err(format!("{}", e)),
    }
}

/// The body of the regular expression a LIKE pattern translates to, from
/// position `i` on: `%` becomes `.*`, `_` becomes `.`, a character preceded
/// by the escape character is taken literally, and every literal character is
/// escaped. An escape character that ends the pattern escapes nothing.
pub open spec fn like_regex_from(p: Seq<char>, esc: Option<char>, i: int) -> Seq<char>
    decreases p.len() - i,
    when 0 <= i <= p.len()
{
    if i >= p.len() {
        Seq::empty()
    } else if esc == Some(p[i]) {
        if i + 1 < p.len() {
            re_escape_char(p[i + 1]) + like_regex_from(p, esc, i + 2)
        } else {
            Seq::empty()
        }
    } else if p[i] == '%' {
        ".*"@ + like_regex_from(p, esc, i + 1)
    } else if p[i] == '_' {
        "."@ + like_regex_from(p, esc, i + 1)
    } else {
        re_escape_char(p[i]) + like_regex_from(p, esc, i + 1)
    }
}

/// The whole translated pattern, anchored at both ends.
pub open spec fn like_regex(p: Seq<char>, esc: Option<char>) -> Seq<char> {
    "^"@ + like_regex_from(p, esc, 0) + "$"@
}

/// The escape character a LIKE clause supplies: the first character of the
/// ESCAPE string, if there is one.
pub open spec fn esc_char(escape: Option<String>) -> Option<char> {
    match escape {
        Some(s) => if s@.len() > 0 {
            Some(s@[0])
        } else {
            None
        },
        None => None,
    }
}

/// What matching `text` against a LIKE pattern yields: the regex crate's
/// verdict on the translated pattern, or `None` where the translation does
/// not compile.
pub open spec fn like_match(text: Seq<char>, p: Seq<char>, esc: Option<char>) -> Option<bool> {
    regex_result(like_regex(p, esc), text)
}

/// Builds the anchored regular expression a LIKE pattern denotes.
fn build_like_regex(pattern: &str, esc: Option<char>) -> (r: String)
    ensures
        r@ == like_regex(pattern@, esc),
{
    let n = pattern.unicode_len();
    let mut acc = String::from_str("^");
    let mut i: usize = 0;
    loop
        invariant
            i <= n,
            n == pattern@.len(),
            acc@ + like_regex_from(pattern@, esc, i as int) == "^"@ + like_regex_from(
                pattern@,
                esc,
                0,
            ),
        ensures
            i == n,
            n == pattern@.len(),
            acc@ + like_regex_from(pattern@, esc, i as int) == "^"@ + like_regex_from(
                pattern@,
                esc,
                0,
            ),
        decreases n - i,
    {
        if i >= n {
            break ;
        }
        let c = pattern.get_char(i);
        let is_escape = match esc {
            Some(e) => e == c,
            None => false,
        };
        if is_escape {
            if i + 1 < n {
                let next = pattern.get_char(i + 1);
                let piece = regex_escape_char(next);
                acc.append(piece.as_str());
                i = i + 2;
            } else {
                i = i + 1;
            }
        } else if c == '%' {
            acc.append(".*");
            i = i + 1;
        } else if c == '_' {
            acc.append(".");
            i = i + 1;
        } else {
            let piece = regex_escape_char(c);
            acc.append(piece.as_str());
            i = i + 1;
        }
    }
    proof {
        assert(like_regex_from(pattern@, esc, i as int) =~= Seq::<char>::empty());
        assert(acc@ + Seq::<char>::empty() =~= acc@);
        assert(acc@ == "^"@ + like_regex_from(pattern@, esc, 0));
    }
    acc.append("$");
    proof {
        assert(acc@ =~= like_regex(pattern@, esc));
    }
    acc
}

/// Matches a string against a LIKE pattern with its optional escape
/// character. A pattern whose translation the regex crate refuses is an
/// invalid-literal error.
pub fn match_pattern(s: &str, pattern: &str, escape: Option<&String>) -> (r: Result<
    bool,
    EvalError,
>)
    ensures
        match r {
            Ok(b) => like_match(
                s@,
                pattern@,
                match escape {
                    Some(e) => esc_char(Some(*e)),
                    None => esc_char(None),
                },
            ) == Some(b),
            Err(e) => e is InvalidLiteral && like_match(
                s@,
                pattern@,
                match escape {
                    Some(e) => esc_char(Some(*e)),
                    None => esc_char(None),
                },
            ) is None,
        },
{
    let esc: Option<char> = match escape {
        Some(e) => {
            if e.as_str().unicode_len() > 0 {
                Some(e.as_str().get_char(0))
            } else {
                None
            }
        },
        None => None,
    };
    let re_src = build_like_regex(pattern, esc);
    match regex_match(re_src.as_str(), s) {
        Ok(b) => Ok(b),
        Err(err) => Err(
            EvalError::InvalidLiteral {
                literal: String::from_str(pattern),
                literal_type: String::from_str("LIKE pattern"),
                error: err,
            },
        ),
    }
}

} // verus!
