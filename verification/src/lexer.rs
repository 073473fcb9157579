//! The lexer: turns a source string into a stream of tokens, skipping
//! whitespace and comments, folding case-insensitive keywords, and reading
//! string, integer and float literals.

use vstd::prelude::*;
use vstd::string::*;
use crate::float::f64_from_dec;
use crate::float::float_of_dec;
use crate::strutil::ascii_upper;
use crate::strutil::char_is_space;
use crate::strutil::chars_to_string;
use crate::strutil::dec_digits;
use crate::strutil::exec_ascii_upper;
use crate::strutil::exec_char_is_alnum;
use crate::strutil::exec_char_is_alpha;
use crate::strutil::exec_char_is_space;
use crate::strutil::exec_is_digit;
use crate::strutil::exec_is_hex_digit;
use crate::strutil::exec_is_octal_digit;
use crate::strutil::hex_digit_val;
use crate::strutil::is_digit;
use crate::strutil::is_hex_digit;
use crate::strutil::is_ident_cont;
use crate::strutil::is_ident_start;
use crate::strutil::is_octal_digit;
use crate::strutil::str_to_chars;
use crate::strutil::u64_to_string;
use crate::token::Token;

verus! {

/// Position `p` advanced by one character, capped at the end of the text.
pub open spec fn advance_lex_pos(p: int, len: int) -> int {
    if p < len {
        p + 1
    } else {
        p
    }
}

/// Position `p` advanced by two characters, capped at the end of the text.
pub open spec fn adv2(p: int, len: int) -> int {
    if p + 2 <= len {
        p + 2
    } else {
        len
    }
}

/// The first position at or after `p` that does not hold whitespace.
pub open spec fn ws_end(s: Seq<char>, p: int) -> int
    decreases s.len() - p,
    when 0 <= p <= s.len()
{
    if p >= s.len() {
        p
    } else if char_is_space(s[p]) {
        ws_end(s, p + 1)
    } else {
        p
    }
}

/// The position just past the newline that ends a line comment, or the end
/// of the text if none follows.
pub open spec fn line_end(s: Seq<char>, p: int) -> int
    decreases s.len() - p,
    when 0 <= p <= s.len()
{
    if p >= s.len() {
        p
    } else if s[p] == '\n' {
        p + 1
    } else {
        line_end(s, p + 1)
    }
}

/// The position just past the first `*/` at or after `p`, if there is one.
pub open spec fn block_end(s: Seq<char>, p: int) -> Option<int>
    decreases s.len() - p,
    when 0 <= p <= s.len()
{
    if p >= s.len() {
        None
    } else if s[p] == '*' && p + 1 < s.len() && s[p + 1] == '/' {
        Some(p + 2)
    } else {
        block_end(s, p + 1)
    }
}

/// The first position at or after `p` that cannot continue an identifier.
pub open spec fn ident_end(s: Seq<char>, p: int) -> int
    decreases s.len() - p,
    when 0 <= p <= s.len()
{
    if p >= s.len() {
        p
    } else if is_ident_cont(s[p]) {
        ident_end(s, p + 1)
    } else {
        p
    }
}

/// What reading a string literal's body from position `p` yields: the
/// unescaped contents and the position just past the closing quote. A
/// doubled quote denotes one literal quote; reaching the end of the text
/// before a closing quote yields nothing.
pub open spec fn str_lit_scan(s: Seq<char>, p: int) -> Option<(Seq<char>, int)>
    decreases s.len() - p,
    when 0 <= p <= s.len()
{
    if p >= s.len() {
        None
    } else if s[p] == '\'' {
        if p + 1 < s.len() && s[p + 1] == '\'' {
            match str_lit_scan(s, p + 2) {
                Some(t) => Some((seq!['\''] + t.0, t.1)),
                None => None,
            }
        } else {
            Some((Seq::empty(), p + 1))
        }
    } else {
        match str_lit_scan(s, p + 1) {
            Some(t) => Some((seq![s[p]] + t.0, t.1)),
            None => None,
        }
    }
}

/// `a` prepended to a scan outcome's contents.
pub open spec fn scan_prepend(a: Seq<char>, o: Option<(Seq<char>, int)>) -> Option<
    (Seq<char>, int),
> {
    match o {
        Some(t) => Some((a + t.0, t.1)),
        None => None,
    }
}

proof fn lemma_scan_prepend_assoc(a: Seq<char>, b: Seq<char>, o: Option<(Seq<char>, int)>)
    ensures
        scan_prepend(a, scan_prepend(b, o)) == scan_prepend(a + b, o),
{
    if let Some(t) = o {
        assert(a + (b + t.0) =~= (a + b) + t.0);
    }
}

/// The position of the next token's first character: whitespace and both
/// comment forms are skipped, and an unterminated block comment is an error.
pub open spec fn trivia_end(s: Seq<char>, p: int) -> Result<int, ()>
    decreases s.len() - p,
    when 0 <= p <= s.len()
{
    let q = ws_end(s, p);
    if q + 1 < s.len() && s[q] == '-' && s[q + 1] == '-' {
        proof {
            lemma_ws_end_ge(s, p);
            lemma_line_end_ge(s, adv2(q, s.len() as int));
        }
        trivia_end(s, line_end(s, adv2(q, s.len() as int)))
    } else if q + 1 < s.len() && s[q] == '/' && s[q + 1] == '*' {
        match block_end(s, adv2(q, s.len() as int)) {
            Some(b) => {
                proof {
                    lemma_ws_end_ge(s, p);
                    lemma_block_end_ge(s, adv2(q, s.len() as int));
                }
                trivia_end(s, b)
            },
            None => Err(()),
        }
    } else {
        Ok(q)
    }
}

/// A character one of the operator or delimiter tokens starts with.
pub open spec fn op_start(c: char) -> bool {
    c == '(' || c == ')' || c == ',' || c == '+' || c == '-' || c == '*' || c == '/' || c == '%'
        || c == '=' || c == '!' || c == '<' || c == '>' || c == '\'' || c == '.'
}

/// `s` with each character upper-cased as ASCII.
pub open spec fn upper_seq(s: Seq<char>) -> Seq<char> {
    Seq::new(s.len(), |i: int| ascii_upper(s[i]))
}

/// The keyword token a word denotes, compared case-insensitively, if any.
pub open spec fn keyword_token(w: Seq<char>) -> Option<Token> {
    if upper_seq(w) == "AND"@ {
        Some(Token::And)
    } else if upper_seq(w) == "OR"@ {
        Some(Token::Or)
    } else if upper_seq(w) == "NOT"@ {
        Some(Token::Not)
    } else if upper_seq(w) == "BETWEEN"@ {
        Some(Token::Between)
    } else if upper_seq(w) == "LIKE"@ {
        Some(Token::Like)
    } else if upper_seq(w) == "ESCAPE"@ {
        Some(Token::Escape)
    } else if upper_seq(w) == "IN"@ {
        Some(Token::In)
    } else if upper_seq(w) == "IS"@ {
        Some(Token::Is)
    } else if upper_seq(w) == "TRUE"@ {
        Some(Token::True)
    } else if upper_seq(w) == "FALSE"@ {
        Some(Token::False)
    } else if upper_seq(w) == "NULL"@ {
        Some(Token::Null)
    } else {
        None
    }
}

/// The integer a digit sequence denotes in the given radix, most significant
/// digit first.
pub open spec fn radix_val(s: Seq<char>, radix: int) -> int
    decreases s.len(),
{
    if s.len() == 0 {
        0
    } else {
        radix_val(s.drop_last(), radix) * radix + hex_digit_val(s.last())
    }
}

/// A digit character of the given radix.
pub open spec fn radix_digit(c: char, radix: int) -> bool {
    is_hex_digit(c) && hex_digit_val(c) < radix
}

/// Every character is a digit of the given radix.
pub open spec fn digits_ok(s: Seq<char>, radix: int) -> bool {
    forall|i: int| 0 <= i < s.len() ==> #[trigger] radix_digit(s[i], radix)
}

proof fn lemma_radix_val_nonneg(s: Seq<char>, radix: int)
    requires
        digits_ok(s, radix),
        radix >= 2,
    ensures
        radix_val(s, radix) >= 0,
    decreases s.len(),
{
    if s.len() > 0 {
        assert forall|j: int| 0 <= j < s.drop_last().len() implies #[trigger] radix_digit(
            s.drop_last()[j],
            radix,
        ) by {
            assert(s.drop_last()[j] == s[j]);
            assert(radix_digit(s[j], radix));
        }
        lemma_radix_val_nonneg(s.drop_last(), radix);
        assert(radix_val(s.drop_last(), radix) * radix >= 0) by (nonlinear_arith)
            requires
                radix_val(s.drop_last(), radix) >= 0,
                radix >= 2,
        ;
        assert(radix_digit(s[s.len() - 1], radix));
        assert(hex_digit_val(s.last()) >= 0);
    }
}

/// A prefix of a digit sequence never denotes more than the whole.
proof fn lemma_radix_val_prefix_le(s: Seq<char>, i: int, radix: int)
    requires
        digits_ok(s, radix),
        radix >= 2,
        0 <= i <= s.len(),
    ensures
        radix_val(s.subrange(0, i), radix) <= radix_val(s, radix),
    decreases s.len() - i,
{
    if i == s.len() {
        assert(s.subrange(0, i) =~= s);
    } else {
        lemma_radix_val_prefix_le(s, i + 1, radix);
        let pre1 = s.subrange(0, i + 1);
        let pre0 = s.subrange(0, i);
        assert(pre1.drop_last() =~= pre0);
        assert forall|j: int| 0 <= j < pre0.len() implies #[trigger] radix_digit(
            pre0[j],
            radix,
        ) by {
            assert(pre0[j] == s[j]);
            assert(radix_digit(s[j], radix));
        }
        lemma_radix_val_nonneg(pre0, radix);
        assert(radix_val(pre0, radix) * radix >= radix_val(pre0, radix)) by (nonlinear_arith)
            requires
                radix_val(pre0, radix) >= 0,
                radix >= 2,
        ;
        assert(radix_val(pre1, radix) == radix_val(pre0, radix) * radix + hex_digit_val(
            pre1.last(),
        ));
        assert(pre1.last() == s[i]);
        assert(radix_digit(s[i], radix));
        assert(hex_digit_val(pre1.last()) >= 0);
    }
}

/// The numeric value of one hexadecimal digit character.
pub fn exec_hex_val(c: char) -> (r: u64)
    requires
        is_hex_digit(c),
    ensures
        r == hex_digit_val(c),
        r < 16,
{
    if '0' <= c && c <= '9' {
        ((c as u32) - ('0' as u32)) as u64
    } else if 'a' <= c && c <= 'f' {
        ((c as u32) - ('a' as u32) + 10) as u64
    } else {
        ((c as u32) - ('A' as u32) + 10) as u64
    }
}

/// Reads a digit sequence as a signed 64-bit integer, failing exactly when
/// the denoted value overflows.
pub fn parse_radix_i64(digits: &Vec<char>, radix: u64) -> (r: Option<i64>)
    requires
        digits_ok(digits@, radix as int),
        radix == 8 || radix == 10 || radix == 16,
    ensures
        match r {
            Some(v) => v == radix_val(digits@, radix as int) && radix_val(
                digits@,
                radix as int,
            ) <= i64::MAX,
            None => radix_val(digits@, radix as int) > i64::MAX,
        },
{
    let max: u64 = 0x7fff_ffff_ffff_ffff;
    let mut acc: u64 = 0;
    let mut i: usize = 0;
    proof {
        assert(digits@.subrange(0, 0) =~= Seq::<char>::empty());
    }
    while i < digits.len()
        invariant
            i <= digits.len(),
            max == i64::MAX,
            digits_ok(digits@, radix as int),
            radix == 8 || radix == 10 || radix == 16,
            acc <= max,
            acc == radix_val(digits@.subrange(0, i as int), radix as int),
        decreases digits.len() - i,
    {
        let c = digits[i];
        proof {
            assert(radix_digit(digits@[i as int], radix as int));
        }
        let d = exec_hex_val(c);
        let ghost pre0 = digits@.subrange(0, i as int);
        let ghost pre1 = digits@.subrange(0, i + 1 as int);
        proof {
            assert(pre1.drop_last() =~= pre0);
            assert(pre1.last() == digits@[i as int]);
        }
        let limit: u64 = (max - d) / radix;
        if acc > limit {
            proof {
                assert(acc as int * (radix as int) + d as int > max as int) by (nonlinear_arith)
                    requires
                        acc as int > ((max as int) - (d as int)) / (radix as int),
                        radix as int >= 2,
                        d as int >= 0,
                        (d as int) < (radix as int),
                        d as int <= max as int,
                        acc as int >= 0,
                ;
                assert(radix_val(pre1, radix as int) > i64::MAX);
                lemma_radix_val_prefix_le(digits@, i + 1, radix as int);
            }
            return None;
        }
        proof {
            assert(acc as int * (radix as int) + d as int <= max as int) by (nonlinear_arith)
                requires
                    acc as int <= ((max as int) - (d as int)) / (radix as int),
                    radix as int >= 2,
                    d as int >= 0,
                    (d as int) < (radix as int),
                    d as int <= max as int,
                    acc as int >= 0,
            ;
        }
        acc = acc * radix + d;
        i = i + 1;
    }
    proof {
        assert(digits@.subrange(0, digits@.len() as int) =~= digits@);
    }
    Some(acc as i64)
}

/// The lexer's state: the input characters and a cursor.
pub struct Lexer {
    input: Vec<char>,
    position: usize,
}

impl Lexer {
    /// The input text.
    pub closed spec fn text(&self) -> Seq<char> {
        self.input@
    }

    /// The cursor.
    pub closed spec fn pos(&self) -> int {
        self.position as int
    }

    /// The cursor never passes the end of the text.
    pub open spec fn wf(&self) -> bool {
        self.pos() <= self.text().len()
    }

    /// A lexer at the start of the given source text.
    pub fn new(input: &str) -> (r: Lexer)
        ensures
            r.text() == input@,
            r.pos() == 0,
            r.wf(),
    {
        Lexer { input: str_to_chars(input), position: 0 }
    }

    /// A diagnostic carrying the message, the position and the whole input.
    pub fn format_error(&self, message: &str) -> (r: String)
        ensures
            r@ == message@ + " near position "@ + dec_digits(self.pos() as nat) + " in:\n  "@
                + self.text(),
    {
        let mut m = String::from_str(message);
        m.append(" near position ");
        let p = u64_to_string(self.position as u64);
        m.append(p.as_str());
        m.append(" in:\n  ");
        let t = chars_to_string(&self.input);
        m.append(t.as_str());
        m
    }

    /// The character under the cursor, if any.
    pub fn current(&self) -> (r: Option<char>)
        requires
            self.wf(),
        ensures
            r == (if self.pos() < self.text().len() {
                Some(self.text()[self.pos()])
            } else {
                Option::<char>::None
            }),
    {
        if self.position < self.input.len() {
            Some(self.input[self.position])
        } else {
            None
        }
    }

    /// The character after the cursor, if any.
    pub fn peek(&self) -> (r: Option<char>)
        requires
            self.wf(),
        ensures
            r == (if self.pos() + 1 < self.text().len() {
                Some(self.text()[self.pos() + 1])
            } else {
                Option::<char>::None
            }),
    {
        if self.position < self.input.len() && self.position + 1 < self.input.len() {
            Some(self.input[self.position + 1])
        } else {
            None
        }
    }

    /// Moves the cursor one character forward, stopping at the end.
    pub fn advance(&mut self)
        requires
            old(self).wf(),
        ensures
            final(self).text() == old(self).text(),
            final(self).wf(),
            final(self).pos() == (if old(self).pos() < old(self).text().len() {
                old(self).pos() + 1
            } else {
                old(self).pos()
            }),
    {
        if self.position < self.input.len() {
            self.position = self.position + 1;
        }
    }

    /// Skips to the next non-whitespace character.
    pub fn skip_whitespace(&mut self)
        requires
            old(self).wf(),
        ensures
            final(self).text() == old(self).text(),
            final(self).wf(),
            final(self).pos() == ws_end(old(self).text(), old(self).pos()),
    {
        loop
            invariant
                self.wf(),
                self.text() == old(self).text(),
                ws_end(self.text(), self.pos()) == ws_end(old(self).text(), old(self).pos()),
            decreases self.text().len() - self.pos(),
        {
            match self.current() {
                Some(c) => {
                    if exec_char_is_space(c) {
                        self.advance();
                    } else {
                        return ;
                    }
                },
                None => {
                    return ;
                },
            }
        }
    }

    /// Skips a `--` line comment, up to and including the newline.
    pub fn skip_line_comment(&mut self)
        requires
            old(self).wf(),
        ensures
            final(self).text() == old(self).text(),
            final(self).wf(),
            final(self).pos() == line_end(
                old(self).text(),
                adv2(old(self).pos(), old(self).text().len() as int),
            ),
    {
        self.advance();
        self.advance();
        loop
            invariant
                self.wf(),
                self.text() == old(self).text(),
                line_end(self.text(), self.pos()) == line_end(
                    old(self).text(),
                    adv2(old(self).pos(), old(self).text().len() as int),
                ),
            decreases self.text().len() - self.pos(),
        {
            match self.current() {
                Some(c) => {
                    if c == '\n' {
                        self.advance();
                        return ;
                    }
                    self.advance();
                },
                None => {
                    return ;
                },
            }
        }
    }

    /// Skips a `/* ... */` block comment; an unterminated one is an error.
    pub fn skip_block_comment(&mut self) -> (r: Result<(), String>)
        requires
            old(self).wf(),
        ensures
            final(self).text() == old(self).text(),
            final(self).wf(),
            r is Ok ==> block_end(
                old(self).text(),
                adv2(old(self).pos(), old(self).text().len() as int),
            ) == Some(final(self).pos()),
            r is Err ==> block_end(
                old(self).text(),
                adv2(old(self).pos(), old(self).text().len() as int),
            ) is None,
    {
        self.advance();
        self.advance();
        loop
            invariant
                self.wf(),
                self.text() == old(self).text(),
                block_end(self.text(), self.pos()) == block_end(
                    old(self).text(),
                    adv2(old(self).pos(), old(self).text().len() as int),
                ),
            decreases self.text().len() - self.pos(),
        {
            match self.current() {
                Some(c) => {
                    if c == '*' {
                        match self.peek() {
                            Some('/') => {
                                self.advance();
                                self.advance();
                                return Ok(());
                            },
                            _ => {
                                self.advance();
                            },
                        }
                    } else {
                        self.advance();
                    }
                },
                None => {
                    return Err(self.format_error("Unterminated block comment"));
                },
            }
        }
    }

    /// Reads the identifier under the cursor: the longest run of identifier
    /// characters.
    pub fn read_identifier(&mut self) -> (r: String)
        requires
            old(self).wf(),
        ensures
            final(self).text() == old(self).text(),
            final(self).wf(),
            final(self).pos() == ident_end(old(self).text(), old(self).pos()),
            r@ == old(self).text().subrange(old(self).pos(), final(self).pos()),
    {
        let mut acc: Vec<char> = Vec::new();
        proof {
            assert(acc@ =~= old(self).text().subrange(old(self).pos(), self.pos()));
        }
        loop
            invariant
                self.wf(),
                self.text() == old(self).text(),
                old(self).pos() <= self.pos(),
                ident_end(self.text(), self.pos()) == ident_end(old(self).text(), old(self).pos()),
                acc@ == old(self).text().subrange(old(self).pos(), self.pos()),
            decreases self.text().len() - self.pos(),
        {
            match self.current() {
                Some(c) => {
                    if exec_char_is_alnum(c) || c == '_' || c == '$' {
                        acc.push(c);
                        self.advance();
                        proof {
                            assert(acc@ =~= old(self).text().subrange(
                                old(self).pos(),
                                self.pos(),
                            ));
                        }
                    } else {
                        return chars_to_string(&acc);
                    }
                },
                None => {
                    return chars_to_string(&acc);
                },
            }
        }
    }

    /// Reads the string literal under the cursor (which holds the opening
    /// quote), unescaping doubled quotes; an unterminated one is an error.
    pub fn read_string_literal(&mut self) -> (r: Result<String, String>)
        requires
            old(self).wf(),
        ensures
            final(self).text() == old(self).text(),
            final(self).wf(),
            ({
                let start = advance_lex_pos(old(self).pos(), old(self).text().len() as int);
                match r {
                    Ok(lit) => str_lit_scan(old(self).text(), start) == Some(
                        (lit@, final(self).pos()),
                    ) && final(self).pos() > old(self).pos(),
                    Err(_) => str_lit_scan(old(self).text(), start) is None,
                }
            }),
    {
        let mut acc: Vec<char> = Vec::new();
        self.advance();
        let ghost start = self.pos();
        proof {
            assert(Seq::<char>::empty() + acc@ =~= acc@);
            if let Some(t) = str_lit_scan(self.text(), start) {
                assert(acc@ + t.0 =~= t.0);
            }
        }
        loop
            invariant
                self.wf(),
                self.text() == old(self).text(),
                start == advance_lex_pos(old(self).pos(), old(self).text().len() as int),
                old(self).pos() <= self.pos(),
                start <= self.pos(),
                scan_prepend(acc@, str_lit_scan(self.text(), self.pos())) == str_lit_scan(
                    self.text(),
                    start,
                ),
            decreases self.text().len() - self.pos(),
        {
            let ghost p = self.pos();
            let ghost pre = acc@;
            match self.current() {
                Some(c) => {
                    if c == '\'' {
                        match self.peek() {
                            Some('\'') => {
                                acc.push('\'');
                                self.advance();
                                self.advance();
                                proof {
                                    lemma_scan_prepend_assoc(
                                        pre,
                                        seq!['\''],
                                        str_lit_scan(self.text(), p + 2),
                                    );
                                    assert(pre + seq!['\''] =~= acc@);
                                }
                            },
                            _ => {
                                self.advance();
                                proof {
                                    assert(str_lit_scan(self.text(), p) == Some(
                                        (Seq::<char>::empty(), p + 1),
                                    ));
                                    assert(pre + Seq::<char>::empty() =~= pre);
                                }
                                return Ok(chars_to_string(&acc));
                            },
                        }
                    } else {
                        acc.push(c);
                        self.advance();
                        proof {
                            lemma_scan_prepend_assoc(
                                pre,
                                seq![self.text()[p]],
                                str_lit_scan(self.text(), p + 1),
                            );
                            assert(pre + seq![self.text()[p]] =~= acc@);
                        }
                    }
                },
                None => {
                    return Err(self.format_error("Unterminated string literal"));
                },
            }
        }
    }

    /// The keyword token a word denotes, or an identifier token for any other
    /// word.
    pub fn keyword_or_identifier(&self, w: String) -> (r: Token)
        ensures
            keyword_token(w@) is Some ==> r == keyword_token(w@)->Some_0,
            keyword_token(w@) is None ==> r == Token::Identifier(w),
    {
        if eq_ci(w.as_str(), "AND") {
            Token::And
        } else if eq_ci(w.as_str(), "OR") {
            Token::Or
        } else if eq_ci(w.as_str(), "NOT") {
            Token::Not
        } else if eq_ci(w.as_str(), "BETWEEN") {
            Token::Between
        } else if eq_ci(w.as_str(), "LIKE") {
            Token::Like
        } else if eq_ci(w.as_str(), "ESCAPE") {
            Token::Escape
        } else if eq_ci(w.as_str(), "IN") {
            Token::In
        } else if eq_ci(w.as_str(), "IS") {
            Token::Is
        } else if eq_ci(w.as_str(), "TRUE") {
            Token::True
        } else if eq_ci(w.as_str(), "FALSE") {
            Token::False
        } else if eq_ci(w.as_str(), "NULL") {
            Token::Null
        } else {
            Token::Identifier(w)
        }
    }
}

/// Case-insensitive comparison of a word against an (upper-case) keyword.
fn eq_ci(w: &str, kw: &str) -> (r: bool)
    ensures
        r == (upper_seq(w@) == kw@),
{
    let wn = w.unicode_len();
    let kn = kw.unicode_len();
    if wn != kn {
        proof {
            assert(upper_seq(w@).len() == w@.len());
        }
        return false;
    }
    let mut i: usize = 0;
    while i < wn
        invariant
            i <= wn,
            wn == w@.len(),
            wn == kw@.len(),
            forall|j: int| 0 <= j < i ==> #[trigger] upper_seq(w@)[j] == kw@[j],
        decreases wn - i,
    {
        let c = exec_ascii_upper(w.get_char(i));
        let k = kw.get_char(i);
        if c != k {
            proof {
                assert(upper_seq(w@)[i as int] == ascii_upper(w@[i as int]));
            }
            return false;
        }
        proof {
            assert(upper_seq(w@)[i as int] == ascii_upper(w@[i as int]));
        }
        i = i + 1;
    }
    proof {
        assert(upper_seq(w@) =~= kw@);
    }
    true
}

/// The first position at or after `p` that does not hold a digit of the
/// given radix.
pub open spec fn digit_run_end(s: Seq<char>, p: int, radix: int) -> int
    decreases s.len() - p,
    when 0 <= p <= s.len()
{
    if p >= s.len() {
        p
    } else if radix_digit(s[p], radix) {
        digit_run_end(s, p + 1, radix)
    } else {
        p
    }
}

/// A decimal point at `d1` continues a numeral when a digit or an exponent
/// marker follows it.
pub open spec fn has_frac(s: Seq<char>, d1: int) -> bool {
    d1 < s.len() && s[d1] == '.' && d1 + 1 < s.len() && (is_digit(s[d1 + 1]) || s[d1 + 1] == 'e'
        || s[d1 + 1] == 'E')
}

/// An exponent marker stands at `p2`.
pub open spec fn has_exp(s: Seq<char>, p2: int) -> bool {
    p2 < s.len() && (s[p2] == 'e' || s[p2] == 'E')
}

/// An exponent sign stands just after the marker at `p2`.
pub open spec fn has_exp_sign(s: Seq<char>, p2: int) -> bool {
    p2 + 1 < s.len() && (s[p2 + 1] == '+' || s[p2 + 1] == '-')
}

/// The text of an exponent part whose marker stands at `p2`: the optional
/// sign and the digit run after it.
pub open spec fn exp_tail(s: Seq<char>, p2: int) -> Seq<char>
    recommends
        0 <= p2 < s.len(),
{
    if has_exp_sign(s, p2) {
        seq![s[p2 + 1]] + s.subrange(p2 + 2, digit_run_end(s, p2 + 2, 10))
    } else {
        s.subrange(p2 + 1, digit_run_end(s, p2 + 1, 10))
    }
}

/// The position just past an exponent part whose marker stands at `p2`.
pub open spec fn exp_end(s: Seq<char>, p2: int) -> int
    recommends
        0 <= p2 < s.len(),
{
    if has_exp_sign(s, p2) {
        digit_run_end(s, p2 + 2, 10)
    } else {
        digit_run_end(s, p2 + 1, 10)
    }
}

/// The position just past a decimal numeral's fraction part, or the end of
/// its integer part where no fraction follows.
pub open spec fn num_frac_end(s: Seq<char>, p: int) -> int {
    let d1 = digit_run_end(s, p, 10);
    if has_frac(s, d1) {
        digit_run_end(s, d1 + 1, 10)
    } else {
        d1
    }
}

/// Whether the numeral starting at `p` extends into a float: it grows a
/// fraction or an exponent.
pub open spec fn num_is_float(s: Seq<char>, p: int) -> bool {
    let d1 = digit_run_end(s, p, 10);
    has_frac(s, d1) || has_exp(s, num_frac_end(s, p))
}

/// The text of the decimal numeral starting at `p`, with the exponent marker
/// normalized to `e`.
pub open spec fn num_scan_text(s: Seq<char>, p: int) -> Seq<char> {
    let d1 = digit_run_end(s, p, 10);
    let p2 = num_frac_end(s, p);
    let base = if has_frac(s, d1) {
        s.subrange(p, d1) + seq!['.'] + s.subrange(d1 + 1, p2)
    } else {
        s.subrange(p, d1)
    };
    if has_exp(s, p2) {
        base + seq!['e'] + exp_tail(s, p2)
    } else {
        base
    }
}

/// The position just past the decimal numeral starting at `p`, before any
/// `l`/`L` suffix.
pub open spec fn num_scan_end(s: Seq<char>, p: int) -> int {
    let p2 = num_frac_end(s, p);
    if has_exp(s, p2) {
        exp_end(s, p2)
    } else {
        p2
    }
}

/// The text of the numeral a leading bare `.` at `p` abbreviates: `0.`, the
/// digits after the dot, and any exponent part with its marker normalized to
/// `e`.
pub open spec fn dot_scan_text(s: Seq<char>, p: int) -> Seq<char> {
    let d1 = digit_run_end(s, p + 1, 10);
    let base = seq!['0', '.'] + s.subrange(p + 1, d1);
    if has_exp(s, d1) {
        base + seq!['e'] + exp_tail(s, d1)
    } else {
        base
    }
}

/// The position just past the numeral a leading bare `.` at `p` abbreviates.
pub open spec fn dot_scan_end(s: Seq<char>, p: int) -> int {
    let d1 = digit_run_end(s, p + 1, 10);
    if has_exp(s, d1) {
        exp_end(s, d1)
    } else {
        d1
    }
}

/// A malformed or out-of-range numeral starting at `q`: a `0x` prefix with
/// no hex digits, or a hex, octal or decimal integer beyond the 64-bit
/// signed range, or a float the decimal parser refuses.
pub open spec fn number_lex_err(s: Seq<char>, q: int) -> bool {
    if q + 1 < s.len() && s[q] == '0' && (s[q + 1] == 'x' || s[q + 1] == 'X') {
        let start = adv2(q, s.len() as int);
        let e = digit_run_end(s, start, 16);
        e == start || radix_val(s.subrange(start, e), 16) > i64::MAX
    } else if q + 1 < s.len() && s[q] == '0' && is_digit(s[q + 1]) {
        let e = digit_run_end(s, q, 8);
        radix_val(s.subrange(q, e), 8) > i64::MAX
    } else if num_is_float(s, q) {
        float_of_dec(num_scan_text(s, q)) is None
    } else {
        radix_val(num_scan_text(s, q), 10) > i64::MAX
    }
}

/// A lexical error at the token starting at `q` (which is already past
/// whitespace and comments): a `!` not followed by `=`, an unterminated
/// string literal, a bare `.` without a digit, a bad numeral, or a character
/// no token can start with.
pub open spec fn next_lex_err(s: Seq<char>, q: int) -> bool {
    q < s.len() && {
        let c = s[q];
        if c == '!' {
            !(q + 1 < s.len() && s[q + 1] == '=')
        } else if c == '\'' {
            str_lit_scan(s, q + 1) is None
        } else if c == '.' {
            if q + 1 < s.len() && is_digit(s[q + 1]) {
                float_of_dec(dot_scan_text(s, q)) is None
            } else {
                true
            }
        } else if op_start(c) {
            false
        } else if is_ident_start(c) {
            false
        } else if is_digit(c) {
            number_lex_err(s, q)
        } else {
            true
        }
    }
}

/// The cursor after the token that starts at `q` (`q` already past
/// whitespace and comments, and not a lexical error position).
pub open spec fn token_end(s: Seq<char>, q: int) -> int {
    if q >= s.len() {
        q
    } else {
        let c = s[q];
        if c == '!' {
            q + 2
        } else if c == '<' && q + 1 < s.len() && (s[q + 1] == '>' || s[q + 1] == '=') {
            q + 2
        } else if c == '>' && q + 1 < s.len() && s[q + 1] == '=' {
            q + 2
        } else if c == '\'' {
            match str_lit_scan(s, q + 1) {
                Some(t) => t.1,
                None => q,
            }
        } else if c == '.' {
            dot_scan_end(s, q)
        } else if op_start(c) {
            q + 1
        } else if is_ident_start(c) {
            ident_end(s, q)
        } else if is_digit(c) {
            number_end(s, q)
        } else {
            q
        }
    }
}

/// The cursor after the numeral that starts at `q`, including any `l`/`L`
/// suffix on a plain decimal integer.
pub open spec fn number_end(s: Seq<char>, q: int) -> int {
    if q + 1 < s.len() && s[q] == '0' && (s[q + 1] == 'x' || s[q + 1] == 'X') {
        digit_run_end(s, adv2(q, s.len() as int), 16)
    } else if q + 1 < s.len() && s[q] == '0' && is_digit(s[q + 1]) {
        digit_run_end(s, q, 8)
    } else {
        let e = num_scan_end(s, q);
        if !num_is_float(s, q) && e < s.len() && (s[e] == 'l' || s[e] == 'L') {
            e + 1
        } else {
            e
        }
    }
}

/// The start of the next token never lies before the scan position.
pub proof fn lemma_trivia_end_ge(s: Seq<char>, p: int)
    requires
        0 <= p <= s.len(),
    ensures
        match trivia_end(s, p) {
            Ok(q) => p <= q <= s.len(),
            Err(_) => true,
        },
    decreases s.len() - p,
{
    lemma_ws_end_ge(s, p);
    let q = ws_end(s, p);
    if q + 1 < s.len() && s[q] == '-' && s[q + 1] == '-' {
        lemma_line_end_ge(s, adv2(q, s.len() as int));
        lemma_trivia_end_ge(s, line_end(s, adv2(q, s.len() as int)));
    } else if q + 1 < s.len() && s[q] == '/' && s[q + 1] == '*' {
        lemma_block_end_ge(s, adv2(q, s.len() as int));
        if let Some(b) = block_end(s, adv2(q, s.len() as int)) {
            lemma_trivia_end_ge(s, b);
        }
    }
}

/// Whether the whole text from `p` on lexes without error.
pub open spec fn lex_ok(s: Seq<char>, p: int) -> bool
    decreases s.len() - p,
    when 0 <= p <= s.len()
{
    match trivia_end(s, p) {
        Err(_) => false,
        Ok(q) => if next_lex_err(s, q) {
            false
        } else if q >= s.len() {
            true
        } else {
            let e = token_end(s, q);
            if q < e <= s.len() {
                proof {
                    lemma_trivia_end_ge(s, p);
                }
                lex_ok(s, e)
            } else {
                false
            }
        },
    }
}

/// How many tokens the text from `p` on holds, the closing `Eof` included.
pub open spec fn token_count(s: Seq<char>, p: int) -> int
    decreases s.len() - p,
    when 0 <= p <= s.len()
{
    match trivia_end(s, p) {
        Err(_) => 1,
        Ok(q) => if next_lex_err(s, q) || q >= s.len() {
            1
        } else {
            let e = token_end(s, q);
            if q < e <= s.len() {
                proof {
                    lemma_trivia_end_ge(s, p);
                }
                1 + token_count(s, e)
            } else {
                1
            }
        },
    }
}


/// Whether `t` is the token that starts at `q` (`q` past trivia, and not a
/// lexical error position).
pub open spec fn tok_matches_at(s: Seq<char>, q: int, t: Token) -> bool {
    if q >= s.len() {
        t is Eof
    } else {
        let c = s[q];
        if c == '(' {
            t is LeftParen
        } else if c == ')' {
            t is RightParen
        } else if c == ',' {
            t is Comma
        } else if c == '+' {
            t is Plus
        } else if c == '-' {
            t is Minus
        } else if c == '*' {
            t is Star
        } else if c == '/' {
            t is Slash
        } else if c == '%' {
            t is Percent
        } else if c == '=' {
            t is Equal
        } else if c == '!' {
            t is NotEqual
        } else if c == '<' {
            if q + 1 < s.len() && s[q + 1] == '>' {
                t is NotEqual
            } else if q + 1 < s.len() && s[q + 1] == '=' {
                t is LessOrEqual
            } else {
                t is LessThan
            }
        } else if c == '>' {
            if q + 1 < s.len() && s[q + 1] == '=' {
                t is GreaterOrEqual
            } else {
                t is GreaterThan
            }
        } else if c == '\'' {
            match (str_lit_scan(s, q + 1), t) {
                (Some(lp), Token::StringLiteral(lit)) => lit@ == lp.0,
                _ => false,
            }
        } else if c == '.' {
            t matches Token::FloatLiteral(b) && float_of_dec(dot_scan_text(s, q)) == Some(b)
        } else if is_ident_start(c) {
            let e = ident_end(s, q);
            match keyword_token(s.subrange(q, e)) {
                Some(kt) => t == kt,
                None => t matches Token::Identifier(w) && w@ == s.subrange(q, e),
            }
        } else if is_digit(c) {
            if q + 1 < s.len() && s[q] == '0' && (s[q + 1] == 'x' || s[q + 1] == 'X') {
                let start = adv2(q, s.len() as int);
                t == Token::IntegerLiteral(
                    radix_val(s.subrange(start, digit_run_end(s, start, 16)), 16) as i64,
                )
            } else if q + 1 < s.len() && s[q] == '0' && is_digit(s[q + 1]) {
                t == Token::IntegerLiteral(
                    radix_val(s.subrange(q, digit_run_end(s, q, 8)), 8) as i64,
                )
            } else if num_is_float(s, q) {
                t matches Token::FloatLiteral(b) && float_of_dec(num_scan_text(s, q)) == Some(b)
            } else {
                t == Token::IntegerLiteral(radix_val(num_scan_text(s, q), 10) as i64)
            }
        } else {
            false
        }
    }
}

/// Whether `toks` is exactly the token sequence of the text from `p` on:
/// each token matches at its position, and the sequence ends with the one
/// `Eof` at the end of the text.
pub open spec fn lexed_from(s: Seq<char>, p: int, toks: Seq<Token>) -> bool
    decreases toks.len(),
{
    &&& 0 <= p <= s.len()
    &&& toks.len() > 0
    &&& match trivia_end(s, p) {
        Err(_) => false,
        Ok(q) => if next_lex_err(s, q) {
            false
        } else if q >= s.len() {
            toks.len() == 1 && toks[0] is Eof
        } else {
            &&& tok_matches_at(s, q, toks[0])
            &&& !(toks[0] is Eof)
            &&& lexed_from(s, token_end(s, q), toks.drop_first())
        },
    }
}

proof fn lemma_digit_run_chars(s: Seq<char>, p: int, radix: int)
    requires
        0 <= p <= s.len(),
    ensures
        forall|i: int|
            p <= i < digit_run_end(s, p, radix) ==> #[trigger] radix_digit(s[i], radix),
    decreases s.len() - p,
{
    if p < s.len() && radix_digit(s[p], radix) {
        lemma_digit_run_chars(s, p + 1, radix);
    }
}

proof fn lemma_digit_run_end_ge(s: Seq<char>, p: int, radix: int)
    requires
        0 <= p <= s.len(),
    ensures
        p <= digit_run_end(s, p, radix) <= s.len(),
    decreases s.len() - p,
{
    if p < s.len() && radix_digit(s[p], radix) {
        lemma_digit_run_end_ge(s, p + 1, radix);
    }
}

pub proof fn lemma_ws_end_ge(s: Seq<char>, p: int)
    requires
        0 <= p <= s.len(),
    ensures
        p <= ws_end(s, p) <= s.len(),
    decreases s.len() - p,
{
    if p < s.len() && char_is_space(s[p]) {
        lemma_ws_end_ge(s, p + 1);
    }
}

pub proof fn lemma_line_end_ge(s: Seq<char>, p: int)
    requires
        0 <= p <= s.len(),
    ensures
        p <= line_end(s, p) <= s.len(),
    decreases s.len() - p,
{
    if p < s.len() && s[p] != '\n' {
        lemma_line_end_ge(s, p + 1);
    }
}

pub proof fn lemma_block_end_ge(s: Seq<char>, p: int)
    requires
        0 <= p <= s.len(),
    ensures
        match block_end(s, p) {
            Some(q) => p + 2 <= q <= s.len(),
            None => true,
        },
    decreases s.len() - p,
{
    if p < s.len() && !(s[p] == '*' && p + 1 < s.len() && s[p + 1] == '/') {
        lemma_block_end_ge(s, p + 1);
    }
}

proof fn lemma_ident_end_ge(s: Seq<char>, p: int)
    requires
        0 <= p <= s.len(),
    ensures
        p <= ident_end(s, p) <= s.len(),
    decreases s.len() - p,
{
    if p < s.len() && is_ident_cont(s[p]) {
        lemma_ident_end_ge(s, p + 1);
    }
}

impl Lexer {
    /// Reads a hexadecimal literal; the cursor is on the leading `0` of the
    /// `0x` prefix. The token's value is exactly the value of the hex digits
    /// after the prefix; no digits, or a value over the 64-bit signed range,
    /// is an error.
    pub fn read_hex_literal(&mut self) -> (r: Result<Token, String>)
        requires
            old(self).wf(),
            old(self).pos() < old(self).text().len(),
        ensures
            final(self).text() == old(self).text(),
            final(self).wf(),
            ({
                let start = adv2(old(self).pos(), old(self).text().len() as int);
                let end = digit_run_end(old(self).text(), start, 16);
                let span = old(self).text().subrange(start, end);
                match r {
                    Ok(t) => final(self).pos() > old(self).pos() && final(self).pos() == end && end
                        > start && t == Token::IntegerLiteral(radix_val(span, 16) as i64)
                        && radix_val(span, 16) <= i64::MAX,
                    Err(_) => end == start || radix_val(span, 16) > i64::MAX,
                }
            }),
    {
        self.advance();
        self.advance();
        let ghost start = self.pos();
        let mut digits: Vec<char> = Vec::new();
        proof {
            assert(digits@ =~= self.text().subrange(start, self.pos()));
        }
        loop
            invariant
                self.wf(),
                self.text() == old(self).text(),
                old(self).pos() < self.pos(),
                start <= self.pos(),
                start == adv2(old(self).pos(), old(self).text().len() as int),
                digits_ok(digits@, 16),
                digits@ == self.text().subrange(start, self.pos()),
                digit_run_end(self.text(), self.pos(), 16) == digit_run_end(self.text(), start, 16),
            ensures
                self.wf(),
                self.text() == old(self).text(),
                old(self).pos() < self.pos(),
                start == adv2(old(self).pos(), old(self).text().len() as int),
                digits_ok(digits@, 16),
                digits@ == self.text().subrange(start, self.pos()),
                self.pos() == digit_run_end(self.text(), start, 16),
            decreases self.text().len() - self.pos(),
        {
            match self.current() {
                Some(c) => {
                    if exec_is_hex_digit(c) {
                        proof {
                            assert(radix_digit(c, 16));
                        }
                        digits.push(c);
                        self.advance();
                        proof {
                            assert(digits@ =~= self.text().subrange(start, self.pos()));
                        }
                    } else {
                        break ;
                    }
                },
                None => {
                    break ;
                },
            }
        }
        if digits.len() == 0 {
            return Err(self.format_error("Invalid hexadecimal literal: no digits after 0x"));
        }
        match parse_radix_i64(&digits, 16) {
            Some(v) => Ok(Token::IntegerLiteral(v)),
            None => Err(self.format_error("Invalid hexadecimal literal: out of range")),
        }
    }

    /// Reads an octal literal; the cursor is on its leading `0`. The token's
    /// value is exactly the value of the octal digit run under the cursor; a
    /// value over the 64-bit signed range is an error.
    pub fn read_octal_literal(&mut self) -> (r: Result<Token, String>)
        requires
            old(self).wf(),
            old(self).pos() < old(self).text().len(),
            is_octal_digit(old(self).text()[old(self).pos()]),
        ensures
            final(self).text() == old(self).text(),
            final(self).wf(),
            ({
                let start = old(self).pos();
                let end = digit_run_end(old(self).text(), start, 8);
                let span = old(self).text().subrange(start, end);
                match r {
                    Ok(t) => final(self).pos() == end && end > start && t == Token::IntegerLiteral(
                        radix_val(span, 8) as i64,
                    ) && radix_val(span, 8) <= i64::MAX,
                    Err(_) => radix_val(span, 8) > i64::MAX,
                }
            }),
    {
        let ghost start = self.pos();
        let mut digits: Vec<char> = Vec::new();
        proof {
            assert(digits@ =~= self.text().subrange(start, self.pos()));
        }
        loop
            invariant
                self.wf(),
                self.text() == old(self).text(),
                start == old(self).pos(),
                start <= self.pos(),
                digits_ok(digits@, 8),
                digits@ == self.text().subrange(start, self.pos()),
                digit_run_end(self.text(), self.pos(), 8) == digit_run_end(self.text(), start, 8),
            ensures
                self.wf(),
                self.text() == old(self).text(),
                start == old(self).pos(),
                start <= self.pos(),
                digits_ok(digits@, 8),
                digits@ == self.text().subrange(start, self.pos()),
                self.pos() == digit_run_end(self.text(), start, 8),
            decreases self.text().len() - self.pos(),
        {
            match self.current() {
                Some(c) => {
                    if exec_is_octal_digit(c) {
                        proof {
                            assert(radix_digit(c, 8));
                        }
                        digits.push(c);
                        self.advance();
                        proof {
                            assert(digits@ =~= self.text().subrange(start, self.pos()));
                        }
                    } else {
                        break ;
                    }
                },
                None => {
                    break ;
                },
            }
        }
        proof {
            assert(radix_digit(old(self).text()[start], 8));
            lemma_digit_run_end_ge(old(self).text(), start + 1, 8);
            assert(digit_run_end(old(self).text(), start, 8) == digit_run_end(
                old(self).text(),
                start + 1,
                8,
            ));
        }
        if digits.len() == 0 {
            return Err(self.format_error("Invalid octal literal: no digits"));
        }
        match parse_radix_i64(&digits, 8) {
            Some(v) => Ok(Token::IntegerLiteral(v)),
            None => Err(self.format_error("Invalid octal literal: out of range")),
        }
    }

    /// Reads the decimal digits under the cursor into `num`.
    /// Reads the digit run under the cursor into `num`.
    fn read_digits_into(&mut self, num: &mut Vec<char>)
        requires
            old(self).wf(),
        ensures
            final(self).text() == old(self).text(),
            final(self).wf(),
            final(self).pos() == digit_run_end(old(self).text(), old(self).pos(), 10),
            final(num)@ == old(num)@ + old(self).text().subrange(
                old(self).pos(),
                final(self).pos(),
            ),
            digits_ok(old(num)@, 10) ==> digits_ok(final(num)@, 10),
    {
        proof {
            assert(num@ =~= old(num)@ + old(self).text().subrange(old(self).pos(), self.pos()));
        }
        loop
            invariant
                self.wf(),
                self.text() == old(self).text(),
                old(self).pos() <= self.pos(),
                num@ == old(num)@ + old(self).text().subrange(old(self).pos(), self.pos()),
                digits_ok(old(num)@, 10) ==> digits_ok(num@, 10),
                digit_run_end(self.text(), self.pos(), 10) == digit_run_end(
                    old(self).text(),
                    old(self).pos(),
                    10,
                ),
            decreases self.text().len() - self.pos(),
        {
            match self.current() {
                Some(c) => {
                    if exec_is_digit(c) {
                        proof {
                            assert(radix_digit(c, 10));
                            assert(forall|j: int|
                                0 <= j < num@.len() + 1 ==> #[trigger] radix_digit(
                                    num@.push(c)[j],
                                    10,
                                ) == (if j < num@.len() {
                                    radix_digit(num@[j], 10)
                                } else {
                                    radix_digit(c, 10)
                                }));
                        }
                        num.push(c);
                        self.advance();
                        proof {
                            assert(num@ =~= old(num)@ + old(self).text().subrange(
                                old(self).pos(),
                                self.pos(),
                            ));
                        }
                    } else {
                        return ;
                    }
                },
                None => {
                    return ;
                },
            }
        }
    }

    /// Reads a numeric literal: decimal, hexadecimal, octal, or float, with
    /// an optional `l`/`L` suffix on a plain integer. A plain decimal
    /// numeral's token carries exactly the scanned text's value: the digits'
    /// integer value, or the IEEE binary64 value of the scanned numeral.
    #[verifier::rlimit(30)]
    pub fn read_number(&mut self) -> (r: Result<Token, String>)
        requires
            old(self).wf(),
            old(self).pos() < old(self).text().len(),
            is_digit(old(self).text()[old(self).pos()]),
        ensures
            final(self).text() == old(self).text(),
            final(self).wf(),
            match r {
                Ok(t) => final(self).pos() > old(self).pos() && (t is IntegerLiteral
                    || t is FloatLiteral),
                Err(_) => true,
            },
            ({
                let s = old(self).text();
                let p = old(self).pos();
                let hex = p + 1 < s.len() && s[p] == '0' && (s[p + 1] == 'x' || s[p + 1] == 'X');
                hex ==> ({
                    let start = adv2(p, s.len() as int);
                    let end = digit_run_end(s, start, 16);
                    let span = s.subrange(start, end);
                    match r {
                        Ok(t) => final(self).pos() == end && end > start && t
                            == Token::IntegerLiteral(radix_val(span, 16) as i64) && radix_val(
                            span,
                            16,
                        ) <= i64::MAX,
                        Err(_) => end == start || radix_val(span, 16) > i64::MAX,
                    }
                })
            }),
            ({
                let s = old(self).text();
                let p = old(self).pos();
                let hex = p + 1 < s.len() && s[p] == '0' && (s[p + 1] == 'x' || s[p + 1] == 'X');
                let oct = p + 1 < s.len() && s[p] == '0' && is_digit(s[p + 1]);
                !hex && oct ==> ({
                    let end = digit_run_end(s, p, 8);
                    let span = s.subrange(p, end);
                    match r {
                        Ok(t) => final(self).pos() == end && end > p && t == Token::IntegerLiteral(
                            radix_val(span, 8) as i64,
                        ) && radix_val(span, 8) <= i64::MAX,
                        Err(_) => radix_val(span, 8) > i64::MAX,
                    }
                })
            }),
            ({
                let s = old(self).text();
                let p = old(self).pos();
                let hex = p + 1 < s.len() && s[p] == '0' && (s[p + 1] == 'x' || s[p + 1] == 'X');
                let oct = p + 1 < s.len() && s[p] == '0' && is_digit(s[p + 1]);
                !hex && !oct ==> ({
                    let txt = num_scan_text(s, p);
                    let isf = num_is_float(s, p);
                    let end = num_scan_end(s, p);
                    let lsuf = !isf && end < s.len() && (s[end] == 'l' || s[end] == 'L');
                    match r {
                        Ok(t) => {
                            &&& final(self).pos() == (if lsuf {
                                end + 1
                            } else {
                                end
                            })
                            &&& (isf ==> float_of_dec(txt) is Some && t == Token::FloatLiteral(
                                float_of_dec(txt)->Some_0,
                            ))
                            &&& (!isf ==> radix_val(txt, 10) <= i64::MAX && t
                                == Token::IntegerLiteral(radix_val(txt, 10) as i64))
                        },
                        Err(_) => (isf && float_of_dec(txt) is None) || (!isf && radix_val(txt, 10)
                            > i64::MAX),
                    }
                })
            }),
    {
        let ghost s = old(self).text();
        let ghost p = old(self).pos();
        match (self.current(), self.peek()) {
            (Some('0'), Some('x')) => {
                return self.read_hex_literal();
            },
            (Some('0'), Some('X')) => {
                return self.read_hex_literal();
            },
            _ => {},
        }
        match (self.current(), self.peek()) {
            (Some('0'), Some(c2)) => {
                if exec_is_digit(c2) {
                    return self.read_octal_literal();
                }
            },
            _ => {},
        }
        let mut num: Vec<char> = Vec::new();
        let mut is_float = false;
        proof {
            assert(digits_ok(num@, 10));
        }
        proof {
            lemma_digit_run_end_ge(self.text(), self.pos(), 10);
        }
        self.read_digits_into(&mut num);
        let ghost d1 = digit_run_end(s, p, 10);
        proof {
            assert(num@ =~= s.subrange(p, d1));
            assert(radix_digit(s[p], 10));
            lemma_digit_run_end_ge(s, p + 1, 10);
            assert(d1 == digit_run_end(s, p + 1, 10));
        }
        // a decimal point extends this into a float when a digit or an
        // exponent marker follows it
        match (self.current(), self.peek()) {
            (Some('.'), Some(c2)) => {
                if exec_is_digit(c2) || c2 == 'e' || c2 == 'E' {
                    is_float = true;
                    num.push('.');
                    self.advance();
                    proof {
                        lemma_digit_run_end_ge(self.text(), self.pos(), 10);
                    }
                    self.read_digits_into(&mut num);
                    proof {
                        assert(num@ =~= s.subrange(p, d1) + seq!['.'] + s.subrange(
                            d1 + 1,
                            num_frac_end(s, p),
                        ));
                    }
                }
            },
            _ => {},
        }
        let ghost p2 = num_frac_end(s, p);
        let ghost base = (if has_frac(s, d1) {
            s.subrange(p, d1) + seq!['.'] + s.subrange(d1 + 1, p2)
        } else {
            s.subrange(p, d1)
        });
        proof {
            assert(self.pos() == p2);
            assert(num@ == base);
            assert(is_float == has_frac(s, d1));
        }
        // exponent part
        match self.current() {
            Some(c) => {
                if c == 'e' || c == 'E' {
                    is_float = true;
                    num.push('e');
                    self.advance();
                    match self.current() {
                        Some(sgn) => {
                            if sgn == '+' || sgn == '-' {
                                num.push(sgn);
                                self.advance();
                            }
                        },
                        None => {},
                    }
                    proof {
                        lemma_digit_run_end_ge(self.text(), self.pos(), 10);
                    }
                    self.read_digits_into(&mut num);
                    proof {
                        assert(num@ =~= base + seq!['e'] + exp_tail(s, p2));
                        assert(self.pos() == exp_end(s, p2));
                    }
                }
            },
            None => {},
        }
        proof {
            assert(num@ == num_scan_text(s, p));
            assert(self.pos() == num_scan_end(s, p));
            assert(is_float == num_is_float(s, p));
            if !is_float {
                lemma_digit_run_chars(s, p, 10);
                assert forall|j: int| 0 <= j < num@.len() implies #[trigger] radix_digit(
                    num@[j],
                    10,
                ) by {
                    assert(num@[j] == s[p + j]);
                    assert(radix_digit(s[p + j], 10));
                }
            }
        }
        // long suffix: accepted and treated as a plain integer
        if !is_float {
            match self.current() {
                Some(c) => {
                    if c == 'l' || c == 'L' {
                        self.advance();
                        return match parse_radix_i64(&num, 10) {
                            Some(v) => Ok(Token::IntegerLiteral(v)),
                            None => Err(self.format_error("Invalid integer literal: out of range")),
                        };
                    }
                },
                None => {},
            }
        }
        if is_float {
            let lit = chars_to_string(&num);
            match f64_from_dec(lit.as_str()) {
                Some(bits) => Ok(Token::FloatLiteral(bits)),
                None => Err(self.format_error("Invalid float literal")),
            }
        } else {
            match parse_radix_i64(&num, 10) {
                Some(v) => Ok(Token::IntegerLiteral(v)),
                None => Err(self.format_error("Invalid integer literal: out of range")),
            }
        }
    }

    /// Reads a float literal written with a leading bare `.`, shorthand for
    /// `0.<digits>`.
    pub fn read_float_starting_with_dot(&mut self) -> (r: Result<Token, String>)
        requires
            old(self).wf(),
            old(self).pos() < old(self).text().len(),
        ensures
            final(self).text() == old(self).text(),
            final(self).wf(),
            match r {
                Ok(t) => final(self).pos() > old(self).pos() && t is FloatLiteral,
                Err(_) => true,
            },
            ({
                let s = old(self).text();
                let p = old(self).pos();
                let txt = dot_scan_text(s, p);
                match r {
                    Ok(t) => final(self).pos() == dot_scan_end(s, p) && float_of_dec(txt) is Some
                        && t == Token::FloatLiteral(float_of_dec(txt)->Some_0),
                    Err(_) => float_of_dec(txt) is None,
                }
            }),
    {
        let ghost s = old(self).text();
        let ghost p = old(self).pos();
        let mut num: Vec<char> = Vec::new();
        num.push('0');
        num.push('.');
        self.advance();
        proof {
            lemma_digit_run_end_ge(self.text(), self.pos(), 10);
        }
        self.read_digits_into(&mut num);
        let ghost d1 = digit_run_end(s, p + 1, 10);
        let ghost base = seq!['0', '.'] + s.subrange(p + 1, d1);
        proof {
            assert(num@ =~= base);
            assert(self.pos() == d1);
        }
        match self.current() {
            Some(c) => {
                if c == 'e' || c == 'E' {
                    num.push('e');
                    self.advance();
                    match self.current() {
                        Some(sgn) => {
                            if sgn == '+' || sgn == '-' {
                                num.push(sgn);
                                self.advance();
                            }
                        },
                        None => {},
                    }
                    proof {
                        lemma_digit_run_end_ge(self.text(), self.pos(), 10);
                    }
                    self.read_digits_into(&mut num);
                    proof {
                        assert(num@ =~= base + seq!['e'] + exp_tail(s, d1));
                        assert(self.pos() == exp_end(s, d1));
                    }
                }
            },
            None => {},
        }
        proof {
            assert(num@ == dot_scan_text(s, p));
            assert(self.pos() == dot_scan_end(s, p));
        }
        let lit = chars_to_string(&num);
        match f64_from_dec(lit.as_str()) {
            Some(bits) => Ok(Token::FloatLiteral(bits)),
            None => Err(self.format_error("Invalid float literal")),
        }
    }

    /// Produces the next token, skipping whitespace and comments. At the end
    /// of the input it yields `Eof`.
    pub fn next_token(&mut self) -> (r: Result<Token, String>)
        requires
            old(self).wf(),
        ensures
            final(self).text() == old(self).text(),
            final(self).wf(),
            match r {
                Ok(t) => (t is Eof ==> final(self).pos() == old(self).text().len()) && (!(t
                    is Eof) ==> final(self).pos() > old(self).pos()),
                Err(_) => true,
            },
            ({
                let s = old(self).text();
                match (trivia_end(s, old(self).pos()), r) {
                    (Ok(q), Ok(t)) => {
                        &&& !next_lex_err(s, q)
                        &&& tok_matches_at(s, q, t)
                        &&& (q >= s.len() ==> t == Token::Eof)
                        &&& (q < s.len() ==> final(self).pos() == token_end(s, q)
                            && final(self).pos() > q)
                        &&& (q < s.len() && s[q] == '(' ==> t == Token::LeftParen
                            && final(self).pos() == q + 1)
                        &&& (q < s.len() && s[q] == ')' ==> t == Token::RightParen
                            && final(self).pos() == q + 1)
                        &&& (q < s.len() && s[q] == ',' ==> t == Token::Comma && final(self).pos()
                            == q + 1)
                        &&& (q < s.len() && s[q] == '+' ==> t == Token::Plus && final(self).pos()
                            == q + 1)
                        &&& (q < s.len() && s[q] == '-' ==> t == Token::Minus && final(self).pos()
                            == q + 1)
                        &&& (q < s.len() && s[q] == '*' ==> t == Token::Star && final(self).pos()
                            == q + 1)
                        &&& (q < s.len() && s[q] == '/' ==> t == Token::Slash && final(self).pos()
                            == q + 1)
                        &&& (q < s.len() && s[q] == '%' ==> t == Token::Percent && final(self).pos()
                            == q + 1)
                        &&& (q < s.len() && s[q] == '=' ==> t == Token::Equal && final(self).pos()
                            == q + 1)
                        &&& (q < s.len() && s[q] == '!' ==> t == Token::NotEqual
                            && final(self).pos() == q + 2)
                        &&& (q < s.len() && s[q] == '<' ==> (if q + 1 < s.len() && s[q + 1] == '>' {
                            t == Token::NotEqual && final(self).pos() == q + 2
                        } else if q + 1 < s.len() && s[q + 1] == '=' {
                            t == Token::LessOrEqual && final(self).pos() == q + 2
                        } else {
                            t == Token::LessThan && final(self).pos() == q + 1
                        }))
                        &&& (q < s.len() && s[q] == '>' ==> (if q + 1 < s.len() && s[q + 1] == '=' {
                            t == Token::GreaterOrEqual && final(self).pos() == q + 2
                        } else {
                            t == Token::GreaterThan && final(self).pos() == q + 1
                        }))
                        &&& (q < s.len() && s[q] == '.' ==> (t matches Token::FloatLiteral(b)
                            && q + 1 < s.len() && is_digit(s[q + 1]) && float_of_dec(
                            dot_scan_text(s, q),
                        ) == Some(b)))
                        &&& (q + 1 < s.len() && s[q] == '0' && (s[q + 1] == 'x' || s[q + 1] == 'X')
                            ==> ({
                            let hstart = adv2(q, s.len() as int);
                            let hspan = s.subrange(hstart, digit_run_end(s, hstart, 16));
                            t == Token::IntegerLiteral(radix_val(hspan, 16) as i64)
                        }))
                        &&& (q + 1 < s.len() && s[q] == '0' && !(s[q + 1] == 'x' || s[q + 1]
                            == 'X') && is_digit(s[q + 1]) ==> ({
                            let ospan = s.subrange(q, digit_run_end(s, q, 8));
                            t == Token::IntegerLiteral(radix_val(ospan, 8) as i64)
                        }))
                        &&& (q < s.len() && s[q] == '\'' ==> (t matches Token::StringLiteral(
                            lit,
                        ) && str_lit_scan(s, q + 1) == Some((lit@, final(self).pos()))))
                        &&& (q < s.len() && !op_start(s[q]) && is_ident_start(s[q]) ==> ({
                            let e = ident_end(s, q);
                            &&& final(self).pos() == e
                            &&& (match keyword_token(s.subrange(q, e)) {
                                Some(kt) => t == kt,
                                None => t matches Token::Identifier(w) && w@ == s.subrange(q, e),
                            })
                        }))
                        &&& (q < s.len() && !op_start(s[q]) && !is_ident_start(s[q]) && is_digit(
                            s[q],
                        ) && !(q + 1 < s.len() && s[q] == '0' && (s[q + 1] == 'x' || s[q + 1]
                            == 'X')) && !(q + 1 < s.len() && s[q] == '0' && is_digit(s[q + 1]))
                            ==> ({
                            let txt = num_scan_text(s, q);
                            &&& (num_is_float(s, q) ==> (t matches Token::FloatLiteral(b)
                                && float_of_dec(txt) == Some(b)))
                            &&& (!num_is_float(s, q) ==> t == Token::IntegerLiteral(
                                radix_val(txt, 10) as i64,
                            ) && radix_val(txt, 10) <= i64::MAX)
                        }))
                    },
                    (Ok(q), Err(_)) => next_lex_err(s, q),
                    (Err(_), Ok(t)) => false,
                    (Err(_), Err(_)) => true,
                }
            }),
    {
        loop
            invariant
                self.wf(),
                self.text() == old(self).text(),
                old(self).pos() <= self.pos(),
                trivia_end(old(self).text(), old(self).pos()) == trivia_end(
                    old(self).text(),
                    self.pos(),
                ),
            decreases self.text().len() - self.pos(),
        {
            proof {
                lemma_ws_end_ge(self.text(), self.pos());
            }
            self.skip_whitespace();
            let c = match self.current() {
                Some(c) => c,
                None => {
                    return Ok(Token::Eof);
                },
            };
            // comments restart the scan
            if c == '-' {
                match self.peek() {
                    Some('-') => {
                        proof {
                            lemma_line_end_ge(
                                self.text(),
                                adv2(self.pos(), self.text().len() as int),
                            );
                        }
                        self.skip_line_comment();
                        continue ;
                    },
                    _ => {},
                }
            }
            if c == '/' {
                match self.peek() {
                    Some('*') => {
                        proof {
                            lemma_block_end_ge(
                                self.text(),
                                adv2(self.pos(), self.text().len() as int),
                            );
                        }
                        match self.skip_block_comment() {
                            Ok(()) => {
                                continue ;
                            },
                            Err(e) => {
                                return Err(e);
                            },
                        }
                    },
                    _ => {},
                }
            }
            match c {
                '(' => {
                    self.advance();
                    return Ok(Token::LeftParen);
                },
                ')' => {
                    self.advance();
                    return Ok(Token::RightParen);
                },
                ',' => {
                    self.advance();
                    return Ok(Token::Comma);
                },
                '+' => {
                    self.advance();
                    return Ok(Token::Plus);
                },
                '-' => {
                    self.advance();
                    return Ok(Token::Minus);
                },
                '*' => {
                    self.advance();
                    return Ok(Token::Star);
                },
                '/' => {
                    self.advance();
                    return Ok(Token::Slash);
                },
                '%' => {
                    self.advance();
                    return Ok(Token::Percent);
                },
                '=' => {
                    self.advance();
                    return Ok(Token::Equal);
                },
                '!' => {
                    match self.peek() {
                        Some('=') => {
                            self.advance();
                            self.advance();
                            return Ok(Token::NotEqual);
                        },
                        _ => {
                            return Err(self.unexpected_char(c));
                        },
                    }
                },
                '<' => {
                    self.advance();
                    match self.current() {
                        Some('>') => {
                            self.advance();
                            return Ok(Token::NotEqual);
                        },
                        Some('=') => {
                            self.advance();
                            return Ok(Token::LessOrEqual);
                        },
                        _ => {
                            return Ok(Token::LessThan);
                        },
                    }
                },
                '>' => {
                    self.advance();
                    match self.current() {
                        Some('=') => {
                            self.advance();
                            return Ok(Token::GreaterOrEqual);
                        },
                        _ => {
                            return Ok(Token::GreaterThan);
                        },
                    }
                },
                '\'' => {
                    return match self.read_string_literal() {
                        Ok(s) => Ok(Token::StringLiteral(s)),
                        Err(e) => Err(e),
                    };
                },
                '.' => {
                    match self.peek() {
                        Some(c2) => {
                            if exec_is_digit(c2) {
                                return self.read_float_starting_with_dot();
                            }
                        },
                        None => {},
                    }
                    return Err(self.unexpected_char(c));
                },
                _ => {
                    if exec_char_is_alpha(c) || c == '_' || c == '$' {
                        proof {
                            assert(is_ident_cont(self.text()[self.pos()]));
                            lemma_ident_end_ge(self.text(), self.pos() + 1);
                            assert(ident_end(self.text(), self.pos()) == ident_end(
                                self.text(),
                                self.pos() + 1,
                            ));
                        }
                        let w = self.read_identifier();
                        return Ok(self.keyword_or_identifier(w));
                    }
                    if exec_is_digit(c) {
                        return self.read_number();
                    }
                    return Err(self.unexpected_char(c));
                },
            }
        }
    }

    /// A diagnostic for a character no token can start with.
    fn unexpected_char(&self, c: char) -> (r: String) {
        let mut m = String::from_str("Unexpected character: '");
        let cs = crate::strutil::char_string(c);
        m.append(cs.as_str());
        m.append("'");
        self.format_error(m.as_str())
    }

    /// Tokenizes the whole input: it succeeds exactly when the text lexes
    /// without error, the resulting sequence has exactly one token per
    /// `token_count` step of the text, and it ends with a single `Eof`.
    pub fn tokenize(&mut self) -> (r: Result<Vec<Token>, String>)
        requires
            old(self).wf(),
        ensures
            final(self).wf(),
            match r {
                Ok(ts) => lex_ok(old(self).text(), old(self).pos()) && lexed_from(
                    old(self).text(),
                    old(self).pos(),
                    ts@,
                ) && ts@.len() == token_count(old(self).text(), old(self).pos()) && ts@.len() >= 1
                    && ts@.last() is Eof && (forall|i: int|
                    0 <= i < ts@.len() - 1 ==> !(#[trigger] ts@[i] is Eof)),
                Err(_) => !lex_ok(old(self).text(), old(self).pos()),
            },
    {
        let ghost s0 = old(self).text();
        let ghost p0 = old(self).pos();
        let mut tokens: Vec<Token> = Vec::new();
        proof {
            assert forall|rest: Seq<Token>| #[trigger] lexed_from(s0, self.pos(), rest) implies lexed_from(
                s0,
                p0,
                tokens@ + rest,
            ) by {
                assert(tokens@ + rest =~= rest);
            }
        }
        loop
            invariant
                self.wf(),
                self.text() == old(self).text(),
                s0 == old(self).text(),
                p0 == old(self).pos(),
                forall|i: int| 0 <= i < tokens@.len() ==> !(#[trigger] tokens@[i] is Eof),
                lex_ok(old(self).text(), old(self).pos()) == lex_ok(self.text(), self.pos()),
                lex_ok(self.text(), self.pos()) ==> token_count(old(self).text(), old(self).pos())
                    == tokens@.len() + token_count(self.text(), self.pos()),
                forall|rest: Seq<Token>| #[trigger] lexed_from(s0, self.pos(), rest)
                    ==> lexed_from(s0, p0, tokens@ + rest),
            decreases self.text().len() - self.pos() + 1,
        {
            let ghost pos_it = self.pos();
            let ghost toks_it = tokens@;
            let t = self.next_token()?;
            let ghost tv = t;
            match t {
                Token::Eof => {
                    tokens.push(Token::Eof);
                    proof {
                        assert(lexed_from(s0, pos_it, seq![Token::Eof]));
                        assert(toks_it + seq![Token::Eof] =~= tokens@);
                        assert(lexed_from(s0, p0, tokens@));
                    }
                    return Ok(tokens);
                },
                _ => {
                    tokens.push(t);
                    proof {
                        assert forall|rest: Seq<Token>| #[trigger] lexed_from(
                            s0,
                            self.pos(),
                            rest,
                        ) implies lexed_from(s0, p0, tokens@ + rest) by {
                            assert((seq![tv] + rest)[0] == tv);
                            assert((seq![tv] + rest).drop_first() =~= rest);
                            assert(lexed_from(s0, pos_it, seq![tv] + rest));
                            assert(toks_it + (seq![tv] + rest) =~= tokens@ + rest);
                        }
                    }
                },
            }
        }
    }
}

} // verus!
